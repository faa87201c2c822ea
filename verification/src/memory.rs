//! The memory of the virtual machine: which parts of which files are mapped
//! where.
use vstd::prelude::*;

verus! {

/// `size` bytes of the file `fd`, from `offset` on, at the guest address
/// `addr`.
#[derive(Clone, Copy, Debug)]
pub struct MemoryRegion {
    pub size: u64,
    pub addr: u64,
    pub offset: u64,
    pub fd: i32,
}

/// Why memory cannot be laid out.
#[derive(Clone, Copy, Debug, PartialEq, Eq, Structural)]
pub enum MemoryError {
    /// A size that is not a whole number of pages.
    MemoryNotAligned,
}

/// The bytes that the first `n` ranges take.
pub open spec fn bytes_before(ranges: Seq<(u64, u64)>, n: int) -> int
    decreases n,
{
    if n <= 0 {
        0
    } else {
        bytes_before(ranges, n - 1) + ranges[n - 1].1
    }
}

/// Whether every range is a whole number of pages.
pub open spec fn aligned(ranges: Seq<(u64, u64)>, page_size: u64) -> bool {
    forall|i: int| 0 <= i < ranges.len() ==> (#[trigger] ranges[i]).1 % page_size == 0
}

/// The regions of the file `fd` that lie one after the other in the file, at
/// the addresses of the ranges.
pub open spec fn layout(ranges: Seq<(u64, u64)>, fd: i32) -> Seq<MemoryRegion> {
    Seq::new(
        ranges.len(),
        |i: int|
            MemoryRegion {
                size: ranges[i].1,
                addr: ranges[i].0,
                offset: bytes_before(ranges, i) as u64,
                fd,
            },
    )
}

proof fn lemma_bytes_grow(ranges: Seq<(u64, u64)>, i: int, n: int)
    requires
        0 <= i <= n <= ranges.len(),
    ensures
        0 <= bytes_before(ranges, i) <= bytes_before(ranges, n),
    decreases n,
{
    if i < n {
        lemma_bytes_grow(ranges, i, n - 1);
    } else if n > 0 {
        lemma_bytes_grow(ranges, n - 1, n - 1);
    }
}

/// The regions of a layout do not overlap in the file: each ends before the
/// next begins.
pub proof fn lemma_layout_does_not_overlap(ranges: Seq<(u64, u64)>, fd: i32, i: int, j: int)
    requires
        0 <= i < j < ranges.len(),
        bytes_before(ranges, ranges.len() as int) <= u64::MAX,
    ensures
        layout(ranges, fd)[i].offset + layout(ranges, fd)[i].size <= layout(ranges, fd)[j].offset,
{
    lemma_bytes_grow(ranges, i + 1, j);
    lemma_bytes_grow(ranges, i, ranges.len() as int);
    lemma_bytes_grow(ranges, j, ranges.len() as int);
}

/// A layout has one region for each range, at its address and of its size, all
/// in the same file. The first starts at the beginning of the file and each
/// other where the one before ends.
pub proof fn lemma_layout_follows_the_ranges(ranges: Seq<(u64, u64)>, fd: i32, i: int)
    requires
        0 <= i < ranges.len(),
        bytes_before(ranges, ranges.len() as int) <= u64::MAX,
    ensures
        layout(ranges, fd).len() == ranges.len(),
        layout(ranges, fd)[i].addr == ranges[i].0,
        layout(ranges, fd)[i].size == ranges[i].1,
        layout(ranges, fd)[i].fd == fd,
        layout(ranges, fd)[0].offset == 0,
        i > 0 ==> layout(ranges, fd)[i].offset == layout(ranges, fd)[i - 1].offset + layout(
            ranges,
            fd,
        )[i - 1].size,
{
    lemma_bytes_grow(ranges, i, ranges.len() as int);
    if i > 0 {
        lemma_bytes_grow(ranges, i - 1, ranges.len() as int);
    }
}

/// Ranges can be laid out exactly if every one of them, the first and the last
/// included, is a whole number of pages: one that is not spoils the rest.
pub proof fn lemma_one_range_spoils_the_rest(
    before: Seq<(u64, u64)>,
    range: (u64, u64),
    behind: Seq<(u64, u64)>,
    page_size: u64,
)
    requires
        page_size > 0,
    ensures
        aligned(before + seq![range] + behind, page_size) <==> aligned(before, page_size) && range.1
            % page_size == 0 && aligned(behind, page_size),
        aligned(Seq::empty(), page_size),
{
    let all = before + seq![range] + behind;
    let n = before.len() as int;
    if aligned(all, page_size) {
        assert(all[n].1 % page_size == 0);
        assert forall|i: int| 0 <= i < n implies (#[trigger] before[i]).1 % page_size == 0 by {
            assert(all[i] == before[i]);
        }
        assert forall|i: int| 0 <= i < behind.len() implies (#[trigger] behind[i]).1 % page_size
            == 0 by {
            assert(all[n + 1 + i] == behind[i]);
        }
    }
    if aligned(before, page_size) && range.1 % page_size == 0 && aligned(behind, page_size) {
        assert forall|i: int| 0 <= i < all.len() implies (#[trigger] all[i]).1 % page_size == 0 by {
            if i < n {
                assert(all[i] == before[i]);
            } else if i > n {
                assert(all[i] == behind[i - n - 1]);
            }
        }
    }
}

/// Lays out the ranges, each an address and a size, one after the other in the
/// file `fd`.
pub fn new_from_rawfd(ranges: &Vec<(u64, u64)>, fd: i32, page_size: u64) -> (r: Result<
    Vec<MemoryRegion>,
    MemoryError,
>)
    requires
        page_size > 0,
        bytes_before(ranges@, ranges@.len() as int) <= u64::MAX,
    ensures
        match r {
            Ok(regions) => aligned(ranges@, page_size) && regions@ == layout(ranges@, fd),
            Err(e) => !aligned(ranges@, page_size) && e == MemoryError::MemoryNotAligned,
        },
{
    let mut regions: Vec<MemoryRegion> = Vec::new();
    let mut offset: u64 = 0;
    let mut i: usize = 0;
    while i < ranges.len()
        invariant
            i <= ranges@.len(),
            page_size > 0,
            bytes_before(ranges@, ranges@.len() as int) <= u64::MAX,
            offset == bytes_before(ranges@, i as int),
            forall|j: int| 0 <= j < i ==> (#[trigger] ranges@[j]).1 % page_size == 0,
            regions@ == layout(ranges@, fd).take(i as int),
        decreases ranges@.len() - i,
    {
        let (addr, size) = ranges[i];
        if size % page_size != 0 {
            assert(ranges@[i as int].1 % page_size != 0);
            return Err(MemoryError::MemoryNotAligned);
        }
        proof {
            lemma_bytes_grow(ranges@, i + 1, ranges@.len() as int);
        }
        regions.push(MemoryRegion { size, addr, offset, fd });
        offset = offset + size;
        i += 1;
        assert(regions@ =~= layout(ranges@, fd).take(i as int));
    }
    assert(layout(ranges@, fd).take(i as int) =~= layout(ranges@, fd));
    Ok(regions)
}

/// The region that maps the whole of the range, an address and a size, from
/// the start of the file `fd`, if it is a whole number of pages.
pub open spec fn whole_region(range: (u64, u64), fd: i32, page_size: u64) -> Option<MemoryRegion> {
    if range.1 % page_size == 0 {
        Some(MemoryRegion { size: range.1, addr: range.0, offset: 0, fd })
    } else {
        None
    }
}

/// A range makes a region exactly if it is a whole number of pages, and the
/// region is all of it, from the start of its file.
pub proof fn lemma_whole_region_is_the_range(range: (u64, u64), fd: i32, page_size: u64)
    requires
        page_size > 0,
    ensures
        whole_region(range, fd, page_size) is Some <==> range.1 % page_size == 0,
        whole_region(range, fd, page_size) matches Some(r) ==> r.addr == range.0 && r.size
            == range.1 && r.offset == 0 && r.fd == fd,
{
}

/// Puts the region that maps the range, an address and a size, from the start
/// of the file `fd` at the end of `mem_ranges`.
pub fn create_vm_mem_region(
    range: (u64, u64),
    fd: i32,
    page_size: u64,
    mem_ranges: &mut Vec<MemoryRegion>,
) -> (r: Result<(), MemoryError>)
    requires
        page_size > 0,
    ensures
        match whole_region(range, fd, page_size) {
            Some(region) => r is Ok && final(mem_ranges)@ == old(mem_ranges)@.push(region),
            None => r == Err::<(), _>(MemoryError::MemoryNotAligned) && final(mem_ranges)@ == old(
                mem_ranges,
            )@,
        },
{
    if range.1 % page_size != 0 {
        return Err(MemoryError::MemoryNotAligned);
    }
    mem_ranges.push(MemoryRegion { size: range.1, addr: range.0, offset: 0, fd });
    Ok(())
}

} // verus!
