//! Disks.
use vstd::prelude::*;

use crate::argument;
use crate::argument::{Error, Optioned, Words};
use crate::config::BackendConfig;
use crate::creation;
use crate::creation::{Build, Buildable, Creation, DiskLock, DiskSource, Job};
use crate::device;
use crate::device::{Common, VirtioDevice};
use crate::number;
use crate::text;

verus! {

/// How a disk is used.
#[derive(Debug)]
pub struct DiskOption {
    pub path: String,
    pub read_only: bool,
    /// Whether the page cache is bypassed.
    pub o_direct: bool,
    pub sparse: bool,
    pub block_size: u32,
}

/// A disk.
#[derive(Debug)]
pub struct VirtioDisk {
    pub common: Common,
    pub disk: DiskOption,
}

/// `VirtioDisk` with its texts and lists as sequences.
pub struct Disk {
    pub common: device::Part,
    pub path: Seq<char>,
    pub read_only: bool,
    pub o_direct: bool,
    pub sparse: bool,
    pub block_size: u32,
}

impl View for VirtioDisk {
    type V = Disk;

    open spec fn view(&self) -> Disk {
        Disk {
            common: self.common@,
            path: self.disk.path@,
            read_only: self.disk.read_only,
            o_direct: self.disk.o_direct,
            sparse: self.disk.sparse,
            block_size: self.disk.block_size,
        }
    }
}

/// A disk before any option was read.
pub open spec fn default_disk(path: Seq<char>) -> Disk {
    Disk {
        common: device::fresh(0),
        path,
        read_only: true,
        o_direct: false,
        sparse: true,
        block_size: 512,
    }
}

/// What the options of a disk are told when they are refused.
pub open spec fn disk_words() -> Words {
    Words {
        form: "disk options must be of the form `kind=value`",
        number: "`label` must be an unsigned integer",
        zero: "`label` must be a non zero integer",
        unknown: "supported disk options only",
    }
}

/// The size of a block that `value` gives.
pub open spec fn block_size(value: Seq<char>) -> Result<u32, argument::Refusal> {
    match number::unsigned(value, 10, u32::MAX as nat) {
        None => Err(argument::Refusal { value, expected: "`block_size` must be an integer"@ }),
        Some(n) => if n == 512 || n == 1024 {
            Ok(n as u32)
        } else {
            Err(argument::Refusal { value, expected: "`block_size` must be 512 or 1024"@ })
        },
    }
}

/// What the option `opt` does to a disk.
pub open spec fn disk_option(d: Disk, opt: Seq<char>) -> Result<Disk, argument::Refusal> {
    match argument::kind_value(opt, disk_words().form@) {
        Err(e) => Err(e),
        Ok((kind, value)) => if kind == "label"@ {
            match argument::label(value, disk_words()) {
                Ok(label) => Ok(Disk { common: device::Part { label, ..d.common }, ..d }),
                Err(e) => Err(e),
            }
        } else if kind == "sparse"@ {
            match number::boolean(value) {
                Some(sparse) => Ok(Disk { sparse, ..d }),
                None => Err(
                    argument::Refusal { value, expected: "`sparse` must be a boolean"@ },
                ),
            }
        } else if kind == "block_size"@ {
            match block_size(value) {
                Ok(block_size) => Ok(Disk { block_size, ..d }),
                Err(e) => Err(e),
            }
        } else if kind == "rw"@ {
            match number::boolean(value) {
                Some(rw) => Ok(Disk { read_only: !rw, ..d }),
                None => Err(argument::Refusal { value, expected: "`rw` must be a boolean"@ }),
            }
        } else if kind == "dio"@ {
            match number::boolean(value) {
                Some(o_direct) => Ok(Disk { o_direct, ..d }),
                None => Err(argument::Refusal { value, expected: "`dio` must be a boolean"@ }),
            }
        } else {
            Err(argument::Refusal { value: kind, expected: disk_words().unknown@ })
        },
    }
}

/// The disk that the argument `param` asks for. Its first part is the path;
/// `exists` says whether there is such a file.
pub open spec fn asked(param: Seq<char>, exists: bool) -> Result<Disk, argument::Refusal> {
    if !exists {
        Err(argument::Refusal { value: param, expected: "disk path must be an existing path"@ })
    } else {
        argument::with_options::<VirtioDisk>(
            default_disk(argument::head(param)),
            argument::options(param),
        )
    }
}

/// A disk has blocks of one of two sizes, and has the path that the argument
/// starts with, whatever its options.
pub proof fn lemma_disk_is_usable(param: Seq<char>, exists: bool)
    requires
        asked(param, exists) is Ok,
    ensures
        asked(param, exists)->Ok_0.block_size == 512 || asked(param, exists)->Ok_0.block_size
            == 1024,
        asked(param, exists)->Ok_0.path == argument::head(param),
{
    lemma_options_keep(default_disk(argument::head(param)), argument::options(param));
}

proof fn lemma_options_keep(d: Disk, opts: Seq<Seq<char>>)
    requires
        d.block_size == 512 || d.block_size == 1024,
        argument::with_options::<VirtioDisk>(d, opts) is Ok,
    ensures
        ({
            let after = argument::with_options::<VirtioDisk>(d, opts)->Ok_0;
            (after.block_size == 512 || after.block_size == 1024) && after.path == d.path
        }),
    decreases opts.len(),
{
    if opts.len() > 0 {
        lemma_options_keep(d, opts.drop_last());
    }
}

/// An accepted argument gives a label if and only if it has an option for it,
/// and then the label is not zero.
pub proof fn lemma_label_is_given(param: Seq<char>, exists: bool)
    requires
        asked(param, exists) is Ok,
    ensures
        asked(param, exists)->Ok_0.common.label == 0 <==> !argument::has_kind(
            argument::options(param),
            "label"@,
        ),
{
    argument::lemma_label_follows_options::<VirtioDisk>(
        default_disk(argument::head(param)),
        argument::options(param),
        |d: Disk| d.common.label,
    );
}

/// The kinds of options are different words without the characters that cut an
/// argument.
proof fn lemma_kinds()
    ensures
        !"label"@.contains('='),
        !"label"@.contains(','),
        !"sparse"@.contains('='),
        !"sparse"@.contains(','),
        !"block_size"@.contains('='),
        !"block_size"@.contains(','),
        !"rw"@.contains('='),
        !"rw"@.contains(','),
        !"dio"@.contains('='),
        !"dio"@.contains(','),
        "label"@ != "sparse"@,
        "label"@ != "block_size"@,
        "label"@ != "rw"@,
        "label"@ != "dio"@,
        "sparse"@ != "block_size"@,
        "sparse"@ != "rw"@,
        "sparse"@ != "dio"@,
        "block_size"@ != "rw"@,
        "block_size"@ != "dio"@,
        "rw"@ != "dio"@,
{
    reveal_strlit("label");
    reveal_strlit("sparse");
    reveal_strlit("block_size");
    reveal_strlit("rw");
    reveal_strlit("dio");
    assert("label"@ =~= seq!['l', 'a', 'b', 'e', 'l']);
    assert("sparse"@ =~= seq!['s', 'p', 'a', 'r', 's', 'e']);
    assert("block_size"@ =~= seq!['b', 'l', 'o', 'c', 'k', '_', 's', 'i', 'z', 'e']);
    assert("rw"@ =~= seq!['r', 'w']);
    assert("dio"@ =~= seq!['d', 'i', 'o']);
    assert("label"@.len() != "sparse"@.len());
    assert("label"@.len() != "block_size"@.len());
    assert("label"@.len() != "rw"@.len());
    assert("label"@.len() != "dio"@.len());
    assert("sparse"@.len() != "block_size"@.len());
    assert("sparse"@.len() != "rw"@.len());
    assert("sparse"@.len() != "dio"@.len());
    assert("block_size"@.len() != "rw"@.len());
    assert("block_size"@.len() != "dio"@.len());
    assert("rw"@.len() != "dio"@.len());
}

/// What each option of a disk sets, and that it leaves everything else as it
/// is: `rw` makes the disk written or only read, `sparse` and `dio` are set as
/// they say, blocks have one of two sizes, and the label is a number.
pub proof fn lemma_each_option_sets_its_field(d: Disk, value: Seq<char>)
    ensures
        ({
            let after = disk_option(d, argument::written("rw"@, value));
            match number::boolean(value) {
                Some(b) => after matches Ok(a) && a.read_only == !b && a.common == d.common
                    && a.path == d.path && a.o_direct == d.o_direct && a.sparse == d.sparse
                    && a.block_size == d.block_size,
                None => after matches Err(e) && e.value == value && e.expected
                    == "`rw` must be a boolean"@,
            }
        }),
        ({
            let after = disk_option(d, argument::written("sparse"@, value));
            match number::boolean(value) {
                Some(b) => after matches Ok(a) && a.sparse == b && a.common == d.common && a.path
                    == d.path && a.o_direct == d.o_direct && a.read_only == d.read_only
                    && a.block_size == d.block_size,
                None => after matches Err(e) && e.value == value && e.expected
                    == "`sparse` must be a boolean"@,
            }
        }),
        ({
            let after = disk_option(d, argument::written("dio"@, value));
            match number::boolean(value) {
                Some(b) => after matches Ok(a) && a.o_direct == b && a.common == d.common && a.path
                    == d.path && a.sparse == d.sparse && a.read_only == d.read_only && a.block_size
                    == d.block_size,
                None => after matches Err(e) && e.value == value && e.expected
                    == "`dio` must be a boolean"@,
            }
        }),
        ({
            let after = disk_option(d, argument::written("block_size"@, value));
            match number::unsigned(value, 10, 0xffff_ffff) {
                Some(n) => if n == 512 || n == 1024 {
                    after matches Ok(a) && a.block_size == n && a.common == d.common && a.path
                        == d.path && a.sparse == d.sparse && a.read_only == d.read_only
                        && a.o_direct == d.o_direct
                } else {
                    after matches Err(e) && e.value == value && e.expected
                        == "`block_size` must be 512 or 1024"@
                },
                None => after matches Err(e) && e.value == value && e.expected
                    == "`block_size` must be an integer"@,
            }
        }),
        ({
            let after = disk_option(d, argument::written("label"@, value));
            match argument::label(value, disk_words()) {
                Ok(l) => after matches Ok(a) && a.common.label == l && a.common.mmio
                    == d.common.mmio && a.common.config_space == d.common.config_space && a.path
                    == d.path && a.sparse == d.sparse && a.read_only == d.read_only && a.o_direct
                    == d.o_direct && a.block_size == d.block_size,
                Err(e) => after == Err::<Disk, argument::Refusal>(e),
            }
        }),
{
    lemma_kinds();
    argument::lemma_option_reads_back("rw"@, value, disk_words().form@);
    argument::lemma_option_reads_back("sparse"@, value, disk_words().form@);
    argument::lemma_option_reads_back("dio"@, value, disk_words().form@);
    argument::lemma_option_reads_back("block_size"@, value, disk_words().form@);
    argument::lemma_option_reads_back("label"@, value, disk_words().form@);
}

/// An option of another kind, or one without a value, is refused.
pub proof fn lemma_other_options_are_refused(d: Disk, kind: Seq<char>, value: Seq<char>)
    requires
        !kind.contains('='),
    ensures
        kind != "label"@ && kind != "sparse"@ && kind != "block_size"@ && kind != "rw"@ && kind
            != "dio"@ ==> (disk_option(d, argument::written(kind, value)) matches Err(e) && e.value
            == kind && e.expected == "supported disk options only"@),
        disk_option(d, kind) matches Err(e) && e.value == kind && e.expected
            == "disk options must be of the form `kind=value`"@,
{
    argument::lemma_option_reads_back(kind, value, disk_words().form@);
    argument::lemma_option_reads_back(kind, kind, disk_words().form@);
}

/// A disk is asked for by its path alone or with options behind it, each of
/// which acts on what stands before it. Without a file there is no disk.
pub proof fn lemma_options_act_in_turn(param: Seq<char>, opt: Seq<char>)
    requires
        !opt.contains(','),
    ensures
        asked(argument::longer(param, opt), true) == match asked(param, true) {
            Ok(d) => disk_option(d, opt),
            Err(e) => Err(e),
        },
        asked(opt, true) matches Ok(d) && d.path == opt && d.read_only && !d.o_direct && d.sparse
            && d.block_size == 512 && d.common.label == 0 && d.common.mmio is None
            && d.common.config_space == Some(Seq::<u32>::empty()),
        asked(param, false) matches Err(e) && e.value == param && e.expected
            == "disk path must be an existing path"@,
{
    argument::lemma_longer_argument(param, opt);
    argument::lemma_single_part(opt);
    let start = default_disk(argument::head(param));
    argument::lemma_one_more_option::<VirtioDisk>(start, argument::options(param), opt);
    assert(argument::options(opt) =~= Seq::empty());
    argument::lemma_one_more_option::<VirtioDisk>(default_disk(opt), argument::options(opt), opt);
}

/// What no option speaks of stays as it is by default: a disk is only read,
/// sparse, cached and has small blocks.
pub proof fn lemma_defaults_stand(param: Seq<char>, exists: bool)
    requires
        asked(param, exists) is Ok,
    ensures
        ({
            let disk = asked(param, exists)->Ok_0;
            let opts = argument::options(param);
            &&& !argument::has_kind(opts, "rw"@) ==> disk.read_only
            &&& !argument::has_kind(opts, "sparse"@) ==> disk.sparse
            &&& !argument::has_kind(opts, "dio"@) ==> !disk.o_direct
            &&& !argument::has_kind(opts, "block_size"@) ==> disk.block_size == 512
        }),
{
    let start = default_disk(argument::head(param));
    let opts = argument::options(param);
    if !argument::has_kind(opts, "rw"@) {
        assert(forall|i: int|
            0 <= i < opts.len() ==> !argument::of_kind(#[trigger] opts[i], "rw"@));
        argument::lemma_options_keep::<VirtioDisk>(start, opts, |d: Disk| d.read_only);
    }
    if !argument::has_kind(opts, "sparse"@) {
        assert(forall|i: int|
            0 <= i < opts.len() ==> !argument::of_kind(#[trigger] opts[i], "sparse"@));
        argument::lemma_options_keep::<VirtioDisk>(start, opts, |d: Disk| d.sparse);
    }
    if !argument::has_kind(opts, "dio"@) {
        assert(forall|i: int|
            0 <= i < opts.len() ==> !argument::of_kind(#[trigger] opts[i], "dio"@));
        argument::lemma_options_keep::<VirtioDisk>(start, opts, |d: Disk| !d.o_direct);
    }
    if !argument::has_kind(opts, "block_size"@) {
        assert(forall|i: int|
            0 <= i < opts.len() ==> !argument::of_kind(#[trigger] opts[i], "block_size"@));
        argument::lemma_options_keep::<VirtioDisk>(start, opts, |d: Disk| d.block_size == 512);
    }
}

fn words() -> (r: Words)
    ensures
        r == disk_words(),
{
    Words {
        form: "disk options must be of the form `kind=value`",
        number: "`label` must be an unsigned integer",
        zero: "`label` must be a non zero integer",
        unknown: "supported disk options only",
    }
}

/// The size of a block that `value` gives.
fn read_block_size(value: &str) -> (r: Result<u32, Error>)
    ensures
        argument::agrees(r, block_size(value@)),
{
    match number::parse_u32(value, 10) {
        None => Err(argument::invalid(value, "`block_size` must be an integer")),
        Some(n) => if n == 512 || n == 1024 {
            Ok(n)
        } else {
            Err(argument::invalid(value, "`block_size` must be 512 or 1024"))
        },
    }
}

impl VirtioDevice for VirtioDisk {
    open spec fn common(&self) -> Common {
        self.common
    }

    open spec fn with_common(&self, c: Common) -> Self {
        VirtioDisk { common: c, disk: self.disk }
    }

    fn common_ref(&self) -> (r: &Common) {
        &self.common
    }

    fn common_mut(&mut self) -> (r: &mut Common) {
        &mut self.common
    }
}

impl Optioned for VirtioDisk {
    open spec fn option_effect(d: Disk, opt: Seq<char>) -> Result<Disk, argument::Refusal> {
        disk_option(d, opt)
    }

    fn take_option(&mut self, opt: &str) -> (r: Result<(), Error>) {
        let (kind, value) = match argument::read_option(opt, words().form) {
            Ok(kv) => kv,
            Err(e) => {
                return Err(e);
            },
        };
        if text::same(kind, "label") {
            match argument::read_label(value, words()) {
                Ok(label) => {
                    self.common.label = label;
                    Ok(())
                },
                Err(e) => Err(e),
            }
        } else if text::same(kind, "sparse") {
            match number::parse_bool(value) {
                Some(sparse) => {
                    self.disk.sparse = sparse;
                    Ok(())
                },
                None => Err(argument::invalid(value, "`sparse` must be a boolean")),
            }
        } else if text::same(kind, "block_size") {
            match read_block_size(value) {
                Ok(block_size) => {
                    self.disk.block_size = block_size;
                    Ok(())
                },
                Err(e) => Err(e),
            }
        } else if text::same(kind, "rw") {
            match number::parse_bool(value) {
                Some(rw) => {
                    self.disk.read_only = !rw;
                    Ok(())
                },
                None => Err(argument::invalid(value, "`rw` must be a boolean")),
            }
        } else if text::same(kind, "dio") {
            match number::parse_bool(value) {
                Some(o_direct) => {
                    self.disk.o_direct = o_direct;
                    Ok(())
                },
                None => Err(argument::invalid(value, "`dio` must be a boolean")),
            }
        } else {
            Err(argument::invalid(kind, words().unknown))
        }
    }
}

/// Whether the path names a descriptor that this process has already open.
pub open spec fn inherited(path: Seq<char>) -> bool {
    let names = text::segments(path);
    &&& text::has_root(path)
    &&& names.len() == 4
    &&& names[0] == "proc"@
    &&& names[1] == "self"@
    &&& names[2] == "fd"@
}

/// Whether the path names a descriptor that this process has already open.
pub fn is_inherited(path: &str) -> (r: bool)
    ensures
        r == inherited(path@),
{
    let names = text::path_segments(path);
    assert(text::texts(names@).len() == names@.len());
    if names.len() != 4 {
        return false;
    }
    assert(text::texts(names@)[0] == names@[0]@);
    assert(text::texts(names@)[1] == names@[1]@);
    assert(text::texts(names@)[2] == names@[2]@);
    text::path_has_root(path) && text::same(names[0], "proc") && text::same(names[1], "self")
        && text::same(names[2], "fd")
}

/// The descriptor that the path of a file names, if it names one: its last part
/// is a number. `is_file` says whether there is such a file.
pub open spec fn descriptor_of(path: Seq<char>, is_file: bool) -> Option<int> {
    if is_file && text::file_name(path) is Some {
        number::signed(text::file_name(path)->0)
    } else {
        None
    }
}

/// The descriptor that the path of a file names.
pub fn raw_fd_from_path(path: &str, is_file: bool) -> (r: Option<i32>)
    ensures
        match r {
            Some(fd) => descriptor_of(path@, is_file) == Some(fd as int),
            None => descriptor_of(path@, is_file) is None,
        },
{
    if !is_file {
        return None;
    }
    match text::path_file_name(path) {
        Some(name) => number::parse_i32(name),
        None => None,
    }
}

/// The size of the queues of a disk for this version of the driver.
pub open spec fn queue_size(version: u8) -> Option<u16> {
    if version == 1 {
        Some(256u16)
    } else if version == 2 {
        Some(128u16)
    } else {
        None
    }
}

/// How a disk with queues of this size is built: with a shared lock if it is
/// only read.
pub open spec fn disk_order(d: Disk, queue_size: Option<u16>) -> creation::Order {
    creation::Order::Block {
        path: d.path,
        source: if inherited(d.path) {
            DiskSource::Inherited
        } else {
            DiskSource::File { write: !d.read_only, direct: d.o_direct }
        },
        lock: if d.read_only {
            DiskLock::Shared
        } else {
            DiskLock::Exclusive
        },
        read_only: d.read_only,
        sparse: d.sparse,
        block_size: d.block_size,
        queue_size,
    }
}

/// A disk that is only read is never opened for writing and is shared with
/// others; one that is written is not shared.
pub proof fn lemma_written_disk_is_not_shared(d: Disk, queue_size: Option<u16>)
    ensures
        ({
            let order = disk_order(d, queue_size);
            &&& order->lock == (if d.read_only {
                DiskLock::Shared
            } else {
                DiskLock::Exclusive
            })
            &&& order->source matches DiskSource::File { write, .. } ==> write == !d.read_only
        }),
{
}

/// A disk is built as it was asked for, from its own path, under its own
/// label, with queues as large as the version of the driver has them.
pub proof fn lemma_disk_is_built_as_asked(d: Disk, version: u8)
    ensures
        VirtioDisk::task(d, version).label == d.common.label,
        VirtioDisk::task(d, version).order matches Some(creation::Order::Block {
            path,
            source,
            lock,
            read_only,
            sparse,
            block_size,
            queue_size,
        }) && {
            &&& path == d.path
            &&& read_only == d.read_only
            &&& sparse == d.sparse
            &&& block_size == d.block_size
            &&& version == 1 ==> queue_size == Some(256u16)
            &&& version == 2 ==> queue_size == Some(128u16)
            &&& version != 1 && version != 2 ==> queue_size is None
            &&& d.read_only <==> lock is Shared
            &&& inherited(d.path) <==> source is Inherited
            &&& source matches DiskSource::File { write, direct } ==> write == !d.read_only
                && direct == d.o_direct
        },
{
}

/// A descriptor that is already open is named below one directory of the
/// system, and by one name there. Nothing else is taken for one.
pub proof fn lemma_inherited_paths(path: Seq<char>, name: Seq<char>)
    requires
        !name.contains('/'),
        name.len() > 0,
        name != "."@,
    ensures
        inherited("/proc/self/fd/"@ + name),
        !inherited("proc/self/fd/"@ + name),
        !inherited("/proc/self/"@ + name),
        inherited(path) ==> path[0] == '/' && text::segments(path).len() == 4,
        inherited(path) ==> text::segments(path).take(3) == seq!["proc"@, "self"@, "fd"@],
{
    reveal_strlit("/proc/self/fd/");
    reveal_strlit("proc/self/fd/");
    reveal_strlit("/proc/self/");
    reveal_strlit("proc");
    reveal_strlit("self");
    reveal_strlit("fd");
    reveal_strlit(".");
    assert("."@.len() == 1);
    assert("proc"@ =~= seq!['p', 'r', 'o', 'c']);
    assert("self"@ =~= seq!['s', 'e', 'l', 'f']);
    assert("fd"@ =~= seq!['f', 'd']);
    let none = Seq::<char>::empty();
    let sl = seq!['/'];
    let c = "fd"@ + sl + name;
    let b = "self"@ + sl + c;
    let a = "proc"@ + sl + b;
    let root = none + sl + a;
    let short = none + sl + ("proc"@ + sl + ("self"@ + sl + name));
    assert(root =~= "/proc/self/fd/"@ + name);
    assert(a =~= "proc/self/fd/"@ + name);
    assert(short =~= "/proc/self/"@ + name);
    text::lemma_segments_of_two_paths(name, name);
    text::lemma_segments_of_two_paths("fd"@, name);
    text::lemma_segments_of_two_paths("self"@, c);
    text::lemma_segments_of_two_paths("self"@, name);
    text::lemma_segments_of_two_paths("proc"@, b);
    text::lemma_segments_of_two_paths("proc"@, "self"@ + sl + name);
    text::lemma_segments_of_two_paths(none, a);
    text::lemma_segments_of_two_paths(none, "proc"@ + sl + ("self"@ + sl + name));
    assert(text::segments(root) =~= seq!["proc"@, "self"@, "fd"@, name]);
    assert(text::segments(short).len() == 3);
    if inherited(path) {
        assert(text::segments(path).take(3) =~= seq!["proc"@, "self"@, "fd"@]);
    }
}

/// A file is named by a descriptor if its last part is the number of one, and
/// only if there is such a file.
pub proof fn lemma_descriptor_is_the_last_part(dir: Seq<char>, n: i32)
    ensures
        descriptor_of(dir + seq!['/'] + number::signed_decimal(n as int), true) == Some(n as int),
        descriptor_of(dir, false) is None,
{
    let name = number::signed_decimal(n as int);
    number::lemma_signed_decimal_reads_back(n);
    number::lemma_sign_is_written_in_front(n);
    let m: nat = if n < 0 {
        (-n) as nat
    } else {
        n as nat
    };
    number::lemma_decimal_reads_back(m, m);
    number::lemma_numbers_consist_of_digits(number::decimal(m), 10);
    if name.contains('/') {
        let i = choose|i: int| 0 <= i < name.len() && name[i] == '/';
        if n < 0 {
            assert(i > 0);
            assert(number::decimal(m)[i - 1] == '/');
            assert(number::digit(number::decimal(m)[i - 1], 10) is Some);
        } else {
            assert(number::digit(number::decimal(m)[i], 10) is Some);
        }
    }
    reveal_strlit(".");
    reveal_strlit("..");
    assert("."@ =~= seq!['.']);
    assert(".."@ =~= seq!['.', '.']);
    let first = name[0];
    assert(name.len() > 0 && first != '.') by {
        if n >= 0 {
            assert(number::digit(number::decimal(m)[0], 10) is Some);
        }
    }
    text::lemma_path_is_named_by_its_end(dir, name);
}

impl Buildable for VirtioDisk {
    open spec fn task(d: Disk, version: u8) -> creation::Task {
        creation::Task {
            label: d.common.label,
            order: Some(disk_order(d, queue_size(version))),
        }
    }

    fn job(&self, version: u8) -> (r: Job) {
        let q_size: Option<u16> = if version == 1 {
            Some(256)
        } else if version == 2 {
            Some(128)
        } else {
            None
        };
        Job { label: self.common.label, build: Some(self.create_bdev(q_size)) }
    }
}

impl VirtioDisk {
    /// A disk without a label or a path.
    pub fn new() -> (r: Self)
        ensures
            r@ == default_disk(Seq::empty()),
    {
        VirtioDisk {
            common: Common::new(0),
            disk: DiskOption {
                path: String::new(),
                read_only: true,
                o_direct: false,
                sparse: true,
                block_size: 512,
            },
        }
    }

    /// How the disk is built with queues of size `q_size`.
    pub fn create_bdev(&self, q_size: Option<u16>) -> (r: Build)
        ensures
            r@ == disk_order(self@, q_size),
    {
        let path = self.disk.path.clone();
        let source = if is_inherited(path.as_str()) {
            DiskSource::Inherited
        } else {
            DiskSource::File { write: !self.disk.read_only, direct: self.disk.o_direct }
        };
        let lock = if self.disk.read_only {
            DiskLock::Shared
        } else {
            DiskLock::Exclusive
        };
        Build::Block {
            path,
            source,
            lock,
            read_only: self.disk.read_only,
            sparse: self.disk.sparse,
            block_size: self.disk.block_size,
            queue_size: q_size,
        }
    }
}

/// The disks of the virtual machine.
#[derive(Debug)]
pub struct VirtioDiskDevices {
    pub virtio_disks: Vec<VirtioDisk>,
}

impl View for VirtioDiskDevices {
    type V = Seq<Disk>;

    open spec fn view(&self) -> Seq<Disk> {
        creation::views(self.virtio_disks@)
    }
}

impl VirtioDiskDevices {
    /// No disks.
    pub fn new() -> (r: Self)
        ensures
            r@ == Seq::<Disk>::empty(),
    {
        let r = VirtioDiskDevices { virtio_disks: Vec::new() };
        assert(r@ =~= Seq::empty());
        r
    }

    /// Takes the disk that the argument asks for. `exists` says whether the
    /// path exists.
    pub fn set_argument(&mut self, value: Option<&str>, exists: bool) -> (r: Result<(), Error>)
        requires
            value is Some,
        ensures
            argument::listed(r, final(self)@, asked(value->0@, exists), old(self)@),
    {
        let param = match value {
            Some(param) => param,
            None => "",
        };
        let mut vdisk = VirtioDisk::new();
        let parts = argument::components(param);
        vdisk.disk.path = parts[0].to_owned();
        if !exists {
            return Err(argument::invalid(param, "disk path must be an existing path"));
        }
        match argument::take_options(&mut vdisk, &parts, 1) {
            Ok(_) => {},
            Err(e) => {
                return Err(e);
            },
        }
        let ghost disk = vdisk@;
        self.virtio_disks.push(vdisk);
        assert(self@ =~= old(self)@.push(disk));
        Ok(())
    }

    /// Starts to create the disks.
    pub fn create_block_devices(&self, cfg: &BackendConfig) -> (r: Creation)
        requires
            self@.len() > 0 ==> creation::ready(cfg@),
        ensures
            r.wf(),
            r.plan() == creation::plan_for(
                creation::tasks_for::<VirtioDisk>(self@, cfg@.driver_variant),
                cfg@,
            ),
            r.making() == creation::reach(r.plan(), 0, Seq::empty()),
    {
        creation::create_all(&self.virtio_disks, cfg)
    }
}

} // verus!
