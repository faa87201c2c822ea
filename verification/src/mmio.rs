//! The register file of a virtio device, and the steps of a conversation with
//! the device and the driver: what to do next, and what came of it.
use vstd::prelude::*;

use crate::error::BackendError;
use crate::error;
use crate::ioctl;
use crate::ioctl::{IoctlArg, VmIoctl};

verus! {

pub const VIRTIO_MMIO_DEVICE_FEATURES: u64 = 0x10;

pub const VIRTIO_MMIO_DEVICE_FEATURES_SEL: u64 = 0x14;

pub const VIRTIO_MMIO_DRIVER_FEATURES: u64 = 0x20;

pub const VIRTIO_MMIO_DRIVER_FEATURES_SEL: u64 = 0x24;

pub const VIRTIO_MMIO_QUEUE_SEL: u64 = 0x30;

pub const VIRTIO_MMIO_QUEUE_NUM_MAX: u64 = 0x34;

pub const VIRTIO_MMIO_QUEUE_NUM: u64 = 0x38;

pub const VIRTIO_MMIO_QUEUE_READY: u64 = 0x44;

pub const VIRTIO_MMIO_INTERRUPT_ACK: u64 = 0x64;

pub const VIRTIO_MMIO_STATUS: u64 = 0x70;

pub const VIRTIO_MMIO_QUEUE_DESC_LOW: u64 = 0x80;

pub const VIRTIO_MMIO_QUEUE_DESC_HIGH: u64 = 0x84;

pub const VIRTIO_MMIO_QUEUE_AVAIL_LOW: u64 = 0x90;

pub const VIRTIO_MMIO_QUEUE_AVAIL_HIGH: u64 = 0x94;

pub const VIRTIO_MMIO_QUEUE_USED_LOW: u64 = 0xa0;

pub const VIRTIO_MMIO_QUEUE_USED_HIGH: u64 = 0xa4;

pub const VIRTIO_MMIO_INPUT_SEL: u64 = 0x100;

pub const VIRTIO_MMIO_DEVICE_CONFIG: u64 = 0x100;

/// The word of the configuration space that holds the status register.
pub const VIRTIO_MMIO_STATUS_IDX: usize = 28;

/// The size of the configuration space in bytes.
pub const CONFIG_SPACE_SIZE: u32 = 4096;

/// The size of the configuration space in words.
pub const CONFIG_SPACE_WORDS: usize = 1024;

/// The bytes of `v`, lowest first.
pub open spec fn le_bytes(v: u32) -> Seq<u8> {
    seq![
        (v as int % 0x100) as u8,
        (v as int / 0x100 % 0x100) as u8,
        (v as int / 0x1_0000 % 0x100) as u8,
        (v as int / 0x100_0000) as u8,
    ]
}

/// The word whose four bytes start at index `at` of `s`, lowest first.
pub open spec fn le_word(s: Seq<u8>, at: int) -> u32 {
    (s[at] + s[at + 1] * 0x100 + s[at + 2] * 0x1_0000 + s[at + 3] * 0x100_0000) as u32
}

/// The lower half of `v`.
pub open spec fn low_half(v: u64) -> u32 {
    (v as int % 0x1_0000_0000) as u32
}

/// The upper half of `v`.
pub open spec fn high_half(v: u64) -> u32 {
    (v as int / 0x1_0000_0000) as u32
}

proof fn lemma_digits(w: int, a: int, b: int, c: int, d: int)
    requires
        0 <= a < 0x100,
        0 <= b < 0x100,
        0 <= c < 0x100,
        0 <= d < 0x100,
        w == a + b * 0x100 + c * 0x1_0000 + d * 0x100_0000,
    ensures
        w % 0x100 == a,
        w / 0x100 % 0x100 == b,
        w / 0x1_0000 % 0x100 == c,
        w / 0x100_0000 == d,
{
    assert(w / 0x100 == b + c * 0x100 + d * 0x1_0000);
    assert(w / 0x1_0000 == c + d * 0x100);
}

/// A word that is written and then read is the same word, and bytes that are
/// read as a word and then written are the same bytes.
pub proof fn lemma_word_bytes(v: u32, s: Seq<u8>)
    requires
        s.len() == 4,
    ensures
        le_bytes(v).len() == 4,
        le_word(le_bytes(v), 0) == v,
        le_bytes(le_word(s, 0)) == s,
{
    let w = v as int;
    assert(w / 0x100 / 0x100 == w / 0x1_0000);
    assert(w / 0x1_0000 / 0x100 == w / 0x100_0000);
    lemma_digits(le_word(s, 0) as int, s[0] as int, s[1] as int, s[2] as int, s[3] as int);
    assert(le_bytes(le_word(s, 0)) =~= s);
}

/// The lowest byte of a word comes first: byte `i` counts 256 times as much as
/// the byte before it, and shifting a word up by a byte moves its bytes.
pub proof fn lemma_lowest_byte_first(v: u32, s: Seq<u8>, at: int)
    requires
        0 <= at,
        at + 4 <= s.len(),
    ensures
        le_bytes(v).len() == 4,
        le_bytes(v)[0] + le_bytes(v)[1] * 0x100 + le_bytes(v)[2] * 0x1_0000 + le_bytes(v)[3]
            * 0x100_0000 == v,
        le_word(s, at) == s[at] + s[at + 1] * 0x100 + s[at + 2] * 0x1_0000 + s[at + 3]
            * 0x100_0000,
        le_word(s, at) == le_word(s.subrange(at, at + 4), 0),
{
    let w = v as int;
    assert(w / 0x100 / 0x100 == w / 0x1_0000);
    assert(w / 0x1_0000 / 0x100 == w / 0x100_0000);
}

/// The lower half of an address that fits a word is the address, and each half
/// changes on its own.
pub proof fn lemma_halves_are_independent(a: u32, b: u32)
    ensures
        low_half((a * 0x1_0000_0000 + b) as u64) == b,
        high_half((a * 0x1_0000_0000 + b) as u64) == a,
{
}

/// The two halves of a 64-bit address make up the address.
pub proof fn lemma_halves(v: u64)
    ensures
        high_half(v) * 0x1_0000_0000 + low_half(v) == v,
{
}

/// What the backend knows of a device behind its registers: the descriptors of
/// the events of its queues and of its interrupt, and how many queues it has.
#[derive(Debug)]
pub struct MmioDevice {
    pub queue_evts: Vec<i32>,
    pub interrupt_evt: Option<i32>,
    pub num_queues: usize,
}

/// `MmioDevice` with its list as a sequence.
pub struct Registers {
    pub queue_evts: Seq<i32>,
    pub interrupt_evt: Option<i32>,
    pub num_queues: usize,
}

impl View for MmioDevice {
    type V = Registers;

    open spec fn view(&self) -> Registers {
        Registers {
            queue_evts: self.queue_evts@,
            interrupt_evt: self.interrupt_evt,
            num_queues: self.num_queues,
        }
    }
}

impl MmioDevice {
    /// A copy of what is known of the device.
    pub fn duplicate(&self) -> (r: MmioDevice)
        ensures
            r@ == self@,
    {
        let queue_evts: Vec<i32> = self.queue_evts.clone();
        assert(queue_evts@ =~= self.queue_evts@);
        MmioDevice { queue_evts, interrupt_evt: self.interrupt_evt, num_queues: self.num_queues }
    }
}

/// What to do next.
#[derive(Debug)]
pub enum Action {
    /// Write `data` to the device at `offset`.
    MmioWrite { offset: u64, data: Vec<u8> },
    /// Let the device at `offset` fill `data`. What it does not fill stays.
    MmioRead { offset: u64, data: Vec<u8> },
    /// Send a request to the driver.
    Ioctl { cmd: u64, arg: IoctlArg },
    /// Nothing more: this is the result.
    Return(Result<(), BackendError>),
    /// Nothing more: the backend cannot go on.
    Panic,
}

/// `Action` with its lists as sequences.
pub enum Act {
    MmioWrite { offset: u64, data: Seq<u8> },
    MmioRead { offset: u64, data: Seq<u8> },
    Ioctl { cmd: int, arg: ioctl::Arg },
    Return(Result<(), error::Failure>),
    Panic,
}

impl View for Action {
    type V = Act;

    open spec fn view(&self) -> Act {
        match self {
            Action::MmioWrite { offset, data } => Act::MmioWrite { offset: *offset, data: data@ },
            Action::MmioRead { offset, data } => Act::MmioRead { offset: *offset, data: data@ },
            Action::Ioctl { cmd, arg } => Act::Ioctl { cmd: *cmd as int, arg: arg@ },
            Action::Return(Ok(_)) => Act::Return(Ok(())),
            Action::Return(Err(e)) => Act::Return(Err(e@)),
            Action::Panic => Act::Panic,
        }
    }
}

/// What came of an action.
#[derive(Debug)]
pub enum Reply {
    /// The bytes were written.
    Written,
    /// The bytes after the device filled them.
    Read(Vec<u8>),
    /// What the driver returned, its argument after the request, and what the
    /// system said if it failed.
    Ioctl { ret: i32, arg: IoctlArg, error: String },
}

/// `Reply` with its lists as sequences.
pub enum Answer {
    Written,
    Read(Seq<u8>),
    Ioctl { ret: i32, arg: ioctl::Arg, error: Seq<char> },
}

impl View for Reply {
    type V = Answer;

    open spec fn view(&self) -> Answer {
        match self {
            Reply::Written => Answer::Written,
            Reply::Read(data) => Answer::Read(data@),
            Reply::Ioctl { ret, arg, error } => Answer::Ioctl {
                ret: *ret,
                arg: arg@,
                error: error@,
            },
        }
    }
}

/// The models of actions and of what comes of them hold all that is done and
/// said: where, which bytes, which request, and what the system said.
pub proof fn lemma_actions_are_modelled_in_full(action: Action, reply: Reply)
    ensures
        match action {
            Action::MmioWrite { offset, data } => action@ matches Act::MmioWrite {
                offset: o,
                data: d,
            } && o == offset && d == data@,
            Action::MmioRead { offset, data } => action@ matches Act::MmioRead {
                offset: o,
                data: d,
            } && o == offset && d == data@,
            Action::Ioctl { cmd, arg } => action@ matches Act::Ioctl { cmd: c, arg: a } && c == cmd
                && a == arg@,
            Action::Return(Ok(_)) => action@ == Act::Return(Ok(())),
            Action::Return(Err(e)) => action@ == Act::Return(Err(e@)),
            Action::Panic => action@ is Panic,
        },
        match reply {
            Reply::Written => reply@ is Written,
            Reply::Read(data) => reply@ matches Answer::Read(d) && d == data@,
            Reply::Ioctl { ret, arg, error } => reply@ matches Answer::Ioctl {
                ret: r,
                arg: a,
                error: e,
            } && r == ret && a == arg@ && e == error@,
        },
{
}

/// Whether `reply` can come of `act`: bytes for bytes, and the argument of a
/// request for the argument of a request.
pub open spec fn fits(act: Act, reply: Answer) -> bool {
    match act {
        Act::MmioWrite { .. } => reply is Written,
        Act::MmioRead { data, .. } => reply matches Answer::Read(after) && after.len()
            == data.len(),
        Act::Ioctl { arg, .. } => reply matches Answer::Ioctl { arg: after, .. }
            && ioctl::same_shape(arg, after),
        Act::Return(_) => false,
        Act::Panic => false,
    }
}

/// Whether the driver refused: it returned something other than zero.
pub open spec fn refused(reply: Answer) -> bool {
    reply matches Answer::Ioctl { ret, .. } && ret != 0
}

/// Writing the word `value` to the register at `offset`.
pub open spec fn write_word(offset: u64, value: u32) -> Act {
    Act::MmioWrite { offset, data: le_bytes(value) }
}

/// A device request with the argument `arg`.
pub open spec fn request(ioc: VmIoctl, version: u8, arg: ioctl::Arg) -> Act {
    Act::Ioctl { cmd: ioctl::command(ioc, version), arg }
}

/// The bytes of `v`, lowest first.
pub fn to_le_bytes(v: u32) -> (r: Vec<u8>)
    ensures
        r@ == le_bytes(v),
{
    let mut r: Vec<u8> = Vec::new();
    r.push((v % 0x100) as u8);
    r.push((v / 0x100 % 0x100) as u8);
    r.push((v / 0x1_0000 % 0x100) as u8);
    r.push((v / 0x100_0000) as u8);
    assert(r@ =~= le_bytes(v));
    r
}

/// The word whose four bytes start at index `at` of `s`.
pub fn from_le_bytes(s: &Vec<u8>, at: usize) -> (r: u32)
    requires
        at + 4 <= s@.len(),
    ensures
        r == le_word(s@, at as int),
{
    let n: usize = s.len();
    assert(at + 4 <= n);
    s[at] as u32 + s[at + 1] as u32 * 0x100 + s[at + 2] as u32 * 0x1_0000 + s[at + 3] as u32
        * 0x100_0000
}

/// The lower half of `v`.
pub fn low(v: u64) -> (r: u32)
    ensures
        r == low_half(v),
{
    (v % 0x1_0000_0000) as u32
}

/// The upper half of `v`.
pub fn high(v: u64) -> (r: u32)
    ensures
        r == high_half(v),
{
    (v / 0x1_0000_0000) as u32
}

/// Writing the word `value` to the register at `offset`.
pub(crate) fn write(offset: u64, value: u32) -> (r: Action)
    ensures
        r@ == write_word(offset, value),
{
    Action::MmioWrite { offset, data: to_le_bytes(value) }
}

/// A device request that the driver knows.
pub(crate) fn ask(ioc: VmIoctl, version: u8, arg: IoctlArg) -> (r: Action)
    requires
        ioctl::supported(ioc, version),
    ensures
        r@ == request(ioc, version, arg@),
{
    Action::Ioctl { cmd: ioctl::known_cmd(ioc, version), arg }
}

/// A copy of `words`.
pub(crate) fn copy_words(words: &Vec<u32>) -> (r: Vec<u32>)
    ensures
        r@ == words@,
{
    words.clone()
}

/// Bytes that are all zero.
pub open spec fn zeros(n: nat) -> Seq<u8> {
    Seq::new(n, |i: int| 0u8)
}

/// A write of a word goes to its register with the four bytes of the word, the
/// lowest first, and a request has the number of its kind. A request is
/// refused exactly if it returns anything but zero.
pub proof fn lemma_writes_and_requests(
    offset: u64,
    value: u32,
    ioc: VmIoctl,
    version: u8,
    arg: ioctl::Arg,
    reply: Answer,
    n: nat,
)
    ensures
        write_word(offset, value) matches Act::MmioWrite { offset: o, data } && o == offset
            && data.len() == 4 && data[0] + data[1] * 0x100 + data[2] * 0x1_0000 + data[3]
            * 0x100_0000 == value,
        request(ioc, version, arg) matches Act::Ioctl { cmd, arg: a } && cmd == ioctl::command(
            ioc,
            version,
        ) && a == arg,
        refused(reply) <==> (reply matches Answer::Ioctl { ret, .. } && ret != 0),
        zeros(n).len() == n,
        forall|i: int| 0 <= i < n ==> #[trigger] zeros(n)[i] == 0,
{
    lemma_lowest_byte_first(value, le_bytes(value), 0);
}

} // verus!
