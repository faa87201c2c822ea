//! Publishing a device: its registers are copied into the configuration space,
//! and the driver gets the space, the features and the sizes of the queues.
use vstd::prelude::*;

use crate::driver_ok;
use crate::ioctl;
use crate::ioctl::{IoctlArg, VirtioConfigData, VirtioDevFeatures, VirtioQueueMax, VmIoctl};
use crate::mmio;
use crate::mmio::{
    Action, MmioDevice, Reply, CONFIG_SPACE_SIZE, VIRTIO_MMIO_DEVICE_FEATURES,
    VIRTIO_MMIO_DEVICE_FEATURES_SEL,
    VIRTIO_MMIO_QUEUE_NUM_MAX, VIRTIO_MMIO_QUEUE_SEL,
};

verus! {

/// Which device is published, and for which version of the driver.
pub struct PublishPlan {
    pub label: u32,
    pub version: u8,
    pub queues: u32,
    /// The configuration space before.
    pub cspace: Seq<u32>,
}

/// The bytes that the reply holds.
pub open spec fn bytes_of(reply: mmio::Answer) -> Seq<u8> {
    reply->Read_0
}

/// The bytes that select the bank `sel` of a register: the lowest byte of
/// `sel`, and zeros.
pub open spec fn selection(sel: u32) -> Seq<u8> {
    seq![(sel as int % 0x100) as u8, 0u8, 0u8, 0u8]
}

/// The words of the registers and of the device configuration that the replies
/// hold.
pub open spec fn config_words(h: Seq<mmio::Answer>) -> Seq<u32> {
    Seq::new(
        1024,
        |i: int|
            if i < 64 {
                mmio::le_word(bytes_of(h[i]), 0)
            } else {
                mmio::le_word(bytes_of(h[64]), 4 * (i - 64))
            },
    )
}

/// The features that the reply holds.
pub open spec fn device_features_of(reply: mmio::Answer) -> VirtioDevFeatures {
    reply->Ioctl_arg->DevFeatures_0
}

/// The step after the replies `h`.
///
/// The first 256 bytes of the registers are read word by word, each into the
/// bytes of the word before, and the 3840 bytes of device configuration behind
/// them at once. The driver gets all of it as words. Then the lower and the
/// upper word of the features, and the largest size of each queue, are read
/// through the registers that select them, and handed to the driver. The
/// backend cannot go on if a request returns anything but zero.
pub open spec fn publish_step(plan: PublishPlan, h: Seq<mmio::Answer>) -> mmio::Act {
    let n = h.len() as int;
    let queues = plan.queues as int;
    if n > 0 && mmio::refused(h.last()) {
        mmio::Act::Panic
    } else if n < 64 {
        mmio::Act::MmioRead {
            offset: (4 * n) as u64,
            data: if n == 0 {
                mmio::zeros(4)
            } else {
                bytes_of(h[n - 1])
            },
        }
    } else if n == 64 {
        mmio::Act::MmioRead { offset: 256, data: mmio::zeros(3840) }
    } else if n == 65 {
        mmio::request(
            VmIoctl::SetDeviceConfigData,
            plan.version,
            ioctl::Arg::ConfigData {
                label: plan.label,
                config_size: CONFIG_SPACE_SIZE,
                data: plan.cspace + config_words(h),
            },
        )
    } else if n == 66 {
        mmio::Act::MmioWrite { offset: VIRTIO_MMIO_DEVICE_FEATURES_SEL, data: selection(0) }
    } else if n == 67 {
        mmio::Act::MmioRead { offset: VIRTIO_MMIO_DEVICE_FEATURES, data: selection(0) }
    } else if n == 68 {
        mmio::request(
            VmIoctl::SetDeviceFeatures,
            plan.version,
            ioctl::Arg::DevFeatures(
                VirtioDevFeatures {
                    label: plan.label,
                    reserved: 0,
                    features_sel: 0,
                    features: mmio::le_word(bytes_of(h[67]), 0),
                },
            ),
        )
    } else if n == 69 {
        mmio::Act::MmioWrite { offset: VIRTIO_MMIO_DEVICE_FEATURES_SEL, data: selection(1) }
    } else if n == 70 {
        mmio::Act::MmioRead { offset: VIRTIO_MMIO_DEVICE_FEATURES, data: selection(1) }
    } else if n == 71 {
        mmio::request(
            VmIoctl::SetDeviceFeatures,
            plan.version,
            ioctl::Arg::DevFeatures(
                VirtioDevFeatures {
                    features_sel: 1,
                    features: mmio::le_word(bytes_of(h[70]), 0),
                    ..device_features_of(h[68])
                },
            ),
        )
    } else if n < 72 + 3 * queues {
        let k = ((n - 72) / 3) as u32;
        let j = (n - 72) % 3;
        if j == 0 {
            mmio::Act::MmioWrite { offset: VIRTIO_MMIO_QUEUE_SEL, data: selection(k) }
        } else if j == 1 {
            mmio::Act::MmioRead { offset: VIRTIO_MMIO_QUEUE_NUM_MAX, data: selection(k) }
        } else {
            mmio::request(
                VmIoctl::SetQueueNumMax,
                plan.version,
                ioctl::Arg::QueueMax(
                    VirtioQueueMax {
                        label: plan.label,
                        reserved: 0,
                        queue_sel: k,
                        queue_num_max: mmio::le_word(bytes_of(h.last()), 0),
                    },
                ),
            )
        }
    } else {
        mmio::Act::Return(Ok(()))
    }
}

/// The configuration space after the replies `h` of a run that got past it.
pub open spec fn published(h: Seq<mmio::Answer>) -> Seq<u32> {
    driver_ok::config_of(h[65])
}

/// A run from an empty space that ends well hands the driver exactly the bytes
/// it announces: 1024 words, 4096 bytes. The space keeps that size.
pub proof fn lemma_published_size(plan: PublishPlan, h: Seq<mmio::Answer>)
    requires
        plan.cspace.len() == 0,
        publish_step(plan, h) == mmio::Act::Return(Ok(())),
        forall|i: int|
            0 <= i < h.len() ==> mmio::fits(#[trigger] publish_step(plan, h.take(i)), h[i]),
    ensures
        h.len() == 72 + 3 * plan.queues,
        (plan.cspace + config_words(h)).len() * 4 == CONFIG_SPACE_SIZE,
        published(h).len() == 1024,
{
    let end = 72 + 3 * plan.queues as int;
    if h.len() > end {
        assert(mmio::fits(publish_step(plan, h.take(end)), h[end]));
    }
    assert(mmio::fits(publish_step(plan, h.take(65)), h[65]));
}

/// A read fills a buffer of the right size: a word for a register, and all of
/// the device configuration at once. The registers are read in order, without
/// a gap, and each word into what the one before left.
pub proof fn lemma_registers_are_read_in_order(plan: PublishPlan, h: Seq<mmio::Answer>)
    requires
        h.len() <= 64,
        h.len() > 0 ==> h.last() is Read,
    ensures
        publish_step(plan, h) matches mmio::Act::MmioRead { offset, data } && {
            &&& offset == 4 * h.len()
            &&& h.len() < 64
                ==> data.len() == (if h.len() == 0 { 4 } else { h.last()->Read_0.len() })
            &&& h.len() == 64 ==> data.len() == 4096 - 256
            &&& forall|i: int|
                0 <= i < data.len() ==> #[trigger] data[i] == (if 0 < h.len() < 64 {
                    h.last()->Read_0[i]
                } else {
                    0u8
                })
        },
{
}

/// What the driver gets as the configuration space holds, behind what was
/// there before, every byte of the device in its place: word `i` of the first
/// 64 is the reply to the read at offset `4 * i`, and the words behind them
/// are the bytes of the reply to the read at offset 256, four at a time, the
/// lowest byte first.
pub proof fn lemma_space_holds_what_was_read(plan: PublishPlan, h: Seq<mmio::Answer>)
    requires
        h.len() == 65,
        forall|i: int| 0 <= i < 65 ==> #[trigger] h[i] is Read,
    ensures
        publish_step(plan, h) matches mmio::Act::Ioctl {
            cmd,
            arg: ioctl::Arg::ConfigData { label, config_size, data },
        } && {
            let at = plan.cspace.len();
            &&& cmd == ioctl::command(VmIoctl::SetDeviceConfigData, plan.version)
            &&& label == plan.label
            &&& config_size == 4096
            &&& data.len() == at + 1024
            &&& data.take(at as int) == plan.cspace
            &&& forall|i: int|
                #![trigger data[at + i]]
                0 <= i < 64 ==> data[at + i] == h[i]->Read_0[0] + h[i]->Read_0[1] * 0x100
                    + h[i]->Read_0[2] * 0x1_0000 + h[i]->Read_0[3] * 0x100_0000
            &&& forall|i: int|
                #![trigger data[at + i]]
                64 <= i < 1024 ==> data[at + i] == h[64]->Read_0[4 * i - 256] + h[64]->Read_0[4 * i
                    - 255] * 0x100 + h[64]->Read_0[4 * i - 254] * 0x1_0000 + h[64]->Read_0[4 * i
                    - 253] * 0x100_0000
        },
{
    let at = plan.cspace.len() as int;
    let data = plan.cspace + config_words(h);
    assert(publish_step(plan, h)->Ioctl_arg->ConfigData_data == data);
    assert(data.take(at) =~= plan.cspace);
    assert forall|i: int|
        #![trigger data[at + i]]
        0 <= i < 64 implies data[at + i] == h[i]->Read_0[0] + h[i]->Read_0[1] * 0x100
        + h[i]->Read_0[2] * 0x1_0000 + h[i]->Read_0[3] * 0x100_0000 by {
        assert(data[at + i] == config_words(h)[i]);
    }
    assert forall|i: int|
        #![trigger data[at + i]]
        64 <= i < 1024 implies data[at + i] == h[64]->Read_0[4 * i - 256] + h[64]->Read_0[4 * i
        - 255] * 0x100 + h[64]->Read_0[4 * i - 254] * 0x1_0000 + h[64]->Read_0[4 * i - 253]
        * 0x100_0000 by {
        assert(data[at + i] == config_words(h)[i]);
        assert(4 * (i - 64) == 4 * i - 256);
    }
}

proof fn lemma_bytes_of_word(a: u8, b: u8, c: u8, d: u8, word: int)
    requires
        word == a + b * 0x100 + c * 0x1_0000 + d * 0x100_0000,
    ensures
        word % 0x100 == a,
        word / 0x100 % 0x100 == b,
        word / 0x1_0000 % 0x100 == c,
        word / 0x100_0000 == d,
{
    assert(word / 0x100 == b + c * 0x100 + d * 0x1_0000);
    assert(word / 0x1_0000 == c + d * 0x100);
}

/// Written out as bytes, the lowest of each word first, what the driver gets
/// is what the device answered: byte `j` below 256 is byte `j % 4` of the
/// reply to the read at the word it lies in, and byte `256 + j` is byte `j` of
/// the reply to the read at offset 256.
pub proof fn lemma_space_bytes_are_the_bytes_read(plan: PublishPlan, h: Seq<mmio::Answer>, j: int)
    requires
        plan.cspace.len() == 0,
        h.len() == 65,
        forall|i: int| 0 <= i < 65 ==> #[trigger] h[i] is Read,
        0 <= j < 4096,
    ensures
        publish_step(plan, h) matches mmio::Act::Ioctl {
            arg: ioctl::Arg::ConfigData { data, .. },
            ..
        } && {
            let word = data[j / 4] as int;
            let byte = if j % 4 == 0 {
                word % 0x100
            } else if j % 4 == 1 {
                word / 0x100 % 0x100
            } else if j % 4 == 2 {
                word / 0x1_0000 % 0x100
            } else {
                word / 0x100_0000
            };
            byte == (if j < 256 {
                h[j / 4]->Read_0[j % 4]
            } else {
                h[64]->Read_0[j - 256]
            })
        },
{
    lemma_space_holds_what_was_read(plan, h);
    let data = publish_step(plan, h)->Ioctl_arg->ConfigData_data;
    let i = j / 4;
    let b = if j < 256 {
        h[i]->Read_0
    } else {
        h[64]->Read_0
    };
    let from = if j < 256 {
        0
    } else {
        4 * i - 256
    };
    assert(data[plan.cspace.len() + i] == data[i]);
    lemma_bytes_of_word(b[from], b[from + 1], b[from + 2], b[from + 3], data[i] as int);
}

/// Each word of the features is selected, read, and handed to the driver as it
/// was read, with its number and the label of the device.
pub proof fn lemma_features_are_published(plan: PublishPlan, h: Seq<mmio::Answer>, high: bool)
    requires
        h.len() == 66 + (if high { 3int } else { 0 }) || h.len() == 67 + (if high {
            3int
        } else {
            0
        }) || h.len() == 68 + (if high { 3int } else { 0 }),
        !(h.last() matches mmio::Answer::Ioctl { ret, .. } && ret != 0),
        high ==> (h[68] matches mmio::Answer::Ioctl { arg, .. } && arg is DevFeatures),
    ensures
        ({
            let from = 66 + (if high { 3int } else { 0 });
            let sel = if high { 1u8 } else { 0u8 };
            let step = publish_step(plan, h);
            &&& h.len() == from ==> (step matches mmio::Act::MmioWrite { offset, data } && offset
                == 0x14 && data == seq![sel, 0u8, 0u8, 0u8])
            &&& h.len() == from + 1 ==> (step matches mmio::Act::MmioRead { offset, data } && offset
                == 0x10 && data == seq![sel, 0u8, 0u8, 0u8])
            &&& h.len() == from + 2 && h.last() is Read ==> (step matches mmio::Act::Ioctl {
                cmd,
                arg: ioctl::Arg::DevFeatures(a),
            } && {
                let b = h.last()->Read_0;
                &&& cmd == ioctl::command(VmIoctl::SetDeviceFeatures, plan.version)
                &&& a.features_sel == sel
                &&& a.features == b[0] + b[1] * 0x100 + b[2] * 0x1_0000 + b[3] * 0x100_0000
                &&& !high ==> a.label == plan.label && a.reserved == 0
                &&& high ==> (h[68] matches mmio::Answer::Ioctl {
                    arg: ioctl::Arg::DevFeatures(sent),
                    ..
                } && a.label == sent.label && a.reserved == sent.reserved)
            })
        }),
{
}

/// Queue `k` is selected by its number, its largest size is read, and the
/// driver gets both with the label of the device.
pub proof fn lemma_each_queue_size_is_published(plan: PublishPlan, h: Seq<mmio::Answer>, k: int)
    requires
        0 <= k < plan.queues,
        72 + 3 * k <= h.len() < 75 + 3 * k,
        !(h.last() matches mmio::Answer::Ioctl { ret, .. } && ret != 0),
    ensures
        ({
            let step = publish_step(plan, h);
            let low = (k % 0x100) as u8;
            &&& h.len() == 72 + 3 * k ==> (step matches mmio::Act::MmioWrite { offset, data }
                && offset == 0x30 && data == seq![low, 0u8, 0u8, 0u8])
            &&& h.len() == 73 + 3 * k ==> (step matches mmio::Act::MmioRead { offset, data }
                && offset == 0x34 && data == seq![low, 0u8, 0u8, 0u8])
            &&& h.len() == 74 + 3 * k && h.last() is Read ==> (step matches mmio::Act::Ioctl {
                cmd,
                arg: ioctl::Arg::QueueMax(a),
            } && {
                let b = h.last()->Read_0;
                &&& cmd == ioctl::command(VmIoctl::SetQueueNumMax, plan.version)
                &&& a.label == plan.label
                &&& a.reserved == 0
                &&& a.queue_sel == k
                &&& a.queue_num_max == b[0] + b[1] * 0x100 + b[2] * 0x1_0000 + b[3] * 0x100_0000
            })
        }),
{
    let n = h.len() as int;
    assert((n - 72) / 3 == k && (n - 72) % 3 == n - 72 - 3 * k);
}

/// A complete run publishes the size of every queue exactly once.
pub proof fn lemma_every_queue_size_is_published_once(
    plan: PublishPlan,
    h: Seq<mmio::Answer>,
    k: int,
)
    requires
        publish_step(plan, h) == mmio::Act::Return(Ok(())),
        forall|i: int|
            0 <= i < h.len() ==> mmio::fits(#[trigger] publish_step(plan, h.take(i)), h[i]),
        0 <= k < plan.queues,
    ensures
        publish_step(plan, h.take(74 + 3 * k)) matches mmio::Act::Ioctl {
            arg: ioctl::Arg::QueueMax(a),
            ..
        } && a.label == plan.label && a.queue_sel == k,
        forall|i: int|
            0 <= i < h.len() && (#[trigger] publish_step(plan, h.take(i)) matches mmio::Act::Ioctl {
                arg: ioctl::Arg::QueueMax(a),
                ..
            } && a.queue_sel == k) ==> i == 74 + 3 * k,
{
    let end = 72 + 3 * plan.queues as int;
    if h.len() > end {
        assert(mmio::fits(publish_step(plan, h.take(end)), h[end]));
    }
    let at = 74 + 3 * k;
    assert(mmio::fits(publish_step(plan, h.take(at)), h[at]));
    assert((at - 72) / 3 == k && (at - 72) % 3 == 2);
    assert forall|i: int|
        0 <= i < h.len() && (#[trigger] publish_step(plan, h.take(i)) matches mmio::Act::Ioctl {
            arg: ioctl::Arg::QueueMax(a),
            ..
        } && a.queue_sel == k) implies i == 74 + 3 * k by {
        assert(mmio::fits(publish_step(plan, h.take(i)), h[i]));
        assert((i - 72) % 3 == 2);
    }
}

/// After the last queue the publishing is over, and it ends the backend
/// exactly if a request returns anything but zero. The space afterwards is the
/// one that the driver gave back.
pub proof fn lemma_publishing_ends(plan: PublishPlan, h: Seq<mmio::Answer>)
    ensures
        publish_step(plan, h) is Panic <==> h.len() > 0 && (h.last() matches mmio::Answer::Ioctl {
            ret,
            ..
        } && ret != 0),
        publish_step(plan, h) is Return <==> h.len() >= 72 + 3 * plan.queues && !(publish_step(
            plan,
            h,
        ) is Panic),
        publish_step(plan, h) is Return ==> publish_step(plan, h) == mmio::Act::Return(Ok(())),
        h.len() > 65 && h[65] is Ioctl ==> (h[65]->Ioctl_arg matches ioctl::Arg::ConfigData {
            data,
            ..
        } ==> published(h) == data),
{
}

/// Where the publishing stands.
#[derive(Clone, Copy)]
enum Stage {
    ReadRegister { at: u64 },
    ReadBlock,
    SendConfig,
    SelectFeatures { high: bool },
    ReadFeatures { high: bool },
    SendFeatures { high: bool },
    SelectQueue { index: u32 },
    ReadQueue { index: u32 },
    SendQueue { index: u32 },
    Done,
    Failed,
}

/// The publishing of one device.
pub struct Publish {
    label: u32,
    version: u8,
    queues: u32,
    /// The bytes of the word that was read last.
    val: Vec<u8>,
    words: Vec<u32>,
    features: VirtioDevFeatures,
    stage: Stage,
    before: Ghost<Seq<u32>>,
    history: Ghost<Seq<mmio::Answer>>,
}

fn select(sel: u32) -> (r: Vec<u8>)
    ensures
        r@ == selection(sel),
{
    let mut r: Vec<u8> = Vec::new();
    r.push((sel % 0x100) as u8);
    r.push(0);
    r.push(0);
    r.push(0);
    assert(r@ =~= selection(sel));
    r
}

fn copy_bytes(bytes: &Vec<u8>) -> (r: Vec<u8>)
    ensures
        r@ == bytes@,
{
    bytes.clone()
}

impl Publish {
    /// What is published.
    pub closed spec fn plan(self) -> PublishPlan {
        PublishPlan {
            label: self.label,
            version: self.version,
            queues: self.queues,
            cspace: self.before@,
        }
    }

    /// The replies so far.
    pub closed spec fn history(self) -> Seq<mmio::Answer> {
        self.history@
    }

    /// How many replies came before this stage.
    spec fn replies(self) -> int {
        match self.stage {
            Stage::ReadRegister { at } => at as int,
            Stage::ReadBlock => 64,
            Stage::SendConfig => 65,
            Stage::SelectFeatures { high } => if high { 69 } else { 66 },
            Stage::ReadFeatures { high } => if high { 70 } else { 67 },
            Stage::SendFeatures { high } => if high { 71 } else { 68 },
            Stage::SelectQueue { index } => 72 + 3 * index,
            Stage::ReadQueue { index } => 73 + 3 * index,
            Stage::SendQueue { index } => 74 + 3 * index,
            Stage::Done => 72 + 3 * self.queues,
            Stage::Failed => self.history@.len() as int,
        }
    }

    pub closed spec fn wf(self) -> bool {
        let h = self.history@;
        &&& self.version == 1 || self.version == 2
        &&& h.len() == self.replies()
        &&& (self.stage is Failed) == (h.len() > 0 && mmio::refused(h.last()))
        &&& h.len() > 65 ==> self.words@ == published(h)
        &&& h.len() > 64 ==> self.words@.len() == self.before@.len() + 1024
        &&& match self.stage {
            Stage::ReadRegister { at } => {
                &&& at < 64
                &&& self.val@.len() == 4
                &&& self.val@ == if at == 0 {
                    mmio::zeros(4)
                } else {
                    bytes_of(h[at - 1])
                }
                &&& self.words@ == self.before@ + Seq::new(
                    at as nat,
                    |i: int| mmio::le_word(bytes_of(h[i]), 0),
                )
            },
            Stage::ReadBlock => self.words@ == self.before@ + Seq::new(
                64,
                |i: int| mmio::le_word(bytes_of(h[i]), 0),
            ),
            Stage::SendConfig => self.words@ == self.before@ + config_words(h),
            Stage::SelectFeatures { high } => high ==> self.features == device_features_of(h[68]),
            Stage::ReadFeatures { high } => high ==> self.features == device_features_of(h[68]),
            Stage::SendFeatures { high } => {
                &&& self.val@.len() == 4
                &&& self.val@ == bytes_of(h.last())
                &&& high ==> self.features == device_features_of(h[68])
            },
            Stage::SelectQueue { index } => index < self.queues,
            Stage::ReadQueue { index } => index < self.queues,
            Stage::SendQueue { index } => {
                &&& index < self.queues
                &&& self.val@.len() == 4
                &&& self.val@ == bytes_of(h.last())
            },
            _ => true,
        }
    }

    /// The next step.
    pub open spec fn next(self) -> mmio::Act {
        publish_step(self.plan(), self.history())
    }

    /// The next step.
    pub fn action(&self) -> (r: Action)
        requires
            self.wf(),
        ensures
            r@ == self.next(),
    {
        match self.stage {
            Stage::ReadRegister { at } => Action::MmioRead {
                offset: 4 * at,
                data: copy_bytes(&self.val),
            },
            Stage::ReadBlock => {
                let data: Vec<u8> = vec![0u8; 3840];
                assert(data@ =~= mmio::zeros(3840));
                Action::MmioRead { offset: 256, data }
            },
            Stage::SendConfig => mmio::ask(
                VmIoctl::SetDeviceConfigData,
                self.version,
                IoctlArg::ConfigData(
                    VirtioConfigData {
                        label: self.label,
                        config_size: CONFIG_SPACE_SIZE,
                        config_data: mmio::copy_words(&self.words),
                    },
                ),
            ),
            Stage::SelectFeatures { high } => Action::MmioWrite {
                offset: VIRTIO_MMIO_DEVICE_FEATURES_SEL,
                data: select(if high { 1 } else { 0 }),
            },
            Stage::ReadFeatures { high } => Action::MmioRead {
                offset: VIRTIO_MMIO_DEVICE_FEATURES,
                data: select(if high { 1 } else { 0 }),
            },
            Stage::SendFeatures { high } => {
                let features: u32 = mmio::from_le_bytes(&self.val, 0);
                let arg = if high {
                    VirtioDevFeatures {
                        label: self.features.label,
                        reserved: self.features.reserved,
                        features_sel: 1,
                        features,
                    }
                } else {
                    VirtioDevFeatures {
                        label: self.label,
                        reserved: 0,
                        features_sel: 0,
                        features,
                    }
                };
                mmio::ask(VmIoctl::SetDeviceFeatures, self.version, IoctlArg::DevFeatures(arg))
            },
            Stage::SelectQueue { index } => {
                assert((3 * index) / 3 == index as int && (3 * index) % 3 == 0);
                Action::MmioWrite { offset: VIRTIO_MMIO_QUEUE_SEL, data: select(index) }
            },
            Stage::ReadQueue { index } => {
                assert((3 * index + 1) / 3 == index as int && (3 * index + 1) % 3 == 1);
                Action::MmioRead { offset: VIRTIO_MMIO_QUEUE_NUM_MAX, data: select(index) }
            },
            Stage::SendQueue { index } => {
                assert((3 * index + 2) / 3 == index as int && (3 * index + 2) % 3 == 2);
                mmio::ask(
                    VmIoctl::SetQueueNumMax,
                    self.version,
                    IoctlArg::QueueMax(
                        VirtioQueueMax {
                            label: self.label,
                            reserved: 0,
                            queue_sel: index,
                            queue_num_max: mmio::from_le_bytes(&self.val, 0),
                        },
                    ),
                )
            },
            Stage::Done => Action::Return(Ok(())),
            Stage::Failed => Action::Panic,
        }
    }

    /// Takes the reply to the step that `action` gave.
    pub fn advance(&mut self, reply: Reply)
        requires
            old(self).wf(),
            mmio::fits(old(self).next(), reply@),
        ensures
            final(self).wf(),
            final(self).plan() == old(self).plan(),
            final(self).history() == old(self).history().push(reply@),
    {
        let ghost h = self.history@;
        let ghost answer = reply@;
        let ghost after = h.push(answer);
        proof {
            assert(after.last() == answer);
            if let Stage::SelectQueue { index } = self.stage {
                assert((3 * index) / 3 == index as int && (3 * index) % 3 == 0);
            }
            if let Stage::ReadQueue { index } = self.stage {
                assert((3 * index + 1) / 3 == index as int && (3 * index + 1) % 3 == 1);
            }
            if let Stage::SendQueue { index } = self.stage {
                assert((3 * index + 2) / 3 == index as int && (3 * index + 2) % 3 == 2);
            }
        }
        let failed = match &reply {
            Reply::Ioctl { ret, .. } => *ret != 0,
            _ => false,
        };
        match reply {
            Reply::Read(data) => {
                if let Stage::ReadBlock = self.stage {
                    self.push_block(&data);
                } else {
                    if let Stage::ReadRegister { at } = self.stage {
                        let word: u32 = mmio::from_le_bytes(&data, 0);
                        self.words.push(word);
                        assert(self.words@ =~= self.before@ + Seq::new(
                            (at + 1) as nat,
                            |i: int| mmio::le_word(bytes_of(after[i]), 0),
                        ));
                    }
                    self.val = data;
                }
            },
            Reply::Ioctl { arg, .. } => match arg {
                IoctlArg::ConfigData(a) => {
                    self.words = a.config_data;
                },
                IoctlArg::DevFeatures(a) => {
                    self.features = a;
                },
                _ => {},
            },
            Reply::Written => {},
        }
        self.history = Ghost(after);
        if failed {
            self.stage = Stage::Failed;
            return ;
        }
        self.stage = match self.stage {
            Stage::ReadRegister { at } => if at < 63 {
                Stage::ReadRegister { at: at + 1 }
            } else {
                Stage::ReadBlock
            },
            Stage::ReadBlock => Stage::SendConfig,
            Stage::SendConfig => Stage::SelectFeatures { high: false },
            Stage::SelectFeatures { high } => Stage::ReadFeatures { high },
            Stage::ReadFeatures { high } => Stage::SendFeatures { high },
            Stage::SendFeatures { high: false } => Stage::SelectFeatures { high: true },
            Stage::SendFeatures { high: true } => if self.queues > 0 {
                Stage::SelectQueue { index: 0 }
            } else {
                Stage::Done
            },
            Stage::SelectQueue { index } => Stage::ReadQueue { index },
            Stage::ReadQueue { index } => Stage::SendQueue { index },
            Stage::SendQueue { index } => if index + 1 < self.queues {
                Stage::SelectQueue { index: index + 1 }
            } else {
                Stage::Done
            },
            Stage::Done => Stage::Done,
            Stage::Failed => Stage::Failed,
        };
    }

    /// Appends the words of the device configuration.
    fn push_block(&mut self, data: &Vec<u8>)
        requires
            data@.len() == 3840,
            old(self).words@ == old(self).before@ + Seq::new(
                64,
                |i: int| mmio::le_word(bytes_of(old(self).history@[i]), 0),
            ),
            old(self).history@.len() == 64,
        ensures
            final(self).words@ == old(self).before@ + config_words(
                old(self).history@.push(mmio::Answer::Read(data@)),
            ),
            final(self).label == old(self).label,
            final(self).version == old(self).version,
            final(self).queues == old(self).queues,
            final(self).val == old(self).val,
            final(self).features == old(self).features,
            final(self).stage == old(self).stage,
            final(self).before == old(self).before,
            final(self).history == old(self).history,
    {
        let ghost start = self.words@;
        let mut offset: usize = 0;
        while offset < 3840
            invariant
                data@.len() == 3840,
                offset <= 3840,
                offset % 4 == 0,
                self.words@ == start + Seq::new(
                    (offset / 4) as nat,
                    |i: int| mmio::le_word(data@, 4 * i),
                ),
                self.label == old(self).label,
                self.version == old(self).version,
                self.queues == old(self).queues,
                self.val == old(self).val,
                self.features == old(self).features,
                self.stage == old(self).stage,
                self.before == old(self).before,
                self.history == old(self).history,
            decreases 3840 - offset,
        {
            let word: u32 = mmio::from_le_bytes(data, offset);
            self.words.push(word);
            offset += 4;
            assert(self.words@ =~= start + Seq::new(
                (offset / 4) as nat,
                |i: int| mmio::le_word(data@, 4 * i),
            ));
        }
        proof {
            let after = old(self).history@.push(mmio::Answer::Read(data@));
            assert(self.words@ =~= old(self).before@ + config_words(after));
        }
    }

    /// The configuration space after the publishing, once that is over.
    pub fn into_cspace(self) -> (r: Vec<u32>)
        requires
            self.wf(),
            self.next() == mmio::Act::Return(Ok(())),
        ensures
            r@ == published(self.history()),
            r@.len() == self.plan().cspace.len() + 1024,
    {
        self.words
    }
}

/// Starts to publish the device with this label, and to append its
/// configuration to `config_space`.
pub fn init_config_space(
    config_space: Vec<u32>,
    label: u32,
    device: &MmioDevice,
    driver_variant: u8,
) -> (r: Publish)
    requires
        driver_variant == 1 || driver_variant == 2,
    ensures
        r.wf(),
        r.plan() == (PublishPlan {
            label,
            version: driver_variant,
            queues: device@.num_queues as u32,
            cspace: config_space@,
        }),
        r.history() == Seq::<mmio::Answer>::empty(),
{
    let val: Vec<u8> = vec![0u8; 4];
    proof {
        assert(val@ =~= mmio::zeros(4));
        assert(config_space@ =~= config_space@ + Seq::new(
            0,
            |i: int| mmio::le_word(bytes_of(Seq::<mmio::Answer>::empty()[i]), 0),
        ));
    }
    Publish {
        label,
        version: driver_variant,
        queues: device.num_queues as u32,
        val,
        before: Ghost(config_space@),
        words: config_space,
        features: VirtioDevFeatures { label, reserved: 0, features_sel: 0, features: 0 },
        stage: Stage::ReadRegister { at: 0 },
        history: Ghost(Seq::empty()),
    }
}

} // verus!
