//! Bringing a device up when its driver is ready: the features that the driver
//! accepted and the queues that it set up are copied into the registers of the
//! device.
use vstd::prelude::*;

use crate::ioctl;
use crate::ioctl::{IoctlArg, VirtioConfigData, VirtioDriverFeatures, VirtioQueueInfo, VmIoctl};
use crate::mmio;
use crate::mmio::{
    Action, Reply, CONFIG_SPACE_SIZE, CONFIG_SPACE_WORDS, VIRTIO_MMIO_DRIVER_FEATURES,
    VIRTIO_MMIO_DRIVER_FEATURES_SEL, VIRTIO_MMIO_QUEUE_AVAIL_HIGH, VIRTIO_MMIO_QUEUE_AVAIL_LOW,
    VIRTIO_MMIO_QUEUE_DESC_HIGH, VIRTIO_MMIO_QUEUE_DESC_LOW, VIRTIO_MMIO_QUEUE_NUM,
    VIRTIO_MMIO_QUEUE_READY, VIRTIO_MMIO_QUEUE_SEL, VIRTIO_MMIO_QUEUE_USED_HIGH,
    VIRTIO_MMIO_QUEUE_USED_LOW, VIRTIO_MMIO_STATUS, VIRTIO_MMIO_STATUS_IDX,
};

verus! {

/// Which device is brought up, and for which version of the driver.
pub struct DriverOkPlan {
    pub label: u32,
    pub version: u8,
    pub queues: u32,
    /// The configuration space before.
    pub cspace: Seq<u32>,
}

/// The registers of a queue in the order in which they are written, and their
/// values.
pub open spec fn queue_registers(q: VirtioQueueInfo) -> Seq<(u64, u32)> {
    seq![
        (VIRTIO_MMIO_QUEUE_SEL, q.queue_sel),
        (VIRTIO_MMIO_QUEUE_NUM, q.queue_num),
        (VIRTIO_MMIO_QUEUE_DESC_LOW, mmio::low_half(q.queue_desc)),
        (VIRTIO_MMIO_QUEUE_DESC_HIGH, mmio::high_half(q.queue_desc)),
        (VIRTIO_MMIO_QUEUE_AVAIL_LOW, mmio::low_half(q.queue_driver)),
        (VIRTIO_MMIO_QUEUE_AVAIL_HIGH, mmio::high_half(q.queue_driver)),
        (VIRTIO_MMIO_QUEUE_USED_LOW, mmio::low_half(q.queue_device)),
        (VIRTIO_MMIO_QUEUE_USED_HIGH, mmio::high_half(q.queue_device)),
        (VIRTIO_MMIO_QUEUE_READY, q.queue_ready),
    ]
}

/// The configuration space that the reply holds.
pub open spec fn config_of(reply: mmio::Answer) -> Seq<u32> {
    reply->Ioctl_arg->ConfigData_data
}

/// The features that the reply holds.
pub open spec fn features_of(reply: mmio::Answer) -> VirtioDriverFeatures {
    reply->Ioctl_arg->DriverFeatures_0
}

/// The queue that the reply holds.
pub open spec fn queue_of(reply: mmio::Answer) -> VirtioQueueInfo {
    reply->Ioctl_arg->QueueInfo_0
}

/// The question how the driver set up the queue with index `k`.
pub open spec fn queue_question(label: u32, k: int) -> VirtioQueueInfo {
    VirtioQueueInfo {
        label,
        queue_sel: k as u32,
        queue_num: 0,
        queue_ready: 0,
        queue_desc: 0,
        queue_driver: 0,
        queue_device: 0,
    }
}

/// The step after the replies `h`.
///
/// The configuration space is fetched; then the lower and the upper word of
/// the features, each with the register that selects it. The upper word goes
/// to the selecting register too. Each queue is then fetched and written to
/// its nine registers. Last the status from the configuration space is
/// written, and the driver is told. The backend cannot go on if a request
/// returns anything but zero.
pub open spec fn driver_ok_step(plan: DriverOkPlan, h: Seq<mmio::Answer>) -> mmio::Act {
    let n = h.len() as int;
    let queues = plan.queues as int;
    if n > 0 && mmio::refused(h.last()) {
        mmio::Act::Panic
    } else if n == 0 {
        mmio::request(
            VmIoctl::GetDriverConfigData,
            plan.version,
            ioctl::Arg::ConfigData {
                label: plan.label,
                config_size: CONFIG_SPACE_SIZE,
                data: plan.cspace,
            },
        )
    } else if n == 1 {
        mmio::request(
            VmIoctl::GetDriverFeatures,
            plan.version,
            ioctl::Arg::DriverFeatures(
                VirtioDriverFeatures {
                    label: plan.label,
                    reserved: 0,
                    features_sel: 0,
                    features: 0,
                },
            ),
        )
    } else if n == 2 {
        mmio::write_word(VIRTIO_MMIO_DRIVER_FEATURES_SEL, 0)
    } else if n == 3 {
        mmio::write_word(VIRTIO_MMIO_DRIVER_FEATURES, features_of(h[1]).features)
    } else if n == 4 {
        mmio::request(
            VmIoctl::GetDriverFeatures,
            plan.version,
            ioctl::Arg::DriverFeatures(
                VirtioDriverFeatures { features_sel: 1, ..features_of(h[1]) },
            ),
        )
    } else if n == 5 {
        mmio::write_word(VIRTIO_MMIO_DRIVER_FEATURES_SEL, 1)
    } else if n == 6 {
        mmio::write_word(VIRTIO_MMIO_DRIVER_FEATURES_SEL, features_of(h[4]).features)
    } else if n < 7 + 10 * queues {
        let k = (n - 7) / 10;
        let j = (n - 7) % 10;
        if j == 0 {
            mmio::request(
                VmIoctl::GetQueueInfo,
                plan.version,
                ioctl::Arg::QueueInfo(queue_question(plan.label, k)),
            )
        } else {
            let (offset, value) = queue_registers(queue_of(h[7 + 10 * k]))[j - 1];
            mmio::write_word(offset, value)
        }
    } else if n == 7 + 10 * queues {
        mmio::write_word(VIRTIO_MMIO_STATUS, config_of(h[0])[VIRTIO_MMIO_STATUS_IDX as int])
    } else if n == 8 + 10 * queues {
        mmio::request(
            VmIoctl::AckDriverOk,
            plan.version,
            ioctl::Arg::Value(plan.label as u64),
        )
    } else {
        mmio::Act::Return(Ok(()))
    }
}

/// The configuration space after the replies `h`.
pub open spec fn cspace_after(plan: DriverOkPlan, h: Seq<mmio::Answer>) -> Seq<u32> {
    if h.len() == 0 {
        plan.cspace
    } else {
        config_of(h[0])
    }
}

/// The device gets its status only when every queue was written.
pub proof fn lemma_status_comes_after_the_queues(
    plan: DriverOkPlan,
    h: Seq<mmio::Answer>,
    data: Seq<u8>,
)
    requires
        driver_ok_step(plan, h) == (mmio::Act::MmioWrite { offset: VIRTIO_MMIO_STATUS, data }),
    ensures
        h.len() == 7 + 10 * plan.queues,
        data == mmio::le_bytes(cspace_after(plan, h)[VIRTIO_MMIO_STATUS_IDX as int]),
{
    let n = h.len() as int;
    if 7 <= n < 7 + 10 * plan.queues {
        let j = (n - 7) % 10;
        let q = queue_of(h[7 + 10 * ((n - 7) / 10)]);
        assert(j == 0 || j == 1 || j == 2 || j == 3 || j == 4 || j == 5 || j == 6 || j == 7 || j
            == 8 || j == 9);
    }
}

/// The driver is told only after the device got its status.
pub proof fn lemma_driver_is_told_last(plan: DriverOkPlan, h: Seq<mmio::Answer>, arg: ioctl::Arg)
    requires
        driver_ok_step(plan, h) == mmio::request(VmIoctl::AckDriverOk, plan.version, arg),
        plan.version == 1 || plan.version == 2,
    ensures
        h.len() == 8 + 10 * plan.queues,
        arg == ioctl::Arg::Value(plan.label as u64),
{
}

/// A run that ends well answered every queue, and the registers of each queue
/// hold what the driver said of it: step by step, in order, and with both
/// halves of each address.
pub proof fn lemma_queue_is_copied(plan: DriverOkPlan, h: Seq<mmio::Answer>, k: int, j: int)
    requires
        driver_ok_step(plan, h) == mmio::Act::Return(Ok(())),
        forall|i: int|
            0 <= i < h.len() ==> mmio::fits(#[trigger] driver_ok_step(plan, h.take(i)), h[i]),
        0 <= k < plan.queues,
        0 <= j < 9,
    ensures
        h.len() == 9 + 10 * plan.queues,
        driver_ok_step(plan, h.take(7 + 10 * k)) == mmio::request(
            VmIoctl::GetQueueInfo,
            plan.version,
            ioctl::Arg::QueueInfo(queue_question(plan.label, k)),
        ),
        driver_ok_step(plan, h.take(8 + 10 * k + j)) == mmio::write_word(
            queue_registers(queue_of(h[7 + 10 * k]))[j].0,
            queue_registers(queue_of(h[7 + 10 * k]))[j].1,
        ),
{
    let queues = plan.queues as int;
    if h.len() > 9 + 10 * queues {
        assert(mmio::fits(driver_ok_step(plan, h.take(9 + 10 * queues)), h[9 + 10 * queues]));
    }
    let a = 7 + 10 * k;
    assert(mmio::fits(driver_ok_step(plan, h.take(a)), h[a]));
    let b = 8 + 10 * k + j;
    assert(mmio::fits(driver_ok_step(plan, h.take(b)), h[b]));
    assert((b - 7) / 10 == k && (b - 7) % 10 == j + 1);
    assert(h.take(b)[a] == h[a]);
}

/// A word at a register: what a write of four bytes says.
pub open spec fn writes(act: mmio::Act, offset: int, value: int) -> bool {
    act matches mmio::Act::MmioWrite { offset: o, data } && o == offset && data.len() == 4
        && data[0]
        + data[1] * 0x100 + data[2] * 0x1_0000 + data[3] * 0x100_0000 == value
}

/// Before the queues, the driver is asked for the configuration space and for
/// both words of the features it accepted, and each word is written as it
/// was answered.
pub proof fn lemma_features_are_copied(plan: DriverOkPlan, h: Seq<mmio::Answer>)
    requires
        h.len() > 0 ==> !(h.last() matches mmio::Answer::Ioctl { ret, .. } && ret != 0),
        h.len() > 1 ==> (h[1] matches mmio::Answer::Ioctl { arg, .. } && arg is DriverFeatures),
        h.len() > 4 ==> (h[4] matches mmio::Answer::Ioctl { arg, .. } && arg is DriverFeatures),
    ensures
        h.len() == 0 ==> (driver_ok_step(plan, h) matches mmio::Act::Ioctl {
            cmd,
            arg: ioctl::Arg::ConfigData { label, config_size, data },
        } && cmd == ioctl::command(VmIoctl::GetDriverConfigData, plan.version) && label
            == plan.label && config_size == 4096 && data == plan.cspace),
        h.len() == 1 ==> (driver_ok_step(plan, h) matches mmio::Act::Ioctl {
            cmd,
            arg: ioctl::Arg::DriverFeatures(a),
        } && cmd == ioctl::command(VmIoctl::GetDriverFeatures, plan.version) && a.label
            == plan.label && a.reserved == 0 && a.features_sel == 0 && a.features == 0),
        h.len() == 2 ==> writes(driver_ok_step(plan, h), 0x24, 0),
        h.len() == 3 ==> (h[1] matches mmio::Answer::Ioctl {
            arg: ioctl::Arg::DriverFeatures(a),
            ..
        } && writes(driver_ok_step(plan, h), 0x20, a.features as int)),
        h.len() == 4 ==> (h[1] matches mmio::Answer::Ioctl {
            arg: ioctl::Arg::DriverFeatures(a),
            ..
        } && (driver_ok_step(plan, h) matches mmio::Act::Ioctl {
            cmd,
            arg: ioctl::Arg::DriverFeatures(b),
        } && cmd == ioctl::command(VmIoctl::GetDriverFeatures, plan.version) && b.label == a.label
            && b.reserved == a.reserved && b.features_sel == 1 && b.features == a.features)),
        h.len() == 5 ==> writes(driver_ok_step(plan, h), 0x24, 1),
        h.len() == 6 ==> (h[4] matches mmio::Answer::Ioctl {
            arg: ioctl::Arg::DriverFeatures(a),
            ..
        } && writes(driver_ok_step(plan, h), 0x24, a.features as int)),
{
    mmio::lemma_lowest_byte_first(0, mmio::le_bytes(0), 0);
    mmio::lemma_lowest_byte_first(1, mmio::le_bytes(1), 0);
    mmio::lemma_lowest_byte_first(features_of(h[1]).features, mmio::le_bytes(0), 0);
    mmio::lemma_lowest_byte_first(features_of(h[4]).features, mmio::le_bytes(0), 0);
}

/// Queue `k` is asked for by its own number, and what the driver answers is
/// written to the registers of a queue: its number, its size, the two words of
/// each of its three addresses, and last whether it is ready.
pub proof fn lemma_each_queue_is_asked_for_and_written(
    plan: DriverOkPlan,
    h: Seq<mmio::Answer>,
    k: int,
    q: VirtioQueueInfo,
)
    requires
        0 <= k < plan.queues,
        7 + 10 * k <= h.len() < 17 + 10 * k,
        !(h.last() matches mmio::Answer::Ioctl { ret, .. } && ret != 0),
        h.len() > 7 + 10 * k ==> (h[7 + 10 * k] matches mmio::Answer::Ioctl { arg, .. } && arg
            == ioctl::Arg::QueueInfo(q)),
    ensures
        ({
            let step = driver_ok_step(plan, h);
            let j = h.len() - 7 - 10 * k;
            &&& j == 0
                ==> (step matches mmio::Act::Ioctl { cmd, arg: ioctl::Arg::QueueInfo(a) } && {
                &&& cmd == ioctl::command(VmIoctl::GetQueueInfo, plan.version)
                &&& a.label == plan.label
                &&& a.queue_sel == k
                &&& a.queue_num == 0 && a.queue_ready == 0
                &&& a.queue_desc == 0 && a.queue_driver == 0 && a.queue_device == 0
            })
            &&& j == 1 ==> writes(step, 0x30, q.queue_sel as int)
            &&& j == 2 ==> writes(step, 0x38, q.queue_num as int)
            &&& j == 3 ==> writes(step, 0x80, q.queue_desc as int % 0x1_0000_0000)
            &&& j == 4 ==> writes(step, 0x84, q.queue_desc as int / 0x1_0000_0000)
            &&& j == 5 ==> writes(step, 0x90, q.queue_driver as int % 0x1_0000_0000)
            &&& j == 6 ==> writes(step, 0x94, q.queue_driver as int / 0x1_0000_0000)
            &&& j == 7 ==> writes(step, 0xa0, q.queue_device as int % 0x1_0000_0000)
            &&& j == 8 ==> writes(step, 0xa4, q.queue_device as int / 0x1_0000_0000)
            &&& j == 9 ==> writes(step, 0x44, q.queue_ready as int)
        }),
{
    let n = h.len() as int;
    let j = n - 7 - 10 * k;
    assert((n - 7) / 10 == k && (n - 7) % 10 == j);
    let none = mmio::le_bytes(0);
    mmio::lemma_lowest_byte_first(q.queue_sel, none, 0);
    mmio::lemma_lowest_byte_first(q.queue_num, none, 0);
    mmio::lemma_lowest_byte_first(mmio::low_half(q.queue_desc), none, 0);
    mmio::lemma_lowest_byte_first(mmio::high_half(q.queue_desc), none, 0);
    mmio::lemma_lowest_byte_first(mmio::low_half(q.queue_driver), none, 0);
    mmio::lemma_lowest_byte_first(mmio::high_half(q.queue_driver), none, 0);
    mmio::lemma_lowest_byte_first(mmio::low_half(q.queue_device), none, 0);
    mmio::lemma_lowest_byte_first(mmio::high_half(q.queue_device), none, 0);
    mmio::lemma_lowest_byte_first(q.queue_ready, none, 0);
}

/// A complete run asks for every queue exactly once, in order: of two requests
/// for a queue the later names a higher number, and every number up to the
/// count of the queues is named.
pub proof fn lemma_every_queue_is_asked_for_once(plan: DriverOkPlan, h: Seq<mmio::Answer>, k: int)
    requires
        driver_ok_step(plan, h) == mmio::Act::Return(Ok(())),
        forall|i: int|
            0 <= i < h.len() ==> mmio::fits(#[trigger] driver_ok_step(plan, h.take(i)), h[i]),
        0 <= k < plan.queues,
    ensures
        h.len() == 9 + 10 * plan.queues,
        driver_ok_step(plan, h.take(7 + 10 * k)) matches mmio::Act::Ioctl {
            arg: ioctl::Arg::QueueInfo(a),
            ..
        } && a.label == plan.label && a.queue_sel == k,
        forall|i: int|
            0 <= i < h.len()
                && (#[trigger] driver_ok_step(plan, h.take(i)) matches mmio::Act::Ioctl {
                arg: ioctl::Arg::QueueInfo(a),
                ..
            } && a.queue_sel == k) ==> i == 7 + 10 * k,
{
    lemma_queue_is_copied(plan, h, k, 0);
    assert forall|i: int|
        0 <= i < h.len() && (#[trigger] driver_ok_step(plan, h.take(i)) matches mmio::Act::Ioctl {
            arg: ioctl::Arg::QueueInfo(a),
            ..
        } && a.queue_sel == k) implies i == 7 + 10 * k by {
        assert(mmio::fits(driver_ok_step(plan, h.take(i)), h[i]));
        assert((i - 7) % 10 == 0);
    }
}

/// After the queues the device gets the status that the configuration space
/// of the driver holds, then the driver is told the label of the device, and
/// then the run is over. The space is the one the driver gave.
pub proof fn lemma_bring_up_ends_with_the_status(plan: DriverOkPlan, h: Seq<mmio::Answer>)
    requires
        h.len() >= 7 + 10 * plan.queues,
        !(h.last() matches mmio::Answer::Ioctl { ret, .. } && ret != 0),
        h[0] matches mmio::Answer::Ioctl { arg, .. } && arg is ConfigData,
    ensures
        h[0] matches mmio::Answer::Ioctl { arg: ioctl::Arg::ConfigData { data, .. }, .. } && {
            &&& h.len() == 7 + 10 * plan.queues ==> writes(
                driver_ok_step(plan, h),
                0x70,
                data[28] as int,
            )
            &&& cspace_after(plan, h) == data
        },
        h.len() == 8 + 10 * plan.queues ==> (driver_ok_step(plan, h) matches mmio::Act::Ioctl {
            cmd,
            arg: ioctl::Arg::Value(v),
        } && cmd == ioctl::command(VmIoctl::AckDriverOk, plan.version) && v == plan.label),
        h.len() > 8 + 10 * plan.queues ==> driver_ok_step(plan, h) == mmio::Act::Return(Ok(())),
{
    mmio::lemma_lowest_byte_first(config_of(h[0])[28], mmio::le_bytes(0), 0);
}

/// A bring-up ends the backend exactly if a request returns anything but zero.
pub proof fn lemma_refused_bring_up_ends_the_backend(plan: DriverOkPlan, h: Seq<mmio::Answer>)
    ensures
        driver_ok_step(plan, h) is Panic <==> h.len() > 0 && (h.last() matches mmio::Answer::Ioctl {
            ret,
            ..
        } && ret != 0),
{
}

/// Where the bring-up stands.
#[derive(Clone, Copy)]
enum Stage {
    FetchConfig,
    FetchFeatures { high: bool },
    SelectFeatures { high: bool },
    WriteFeatures { high: bool },
    FetchQueue { index: u32 },
    WriteQueue { index: u32, at: u8 },
    WriteStatus,
    Confirm,
    Done,
    Failed,
}

/// The bring-up of one device.
pub struct DriverOk {
    label: u32,
    version: u8,
    queues: u32,
    cspace: Vec<u32>,
    features: VirtioDriverFeatures,
    queue: VirtioQueueInfo,
    stage: Stage,
    before: Ghost<Seq<u32>>,
    history: Ghost<Seq<mmio::Answer>>,
}

impl DriverOk {
    /// What is brought up.
    pub closed spec fn plan(self) -> DriverOkPlan {
        DriverOkPlan {
            label: self.label,
            version: self.version,
            queues: self.queues,
            cspace: self.before@,
        }
    }

    /// The replies so far.
    pub closed spec fn history(self) -> Seq<mmio::Answer> {
        self.history@
    }

    /// How many replies came before this stage.
    spec fn replies(self) -> int {
        let queues = self.queues as int;
        match self.stage {
            Stage::FetchConfig => 0,
            Stage::FetchFeatures { high } => if high { 4 } else { 1 },
            Stage::SelectFeatures { high } => if high { 5 } else { 2 },
            Stage::WriteFeatures { high } => if high { 6 } else { 3 },
            Stage::FetchQueue { index } => 7 + 10 * index,
            Stage::WriteQueue { index, at } => 8 + 10 * index + at,
            Stage::WriteStatus => 7 + 10 * queues,
            Stage::Confirm => 8 + 10 * queues,
            Stage::Done => 9 + 10 * queues,
            Stage::Failed => self.history@.len() as int,
        }
    }

    pub closed spec fn wf(self) -> bool {
        let h = self.history@;
        &&& self.version == 1 || self.version == 2
        &&& self.before@.len() >= CONFIG_SPACE_WORDS
        &&& self.cspace@.len() == self.before@.len()
        &&& self.cspace@ == cspace_after(self.plan(), h)
        &&& h.len() == self.replies()
        &&& (self.stage is Failed) == (h.len() > 0 && mmio::refused(h.last()))
        &&& match self.stage {
            Stage::FetchFeatures { high } => high ==> self.features == features_of(h[1]),
            Stage::SelectFeatures { high } => self.features == features_of(
                if high { h[4] } else { h[1] },
            ),
            Stage::WriteFeatures { high } => self.features == features_of(
                if high { h[4] } else { h[1] },
            ),
            Stage::FetchQueue { index } => index < self.queues,
            Stage::WriteQueue { index, at } => index < self.queues && at < 9 && self.queue
                == queue_of(h[7 + 10 * index]),
            _ => true,
        }
    }

    /// The next step.
    pub open spec fn next(self) -> mmio::Act {
        driver_ok_step(self.plan(), self.history())
    }

    /// The next step.
    pub fn action(&self) -> (r: Action)
        requires
            self.wf(),
        ensures
            r@ == self.next(),
    {
        match self.stage {
            Stage::FetchConfig => mmio::ask(
                VmIoctl::GetDriverConfigData,
                self.version,
                IoctlArg::ConfigData(
                    VirtioConfigData {
                        label: self.label,
                        config_size: CONFIG_SPACE_SIZE,
                        config_data: mmio::copy_words(&self.cspace),
                    },
                ),
            ),
            Stage::FetchFeatures { high } => {
                let arg = if high {
                    VirtioDriverFeatures {
                        label: self.features.label,
                        reserved: self.features.reserved,
                        features_sel: 1,
                        features: self.features.features,
                    }
                } else {
                    VirtioDriverFeatures {
                        label: self.label,
                        reserved: 0,
                        features_sel: 0,
                        features: 0,
                    }
                };
                mmio::ask(VmIoctl::GetDriverFeatures, self.version, IoctlArg::DriverFeatures(arg))
            },
            Stage::SelectFeatures { high } => mmio::write(
                VIRTIO_MMIO_DRIVER_FEATURES_SEL,
                if high { 1 } else { 0 },
            ),
            Stage::WriteFeatures { high } => mmio::write(
                if high { VIRTIO_MMIO_DRIVER_FEATURES_SEL } else { VIRTIO_MMIO_DRIVER_FEATURES },
                self.features.features,
            ),
            Stage::FetchQueue { index } => {
                assert((7 + 10 * index - 7) / 10 == index && (7 + 10 * index - 7) % 10 == 0);
                mmio::ask(
                    VmIoctl::GetQueueInfo,
                    self.version,
                    IoctlArg::QueueInfo(
                        VirtioQueueInfo {
                            label: self.label,
                            queue_sel: index,
                            queue_num: 0,
                            queue_ready: 0,
                            queue_desc: 0,
                            queue_driver: 0,
                            queue_device: 0,
                        },
                    ),
                )
            },
            Stage::WriteQueue { index, at } => {
                assert((1 + 10 * index + at) / 10 == index as int && (1 + 10 * index + at) % 10
                    == at + 1);
                let q = self.queue;
                match at {
                    0 => mmio::write(VIRTIO_MMIO_QUEUE_SEL, q.queue_sel),
                    1 => mmio::write(VIRTIO_MMIO_QUEUE_NUM, q.queue_num),
                    2 => mmio::write(VIRTIO_MMIO_QUEUE_DESC_LOW, mmio::low(q.queue_desc)),
                    3 => mmio::write(VIRTIO_MMIO_QUEUE_DESC_HIGH, mmio::high(q.queue_desc)),
                    4 => mmio::write(VIRTIO_MMIO_QUEUE_AVAIL_LOW, mmio::low(q.queue_driver)),
                    5 => mmio::write(VIRTIO_MMIO_QUEUE_AVAIL_HIGH, mmio::high(q.queue_driver)),
                    6 => mmio::write(VIRTIO_MMIO_QUEUE_USED_LOW, mmio::low(q.queue_device)),
                    7 => mmio::write(VIRTIO_MMIO_QUEUE_USED_HIGH, mmio::high(q.queue_device)),
                    _ => mmio::write(VIRTIO_MMIO_QUEUE_READY, q.queue_ready),
                }
            },
            Stage::WriteStatus => mmio::write(
                VIRTIO_MMIO_STATUS,
                self.cspace[VIRTIO_MMIO_STATUS_IDX],
            ),
            Stage::Confirm => mmio::ask(
                VmIoctl::AckDriverOk,
                self.version,
                IoctlArg::Value(self.label as u64),
            ),
            Stage::Done => Action::Return(Ok(())),
            Stage::Failed => Action::Panic,
        }
    }

    /// Takes the reply to the step that `action` gave.
    pub fn advance(&mut self, reply: Reply)
        requires
            old(self).wf(),
            mmio::fits(old(self).next(), reply@),
        ensures
            final(self).wf(),
            final(self).plan() == old(self).plan(),
            final(self).history() == old(self).history().push(reply@),
    {
        let ghost h = self.history@;
        let ghost answer = reply@;
        proof {
            assert(h.push(answer).last() == answer);
            if let Stage::FetchQueue { index } = self.stage {
                assert((7 + 10 * index - 7) / 10 == index && (7 + 10 * index - 7) % 10 == 0);
            }
            if let Stage::WriteQueue { index, at } = self.stage {
                assert((1 + 10 * index + at) / 10 == index as int && (1 + 10 * index + at) % 10
                    == at + 1);
            }
        }
        let failed = match &reply {
            Reply::Ioctl { ret, .. } => *ret != 0,
            _ => false,
        };
        if let Reply::Ioctl { arg, .. } = reply {
            match arg {
                IoctlArg::ConfigData(a) => {
                    self.cspace = a.config_data;
                },
                IoctlArg::DriverFeatures(a) => {
                    self.features = a;
                },
                IoctlArg::QueueInfo(a) => {
                    self.queue = a;
                },
                _ => {},
            }
        }
        self.history = Ghost(h.push(answer));
        if failed {
            self.stage = Stage::Failed;
            return ;
        }
        self.stage = match self.stage {
            Stage::FetchConfig => Stage::FetchFeatures { high: false },
            Stage::FetchFeatures { high } => Stage::SelectFeatures { high },
            Stage::SelectFeatures { high } => Stage::WriteFeatures { high },
            Stage::WriteFeatures { high: false } => Stage::FetchFeatures { high: true },
            Stage::WriteFeatures { high: true } => if self.queues > 0 {
                Stage::FetchQueue { index: 0 }
            } else {
                Stage::WriteStatus
            },
            Stage::FetchQueue { index } => Stage::WriteQueue { index, at: 0 },
            Stage::WriteQueue { index, at } => if at < 8 {
                Stage::WriteQueue { index, at: at + 1 }
            } else if index + 1 < self.queues {
                Stage::FetchQueue { index: index + 1 }
            } else {
                Stage::WriteStatus
            },
            Stage::WriteStatus => Stage::Confirm,
            Stage::Confirm => Stage::Done,
            Stage::Done => Stage::Done,
            Stage::Failed => Stage::Failed,
        };
    }

    /// The configuration space after the bring-up.
    pub fn into_cspace(self) -> (r: Vec<u32>)
        requires
            self.wf(),
        ensures
            r@ == cspace_after(self.plan(), self.history()),
            r@.len() == self.plan().cspace.len(),
    {
        self.cspace
    }
}

/// Starts to bring up the device with this label.
pub fn handle_driver_ok(label: u32, queues: u32, cspace: Vec<u32>, driver_variant: u8) -> (r:
    DriverOk)
    requires
        cspace@.len() >= CONFIG_SPACE_WORDS,
        driver_variant == 1 || driver_variant == 2,
    ensures
        r.wf(),
        r.plan() == (DriverOkPlan { label, version: driver_variant, queues, cspace: cspace@ }),
        r.history() == Seq::<mmio::Answer>::empty(),
{
    DriverOk {
        label,
        version: driver_variant,
        queues,
        before: Ghost(cspace@),
        cspace,
        features: VirtioDriverFeatures { label, reserved: 0, features_sel: 0, features: 0 },
        queue: VirtioQueueInfo {
            label,
            queue_sel: 0,
            queue_num: 0,
            queue_ready: 0,
            queue_desc: 0,
            queue_driver: 0,
            queue_device: 0,
        },
        stage: Stage::FetchConfig,
        history: Ghost(Seq::empty()),
    }
}

} // verus!
