//! Resetting a device when the driver asks for it.
use vstd::prelude::*;

use crate::ioctl;
use crate::ioctl::{IoctlArg, VirtioAckReset, VirtioEventfd, VmIoctl, ASSIGN_EVENTFD};
use crate::mmio;
use crate::mmio::{Action, Reply, VIRTIO_MMIO_STATUS};
use crate::wiring;

verus! {

/// Which device is reset, and for which version of the driver.
pub struct ResetPlan {
    pub label: u32,
    pub version: u8,
    /// The status that resets the device.
    pub status: u32,
    /// The descriptors of the events of its queues.
    pub queue_evts: Seq<i32>,
}

/// The step after the replies `h`.
///
/// The device gets the status that resets it, the events of its queues are
/// connected again in order, and the driver is told. The backend cannot go on
/// if a request returns anything but zero.
pub open spec fn reset_step(plan: ResetPlan, h: Seq<mmio::Answer>) -> mmio::Act {
    let n = h.len() as int;
    let queues = plan.queue_evts.len() as int;
    if n > 0 && mmio::refused(h.last()) {
        mmio::Act::Panic
    } else if n == 0 {
        mmio::write_word(VIRTIO_MMIO_STATUS, plan.status)
    } else if n <= queues {
        mmio::request(
            VmIoctl::IoEventFd,
            plan.version,
            ioctl::Arg::EventFd(
                wiring::queue_connection(plan.label, n - 1, plan.queue_evts[n - 1]),
            ),
        )
    } else if n == queues + 1 {
        mmio::request(
            VmIoctl::AckReset,
            plan.version,
            ioctl::Arg::AckReset(VirtioAckReset { label: plan.label, reserved: 0 }),
        )
    } else {
        mmio::Act::Return(Ok(()))
    }
}

/// The driver hears of the reset last: only after the device got its status
/// and the event of every queue was connected.
pub proof fn lemma_reset_is_confirmed_last(plan: ResetPlan, h: Seq<mmio::Answer>, arg: ioctl::Arg)
    requires
        reset_step(plan, h) == mmio::request(VmIoctl::AckReset, plan.version, arg),
        plan.version == 1 || plan.version == 2,
    ensures
        h.len() == plan.queue_evts.len() + 1,
        arg == ioctl::Arg::AckReset(VirtioAckReset { label: plan.label, reserved: 0 }),
{
}

/// A reset connects the queues exactly as they were connected at first.
pub proof fn lemma_reset_reconnects_the_queues(
    plan: ResetPlan,
    interrupt_evt: Option<i32>,
    h: Seq<mmio::Answer>,
    g: Seq<mmio::Answer>,
)
    requires
        0 < h.len() <= plan.queue_evts.len(),
        g.len() == h.len() - 1,
        !mmio::refused(h.last()),
        g.len() > 0 ==> !wiring::connection_failed(g.last()),
    ensures
        reset_step(plan, h) == wiring::wiring_step(
            wiring::WiringPlan {
                queue_evts: plan.queue_evts,
                interrupt_evt,
                label: plan.label,
                version: plan.version,
            },
            g,
        ),
{
}

/// What a reset sends while nothing fails: the status to its register, then
/// for each queue its own event under its own number, then the confirmation.
pub proof fn lemma_reset_names_what_it_resets(plan: ResetPlan, h: Seq<mmio::Answer>)
    requires
        plan.queue_evts.len() <= u32::MAX,
        h.len() > 0 ==> !(h.last() matches mmio::Answer::Ioctl { ret, .. } && ret != 0),
    ensures
        h.len() == 0 ==> (reset_step(plan, h) matches mmio::Act::MmioWrite { offset, data }
            && offset
            == 0x70 && data.len() == 4 && mmio::le_word(data, 0) == plan.status),
        0 < h.len() <= plan.queue_evts.len() ==> (reset_step(plan, h) matches mmio::Act::Ioctl {
            cmd,
            arg: ioctl::Arg::EventFd(a),
        } && {
            &&& cmd == ioctl::command(VmIoctl::IoEventFd, plan.version)
            &&& a.label == plan.label
            &&& a.flags == 1
            &&& a.queue_num == h.len() - 1
            &&& a.fd == plan.queue_evts[h.len() - 1]
        }),
        h.len() == plan.queue_evts.len() + 1 ==> (reset_step(plan, h) matches mmio::Act::Ioctl {
            cmd,
            arg: ioctl::Arg::AckReset(a),
        } && cmd == ioctl::command(VmIoctl::AckReset, plan.version) && a.label == plan.label
            && a.reserved == 0),
        h.len() > plan.queue_evts.len() + 1 ==> reset_step(plan, h) == mmio::Act::Return(Ok(())),
{
    mmio::lemma_word_bytes(plan.status, mmio::le_bytes(plan.status));
}

/// A reset ends the backend exactly if a request returns anything but zero.
pub proof fn lemma_refused_reset_ends_the_backend(plan: ResetPlan, h: Seq<mmio::Answer>)
    ensures
        reset_step(plan, h) is Panic <==> h.len() > 0 && (h.last() matches mmio::Answer::Ioctl {
            ret,
            ..
        } && ret != 0),
{
}

/// The reset of one device.
pub struct Reset {
    label: u32,
    version: u8,
    status: u32,
    queue_evts: Vec<i32>,
    /// How many replies came.
    at: u64,
    failed: bool,
    history: Ghost<Seq<mmio::Answer>>,
}

impl Reset {
    /// What is reset.
    pub closed spec fn plan(self) -> ResetPlan {
        ResetPlan {
            label: self.label,
            version: self.version,
            status: self.status,
            queue_evts: self.queue_evts@,
        }
    }

    /// The replies so far.
    pub closed spec fn history(self) -> Seq<mmio::Answer> {
        self.history@
    }

    pub closed spec fn wf(self) -> bool {
        &&& self.version == 1 || self.version == 2
        &&& self.queue_evts@.len() <= u32::MAX
        &&& self.at == self.history@.len()
        &&& self.at <= self.queue_evts@.len() + 2
        &&& self.failed == (self.at > 0 && mmio::refused(self.history@.last()))
    }

    /// The next step.
    pub open spec fn next(self) -> mmio::Act {
        reset_step(self.plan(), self.history())
    }

    /// The next step.
    pub fn action(&self) -> (r: Action)
        requires
            self.wf(),
        ensures
            r@ == self.next(),
    {
        let queues: u64 = self.queue_evts.len() as u64;
        if self.failed {
            Action::Panic
        } else if self.at == 0 {
            mmio::write(VIRTIO_MMIO_STATUS, self.status)
        } else if self.at <= queues {
            let index: u64 = self.at - 1;
            let fd: i32 = self.queue_evts[index as usize];
            mmio::ask(
                VmIoctl::IoEventFd,
                self.version,
                IoctlArg::EventFd(
                    VirtioEventfd {
                        label: self.label,
                        flags: ASSIGN_EVENTFD,
                        queue_num: index as u32,
                        fd,
                    },
                ),
            )
        } else if self.at == queues + 1 {
            mmio::ask(
                VmIoctl::AckReset,
                self.version,
                IoctlArg::AckReset(VirtioAckReset { label: self.label, reserved: 0 }),
            )
        } else {
            Action::Return(Ok(()))
        }
    }

    /// Takes the reply to the step that `action` gave.
    pub fn advance(&mut self, reply: Reply)
        requires
            old(self).wf(),
            mmio::fits(old(self).next(), reply@),
        ensures
            final(self).wf(),
            final(self).plan() == old(self).plan(),
            final(self).history() == old(self).history().push(reply@),
    {
        let ghost before = self.history@;
        assert(before.push(reply@).last() == reply@);
        self.history = Ghost(before.push(reply@));
        self.at = self.at + 1;
        self.failed = match reply {
            Reply::Ioctl { ret, .. } => ret != 0,
            _ => false,
        };
    }
}

/// Starts to reset the device with this label.
pub fn handle_device_reset(
    label: u32,
    queue_evts: &Vec<i32>,
    status: u32,
    driver_variant: u8,
) -> (r: Reset)
    requires
        queue_evts@.len() <= u32::MAX,
        driver_variant == 1 || driver_variant == 2,
    ensures
        r.wf(),
        r.plan() == (ResetPlan { label, version: driver_variant, status, queue_evts: queue_evts@ }),
        r.history() == Seq::<mmio::Answer>::empty(),
{
    Reset {
        label,
        version: driver_variant,
        status,
        queue_evts: queue_evts.clone(),
        at: 0,
        failed: false,
        history: Ghost(Seq::empty()),
    }
}

} // verus!
