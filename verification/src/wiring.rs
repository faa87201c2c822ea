//! Connecting a device to the driver: one event for each of its queues, then
//! its interrupt.
use vstd::prelude::*;

use crate::error;
use crate::error::BackendError;
use crate::ioctl;
use crate::ioctl::{IoctlArg, VirtioEventfd, VirtioIrqfd, VmIoctl, ASSIGN_EVENTFD, VBE_ASSIGN_IRQFD};
use crate::mmio;
use crate::mmio::{Action, MmioDevice, Reply};

verus! {

/// What is connected, and for which version of the driver.
pub struct WiringPlan {
    pub queue_evts: Seq<i32>,
    pub interrupt_evt: Option<i32>,
    pub label: u32,
    pub version: u8,
}

/// The step after the replies `h`.
///
/// The events of the queues are connected in order, and then the interrupt. A
/// request that returns less than zero ends it with an error. A device must
/// have an event for its interrupt.
pub open spec fn wiring_step(plan: WiringPlan, h: Seq<mmio::Answer>) -> mmio::Act {
    let n = h.len() as int;
    let queues = plan.queue_evts.len() as int;
    if n > 0 && connection_failed(h.last()) {
        mmio::Act::Return(
            Err(
                error::Failure::System {
                    err: if n <= queues {
                        "ioeventfd ioctl failed"@
                    } else {
                        "irqfd ioctl failed"@
                    },
                    val: h.last()->error,
                },
            ),
        )
    } else if n < queues {
        mmio::request(
            VmIoctl::IoEventFd,
            plan.version,
            ioctl::Arg::EventFd(queue_connection(plan.label, n, plan.queue_evts[n])),
        )
    } else if n == queues {
        match plan.interrupt_evt {
            Some(fd) => mmio::request(
                VmIoctl::IrqFd,
                plan.version,
                ioctl::Arg::IrqFd(
                    VirtioIrqfd { label: plan.label, flags: 1, fd, reserved: 0 },
                ),
            ),
            None => mmio::Act::Panic,
        }
    } else {
        mmio::Act::Return(Ok(()))
    }
}

/// Connecting the event `fd` to the queue with index `n`.
pub open spec fn queue_connection(label: u32, n: int, fd: i32) -> VirtioEventfd {
    VirtioEventfd { label, flags: 1, queue_num: n as u32, fd }
}

/// Whether the driver refused to connect: it returned less than zero.
pub open spec fn connection_failed(reply: mmio::Answer) -> bool {
    reply matches mmio::Answer::Ioctl { ret, .. } && ret < 0
}

/// A device that is connected without an error has every queue connected, and
/// in order: the run is over after exactly one request per queue and one for
/// the interrupt.
pub proof fn lemma_every_queue_is_connected(plan: WiringPlan, h: Seq<mmio::Answer>)
    requires
        wiring_step(plan, h) == mmio::Act::Return(Ok(())),
        forall|i: int|
            0 <= i < h.len() ==> mmio::fits(#[trigger] wiring_step(plan, h.take(i)), h[i]),
    ensures
        h.len() == plan.queue_evts.len() + 1,
        plan.interrupt_evt is Some,
        forall|i: int|
            0 <= i < plan.queue_evts.len() ==> #[trigger] wiring_step(plan, h.take(i))
                == mmio::request(
                VmIoctl::IoEventFd,
                plan.version,
                ioctl::Arg::EventFd(queue_connection(plan.label, i, plan.queue_evts[i])),
            ),
{
    let queues = plan.queue_evts.len() as int;
    if h.len() > queues + 1 {
        assert(mmio::fits(wiring_step(plan, h.take(queues + 1)), h[queues + 1]));
    }
    assert(mmio::fits(wiring_step(plan, h.take(queues)), h[queues]));
    assert forall|i: int| 0 <= i < queues implies #[trigger] wiring_step(plan, h.take(i))
        == mmio::request(
        VmIoctl::IoEventFd,
        plan.version,
        ioctl::Arg::EventFd(queue_connection(plan.label, i, plan.queue_evts[i])),
    ) by {
        assert(mmio::fits(wiring_step(plan, h.take(i)), h[i]));
    }
}

/// What is sent while nothing fails: for queue `n` its own event under its own
/// number, then the event of the interrupt, all with the label of the device.
pub proof fn lemma_connection_names_what_it_connects(plan: WiringPlan, h: Seq<mmio::Answer>)
    requires
        plan.queue_evts.len() <= u32::MAX,
        h.len() > 0 ==> !(h.last() matches mmio::Answer::Ioctl { ret, .. } && ret < 0),
    ensures
        h.len() < plan.queue_evts.len() ==> (wiring_step(plan, h) matches mmio::Act::Ioctl {
            cmd,
            arg: ioctl::Arg::EventFd(a),
        } && {
            &&& cmd == ioctl::command(VmIoctl::IoEventFd, plan.version)
            &&& a.label == plan.label
            &&& a.flags == 1
            &&& a.queue_num == h.len()
            &&& a.fd == plan.queue_evts[h.len() as int]
        }),
        h.len() == plan.queue_evts.len() && plan.interrupt_evt is Some ==> (wiring_step(
            plan,
            h,
        ) matches mmio::Act::Ioctl { cmd, arg: ioctl::Arg::IrqFd(a) } && {
            &&& cmd == ioctl::command(VmIoctl::IrqFd, plan.version)
            &&& a.label == plan.label
            &&& a.flags == 1
            &&& a.reserved == 0
            &&& a.fd == plan.interrupt_evt->0
        }),
        h.len() == plan.queue_evts.len() && plan.interrupt_evt is None ==> wiring_step(
            plan,
            h,
        ) is Panic,
        h.len() > plan.queue_evts.len() ==> wiring_step(plan, h) == mmio::Act::Return(Ok(())),
{
}

/// A request that returns less than zero ends the connection with an error that
/// names the request and holds what the system said; any other does not.
pub proof fn lemma_refused_connection_is_named(
    plan: WiringPlan,
    h: Seq<mmio::Answer>,
    ret: i32,
    arg: ioctl::Arg,
    said: Seq<char>,
)
    requires
        h.len() <= plan.queue_evts.len(),
    ensures
        ({
            let step = wiring_step(
                plan,
                h.push(mmio::Answer::Ioctl { ret, arg, error: said }),
            );
            &&& ret < 0
                ==> (step matches mmio::Act::Return(Err(error::Failure::System { err, val }))
                && val == said && err == (if h.len() < plan.queue_evts.len() {
                "ioeventfd ioctl failed"@
            } else {
                "irqfd ioctl failed"@
            }))
            &&& ret >= 0 ==> !(step matches mmio::Act::Return(Err(_)))
        }),
{
}

/// Where the connection of a device stands.
enum Stage {
    /// So many requests were answered.
    Asking(u64),
    Failed(BackendError),
}

/// The connection of one device.
pub struct Wiring {
    queue_evts: Vec<i32>,
    interrupt_evt: Option<i32>,
    label: u32,
    version: u8,
    stage: Stage,
    history: Ghost<Seq<mmio::Answer>>,
}

impl Wiring {
    /// What is connected.
    pub closed spec fn plan(self) -> WiringPlan {
        WiringPlan {
            queue_evts: self.queue_evts@,
            interrupt_evt: self.interrupt_evt,
            label: self.label,
            version: self.version,
        }
    }

    /// The replies so far.
    pub closed spec fn history(self) -> Seq<mmio::Answer> {
        self.history@
    }

    pub closed spec fn wf(self) -> bool {
        &&& self.version == 1 || self.version == 2
        &&& self.queue_evts@.len() <= u32::MAX
        &&& match self.stage {
            Stage::Asking(n) => {
                &&& n == self.history@.len()
                &&& n <= self.queue_evts@.len() + 1
                &&& n > 0 ==> !connection_failed(self.history@.last())
            },
            Stage::Failed(e) => wiring_step(self.plan(), self.history@) == mmio::Act::Return(
                Err(e@),
            ),
        }
    }

    /// The next step.
    pub open spec fn next(self) -> mmio::Act {
        wiring_step(self.plan(), self.history())
    }

    /// The next step.
    pub fn action(&self) -> (r: Action)
        requires
            self.wf(),
        ensures
            r@ == self.next(),
    {
        match &self.stage {
            Stage::Asking(n) => {
                let at: u64 = *n;
                let queues: u64 = self.queue_evts.len() as u64;
                if at < queues {
                    let fd: i32 = self.queue_evts[at as usize];
                    mmio::ask(
                        VmIoctl::IoEventFd,
                        self.version,
                        IoctlArg::EventFd(
                            VirtioEventfd {
                                label: self.label,
                                flags: ASSIGN_EVENTFD,
                                queue_num: at as u32,
                                fd,
                            },
                        ),
                    )
                } else if at == queues {
                    match self.interrupt_evt {
                        Some(fd) => mmio::ask(
                            VmIoctl::IrqFd,
                            self.version,
                            IoctlArg::IrqFd(
                                VirtioIrqfd {
                                    label: self.label,
                                    flags: VBE_ASSIGN_IRQFD,
                                    fd,
                                    reserved: 0,
                                },
                            ),
                        ),
                        None => Action::Panic,
                    }
                } else {
                    Action::Return(Ok(()))
                }
            },
            Stage::Failed(e) => Action::Return(Err(e.duplicate())),
        }
    }

    /// Takes the reply to the step that `action` gave.
    pub fn advance(&mut self, reply: Reply)
        requires
            old(self).wf(),
            mmio::fits(old(self).next(), reply@),
        ensures
            final(self).wf(),
            final(self).plan() == old(self).plan(),
            final(self).history() == old(self).history().push(reply@),
    {
        let ghost before = self.history@;
        let at: u64 = match &self.stage {
            Stage::Asking(n) => *n,
            Stage::Failed(_) => 0,
        };
        proof {
            assert(before.push(reply@).last() == reply@);
        }
        self.history = Ghost(before.push(reply@));
        if let Reply::Ioctl { ret, error, .. } = reply {
            if ret < 0 {
                let what = if at < self.queue_evts.len() as u64 {
                    "ioeventfd ioctl failed"
                } else {
                    "irqfd ioctl failed"
                };
                self.stage = Stage::Failed(error::system(what, error.as_str()));
                return ;
            }
        }
        self.stage = Stage::Asking(at + 1);
    }
}

/// Starts to connect the device `mmio`.
pub fn mmio_handle(mmio: &Option<MmioDevice>, label: u32, driver_variant: u8) -> (r: Wiring)
    requires
        mmio is Some,
        mmio->0@.queue_evts.len() <= u32::MAX,
        driver_variant == 1 || driver_variant == 2,
    ensures
        r.wf(),
        r.plan() == (WiringPlan {
            queue_evts: mmio->0@.queue_evts,
            interrupt_evt: mmio->0@.interrupt_evt,
            label,
            version: driver_variant,
        }),
        r.history() == Seq::<mmio::Answer>::empty(),
{
    let (queue_evts, interrupt_evt): (Vec<i32>, Option<i32>) = match mmio {
        Some(device) => (device.queue_evts.clone(), device.interrupt_evt),
        None => (Vec::new(), None),
    };
    Wiring {
        queue_evts,
        interrupt_evt,
        label,
        version: driver_variant,
        stage: Stage::Asking(0),
        history: Ghost(Seq::empty()),
    }
}

} // verus!
