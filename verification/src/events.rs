//! The life of a device: waiting for what its driver does, and acting on it.
use vstd::prelude::*;

use crate::driver_ok;
use crate::driver_ok::DriverOk;
use crate::ioctl;
use crate::ioctl::{IoctlArg, VirtioEvent, VirtioQueueInfo, VmIoctl};
use crate::mmio;
use crate::mmio::{
    Action, Reply, CONFIG_SPACE_WORDS, VIRTIO_MMIO_INTERRUPT_ACK, VIRTIO_MMIO_STATUS,
};
use crate::reset;
use crate::reset::Reset;

verus! {

/// The driver wants the device reset.
pub const EVENT_RESET_RQST: u32 = 2;

/// The driver saw an interrupt.
pub const EVENT_INTERRUPT_ACK: u32 = 4;

/// The driver is ready.
pub const EVENT_DRIVER_OK: u32 = 8;

/// The backend is to leave.
pub const EVENT_APP_EXIT: u32 = 0x100;

/// Which device is served.
pub struct EventPlan {
    pub label: u32,
    pub version: u8,
    pub queues: u32,
    pub queue_evts: Seq<i32>,
    /// The status that resets the device.
    pub reset_status: u32,
}

/// What is being done for the device.
pub enum Situation {
    Waiting { cspace: Seq<u32> },
    BringingUp { plan: driver_ok::DriverOkPlan, history: Seq<mmio::Answer> },
    Acknowledging { status: u32, cspace: Seq<u32> },
    Resetting { history: Seq<mmio::Answer>, cspace: Seq<u32> },
    Leaving,
    Left,
    Failed,
}

/// The reset of the device.
pub open spec fn reset_plan(plan: EventPlan) -> reset::ResetPlan {
    reset::ResetPlan {
        label: plan.label,
        version: plan.version,
        status: plan.reset_status,
        queue_evts: plan.queue_evts,
    }
}

/// The bring-up of the device with this configuration space.
pub open spec fn driver_ok_plan(plan: EventPlan, cspace: Seq<u32>) -> driver_ok::DriverOkPlan {
    driver_ok::DriverOkPlan {
        label: plan.label,
        version: plan.version,
        queues: plan.queues,
        cspace,
    }
}

/// The next step.
pub open spec fn event_step(plan: EventPlan, s: Situation) -> mmio::Act {
    match s {
        Situation::Waiting { .. } => mmio::request(
            VmIoctl::WaitForEvent,
            plan.version,
            ioctl::Arg::Event(
                VirtioEvent { label: plan.label, event: 0, event_data: 0, reserved: 0 },
            ),
        ),
        Situation::BringingUp { plan: bring, history } => driver_ok::driver_ok_step(bring, history),
        Situation::Acknowledging { status, .. } => mmio::write_word(
            VIRTIO_MMIO_INTERRUPT_ACK,
            status,
        ),
        Situation::Resetting { history, .. } => reset::reset_step(reset_plan(plan), history),
        Situation::Leaving => mmio::write_word(VIRTIO_MMIO_STATUS, 0),
        Situation::Left => mmio::Act::Return(Ok(())),
        Situation::Failed => mmio::Act::Panic,
    }
}

/// What is done after the event `ev`. An event that is not known is passed
/// over.
pub open spec fn on_event(plan: EventPlan, cspace: Seq<u32>, ev: VirtioEvent) -> Situation {
    if ev.event == EVENT_DRIVER_OK {
        Situation::BringingUp { plan: driver_ok_plan(plan, cspace), history: Seq::empty() }
    } else if ev.event == EVENT_INTERRUPT_ACK {
        Situation::Acknowledging { status: ev.event_data, cspace }
    } else if ev.event == EVENT_RESET_RQST {
        Situation::Resetting { history: Seq::empty(), cspace }
    } else if ev.event == EVENT_APP_EXIT {
        Situation::Leaving
    } else {
        Situation::Waiting { cspace }
    }
}

/// What is done after the reply to the step.
pub open spec fn after_reply(plan: EventPlan, s: Situation, reply: mmio::Answer) -> Situation {
    match s {
        Situation::Waiting { cspace } => if mmio::refused(reply) {
            Situation::Failed
        } else {
            on_event(plan, cspace, reply->Ioctl_arg->Event_0)
        },
        Situation::BringingUp { plan: bring, history } => {
            let h = history.push(reply);
            if driver_ok::driver_ok_step(bring, h) is Return {
                Situation::Waiting { cspace: driver_ok::cspace_after(bring, h) }
            } else {
                Situation::BringingUp { plan: bring, history: h }
            }
        },
        Situation::Acknowledging { cspace, .. } => Situation::Waiting { cspace },
        Situation::Resetting { history, cspace } => {
            let h = history.push(reply);
            if reset::reset_step(reset_plan(plan), h) is Return {
                Situation::Waiting { cspace }
            } else {
                Situation::Resetting { history: h, cspace }
            }
        },
        Situation::Leaving => Situation::Left,
        Situation::Left => Situation::Left,
        Situation::Failed => Situation::Failed,
    }
}

/// The situation after the replies `h`, from `s`.
pub open spec fn after_replies(plan: EventPlan, s: Situation, h: Seq<mmio::Answer>) -> Situation
    decreases h.len(),
{
    if h.len() == 0 {
        s
    } else {
        after_reply(plan, after_replies(plan, s, h.drop_last()), h.last())
    }
}

/// A device that waits for events is served until the driver says so: the run
/// returns only after the event that tells the backend to leave, and then its
/// last step cleared the status of the device.
pub proof fn lemma_serves_until_exit(plan: EventPlan, cspace: Seq<u32>, h: Seq<mmio::Answer>)
    requires
        after_replies(plan, Situation::Waiting { cspace }, h) is Left,
        forall|i: int|
            0 <= i < h.len() ==> mmio::fits(
                event_step(
                    plan,
                    #[trigger] after_replies(plan, Situation::Waiting { cspace }, h.take(i)),
                ),
                h[i],
            ),
    ensures
        h.len() >= 2,
        h[h.len() - 2] matches mmio::Answer::Ioctl { ret, arg: ioctl::Arg::Event(ev), .. } && ret
            == 0 && ev.event == EVENT_APP_EXIT,
        event_step(plan, after_replies(plan, Situation::Waiting { cspace }, h.drop_last()))
            == mmio::write_word(VIRTIO_MMIO_STATUS, 0),
{
    let start = Situation::Waiting { cspace };
    let n = h.len() as int;
    let one = h.take(n - 1);
    assert(h.drop_last() =~= one);
    assert(mmio::fits(event_step(plan, after_replies(plan, start, one)), h[n - 1]));
    assert(after_replies(plan, start, one) is Leaving);
    let two = h.take(n - 2);
    assert(one.drop_last() =~= two);
    assert(mmio::fits(event_step(plan, after_replies(plan, start, two)), h[n - 2]));
    assert(one.last() == h[n - 2]);
}

/// A device that waits asks for the next event by its label.
pub proof fn lemma_waiting_asks_by_label(plan: EventPlan, cspace: Seq<u32>)
    ensures
        event_step(plan, Situation::Waiting { cspace }) matches mmio::Act::Ioctl {
            cmd,
            arg: ioctl::Arg::Event(a),
        } && {
            &&& cmd == ioctl::command(VmIoctl::WaitForEvent, plan.version)
            &&& a.label == plan.label
            &&& a.event == 0 && a.event_data == 0 && a.reserved == 0
        },
{
}

/// Each event is followed by its own step: a driver that is ready by the
/// question for its configuration space, a seen interrupt by the write that
/// confirms just what was seen, a wish for a reset by the write of the status
/// that resets, and the word to leave by the write that clears the status.
/// Any other event is followed by waiting for the next, and a wait that is
/// refused by the end of the backend.
pub proof fn lemma_each_event_has_its_step(
    plan: EventPlan,
    cspace: Seq<u32>,
    ret: i32,
    ev: VirtioEvent,
    said: Seq<char>,
)
    ensures
        ({
            let waiting = Situation::Waiting { cspace };
            let reply = mmio::Answer::Ioctl { ret, arg: ioctl::Arg::Event(ev), error: said };
            let step = event_step(plan, after_reply(plan, waiting, reply));
            &&& ret != 0 ==> step is Panic
            &&& ret == 0 && ev.event == 8 ==> (step matches mmio::Act::Ioctl {
                cmd,
                arg: ioctl::Arg::ConfigData { label, config_size, data },
            } && cmd == ioctl::command(VmIoctl::GetDriverConfigData, plan.version) && label
                == plan.label && config_size == 4096 && data == cspace)
            &&& ret == 0 && ev.event == 4 ==> driver_ok::writes(step, 0x64, ev.event_data as int)
            &&& ret == 0 && ev.event == 2 ==> driver_ok::writes(
                step,
                0x70,
                plan.reset_status as int,
            )
            &&& ret == 0 && ev.event == 0x100 ==> driver_ok::writes(step, 0x70, 0)
            &&& ret == 0 && ev.event != 8 && ev.event != 4 && ev.event != 2 && ev.event != 0x100
                ==> after_reply(plan, waiting, reply) == waiting
        }),
{
    let none = mmio::le_bytes(0);
    mmio::lemma_lowest_byte_first(ev.event_data, none, 0);
    mmio::lemma_lowest_byte_first(plan.reset_status, none, 0);
    mmio::lemma_lowest_byte_first(0, none, 0);
}

/// What follows a driver that is ready, reply by reply, as long as nothing is
/// refused: the bring-up of this device, up to the word to the driver that it
/// is done, which names the device. Then the device waits again, with the
/// space that the driver gave.
pub proof fn lemma_ready_driver_is_served(
    plan: EventPlan,
    cspace: Seq<u32>,
    h: Seq<mmio::Answer>,
    space: Seq<u32>,
)
    requires
        1 <= h.len() <= 10 + 10 * plan.queues,
        h[0] matches mmio::Answer::Ioctl { ret, arg: ioctl::Arg::Event(ev), .. } && ret == 0
            && ev.event == 8,
        forall|i: int|
            0 <= i < h.len() ==> !(#[trigger] h[i] matches mmio::Answer::Ioctl { ret, .. } && ret
                != 0),
        h.len() > 1 ==> (h[1] matches mmio::Answer::Ioctl {
            arg: ioctl::Arg::ConfigData { data, .. },
            ..
        } && data == space),
    ensures
        ({
            let s = after_replies(plan, Situation::Waiting { cspace }, h);
            let step = event_step(plan, s);
            &&& h.len() <= 9 + 10 * plan.queues ==> s == (Situation::BringingUp {
                plan: driver_ok_plan(plan, cspace),
                history: h.skip(1),
            })
            &&& forall|k: int|
                0 <= k < plan.queues && h.len() == #[trigger] (8 + 10 * k) ==> (
                step matches mmio::Act::Ioctl { cmd, arg: ioctl::Arg::QueueInfo(a) } && cmd
                    == ioctl::command(VmIoctl::GetQueueInfo, plan.version) && a.label == plan.label
                    && a.queue_sel == k)
            &&& h.len() == 9 + 10 * plan.queues ==> (step matches mmio::Act::Ioctl {
                cmd,
                arg: ioctl::Arg::Value(v),
            } && cmd == ioctl::command(VmIoctl::AckDriverOk, plan.version) && v == plan.label)
            &&& h.len() == 10 + 10 * plan.queues ==> s == (Situation::Waiting { cspace: space })
        }),
    decreases h.len(),
{
    let bring = driver_ok_plan(plan, cspace);
    let start = Situation::Waiting { cspace };
    let before = h.drop_last();
    if h.len() == 1 {
        assert(after_replies(plan, start, before) == start);
        assert(h.skip(1) =~= Seq::<mmio::Answer>::empty());
    } else {
        lemma_ready_driver_is_served(plan, cspace, before, space);
        assert(before.skip(1).push(h.last()) =~= h.skip(1));
        assert(h.skip(1)[0] == h[1]);
    }
    let tail = h.skip(1);
    if tail.len() > 0 {
        assert(tail.last() == h.last());
    }
    assert forall|k: int| 0 <= k < plan.queues && h.len() == #[trigger] (8 + 10 * k) implies (
    event_step(plan, after_replies(plan, start, h)) matches mmio::Act::Ioctl {
        cmd,
        arg: ioctl::Arg::QueueInfo(a),
    } && cmd == ioctl::command(VmIoctl::GetQueueInfo, plan.version) && a.label == plan.label
        && a.queue_sel == k) by {
        let q = VirtioQueueInfo {
            label: 0,
            queue_sel: 0,
            queue_num: 0,
            queue_ready: 0,
            queue_desc: 0,
            queue_driver: 0,
            queue_device: 0,
        };
        driver_ok::lemma_each_queue_is_asked_for_and_written(bring, tail, k, q);
    }
}

/// What follows a wish for a reset, reply by reply, as long as nothing is
/// refused: the status, every queue connected anew under its number, and the
/// confirmation, which names the device. Then the device waits again, with the
/// space it had.
pub proof fn lemma_wished_reset_is_made(
    plan: EventPlan,
    cspace: Seq<u32>,
    h: Seq<mmio::Answer>,
)
    requires
        plan.queue_evts.len() <= u32::MAX,
        1 <= h.len() <= 3 + plan.queue_evts.len(),
        h[0] matches mmio::Answer::Ioctl { ret, arg: ioctl::Arg::Event(ev), .. } && ret == 0
            && ev.event == 2,
        forall|i: int|
            0 <= i < h.len() ==> !(#[trigger] h[i] matches mmio::Answer::Ioctl { ret, .. } && ret
                != 0),
    ensures
        ({
            let s = after_replies(plan, Situation::Waiting { cspace }, h);
            let step = event_step(plan, s);
            &&& h.len() <= 2 + plan.queue_evts.len() ==> s == (Situation::Resetting {
                history: h.skip(1),
                cspace,
            })
            &&& h.len() == 1 ==> driver_ok::writes(step, 0x70, plan.reset_status as int)
            &&& 2 <= h.len() < 2 + plan.queue_evts.len() ==> (step matches mmio::Act::Ioctl {
                cmd,
                arg: ioctl::Arg::EventFd(a),
            } && cmd == ioctl::command(VmIoctl::IoEventFd, plan.version) && a.label == plan.label
                && a.flags == 1 && a.queue_num == h.len() - 2 && a.fd == plan.queue_evts[h.len()
                - 2])
            &&& h.len() == 2 + plan.queue_evts.len() ==> (step matches mmio::Act::Ioctl {
                cmd,
                arg: ioctl::Arg::AckReset(a),
            } && cmd == ioctl::command(VmIoctl::AckReset, plan.version) && a.label == plan.label)
            &&& h.len() == 3 + plan.queue_evts.len() ==> s == (Situation::Waiting { cspace })
        }),
    decreases h.len(),
{
    let start = Situation::Waiting { cspace };
    let before = h.drop_last();
    if h.len() == 1 {
        assert(after_replies(plan, start, before) == start);
        assert(h.skip(1) =~= Seq::<mmio::Answer>::empty());
    } else {
        lemma_wished_reset_is_made(plan, cspace, before);
        assert(before.skip(1).push(h.last()) =~= h.skip(1));
    }
    let tail = h.skip(1);
    if tail.len() > 0 {
        assert(tail.last() == h.last());
    }
    reset::lemma_reset_names_what_it_resets(reset_plan(plan), tail);
    mmio::lemma_lowest_byte_first(plan.reset_status, mmio::le_bytes(0), 0);
}

/// A confirmed interrupt is followed by waiting, with the space the device
/// had, and the cleared status by the end of the service.
pub proof fn lemma_single_steps_are_followed(
    plan: EventPlan,
    cspace: Seq<u32>,
    ev: VirtioEvent,
    said: Seq<char>,
    next: mmio::Answer,
)
    ensures
        ({
            let reply = mmio::Answer::Ioctl { ret: 0, arg: ioctl::Arg::Event(ev), error: said };
            let s = after_reply(
                plan,
                after_reply(plan, Situation::Waiting { cspace }, reply),
                next,
            );
            &&& ev.event == 4 ==> s == (Situation::Waiting { cspace })
            &&& ev.event == 0x100 ==> event_step(plan, s) == mmio::Act::Return(Ok(()))
        }),
{
}

/// A refusal ends the backend, whatever is being done for the device.
pub proof fn lemma_refusal_ends_the_service(
    plan: EventPlan,
    s: Situation,
    ret: i32,
    arg: ioctl::Arg,
    said: Seq<char>,
)
    requires
        ret != 0,
        s is Waiting || s is BringingUp || s is Resetting,
    ensures
        event_step(
            plan,
            after_reply(plan, s, mmio::Answer::Ioctl { ret, arg, error: said }),
        ) is Panic,
{
}

/// Whether there is anything to do for an event of this kind.
pub open spec fn event_known(event: u32) -> bool {
    event == EVENT_DRIVER_OK || event == EVENT_INTERRUPT_ACK || event == EVENT_RESET_RQST || event
        == EVENT_APP_EXIT
}

/// An event that is not known changes nothing: the device waits for the next.
pub proof fn lemma_unknown_events_change_nothing(
    plan: EventPlan,
    cspace: Seq<u32>,
    ev: VirtioEvent,
)
    ensures
        on_event(plan, cspace, ev) == (Situation::Waiting { cspace }) <==> !event_known(ev.event),
{
}

/// Whether there is anything to do for an event of this kind.
pub fn is_event_known(event: u32) -> (r: bool)
    ensures
        r == event_known(event),
{
    event == EVENT_DRIVER_OK || event == EVENT_INTERRUPT_ACK || event == EVENT_RESET_RQST || event
        == EVENT_APP_EXIT
}

/// What is being done, with what it needs.
enum Phase {
    Waiting(Vec<u32>),
    BringingUp(DriverOk),
    Acknowledging(u32, Vec<u32>),
    Resetting(Reset, Vec<u32>),
    Leaving,
    Left,
    Failed,
}

/// A device that is being served.
pub struct EventLoop {
    label: u32,
    version: u8,
    queues: u32,
    queue_evts: Vec<i32>,
    reset_status: u32,
    phase: Phase,
}

impl EventLoop {
    /// Which device is served.
    pub closed spec fn plan(self) -> EventPlan {
        EventPlan {
            label: self.label,
            version: self.version,
            queues: self.queues,
            queue_evts: self.queue_evts@,
            reset_status: self.reset_status,
        }
    }

    /// What is being done.
    pub closed spec fn situation(self) -> Situation {
        match self.phase {
            Phase::Waiting(cspace) => Situation::Waiting { cspace: cspace@ },
            Phase::BringingUp(run) => Situation::BringingUp {
                plan: run.plan(),
                history: run.history(),
            },
            Phase::Acknowledging(status, cspace) => Situation::Acknowledging {
                status,
                cspace: cspace@,
            },
            Phase::Resetting(run, cspace) => Situation::Resetting {
                history: run.history(),
                cspace: cspace@,
            },
            Phase::Leaving => Situation::Leaving,
            Phase::Left => Situation::Left,
            Phase::Failed => Situation::Failed,
        }
    }

    pub closed spec fn wf(self) -> bool {
        &&& self.version == 1 || self.version == 2
        &&& self.queue_evts@.len() <= u32::MAX
        &&& match self.phase {
            Phase::Waiting(cspace) => cspace@.len() >= CONFIG_SPACE_WORDS,
            Phase::BringingUp(run) => {
                &&& run.wf()
                &&& run.plan().cspace.len() >= CONFIG_SPACE_WORDS
                &&& !(run.next() is Return)
            },
            Phase::Acknowledging(_, cspace) => cspace@.len() >= CONFIG_SPACE_WORDS,
            Phase::Resetting(run, cspace) => {
                &&& run.wf()
                &&& run.plan() == reset_plan(self.plan())
                &&& cspace@.len() >= CONFIG_SPACE_WORDS
                &&& !(run.next() is Return)
            },
            _ => true,
        }
    }

    /// The next step.
    pub open spec fn next(self) -> mmio::Act {
        event_step(self.plan(), self.situation())
    }

    /// The next step.
    pub fn action(&self) -> (r: Action)
        requires
            self.wf(),
        ensures
            r@ == self.next(),
    {
        match &self.phase {
            Phase::Waiting(_) => mmio::ask(
                VmIoctl::WaitForEvent,
                self.version,
                IoctlArg::Event(
                    VirtioEvent { label: self.label, event: 0, event_data: 0, reserved: 0 },
                ),
            ),
            Phase::BringingUp(run) => run.action(),
            Phase::Acknowledging(status, _) => mmio::write(VIRTIO_MMIO_INTERRUPT_ACK, *status),
            Phase::Resetting(run, _) => run.action(),
            Phase::Leaving => mmio::write(VIRTIO_MMIO_STATUS, 0),
            Phase::Left => Action::Return(Ok(())),
            Phase::Failed => Action::Panic,
        }
    }

    /// What is done after the event `ev`.
    fn dispatch(&self, ev: VirtioEvent, cspace: Vec<u32>) -> (r: Phase)
        requires
            self.version == 1 || self.version == 2,
            self.queue_evts@.len() <= u32::MAX,
            cspace@.len() >= CONFIG_SPACE_WORDS,
        ensures
            (EventLoop { phase: r, ..*self }).wf(),
            (EventLoop { phase: r, ..*self }).situation() == on_event(self.plan(), cspace@, ev),
    {
        if ev.event == EVENT_DRIVER_OK {
            Phase::BringingUp(
                driver_ok::handle_driver_ok(self.label, self.queues, cspace, self.version),
            )
        } else if ev.event == EVENT_INTERRUPT_ACK {
            Phase::Acknowledging(ev.event_data, cspace)
        } else if ev.event == EVENT_RESET_RQST {
            Phase::Resetting(
                reset::handle_device_reset(
                    self.label,
                    &self.queue_evts,
                    self.reset_status,
                    self.version,
                ),
                cspace,
            )
        } else if ev.event == EVENT_APP_EXIT {
            Phase::Leaving
        } else {
            Phase::Waiting(cspace)
        }
    }

    /// Takes the reply to the step that `action` gave.
    pub fn advance(&mut self, reply: Reply)
        requires
            old(self).wf(),
            mmio::fits(old(self).next(), reply@),
        ensures
            final(self).wf(),
            final(self).plan() == old(self).plan(),
            final(self).situation() == after_reply(old(self).plan(), old(self).situation(), reply@),
    {
        let mut phase = Phase::Failed;
        std::mem::swap(&mut phase, &mut self.phase);
        let next = match phase {
            Phase::Waiting(cspace) => match reply {
                Reply::Ioctl { ret, arg: IoctlArg::Event(ev), .. } => {
                    if ret != 0 {
                        Phase::Failed
                    } else {
                        self.dispatch(ev, cspace)
                    }
                },
                _ => Phase::Failed,
            },
            Phase::BringingUp(run) => {
                let mut run = run;
                run.advance(reply);
                match run.action() {
                    Action::Return(_) => Phase::Waiting(run.into_cspace()),
                    _ => Phase::BringingUp(run),
                }
            },
            Phase::Acknowledging(_, cspace) => Phase::Waiting(cspace),
            Phase::Resetting(run, cspace) => {
                let mut run = run;
                run.advance(reply);
                match run.action() {
                    Action::Return(_) => Phase::Waiting(cspace),
                    _ => Phase::Resetting(run, cspace),
                }
            },
            Phase::Leaving => Phase::Left,
            Phase::Left => Phase::Left,
            Phase::Failed => Phase::Failed,
        };
        self.phase = next;
    }
}

/// Starts to serve the device with this label.
pub fn handle_events(
    label: u32,
    device: &mmio::MmioDevice,
    cspace: Vec<u32>,
    reset_status: u32,
    driver_variant: u8,
) -> (r: EventLoop)
    requires
        driver_variant == 1 || driver_variant == 2,
        device@.queue_evts.len() <= u32::MAX,
        cspace@.len() >= CONFIG_SPACE_WORDS,
    ensures
        r.wf(),
        r.plan() == (EventPlan {
            label,
            version: driver_variant,
            queues: device@.num_queues as u32,
            queue_evts: device@.queue_evts,
            reset_status,
        }),
        r.situation() == (Situation::Waiting { cspace: cspace@ }),
{
    EventLoop {
        label,
        version: driver_variant,
        queues: device.num_queues as u32,
        queue_evts: device.queue_evts.clone(),
        reset_status,
        phase: Phase::Waiting(cspace),
    }
}

} // verus!
