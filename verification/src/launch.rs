//! Putting created devices to work: each publishes its configuration space and
//! is then served by a thread of its own.
use vstd::prelude::*;

use crate::config;
use crate::config::BackendConfig;
use crate::config_space;
use crate::config_space::Publish;
use crate::creation;
use crate::device;
use crate::device::Common;
use crate::mmio;
use crate::mmio::{Action, MmioDevice, Reply};

verus! {

/// The devices that are put to work, and by which requests.
pub struct LaunchPlan {
    pub parts: Seq<device::Part>,
    pub version: u8,
    /// The descriptor of the virtual machine, which the requests go through.
    pub fd: Option<i32>,
}

/// The plan for the parts: devices at work use the descriptor of the virtual
/// machine, whatever the version of the driver.
pub open spec fn plan_for(parts: Seq<device::Part>, cfg: config::Config) -> LaunchPlan {
    LaunchPlan { parts, version: cfg.driver_variant, fd: cfg.vm_sfd }
}

/// Where the run stands.
pub enum Launching {
    /// The device with index `at` publishes its configuration space.
    Publishing { at: int, history: Seq<mmio::Answer> },
    /// The device with index `at` waits for its thread.
    Starting { at: int, cspace: Seq<u32> },
    Finished,
    Failed,
}

/// The run when it comes to the device with index `at`. The backend cannot go
/// on without the virtual machine, or with a device that has no registers or
/// no configuration space.
pub open spec fn launch_from(plan: LaunchPlan, at: int) -> Launching {
    if at >= plan.parts.len() {
        Launching::Finished
    } else if plan.fd is None || plan.parts[at].mmio is None
        || plan.parts[at].config_space is None {
        Launching::Failed
    } else {
        Launching::Publishing { at, history: Seq::empty() }
    }
}

/// How the device with index `at` publishes its configuration space.
pub open spec fn publish_plan(plan: LaunchPlan, at: int) -> config_space::PublishPlan {
    config_space::PublishPlan {
        label: plan.parts[at].label,
        version: plan.version,
        queues: plan.parts[at].mmio->0.num_queues as u32,
        cspace: plan.parts[at].config_space->0,
    }
}

/// What to do next.
#[derive(Debug)]
pub enum LaunchAction {
    /// Take the step with the device that is being put to work, with requests
    /// through `fd`.
    Step { fd: i32, action: Action },
    /// Start the thread that serves the device, with requests through `fd`.
    Start { label: u32, fd: i32, device: MmioDevice, cspace: Vec<u32> },
    /// Nothing more: the devices work.
    Return,
    /// Nothing more: the backend cannot go on.
    Panic,
}

/// `LaunchAction` with its lists as sequences.
pub enum LaunchAct {
    Step { fd: i32, act: mmio::Act },
    Start { label: u32, fd: i32, device: mmio::Registers, cspace: Seq<u32> },
    Return,
    Panic,
}

impl View for LaunchAction {
    type V = LaunchAct;

    open spec fn view(&self) -> LaunchAct {
        match self {
            LaunchAction::Step { fd, action } => LaunchAct::Step { fd: *fd, act: action@ },
            LaunchAction::Start { label, fd, device, cspace } => LaunchAct::Start {
                label: *label,
                fd: *fd,
                device: device@,
                cspace: cspace@,
            },
            LaunchAction::Return => LaunchAct::Return,
            LaunchAction::Panic => LaunchAct::Panic,
        }
    }
}

/// What came of an action.
#[derive(Debug)]
pub enum LaunchEvent {
    /// The reply to a step.
    Replied(Reply),
    /// The thread runs.
    Started,
}

/// `LaunchEvent` with its texts and lists as sequences.
pub enum LaunchOutcome {
    Replied(mmio::Answer),
    Started,
}

impl View for LaunchEvent {
    type V = LaunchOutcome;

    open spec fn view(&self) -> LaunchOutcome {
        match self {
            LaunchEvent::Replied(reply) => LaunchOutcome::Replied(reply@),
            LaunchEvent::Started => LaunchOutcome::Started,
        }
    }
}

/// Whether `event` can come of `act`.
pub open spec fn launch_fits(act: LaunchAct, event: LaunchOutcome) -> bool {
    match act {
        LaunchAct::Step { act, .. } => event matches LaunchOutcome::Replied(reply) && mmio::fits(
            act,
            reply,
        ),
        LaunchAct::Start { .. } => event is Started,
        LaunchAct::Return => false,
        LaunchAct::Panic => false,
    }
}

/// The next step.
pub open spec fn launch_step(plan: LaunchPlan, s: Launching) -> LaunchAct {
    match s {
        Launching::Publishing { at, history } => LaunchAct::Step {
            fd: plan.fd->0,
            act: config_space::publish_step(publish_plan(plan, at), history),
        },
        Launching::Starting { at, cspace } => LaunchAct::Start {
            label: plan.parts[at].label,
            fd: plan.fd->0,
            device: plan.parts[at].mmio->0,
            cspace,
        },
        Launching::Finished => LaunchAct::Return,
        Launching::Failed => LaunchAct::Panic,
    }
}

/// Where the run stands after the outcome of a step.
pub open spec fn after_launch(plan: LaunchPlan, s: Launching, event: LaunchOutcome) -> Launching {
    match s {
        Launching::Publishing { at, history } => {
            let h = history.push(event->Replied_0);
            match config_space::publish_step(publish_plan(plan, at), h) {
                mmio::Act::Return(_) => Launching::Starting {
                    at,
                    cspace: config_space::published(h),
                },
                mmio::Act::Panic => Launching::Failed,
                _ => Launching::Publishing { at, history: h },
            }
        },
        Launching::Starting { at, .. } => launch_from(plan, at + 1),
        Launching::Finished => s,
        Launching::Failed => s,
    }
}

/// Where the run stands after all the outcomes `events`.
pub open spec fn after_launches(
    plan: LaunchPlan,
    s: Launching,
    events: Seq<LaunchOutcome>,
) -> Launching
    decreases events.len(),
{
    if events.len() == 0 {
        s
    } else {
        after_launch(plan, after_launches(plan, s, events.drop_last()), events.last())
    }
}

/// How many threads were started.
pub open spec fn started(events: Seq<LaunchOutcome>) -> int
    decreases events.len(),
{
    if events.len() == 0 {
        0
    } else {
        started(events.drop_last()) + if events.last() is Started {
            1int
        } else {
            0
        }
    }
}

/// Every step fits what came before it.
pub open spec fn all_fit(plan: LaunchPlan, events: Seq<LaunchOutcome>) -> bool {
    forall|i: int|
        0 <= i < events.len() ==> launch_fits(
            launch_step(
                plan,
                #[trigger] after_launches(plan, launch_from(plan, 0), events.take(i)),
            ),
            events[i],
        )
}

proof fn lemma_threads_so_far(plan: LaunchPlan, events: Seq<LaunchOutcome>)
    requires
        all_fit(plan, events),
    ensures
        match after_launches(plan, launch_from(plan, 0), events) {
            Launching::Publishing { at, .. } => at == started(events) && at < plan.parts.len(),
            Launching::Starting { at, .. } => at == started(events) && at < plan.parts.len(),
            Launching::Finished => started(events) == plan.parts.len(),
            Launching::Failed => started(events) < plan.parts.len(),
        },
    decreases events.len(),
{
    if events.len() > 0 {
        let before = events.drop_last();
        assert forall|i: int| 0 <= i < before.len() implies launch_fits(
            launch_step(
                plan,
                #[trigger] after_launches(plan, launch_from(plan, 0), before.take(i)),
            ),
            before[i],
        ) by {
            assert(before.take(i) =~= events.take(i));
            assert(launch_fits(
                launch_step(plan, after_launches(plan, launch_from(plan, 0), events.take(i))),
                events[i],
            ));
        }
        lemma_threads_so_far(plan, before);
        let last = events.len() - 1;
        assert(events.take(last) =~= before);
        assert(launch_fits(
            launch_step(plan, after_launches(plan, launch_from(plan, 0), events.take(last))),
            events[last],
        ));
    }
}

/// When the devices work, exactly one thread was started for each.
pub proof fn lemma_one_thread_per_device(plan: LaunchPlan, events: Seq<LaunchOutcome>)
    requires
        all_fit(plan, events),
        after_launches(plan, launch_from(plan, 0), events) is Finished,
    ensures
        started(events) == plan.parts.len(),
{
    lemma_threads_so_far(plan, events);
}

/// The devices of a list are put to work through the descriptor of the virtual
/// machine, as the version of the driver has it.
pub proof fn lemma_plan_uses_the_machine(parts: Seq<device::Part>, cfg: config::Config)
    ensures
        plan_for(parts, cfg).parts == parts,
        plan_for(parts, cfg).version == cfg.driver_variant,
        plan_for(parts, cfg).fd == cfg.vm_sfd,
{
}

/// A device that is put to work begins to publish its registers, from the
/// first one on. Without the virtual machine, its registers or its space the
/// backend ends, and behind the last device the run is over.
pub proof fn lemma_each_device_begins_to_publish(plan: LaunchPlan, at: int)
    requires
        0 <= at,
    ensures
        ({
            let step = launch_step(plan, launch_from(plan, at));
            &&& at >= plan.parts.len() ==> step is Return
            &&& at < plan.parts.len() ==> (step is Panic <==> plan.fd is None
                || plan.parts[at].mmio is None || plan.parts[at].config_space is None)
            &&& at < plan.parts.len() && !(step is Panic) ==> (step matches LaunchAct::Step {
                fd,
                act: mmio::Act::MmioRead { offset, data },
            } && Some(fd) == plan.fd && offset == 0 && data == seq![0u8, 0u8, 0u8, 0u8])
        }),
{
    assert(mmio::zeros(4) =~= seq![0u8, 0u8, 0u8, 0u8]);
}

/// A device publishes under its own label, with its own space and for all its
/// queues. When that is over its thread is started: with its label, its
/// registers and the space that the driver gave back, and with the descriptor
/// of the virtual machine. Then the next device has its turn.
pub proof fn lemma_each_device_publishes_and_starts(
    plan: LaunchPlan,
    at: int,
    history: Seq<mmio::Answer>,
    reply: mmio::Answer,
    own: config_space::PublishPlan,
    space: Seq<u32>,
)
    requires
        0 <= at < plan.parts.len(),
        plan.fd is Some,
        plan.parts[at].mmio is Some,
        plan.parts[at].config_space == Some(own.cspace),
        own.label == plan.parts[at].label,
        own.version == plan.version,
        own.queues == plan.parts[at].mmio->0.num_queues,
        history.len() > 65,
        history[65] matches mmio::Answer::Ioctl {
            arg: crate::ioctl::Arg::ConfigData { data, .. },
            ..
        } && data == space,
    ensures
        ({
            let s = Launching::Publishing { at, history };
            let next = after_launch(plan, s, LaunchOutcome::Replied(reply));
            let step = config_space::publish_step(own, history.push(reply));
            &&& launch_step(plan, s) matches LaunchAct::Step { fd, act } && Some(fd) == plan.fd
                && act == config_space::publish_step(own, history)
            &&& step is Panic ==> launch_step(plan, next) is Panic
            &&& !(step is Return) && !(step is Panic) ==> (launch_step(
                plan,
                next,
            ) matches LaunchAct::Step { fd, act } && Some(fd) == plan.fd && act == step)
            &&& step is Return ==> (launch_step(plan, next) matches LaunchAct::Start {
                label,
                fd,
                device,
                cspace,
            } && label == plan.parts[at].label && Some(fd) == plan.fd && Some(device)
                == plan.parts[at].mmio && cspace == space)
            &&& step is Return ==> after_launch(plan, next, LaunchOutcome::Started) == launch_from(
                plan,
                at + 1,
            )
        }),
{
    assert(history.push(reply)[65] == history[65]);
}

/// The replies that come before the space is handed over do not end the
/// publishing: each is followed by the next step of the same device.
pub proof fn lemma_publishing_goes_on(
    plan: LaunchPlan,
    at: int,
    history: Seq<mmio::Answer>,
    reply: mmio::Answer,
    own: config_space::PublishPlan,
)
    requires
        0 <= at < plan.parts.len(),
        plan.fd is Some,
        plan.parts[at].mmio is Some,
        plan.parts[at].config_space == Some(own.cspace),
        own.label == plan.parts[at].label,
        own.version == plan.version,
        own.queues == plan.parts[at].mmio->0.num_queues,
        history.len() <= 65,
    ensures
        ({
            let s = Launching::Publishing { at, history };
            let next = after_launch(plan, s, LaunchOutcome::Replied(reply));
            let step = config_space::publish_step(own, history.push(reply));
            &&& launch_step(plan, s) matches LaunchAct::Step { fd, act } && Some(fd) == plan.fd
                && act == config_space::publish_step(own, history)
            &&& step is Panic ==> launch_step(plan, next) is Panic
            &&& !(step is Panic) ==> (launch_step(plan, next) matches LaunchAct::Step { fd, act }
                && Some(fd) == plan.fd && act == step)
        }),
{
}

proof fn lemma_started_counts(events: Seq<LaunchOutcome>)
    ensures
        started(events) == events.filter(|e: LaunchOutcome| e is Started).len(),
    decreases events.len(),
{
    reveal(Seq::filter);
    if events.len() > 0 {
        lemma_started_counts(events.drop_last());
    }
}

/// The threads are started in the order of the devices: the one that is
/// started behind `n` others serves the device with index `n`.
pub proof fn lemma_threads_start_in_order(plan: LaunchPlan, events: Seq<LaunchOutcome>)
    requires
        all_fit(plan, events),
    ensures
        ({
            let n = events.filter(|e: LaunchOutcome| e is Started).len() as int;
            let act = launch_step(plan, after_launches(plan, launch_from(plan, 0), events));
            &&& act matches LaunchAct::Start { label, fd, device, .. } ==> n < plan.parts.len()
                && label == plan.parts[n].label && fd == plan.fd->0 && device
                == plan.parts[n].mmio->0
            &&& act is Return <==> n == plan.parts.len()
        }),
{
    lemma_threads_so_far(plan, events);
    lemma_started_counts(events);
}

/// Where the run stands, with what it needs.
enum Stage {
    Publishing(usize, Publish),
    Starting(usize, Vec<u32>),
    Finished,
    Failed,
}

/// Puts the devices of one kind to work.
pub struct Launch {
    parts: Vec<Common>,
    version: u8,
    fd: Option<i32>,
    stage: Stage,
}

/// What a list of devices has in common.
pub open spec fn all_parts(parts: Seq<Common>) -> Seq<device::Part> {
    Seq::new(parts.len(), |i: int| parts[i]@)
}

/// A list of devices is modelled entry by entry, each by its own label,
/// registers and space.
pub proof fn lemma_parts_are_modelled_in_order(parts: Seq<Common>, i: int)
    requires
        0 <= i < parts.len(),
    ensures
        all_parts(parts).len() == parts.len(),
        all_parts(parts)[i].label == parts[i].label,
        parts[i].mmio matches Some(device) ==> all_parts(parts)[i].mmio == Some(device@),
        parts[i].mmio is None ==> all_parts(parts)[i].mmio is None,
        parts[i].config_space matches Some(words) ==> all_parts(parts)[i].config_space == Some(
            words@,
        ),
        parts[i].config_space is None ==> all_parts(parts)[i].config_space is None,
{
}

impl Launch {
    /// The devices that are put to work.
    pub closed spec fn plan(self) -> LaunchPlan {
        LaunchPlan { parts: all_parts(self.parts@), version: self.version, fd: self.fd }
    }

    /// Where the run stands.
    pub closed spec fn launching(self) -> Launching {
        match self.stage {
            Stage::Publishing(at, run) => Launching::Publishing {
                at: at as int,
                history: run.history(),
            },
            Stage::Starting(at, cspace) => Launching::Starting { at: at as int, cspace: cspace@ },
            Stage::Finished => Launching::Finished,
            Stage::Failed => Launching::Failed,
        }
    }

    pub closed spec fn wf(self) -> bool {
        &&& self.parts@.len() > 0 ==> creation::version_exists(self.version)
        &&& match self.stage {
            Stage::Publishing(at, run) => {
                &&& at < self.parts@.len()
                &&& self.fd is Some
                &&& self.parts@[at as int].mmio is Some
                &&& run.wf()
                &&& run.plan() == publish_plan(self.plan(), at as int)
                &&& !(run.next() is Return)
                &&& !(run.next() is Panic)
            },
            Stage::Starting(at, cspace) => {
                &&& at < self.parts@.len()
                &&& self.fd is Some
                &&& self.parts@[at as int].mmio is Some
                &&& cspace@.len() >= mmio::CONFIG_SPACE_WORDS
            },
            _ => true,
        }
    }

    /// The next step.
    pub open spec fn next(self) -> LaunchAct {
        launch_step(self.plan(), self.launching())
    }

    /// The next step.
    pub fn action(&self) -> (r: LaunchAction)
        requires
            self.wf(),
        ensures
            r@ == self.next(),
            r@ matches LaunchAct::Start { cspace, .. } ==> cspace.len()
                >= mmio::CONFIG_SPACE_WORDS,
    {
        match &self.stage {
            Stage::Publishing(_, run) => match self.fd {
                Some(fd) => LaunchAction::Step { fd, action: run.action() },
                None => LaunchAction::Panic,
            },
            Stage::Starting(at, cspace) => {
                assert(self.plan().parts[*at as int] == self.parts@[*at as int]@);
                match (&self.parts[*at].mmio, self.fd) {
                    (Some(device), Some(fd)) => LaunchAction::Start {
                        label: self.parts[*at].label,
                        fd,
                        device: device.duplicate(),
                        cspace: mmio::copy_words(cspace),
                    },
                    _ => LaunchAction::Panic,
                }
            },
            Stage::Finished => LaunchAction::Return,
            Stage::Failed => LaunchAction::Panic,
        }
    }

    /// Goes to the device with index `at`.
    fn go_to(&mut self, at: usize)
        requires
            old(self).parts@.len() > 0 ==> creation::version_exists(old(self).version),
        ensures
            final(self).wf(),
            final(self).plan() == old(self).plan(),
            final(self).launching() == launch_from(old(self).plan(), at as int),
    {
        if at >= self.parts.len() {
            self.stage = Stage::Finished;
            return ;
        }
        assert(self.plan().parts[at as int] == self.parts@[at as int]@);
        let part = &self.parts[at];
        self.stage = match (self.fd, &part.mmio, &part.config_space) {
            (Some(_), Some(device), Some(words)) => Stage::Publishing(
                at,
                config_space::init_config_space(
                    mmio::copy_words(words),
                    part.label,
                    device,
                    self.version,
                ),
            ),
            _ => Stage::Failed,
        };
    }

    /// Takes what came of the step that `action` gave.
    pub fn advance(&mut self, event: LaunchEvent)
        requires
            old(self).wf(),
            launch_fits(old(self).next(), event@),
        ensures
            final(self).wf(),
            final(self).plan() == old(self).plan(),
            final(self).launching() == after_launch(
                old(self).plan(),
                old(self).launching(),
                event@,
            ),
    {
        let mut stage = Stage::Failed;
        std::mem::swap(&mut stage, &mut self.stage);
        match stage {
            Stage::Publishing(at, run) => {
                let mut run = run;
                if let LaunchEvent::Replied(reply) = event {
                    run.advance(reply);
                }
                match run.action() {
                    Action::Return(_) => {
                        self.stage = Stage::Starting(at, run.into_cspace());
                    },
                    Action::Panic => {},
                    _ => {
                        self.stage = Stage::Publishing(at, run);
                    },
                }
            },
            Stage::Starting(at, _) => {
                let n: usize = self.parts.len();
                assert(at < n);
                self.go_to(at + 1);
            },
            Stage::Finished => {
                self.stage = Stage::Finished;
            },
            Stage::Failed => {},
        }
    }
}

/// Starts to put the devices to work.
pub fn launch(parts: Vec<Common>, cfg: &BackendConfig) -> (r: Launch)
    requires
        parts@.len() > 0 ==> creation::version_exists(cfg@.driver_variant),
    ensures
        r.wf(),
        r.plan() == plan_for(all_parts(parts@), cfg@),
        r.launching() == launch_from(r.plan(), 0),
{
    let mut run = Launch {
        parts,
        version: cfg.driver_variant,
        fd: cfg.vm_sfd,
        stage: Stage::Failed,
    };
    run.go_to(0);
    run
}

} // verus!
