//! Creating the devices of one kind: each is built, connected to the driver
//! and, if it is an input device, described to it.
use vstd::prelude::*;

use crate::config;
use crate::config::BackendConfig;
use crate::device;
use crate::error;
use crate::error::BackendError;
use crate::input_config;
use crate::input_config::{Describe, InputSelectors};
use crate::mmio;
use crate::mmio::{Action, MmioDevice, Reply};
use crate::wiring;
use crate::wiring::Wiring;

verus! {

/// Where the bytes of a disk come from.
#[derive(Clone, Copy, Debug, PartialEq, Eq, Structural)]
pub enum DiskSource {
    /// A descriptor that is already open.
    Inherited,
    /// A file that is opened for reading, and for writing or around the cache
    /// of the system if so marked.
    File { write: bool, direct: bool },
}

/// How the bytes of a disk are guarded against other users.
#[derive(Clone, Copy, Debug, PartialEq, Eq, Structural)]
pub enum DiskLock {
    Shared,
    Exclusive,
}

/// The devices that a process behind a socket implements and that need no more
/// than the socket.
#[derive(Clone, Copy, Debug, PartialEq, Eq, Structural)]
pub enum VhostUserKind {
    Gp,
    Scmi,
    I2c,
    Gpio,
    Frpc,
    Ssr,
    Eavb,
}

/// Where the bytes of a console go.
#[derive(Clone, Copy, Debug, PartialEq, Eq, Structural)]
pub enum SerialType {
    Stdout,
    File,
}

/// What a console is to the virtual machine.
#[derive(Clone, Copy, Debug, PartialEq, Eq, Structural)]
pub enum SerialHardware {
    VirtioConsole,
}

/// The parameters of a console.
#[derive(Debug)]
pub struct SerialParameters {
    pub type_: SerialType,
    pub hardware: SerialHardware,
    pub path: Option<String>,
    pub input: Option<String>,
    pub num: u8,
    pub console: bool,
    pub earlycon: bool,
    pub stdin: bool,
    pub out_timestamp: bool,
}

/// `SerialParameters` with its texts as sequences.
pub struct Serial {
    pub type_: SerialType,
    pub hardware: SerialHardware,
    pub path: Option<Seq<char>>,
    pub input: Option<Seq<char>>,
    pub num: u8,
    pub console: bool,
    pub earlycon: bool,
    pub stdin: bool,
    pub out_timestamp: bool,
}

impl View for SerialParameters {
    type V = Serial;

    open spec fn view(&self) -> Serial {
        Serial {
            type_: self.type_,
            hardware: self.hardware,
            path: config::optional_text(self.path),
            input: config::optional_text(self.input),
            num: self.num,
            console: self.console,
            earlycon: self.earlycon,
            stdin: self.stdin,
            out_timestamp: self.out_timestamp,
        }
    }
}

fn copy_text(s: &Option<String>) -> (r: Option<String>)
    ensures
        config::optional_text(r) == config::optional_text(*s),
{
    match s {
        Some(s) => Some(s.clone()),
        None => None,
    }
}

impl SerialParameters {
    /// A copy of these parameters.
    pub fn duplicate(&self) -> (r: SerialParameters)
        ensures
            r@ == self@,
    {
        SerialParameters {
            type_: self.type_,
            hardware: self.hardware,
            path: copy_text(&self.path),
            input: copy_text(&self.input),
            num: self.num,
            console: self.console,
            earlycon: self.earlycon,
            stdin: self.stdin,
            out_timestamp: self.out_timestamp,
        }
    }
}

/// A device to build.
#[derive(Debug)]
pub enum Build {
    Block {
        path: String,
        source: DiskSource,
        lock: DiskLock,
        read_only: bool,
        sparse: bool,
        block_size: u32,
        queue_size: Option<u16>,
    },
    Net {
        device_path: String,
        ip_addr: [u8; 4],
        netmask: [u8; 4],
        mac_addr: [u8; 6],
        name: Option<String>,
    },
    VhostUser { kind: VhostUserKind, socket: String },
    VhostUserHab { socket: String, device_id: u32, no_of_queues: u32 },
    VhostUserFs { socket: String, tag: String },
    VhostUserGeneric { socket: String, num_queues: Option<u64> },
    Input { path: String, selectors: InputSelectors },
    Console { params: SerialParameters },
    Scmi { path: String },
    Vsock { path: String, cid: u64 },
}

/// `Build` with its texts and lists as sequences.
pub enum Order {
    Block {
        path: Seq<char>,
        source: DiskSource,
        lock: DiskLock,
        read_only: bool,
        sparse: bool,
        block_size: u32,
        queue_size: Option<u16>,
    },
    Net {
        device_path: Seq<char>,
        ip_addr: Seq<u8>,
        netmask: Seq<u8>,
        mac_addr: Seq<u8>,
        name: Option<Seq<char>>,
    },
    VhostUser { kind: VhostUserKind, socket: Seq<char> },
    VhostUserHab { socket: Seq<char>, device_id: u32, no_of_queues: u32 },
    VhostUserFs { socket: Seq<char>, tag: Seq<char> },
    VhostUserGeneric { socket: Seq<char>, num_queues: Option<u64> },
    Input { path: Seq<char>, selectors: InputSelectors },
    Console { params: Serial },
    Scmi { path: Seq<char> },
    Vsock { path: Seq<char>, cid: u64 },
}

impl View for Build {
    type V = Order;

    open spec fn view(&self) -> Order {
        match self {
            Build::Block { path, source, lock, read_only, sparse, block_size, queue_size } =>
                Order::Block {
                path: path@,
                source: *source,
                lock: *lock,
                read_only: *read_only,
                sparse: *sparse,
                block_size: *block_size,
                queue_size: *queue_size,
            },
            Build::Net { device_path, ip_addr, netmask, mac_addr, name } => Order::Net {
                device_path: device_path@,
                ip_addr: ip_addr@,
                netmask: netmask@,
                mac_addr: mac_addr@,
                name: config::optional_text(*name),
            },
            Build::VhostUser { kind, socket } => Order::VhostUser { kind: *kind, socket: socket@ },
            Build::VhostUserHab { socket, device_id, no_of_queues } => Order::VhostUserHab {
                socket: socket@,
                device_id: *device_id,
                no_of_queues: *no_of_queues,
            },
            Build::VhostUserFs { socket, tag } => Order::VhostUserFs { socket: socket@, tag: tag@ },
            Build::VhostUserGeneric { socket, num_queues } => Order::VhostUserGeneric {
                socket: socket@,
                num_queues: *num_queues,
            },
            Build::Input { path, selectors } => Order::Input {
                path: path@,
                selectors: *selectors,
            },
            Build::Console { params } => Order::Console { params: params@ },
            Build::Scmi { path } => Order::Scmi { path: path@ },
            Build::Vsock { path, cid } => Order::Vsock { path: path@, cid: *cid },
        }
    }
}

impl Build {
    /// A copy of this order.
    pub fn duplicate(&self) -> (r: Build)
        ensures
            r@ == self@,
    {
        match self {
            Build::Block { path, source, lock, read_only, sparse, block_size, queue_size } =>
                Build::Block {
                path: path.clone(),
                source: *source,
                lock: *lock,
                read_only: *read_only,
                sparse: *sparse,
                block_size: *block_size,
                queue_size: *queue_size,
            },
            Build::Net { device_path, ip_addr, netmask, mac_addr, name } => Build::Net {
                device_path: device_path.clone(),
                ip_addr: *ip_addr,
                netmask: *netmask,
                mac_addr: *mac_addr,
                name: copy_text(name),
            },
            Build::VhostUser { kind, socket } => Build::VhostUser {
                kind: *kind,
                socket: socket.clone(),
            },
            Build::VhostUserHab { socket, device_id, no_of_queues } => Build::VhostUserHab {
                socket: socket.clone(),
                device_id: *device_id,
                no_of_queues: *no_of_queues,
            },
            Build::VhostUserFs { socket, tag } => Build::VhostUserFs {
                socket: socket.clone(),
                tag: tag.clone(),
            },
            Build::VhostUserGeneric { socket, num_queues } => Build::VhostUserGeneric {
                socket: socket.clone(),
                num_queues: *num_queues,
            },
            Build::Input { path, selectors } => Build::Input {
                path: path.clone(),
                selectors: *selectors,
            },
            Build::Console { params } => Build::Console { params: params.duplicate() },
            Build::Scmi { path } => Build::Scmi { path: path.clone() },
            Build::Vsock { path, cid } => Build::Vsock { path: path.clone(), cid: *cid },
        }
    }
}

/// The step of building a device that failed.
#[derive(Clone, Copy, Debug, PartialEq, Eq, Structural)]
pub enum BuildFailure {
    /// Finding the descriptor that is already open.
    FileDescriptor,
    /// Opening a file.
    Open,
    /// Guarding a file against other users.
    Lock,
    /// Reading the format of a disk.
    DiskFile,
    /// Creating an event.
    Event,
    /// Creating the device itself.
    Device,
}

/// Whether building `order` has the step `f`.
pub open spec fn can_fail(order: Order, f: BuildFailure) -> bool {
    match f {
        BuildFailure::FileDescriptor => order matches Order::Block { source, .. }
            && source is Inherited,
        BuildFailure::Open => match order {
            Order::Block { source, .. } => source is File,
            _ => order is Input,
        },
        BuildFailure::Lock => order is Block,
        BuildFailure::DiskFile => order is Block,
        BuildFailure::Event => order is Console,
        BuildFailure::Device => true,
    }
}

/// The error for the failure of a device that a process behind a socket
/// implements.
pub open spec fn vhost_user_error(kind: VhostUserKind) -> Seq<char> {
    match kind {
        VhostUserKind::Gp => "vhost gp new failed"@,
        VhostUserKind::Scmi => "vhost scmi new failed"@,
        VhostUserKind::I2c => "vhost user i2c new failed"@,
        VhostUserKind::Gpio => "vhost user gpio new failed"@,
        VhostUserKind::Frpc => "vhost frpc new failed"@,
        VhostUserKind::Ssr => "vhost user ssr new failed"@,
        VhostUserKind::Eavb => "vhost eavb new failed"@,
    }
}

/// The error for a step of building `order` that failed; `said` is what the
/// system said. There is none for a socket to the host: the backend cannot go
/// on without it.
pub open spec fn build_error(order: Order, f: BuildFailure, said: Seq<char>) -> Option<
    error::Failure,
> {
    match order {
        Order::Block { .. } => Some(
            match f {
                BuildFailure::FileDescriptor => error::Failure::Plain("raw_fd_from_path failed"@),
                BuildFailure::Open => error::Failure::System {
                    err: "open of disk file failed"@,
                    val: said,
                },
                BuildFailure::Lock => error::Failure::System {
                    err: "flock on disk file failed"@,
                    val: said,
                },
                BuildFailure::DiskFile => error::Failure::System {
                    err: "create_disk_file failed"@,
                    val: said,
                },
                _ => error::Failure::Plain("virtio_block_new failed"@),
            },
        ),
        Order::Net { name, .. } => Some(
            error::Failure::Plain(
                if name is Some {
                    "new with name failed failed"@
                } else {
                    "vhost_net_new failed"@
                },
            ),
        ),
        Order::VhostUser { kind, .. } => Some(error::Failure::Plain(vhost_user_error(kind))),
        Order::VhostUserHab { .. } => Some(error::Failure::Plain("vhost hab new failed"@)),
        Order::VhostUserFs { .. } => Some(error::Failure::Plain("vhost user fs new failed"@)),
        Order::VhostUserGeneric { .. } => Some(
            error::Failure::Plain("vhost user generic new failed"@),
        ),
        Order::Input { .. } => Some(
            if f is Open {
                error::Failure::System { err: "open vinput device faild"@, val: said }
            } else {
                error::Failure::Plain("set up input device failed"@)
            },
        ),
        Order::Console { .. } => Some(
            error::Failure::Plain(
                if f is Event {
                    "failed to create event"@
                } else {
                    "failed to create console device"@
                },
            ),
        ),
        Order::Scmi { .. } => Some(error::Failure::Plain("virtio scmi new failed"@)),
        Order::Vsock { .. } => None,
    }
}

fn vhost_user_failure(kind: VhostUserKind) -> (r: BackendError)
    ensures
        r@ == error::Failure::Plain(vhost_user_error(kind)),
{
    error::plain(
        match kind {
            VhostUserKind::Gp => "vhost gp new failed",
            VhostUserKind::Scmi => "vhost scmi new failed",
            VhostUserKind::I2c => "vhost user i2c new failed",
            VhostUserKind::Gpio => "vhost user gpio new failed",
            VhostUserKind::Frpc => "vhost frpc new failed",
            VhostUserKind::Ssr => "vhost user ssr new failed",
            VhostUserKind::Eavb => "vhost eavb new failed",
        },
    )
}

/// The error for a step of building `order` that failed.
pub fn build_failure(order: &Build, f: BuildFailure, said: &str) -> (r: Option<BackendError>)
    ensures
        match r {
            Some(e) => build_error(order@, f, said@) == Some(e@),
            None => build_error(order@, f, said@) is None,
        },
{
    match order {
        Build::Block { .. } => Some(
            match f {
                BuildFailure::FileDescriptor => error::plain("raw_fd_from_path failed"),
                BuildFailure::Open => error::system("open of disk file failed", said),
                BuildFailure::Lock => error::system("flock on disk file failed", said),
                BuildFailure::DiskFile => error::system("create_disk_file failed", said),
                _ => error::plain("virtio_block_new failed"),
            },
        ),
        Build::Net { name, .. } => Some(
            error::plain(
                if name.is_some() {
                    "new with name failed failed"
                } else {
                    "vhost_net_new failed"
                },
            ),
        ),
        Build::VhostUser { kind, .. } => Some(vhost_user_failure(*kind)),
        Build::VhostUserHab { .. } => Some(error::plain("vhost hab new failed")),
        Build::VhostUserFs { .. } => Some(error::plain("vhost user fs new failed")),
        Build::VhostUserGeneric { .. } => Some(error::plain("vhost user generic new failed")),
        Build::Input { .. } => Some(
            match f {
                BuildFailure::Open => error::system("open vinput device faild", said),
                _ => error::plain("set up input device failed"),
            },
        ),
        Build::Console { .. } => Some(
            match f {
                BuildFailure::Event => error::plain("failed to create event"),
                _ => error::plain("failed to create console device"),
            },
        ),
        Build::Scmi { .. } => Some(error::plain("virtio scmi new failed")),
        Build::Vsock { .. } => None,
    }
}

/// One device of the run: its label, and the order to build it if there is
/// anything to build.
#[derive(Debug)]
pub struct Job {
    pub label: u32,
    pub build: Option<Build>,
}

/// `Job` with its texts and lists as sequences.
pub struct Task {
    pub label: u32,
    pub order: Option<Order>,
}

impl View for Job {
    type V = Task;

    open spec fn view(&self) -> Task {
        Task {
            label: self.label,
            order: match self.build {
                Some(build) => Some(build@),
                None => None,
            },
        }
    }
}

/// The devices that are created, and by which requests.
pub struct CreationPlan {
    pub tasks: Seq<Task>,
    pub version: u8,
    /// The descriptor that the requests go through.
    pub fd: i32,
}

/// Whether devices can be created: there is memory, and a descriptor for the
/// version of the driver.
pub open spec fn ready(cfg: config::Config) -> bool {
    &&& cfg.mem is Some
    &&& cfg.driver_variant == 1 ==> cfg.sfd is Some
    &&& cfg.driver_variant == 2 ==> cfg.vm_sfd is Some
}

/// The descriptor that the requests go through: that of the hypervisor or of
/// the virtual machine, as the version of the driver has it.
pub open spec fn descriptor(cfg: config::Config) -> Option<i32> {
    if cfg.driver_variant == 1 {
        cfg.sfd
    } else if cfg.driver_variant == 2 {
        cfg.vm_sfd
    } else {
        None
    }
}

/// The plan for the tasks. Where there is no descriptor, no request is sent.
pub open spec fn plan_for(tasks: Seq<Task>, cfg: config::Config) -> CreationPlan {
    CreationPlan {
        tasks,
        version: cfg.driver_variant,
        fd: match descriptor(cfg) {
            Some(fd) => fd,
            None => -1i32,
        },
    }
}

/// Where the run stands. `made` holds what is known of the registers of the
/// devices before this one.
pub enum Making {
    Building { at: int, made: Seq<Option<mmio::Registers>> },
    Connecting {
        at: int,
        made: Seq<Option<mmio::Registers>>,
        device: mmio::Registers,
        history: Seq<mmio::Answer>,
    },
    Describing {
        at: int,
        made: Seq<Option<mmio::Registers>>,
        device: mmio::Registers,
        history: Seq<mmio::Answer>,
    },
    Finished { made: Seq<Option<mmio::Registers>>, result: Result<(), error::Failure> },
    Failed,
}

/// Whether a driver of this version exists.
pub open spec fn version_exists(version: u8) -> bool {
    version == 1 || version == 2
}

/// The error for a version of the driver that does not exist.
pub open spec fn no_such_version() -> Result<(), error::Failure> {
    Err(error::Failure::Plain("Unsupported driver variant."@))
}

/// The run when it comes to the device with index `at`. A device that there is
/// nothing to build for is passed over. The version of the driver is looked at
/// before a device is built, but for the one kind that is built first.
pub open spec fn reach(plan: CreationPlan, at: int, made: Seq<Option<mmio::Registers>>) -> Making
    decreases plan.tasks.len() - at,
{
    if at >= plan.tasks.len() {
        Making::Finished { made, result: Ok(()) }
    } else if !version_exists(plan.version) && !(plan.tasks[at].order matches Some(order)
        && order is Scmi) {
        Making::Finished { made, result: no_such_version() }
    } else if plan.tasks[at].order is None {
        reach(plan, at + 1, made.push(None))
    } else {
        Making::Building { at, made }
    }
}

/// The connection of the device with index `at`.
pub open spec fn wiring_plan(plan: CreationPlan, at: int, device: mmio::Registers)
    -> wiring::WiringPlan {
    wiring::WiringPlan {
        queue_evts: device.queue_evts,
        interrupt_evt: device.interrupt_evt,
        label: plan.tasks[at].label,
        version: plan.version,
    }
}

/// The description of the input device with index `at`.
pub open spec fn input_plan(plan: CreationPlan, at: int) -> input_config::InputPlan {
    input_config::InputPlan {
        label: plan.tasks[at].label,
        version: plan.version,
        selectors: plan.tasks[at].order->0->Input_selectors,
    }
}

/// What to do next.
#[derive(Debug)]
pub enum CreateAction {
    /// Build the device.
    Build(Build),
    /// Take the step with the device that was built last, with requests
    /// through `fd`.
    Step { fd: i32, action: Action },
    /// Nothing more: this is the result.
    Return(Result<(), BackendError>),
    /// Nothing more: the backend cannot go on.
    Panic,
}

/// `CreateAction` with its texts and lists as sequences.
pub enum CreateAct {
    Build(Order),
    Step { fd: i32, act: mmio::Act },
    Return(Result<(), error::Failure>),
    Panic,
}

impl View for CreateAction {
    type V = CreateAct;

    open spec fn view(&self) -> CreateAct {
        match self {
            CreateAction::Build(build) => CreateAct::Build(build@),
            CreateAction::Step { fd, action } => CreateAct::Step { fd: *fd, act: action@ },
            CreateAction::Return(Ok(_)) => CreateAct::Return(Ok(())),
            CreateAction::Return(Err(e)) => CreateAct::Return(Err(e@)),
            CreateAction::Panic => CreateAct::Panic,
        }
    }
}

/// What came of an action.
#[derive(Debug)]
pub enum CreateEvent {
    /// The device was built and has registers.
    Built(MmioDevice),
    /// A step of building failed, and this is what the system said.
    NotBuilt { failure: BuildFailure, error: String },
    /// The device was built but has no registers.
    NoRegisters,
    /// The reply to a step.
    Replied(Reply),
}

/// `CreateEvent` with its texts and lists as sequences.
pub enum Outcome {
    Built(mmio::Registers),
    NotBuilt { failure: BuildFailure, error: Seq<char> },
    NoRegisters,
    Replied(mmio::Answer),
}

impl View for CreateEvent {
    type V = Outcome;

    open spec fn view(&self) -> Outcome {
        match self {
            CreateEvent::Built(device) => Outcome::Built(device@),
            CreateEvent::NotBuilt { failure, error } => Outcome::NotBuilt {
                failure: *failure,
                error: error@,
            },
            CreateEvent::NoRegisters => Outcome::NoRegisters,
            CreateEvent::Replied(reply) => Outcome::Replied(reply@),
        }
    }
}

/// Whether `event` can come of `act`.
pub open spec fn outcome_fits(act: CreateAct, event: Outcome) -> bool {
    match act {
        CreateAct::Build(order) => match event {
            Outcome::Built(device) => device.queue_evts.len() <= u32::MAX,
            Outcome::NotBuilt { failure, .. } => can_fail(order, failure),
            Outcome::NoRegisters => true,
            Outcome::Replied(_) => false,
        },
        CreateAct::Step { act, .. } => event matches Outcome::Replied(reply) && mmio::fits(
            act,
            reply,
        ),
        CreateAct::Return(_) => false,
        CreateAct::Panic => false,
    }
}

/// The next step.
pub open spec fn create_step(plan: CreationPlan, s: Making) -> CreateAct {
    match s {
        Making::Building { at, .. } => CreateAct::Build(plan.tasks[at].order->0),
        Making::Connecting { at, device, history, .. } => CreateAct::Step {
            fd: plan.fd,
            act: wiring::wiring_step(wiring_plan(plan, at, device), history),
        },
        Making::Describing { at, history, .. } => CreateAct::Step {
            fd: plan.fd,
            act: input_config::describe_step(input_plan(plan, at), history),
        },
        Making::Finished { result, .. } => CreateAct::Return(result),
        Making::Failed => CreateAct::Panic,
    }
}

/// Where the run stands when the device with index `at` was connected.
pub open spec fn connected(
    plan: CreationPlan,
    at: int,
    made: Seq<Option<mmio::Registers>>,
    device: mmio::Registers,
) -> Making {
    if !(plan.tasks[at].order->0 is Input) {
        reach(plan, at + 1, made.push(Some(device)))
    } else if plan.version == 2 {
        Making::Describing { at, made, device, history: Seq::empty() }
    } else {
        Making::Failed
    }
}

/// Where the run stands after the outcome of a step.
///
/// A device that cannot be built or connected ends the run with an error. A
/// socket to the host is different: the backend cannot go on if it cannot be
/// built, and it counts as connected in any case.
pub open spec fn after_outcome(plan: CreationPlan, s: Making, event: Outcome) -> Making {
    match s {
        Making::Building { at, made } => {
            let order = plan.tasks[at].order->0;
            match event {
                Outcome::NotBuilt { failure, error } => match build_error(order, failure, error) {
                    Some(e) => Making::Finished { made, result: Err(e) },
                    None => Making::Failed,
                },
                Outcome::Built(device) => if !version_exists(plan.version) {
                    Making::Finished { made, result: no_such_version() }
                } else if device.queue_evts.len() == 0 && device.interrupt_evt is None {
                    Making::Failed
                } else {
                    Making::Connecting { at, made, device, history: Seq::empty() }
                },
                _ => if version_exists(plan.version) {
                    Making::Failed
                } else {
                    Making::Finished { made, result: no_such_version() }
                },
            }
        },
        Making::Connecting { at, made, device, history } => {
            let h = history.push(event->Replied_0);
            match wiring::wiring_step(wiring_plan(plan, at, device), h) {
                mmio::Act::Return(Err(e)) => if plan.tasks[at].order->0 is Vsock {
                    connected(plan, at, made, device)
                } else {
                    Making::Finished { made: made.push(Some(device)), result: Err(e) }
                },
                mmio::Act::Return(Ok(_)) => connected(plan, at, made, device),
                mmio::Act::Panic => Making::Failed,
                _ => Making::Connecting { at, made, device, history: h },
            }
        },
        Making::Describing { at, made, device, history } => {
            let h = history.push(event->Replied_0);
            match input_config::describe_step(input_plan(plan, at), h) {
                mmio::Act::Return(_) => reach(plan, at + 1, made.push(Some(device))),
                mmio::Act::Panic => Making::Failed,
                _ => Making::Describing { at, made, device, history: h },
            }
        },
        Making::Finished { .. } => s,
        Making::Failed => s,
    }
}

/// Whether `made` can stand for the first `n` devices: there are registers
/// exactly where there was something to build.
pub open spec fn stands_for(
    plan: CreationPlan,
    made: Seq<Option<mmio::Registers>>,
    n: int,
) -> bool {
    &&& made.len() == n
    &&& n <= plan.tasks.len()
    &&& forall|i: int|
        0 <= i < n ==> ((#[trigger] made[i]) is Some) == (plan.tasks[i].order is Some)
}

/// Whether the run is in order: what it made stands for the devices that it
/// has dealt with, and if it ended well it has dealt with all.
pub open spec fn in_order(plan: CreationPlan, s: Making) -> bool {
    match s {
        Making::Building { at, made } => stands_for(plan, made, at) && 0 <= at < plan.tasks.len()
            && plan.tasks[at].order is Some,
        Making::Connecting { at, made, .. } => stands_for(plan, made, at) && 0 <= at
            < plan.tasks.len() && plan.tasks[at].order is Some,
        Making::Describing { at, made, .. } => stands_for(plan, made, at) && 0 <= at
            < plan.tasks.len() && plan.tasks[at].order is Some,
        Making::Finished { made, result } => {
            &&& made.len() <= plan.tasks.len()
            &&& stands_for(plan, made, made.len() as int)
            &&& result is Ok ==> made.len() == plan.tasks.len()
        },
        Making::Failed => true,
    }
}

proof fn lemma_reach_in_order(plan: CreationPlan, at: int, made: Seq<Option<mmio::Registers>>)
    requires
        0 <= at <= plan.tasks.len(),
        stands_for(plan, made, at),
    ensures
        in_order(plan, reach(plan, at, made)),
    decreases plan.tasks.len() - at,
{
    if at < plan.tasks.len() && plan.tasks[at].order is None && version_exists(plan.version) {
        lemma_reach_in_order(plan, at + 1, made.push(None));
    }
}

/// A run is in order from its start on, whatever comes of its steps: a run
/// that ends well has made every device that there was anything to build for.
pub proof fn lemma_run_is_in_order(plan: CreationPlan, s: Making, event: Outcome)
    ensures
        in_order(plan, reach(plan, 0, Seq::empty())),
        in_order(plan, s) ==> in_order(plan, after_outcome(plan, s, event)),
{
    lemma_reach_in_order(plan, 0, Seq::empty());
    if in_order(plan, s) {
        match s {
            Making::Connecting { at, made, device, .. } => {
                lemma_reach_in_order(plan, at + 1, made.push(Some(device)));
            },
            Making::Describing { at, made, device, .. } => {
                lemma_reach_in_order(plan, at + 1, made.push(Some(device)));
            },
            _ => {},
        }
    }
}

/// The descriptor that the devices of a driver are created through: version 1
/// has that of the hypervisor, version 2 that of the virtual machine. The
/// plan is for all tasks and for the version of the driver.
pub proof fn lemma_plan_follows_the_driver(tasks: Seq<Task>, cfg: config::Config)
    ensures
        plan_for(tasks, cfg).tasks == tasks,
        plan_for(tasks, cfg).version == cfg.driver_variant,
        cfg.driver_variant == 1 && cfg.sfd is Some ==> plan_for(tasks, cfg).fd == cfg.sfd->0,
        cfg.driver_variant == 2 && cfg.vm_sfd is Some ==> plan_for(tasks, cfg).fd == cfg.vm_sfd->0,
        ready(cfg) <==> cfg.mem is Some && !(cfg.driver_variant == 1 && cfg.sfd is None) && !(
        cfg.driver_variant == 2 && cfg.vm_sfd is None),
{
}

/// From the device with index `at` on, the next one that is built is the first
/// that has anything to build. The ones passed over have no registers. When
/// none is left, all devices are dealt with and the run ends well.
pub proof fn lemma_next_device_is_the_first_to_build(
    plan: CreationPlan,
    at: int,
    made: Seq<Option<mmio::Registers>>,
)
    requires
        0 <= at <= plan.tasks.len(),
        plan.version == 1 || plan.version == 2,
    ensures
        match reach(plan, at, made) {
            Making::Building { at: i, made: m } => {
                &&& at <= i < plan.tasks.len()
                &&& forall|j: int| at <= j < i ==> (#[trigger] plan.tasks[j]).order is None
                &&& plan.tasks[i].order is Some
                &&& create_step(plan, reach(plan, at, made)) == CreateAct::Build(
                    plan.tasks[i].order->0,
                )
                &&& m.len() == made.len() + (i - at)
                &&& m.take(made.len() as int) == made
                &&& forall|j: int| made.len() <= j < m.len() ==> (#[trigger] m[j]) is None
            },
            Making::Finished { made: m, result } => {
                &&& forall|j: int|
                    at <= j < plan.tasks.len() ==> (#[trigger] plan.tasks[j]).order is None
                &&& result == Ok::<(), error::Failure>(())
                &&& m.len() == made.len() + (plan.tasks.len() - at)
                &&& m.take(made.len() as int) == made
                &&& forall|j: int| made.len() <= j < m.len() ==> (#[trigger] m[j]) is None
            },
            _ => false,
        },
    decreases plan.tasks.len() - at,
{
    if at < plan.tasks.len() && plan.tasks[at].order is None {
        let more = made.push(None);
        lemma_next_device_is_the_first_to_build(plan, at + 1, more);
        let m = match reach(plan, at, made) {
            Making::Building { made: m, .. } => m,
            Making::Finished { made: m, .. } => m,
            _ => made,
        };
        assert(m.take(more.len() as int).take(made.len() as int) =~= m.take(made.len() as int));
        assert(more.take(made.len() as int) =~= made);
        assert(m.take(more.len() as int)[made.len() as int] == more[made.len() as int]);
    } else {
        assert(made.take(made.len() as int) =~= made);
    }
}

/// Without a driver of its version no device is connected: the run ends with
/// an error before a device is built or, for the one kind that is built
/// first, behind that.
pub proof fn lemma_unknown_version_ends_the_run(
    plan: CreationPlan,
    at: int,
    made: Seq<Option<mmio::Registers>>,
    device: mmio::Registers,
)
    requires
        0 <= at < plan.tasks.len(),
        plan.version != 1,
        plan.version != 2,
    ensures
        ({
            let here = reach(plan, at, made);
            let scmi = plan.tasks[at].order matches Some(order) && order is Scmi;
            let refused = CreateAct::Return(
                Err(error::Failure::Plain("Unsupported driver variant."@)),
            );
            &&& !scmi ==> create_step(plan, here) == refused
            &&& scmi ==> create_step(plan, here) == CreateAct::Build(plan.tasks[at].order->0)
            &&& scmi ==> create_step(plan, after_outcome(plan, here, Outcome::Built(device)))
                == refused
            &&& scmi ==> create_step(plan, after_outcome(plan, here, Outcome::NoRegisters))
                == refused
        }),
{
}

/// A device that was built is connected under its own label, through the
/// descriptor of the plan: each queue by its event, then the interrupt. One
/// without an event for its interrupt ends the backend.
pub proof fn lemma_built_device_is_connected(
    plan: CreationPlan,
    at: int,
    made: Seq<Option<mmio::Registers>>,
    device: mmio::Registers,
)
    requires
        0 <= at < plan.tasks.len(),
        plan.version == 1 || plan.version == 2,
        device.queue_evts.len() <= u32::MAX,
    ensures
        ({
            let s = after_outcome(plan, Making::Building { at, made }, Outcome::Built(device));
            let step = create_step(plan, s);
            &&& device.queue_evts.len() > 0 ==> (step matches CreateAct::Step {
                fd,
                act: mmio::Act::Ioctl { cmd, arg: crate::ioctl::Arg::EventFd(a) },
            } && {
                &&& fd == plan.fd
                &&& cmd == crate::ioctl::command(crate::ioctl::VmIoctl::IoEventFd, plan.version)
                &&& a.label == plan.tasks[at].label
                &&& a.queue_num == 0
                &&& a.flags == 1
                &&& a.fd == device.queue_evts[0]
            })
            &&& device.queue_evts.len() == 0 && device.interrupt_evt is Some ==> (
            step matches CreateAct::Step {
                fd,
                act: mmio::Act::Ioctl { cmd, arg: crate::ioctl::Arg::IrqFd(a) },
            } && {
                &&& fd == plan.fd
                &&& cmd == crate::ioctl::command(crate::ioctl::VmIoctl::IrqFd, plan.version)
                &&& a.label == plan.tasks[at].label
                &&& a.fd == device.interrupt_evt->0
            })
            &&& device.queue_evts.len() == 0 && device.interrupt_evt is None ==> step is Panic
        }),
{
    wiring::lemma_connection_names_what_it_connects(
        wiring_plan(plan, at, device),
        Seq::<mmio::Answer>::empty(),
    );
}

/// How the connection of a device goes on after a reply: the next queue with
/// its own number and event, then the interrupt. When all is connected, an
/// input device is described next and any other is done, and its registers
/// are kept. What the driver refuses ends the run with an error, and the
/// registers are kept as well; a socket to the host counts as connected all
/// the same.
pub proof fn lemma_connection_goes_on(
    plan: CreationPlan,
    at: int,
    made: Seq<Option<mmio::Registers>>,
    device: mmio::Registers,
    history: Seq<mmio::Answer>,
    ret: i32,
    arg: crate::ioctl::Arg,
    said: Seq<char>,
)
    requires
        0 <= at < plan.tasks.len(),
        plan.tasks[at].order is Some,
        device.queue_evts.len() <= u32::MAX,
        history.len() <= device.queue_evts.len(),
    ensures
        ({
            let reply = mmio::Answer::Ioctl { ret, arg, error: said };
            let s = after_outcome(
                plan,
                Making::Connecting { at, made, device, history },
                Outcome::Replied(reply),
            );
            let step = create_step(plan, s);
            let order = plan.tasks[at].order->0;
            let n = history.len() + 1;
            let queues = device.queue_evts.len();
            let kept = made.push(Some(device));
            &&& ret < 0 && !(order is Vsock) ==> (s matches Making::Finished {
                made: m,
                result: Err(error::Failure::System { err, val }),
            } && m == kept && val == said && err == (if history.len() < queues {
                "ioeventfd ioctl failed"@
            } else {
                "irqfd ioctl failed"@
            }))
            &&& ret < 0 && order is Vsock ==> s == reach(plan, at + 1, kept)
            &&& ret >= 0 && n < queues ==> (step matches CreateAct::Step {
                fd,
                act: mmio::Act::Ioctl { cmd, arg: crate::ioctl::Arg::EventFd(a) },
            } && {
                &&& fd == plan.fd
                &&& cmd == crate::ioctl::command(crate::ioctl::VmIoctl::IoEventFd, plan.version)
                &&& a.label == plan.tasks[at].label
                &&& a.queue_num == n
                &&& a.flags == 1
                &&& a.fd == device.queue_evts[n as int]
            })
            &&& ret >= 0 && n == queues && device.interrupt_evt is Some ==> (
            step matches CreateAct::Step {
                fd,
                act: mmio::Act::Ioctl { cmd, arg: crate::ioctl::Arg::IrqFd(a) },
            } && {
                &&& fd == plan.fd
                &&& cmd == crate::ioctl::command(crate::ioctl::VmIoctl::IrqFd, plan.version)
                &&& a.label == plan.tasks[at].label
                &&& a.flags == 1
                &&& a.fd == device.interrupt_evt->0
            })
            &&& ret >= 0 && n == queues && device.interrupt_evt is None ==> step is Panic
            &&& ret >= 0 && n == queues + 1 && !(order is Input) ==> s == reach(
                plan,
                at + 1,
                kept,
            )
            &&& ret >= 0 && n == queues + 1 && order is Input && plan.version == 2 ==> (
            step matches CreateAct::Step { fd, act: mmio::Act::MmioWrite { offset, data } } && fd
                == plan.fd && offset == 0x100 && data == seq![
                order->Input_selectors.id_name,
                0u8,
            ])
            &&& ret >= 0 && n == queues + 1 && order is Input && plan.version != 2 ==> step is Panic
        }),
{
    let reply = mmio::Answer::Ioctl { ret, arg, error: said };
    let h = history.push(reply);
    assert(h.last() == reply);
    let w = wiring_plan(plan, at, device);
    wiring::lemma_refused_connection_is_named(w, history, ret, arg, said);
    if ret >= 0 {
        wiring::lemma_connection_names_what_it_connects(w, h);
    }
}

/// An input device is described under its own label and by its own selectors,
/// through the descriptor of the plan. When the description is over, the
/// device is done and its registers are kept; if it fails, the backend ends.
pub proof fn lemma_input_device_is_described(
    plan: CreationPlan,
    at: int,
    made: Seq<Option<mmio::Registers>>,
    device: mmio::Registers,
    history: Seq<mmio::Answer>,
    reply: mmio::Answer,
    own: input_config::InputPlan,
)
    requires
        0 <= at < plan.tasks.len(),
        plan.tasks[at].order matches Some(Order::Input { selectors, .. }) && own.selectors
            == selectors,
        own.label == plan.tasks[at].label,
        own.version == plan.version,
    ensures
        ({
            let s = Making::Describing { at, made, device, history };
            let next = after_outcome(plan, s, Outcome::Replied(reply));
            let step = input_config::describe_step(own, history.push(reply));
            &&& create_step(plan, s) matches CreateAct::Step { fd, act } && fd == plan.fd && act
                == input_config::describe_step(own, history)
            &&& step is Return ==> next == reach(plan, at + 1, made.push(Some(device)))
            &&& step is Panic ==> create_step(plan, next) is Panic
            &&& !(step is Return) && !(step is Panic) ==> (create_step(
                plan,
                next,
            ) matches CreateAct::Step { fd, act } && fd == plan.fd && act == step)
        }),
{
}

/// A device that cannot be built ends the run with the error for its kind and
/// the step that failed, and what was made before stands; without a socket to
/// the host the backend ends, and so it does with a device that has no
/// registers.
pub proof fn lemma_failed_build_ends_the_run(
    plan: CreationPlan,
    at: int,
    made: Seq<Option<mmio::Registers>>,
    failure: BuildFailure,
    said: Seq<char>,
)
    requires
        0 <= at < plan.tasks.len(),
        plan.version == 1 || plan.version == 2,
        plan.tasks[at].order is Some,
    ensures
        ({
            let order = plan.tasks[at].order->0;
            let s = after_outcome(
                plan,
                Making::Building { at, made },
                Outcome::NotBuilt { failure, error: said },
            );
            &&& order is Vsock ==> create_step(plan, s) is Panic
            &&& !(order is Vsock) ==> (s matches Making::Finished { made: m, result: Err(e) } && m
                == made && Some(e) == build_error(order, failure, said))
            &&& create_step(
                plan,
                after_outcome(plan, Making::Building { at, made }, Outcome::NoRegisters),
            ) is Panic
        }),
{
}

/// What the system said is handed on exactly for the files that could not be
/// opened, locked or read; any other failure is told by its text alone.
pub proof fn lemma_build_errors_hold_what_was_said(
    order: Order,
    failure: BuildFailure,
    a: Seq<char>,
    b: Seq<char>,
)
    requires
        can_fail(order, failure),
    ensures
        order is Vsock <==> build_error(order, failure, a) is None,
        failure is Open || failure is Lock || failure is DiskFile ==> (build_error(
            order,
            failure,
            a,
        ) matches Some(error::Failure::System { err, val }) && val == a && (build_error(
            order,
            failure,
            b,
        ) matches Some(error::Failure::System { err: other, .. }) && other == err)),
        failure is FileDescriptor || failure is Event || failure is Device ==> build_error(
            order,
            failure,
            a,
        ) == build_error(order, failure, b) && (order is Vsock || build_error(
            order,
            failure,
            a,
        )->0 is Plain),
{
}

/// Where the run stands after the outcomes `events` of its steps, from its
/// start.
pub open spec fn after_outcomes(plan: CreationPlan, events: Seq<Outcome>) -> Making
    decreases events.len(),
{
    if events.len() == 0 {
        reach(plan, 0, Seq::empty())
    } else {
        after_outcome(plan, after_outcomes(plan, events.drop_last()), events.last())
    }
}

/// The outcomes that tell of a device that was built.
pub open spec fn tells_built() -> spec_fn(Outcome) -> bool {
    |event: Outcome| event is Built
}

/// The entries that hold registers.
pub open spec fn holds_registers() -> spec_fn(Option<mmio::Registers>) -> bool {
    |entry: Option<mmio::Registers>| entry is Some
}

spec fn same_devices(made: Seq<Option<mmio::Registers>>, built: Seq<Outcome>) -> bool {
    let kept = made.filter(holds_registers());
    &&& kept.len() == built.len()
    &&& forall|i: int|
        0 <= i < built.len() ==> (#[trigger] built[i]) == Outcome::Built(kept[i]->0)
}

proof fn lemma_kept_push(made: Seq<Option<mmio::Registers>>, entry: Option<mmio::Registers>)
    ensures
        made.push(entry).filter(holds_registers()) == if entry is Some {
            made.filter(holds_registers()).push(entry)
        } else {
            made.filter(holds_registers())
        },
{
    reveal(Seq::filter);
    assert(made.push(entry).drop_last() =~= made);
}

proof fn lemma_reach_keeps(plan: CreationPlan, at: int, made: Seq<Option<mmio::Registers>>)
    ensures
        match reach(plan, at, made) {
            Making::Building { made: m, .. } => m.filter(holds_registers()) == made.filter(
                holds_registers(),
            ),
            Making::Finished { made: m, .. } => m.filter(holds_registers()) == made.filter(
                holds_registers(),
            ),
            _ => false,
        },
    decreases plan.tasks.len() - at,
{
    if at < plan.tasks.len() && plan.tasks[at].order is None && version_exists(plan.version) {
        lemma_kept_push(made, None);
        lemma_reach_keeps(plan, at + 1, made.push(None));
    }
}

spec fn accounted(s: Making, built: Seq<Outcome>) -> bool {
    match s {
        Making::Building { made, .. } => same_devices(made, built),
        Making::Connecting { made, device, .. } => same_devices(made.push(Some(device)), built),
        Making::Describing { made, device, .. } => same_devices(made.push(Some(device)), built),
        Making::Finished { made, result } => result is Ok ==> same_devices(made, built),
        Making::Failed => true,
    }
}

proof fn lemma_accounted(plan: CreationPlan, events: Seq<Outcome>)
    requires
        forall|i: int|
            0 <= i < events.len() ==> outcome_fits(
                create_step(plan, #[trigger] after_outcomes(plan, events.take(i))),
                events[i],
            ),
    ensures
        accounted(after_outcomes(plan, events), events.filter(tells_built())),
        in_order(plan, after_outcomes(plan, events)),
    decreases events.len(),
{
    let none = Seq::<Option<mmio::Registers>>::empty();
    reveal(Seq::filter);
    if events.len() == 0 {
        lemma_run_is_in_order(plan, Making::Failed, Outcome::NoRegisters);
        lemma_reach_keeps(plan, 0, none);
    } else {
        let before = events.drop_last();
        let n = events.len() as int;
        let e = events.last();
        assert(events.take(n - 1) =~= before);
        assert(outcome_fits(create_step(plan, after_outcomes(plan, events.take(n - 1))), events[n
            - 1]));
        assert forall|i: int| 0 <= i < before.len() implies outcome_fits(
            create_step(plan, #[trigger] after_outcomes(plan, before.take(i))),
            before[i],
        ) by {
            assert(before.take(i) =~= events.take(i));
        }
        lemma_accounted(plan, before);
        let s = after_outcomes(plan, before);
        lemma_run_is_in_order(plan, s, e);
        match s {
            Making::Building { made, .. } => {
                if let Outcome::Built(device) = e {
                    lemma_kept_push(made, Some(device));
                }
            },
            Making::Connecting { at, made, device, .. } => {
                lemma_reach_keeps(plan, at + 1, made.push(Some(device)));
            },
            Making::Describing { at, made, device, .. } => {
                lemma_reach_keeps(plan, at + 1, made.push(Some(device)));
            },
            _ => {},
        }
    }
}

/// A run that ends well has the registers of exactly the devices that were
/// built, in the order in which they were built, each in the place of its
/// task, and nothing in the places without anything to build.
pub proof fn lemma_what_was_built_is_kept(plan: CreationPlan, events: Seq<Outcome>)
    requires
        create_step(plan, after_outcomes(plan, events)) == CreateAct::Return(Ok(())),
        forall|i: int|
            0 <= i < events.len() ==> outcome_fits(
                create_step(plan, #[trigger] after_outcomes(plan, events.take(i))),
                events[i],
            ),
    ensures
        after_outcomes(plan, events) matches Making::Finished { made, .. } && {
            let kept = made.filter(holds_registers());
            let built = events.filter(tells_built());
            &&& made.len() == plan.tasks.len()
            &&& forall|i: int|
                0 <= i < made.len()
                    ==> ((#[trigger] made[i]) is Some <==> plan.tasks[i].order is Some)
            &&& kept.len() == built.len()
            &&& forall|i: int|
                0 <= i < built.len() ==> (#[trigger] built[i]) == Outcome::Built(kept[i]->0)
        },
{
    lemma_accounted(plan, events);
}

/// Where the run stands, with what it needs.
enum Stage {
    Building(usize),
    Connecting(usize, MmioDevice, Wiring),
    Describing(usize, MmioDevice, Describe),
    Finished(Result<(), BackendError>),
    Failed,
}

/// The creation of the devices of one kind.
pub struct Creation {
    jobs: Vec<Job>,
    version: u8,
    fd: i32,
    made: Vec<Option<MmioDevice>>,
    stage: Stage,
}

/// The registers that a list of devices holds.
pub open spec fn all_registers(made: Seq<Option<MmioDevice>>) -> Seq<Option<mmio::Registers>> {
    Seq::new(made.len(), |i: int| device::registers(made[i]))
}

/// The tasks that a list of jobs holds.
pub open spec fn tasks(jobs: Seq<Job>) -> Seq<Task> {
    Seq::new(jobs.len(), |i: int| jobs[i]@)
}

/// Lists are modelled entry by entry: each job by its own label and order, and
/// each device by its own registers.
pub proof fn lemma_lists_are_modelled_in_order(
    jobs: Seq<Job>,
    made: Seq<Option<MmioDevice>>,
    i: int,
    j: int,
)
    requires
        0 <= i < jobs.len(),
        0 <= j < made.len(),
    ensures
        tasks(jobs).len() == jobs.len(),
        tasks(jobs)[i].label == jobs[i].label,
        jobs[i].build matches Some(build) ==> tasks(jobs)[i].order == Some(build@),
        jobs[i].build is None ==> tasks(jobs)[i].order is None,
        all_registers(made).len() == made.len(),
        made[j] matches Some(device) ==> (all_registers(made)[j] matches Some(r) && r.queue_evts
            == device.queue_evts@ && r.interrupt_evt == device.interrupt_evt && r.num_queues
            == device.num_queues),
        made[j] is None ==> all_registers(made)[j] is None,
{
}

impl Creation {
    /// What is created.
    pub closed spec fn plan(self) -> CreationPlan {
        CreationPlan {
            tasks: tasks(self.jobs@),
            version: self.version,
            fd: self.fd,
        }
    }

    /// Where the run stands.
    pub closed spec fn making(self) -> Making {
        let made = all_registers(self.made@);
        match self.stage {
            Stage::Building(at) => Making::Building { at: at as int, made },
            Stage::Connecting(at, device, run) => Making::Connecting {
                at: at as int,
                made,
                device: device@,
                history: run.history(),
            },
            Stage::Describing(at, device, run) => Making::Describing {
                at: at as int,
                made,
                device: device@,
                history: run.history(),
            },
            Stage::Finished(Ok(_)) => Making::Finished { made, result: Ok(()) },
            Stage::Finished(Err(e)) => Making::Finished { made, result: Err(e@) },
            Stage::Failed => Making::Failed,
        }
    }

    pub closed spec fn wf(self) -> bool {
        &&& match self.stage {
            Stage::Building(at) => at < self.jobs@.len() && self.jobs@[at as int].build is Some,
            Stage::Connecting(at, device, run) => {
                &&& at < self.jobs@.len()
                &&& self.jobs@[at as int].build is Some
                &&& run.wf()
                &&& run.plan() == wiring_plan(self.plan(), at as int, device@)
                &&& !(run.next() is Return)
                &&& !(run.next() is Panic)
            },
            Stage::Describing(at, device, run) => {
                &&& at < self.jobs@.len()
                &&& run.wf()
                &&& run.plan() == input_plan(self.plan(), at as int)
                &&& !(run.next() is Return)
                &&& !(run.next() is Panic)
            },
            _ => true,
        }
    }

    /// The next step.
    pub open spec fn next(self) -> CreateAct {
        create_step(self.plan(), self.making())
    }

    /// The next step.
    pub fn action(&self) -> (r: CreateAction)
        requires
            self.wf(),
        ensures
            r@ == self.next(),
    {
        match &self.stage {
            Stage::Building(at) => {
                assert(self.plan().tasks[*at as int] == self.jobs@[*at as int]@);
                match &self.jobs[*at].build {
                    Some(build) => CreateAction::Build(build.duplicate()),
                    None => CreateAction::Panic,
                }
            },
            Stage::Connecting(_, _, run) => CreateAction::Step {
                fd: self.fd,
                action: run.action(),
            },
            Stage::Describing(_, _, run) => CreateAction::Step {
                fd: self.fd,
                action: run.action(),
            },
            Stage::Finished(Ok(_)) => CreateAction::Return(Ok(())),
            Stage::Finished(Err(e)) => CreateAction::Return(Err(e.duplicate())),
            Stage::Failed => CreateAction::Panic,
        }
    }

    /// Goes to the device with index `start`.
    fn go_to(&mut self, start: usize)
        requires
            start <= old(self).jobs@.len(),
        ensures
            final(self).wf(),
            final(self).plan() == old(self).plan(),
            final(self).making() == reach(
                old(self).plan(),
                start as int,
                all_registers(old(self).made@),
            ),
    {
        let mut at: usize = start;
        let n: usize = self.jobs.len();
        let ghost goal = reach(self.plan(), start as int, all_registers(self.made@));
        while at < n
            invariant
                at <= n,
                n == self.jobs@.len(),
                self.plan() == old(self).plan(),
                goal == reach(self.plan(), at as int, all_registers(self.made@)),
                goal == reach(
                    old(self).plan(),
                    start as int,
                    all_registers(old(self).made@),
                ),
            decreases n - at,
        {
            assert(self.plan().tasks[at as int] == self.jobs@[at as int]@);
            let (some, scmi) = match &self.jobs[at].build {
                Some(Build::Scmi { .. }) => (true, true),
                Some(_) => (true, false),
                None => (false, false),
            };
            if self.version != 1 && self.version != 2 && !scmi {
                self.stage = Stage::Finished(Err(error::plain("Unsupported driver variant.")));
                return ;
            }
            if some {
                self.stage = Stage::Building(at);
                return ;
            }
            assert(all_registers(self.made@.push(None)) =~= all_registers(self.made@).push(None));
            self.made.push(None);
            at += 1;
        }
        self.stage = Stage::Finished(Ok(()));
    }

    /// Puts `device` beside the ones that were made.
    fn add(&mut self, device: MmioDevice)
        ensures
            all_registers(final(self).made@) == all_registers(old(self).made@).push(Some(device@)),
            final(self).plan() == old(self).plan(),
            final(self).jobs == old(self).jobs,
    {
        assert(all_registers(self.made@.push(Some(device))) =~= all_registers(self.made@).push(
            Some(device@),
        ));
        self.made.push(Some(device));
    }

    /// Goes on when the device with index `at` was connected.
    fn go_on(&mut self, at: usize, device: MmioDevice)
        requires
            at < old(self).jobs@.len(),
            old(self).jobs@[at as int].build is Some,
        ensures
            final(self).wf(),
            final(self).plan() == old(self).plan(),
            final(self).making() == connected(
                old(self).plan(),
                at as int,
                all_registers(old(self).made@),
                device@,
            ),
    {
        assert(self.plan().tasks[at as int] == self.jobs@[at as int]@);
        let input = match &self.jobs[at].build {
            Some(Build::Input { selectors, .. }) => Some(*selectors),
            _ => None,
        };
        if let Some(selectors) = input {
            if self.version == 2 {
                let run = input_config::init_input_config(
                    self.jobs[at].label,
                    selectors,
                    self.version,
                );
                self.stage = Stage::Describing(at, device, run);
            } else {
                self.stage = Stage::Failed;
            }
        } else {
            self.add(device);
            let n: usize = self.jobs.len();
            assert(at < n);
            self.go_to(at + 1);
        }
    }

    /// Takes what came of the step that `action` gave.
    pub fn advance(&mut self, event: CreateEvent)
        requires
            old(self).wf(),
            outcome_fits(old(self).next(), event@),
        ensures
            final(self).wf(),
            final(self).plan() == old(self).plan(),
            final(self).making() == after_outcome(old(self).plan(), old(self).making(), event@),
    {
        let mut stage = Stage::Failed;
        std::mem::swap(&mut stage, &mut self.stage);
        match stage {
            Stage::Building(at) => {
                assert(self.plan().tasks[at as int] == self.jobs@[at as int]@);
                let exists = self.version == 1 || self.version == 2;
                match event {
                    CreateEvent::NotBuilt { failure, error } => {
                        self.stage = match &self.jobs[at].build {
                            Some(build) => match build_failure(build, failure, error.as_str()) {
                                Some(e) => Stage::Finished(Err(e)),
                                None => Stage::Failed,
                            },
                            None => Stage::Failed,
                        };
                    },
                    CreateEvent::Built(device) => {
                        if !exists {
                            self.stage = Stage::Finished(
                                Err(error::plain("Unsupported driver variant.")),
                            );
                        } else if device.queue_evts.len() > 0 || device.interrupt_evt.is_some() {
                            let mmio = Some(device);
                            let run = wiring::mmio_handle(
                                &mmio,
                                self.jobs[at].label,
                                self.version,
                            );
                            if let Some(device) = mmio {
                                self.stage = Stage::Connecting(at, device, run);
                            }
                        }
                    },
                    _ => {
                        if !exists {
                            self.stage = Stage::Finished(
                                Err(error::plain("Unsupported driver variant.")),
                            );
                        }
                    },
                }
            },
            Stage::Connecting(at, device, run) => {
                assert(self.plan().tasks[at as int] == self.jobs@[at as int]@);
                let mut run = run;
                if let CreateEvent::Replied(reply) = event {
                    run.advance(reply);
                }
                match run.action() {
                    Action::Return(Ok(_)) => {
                        self.go_on(at, device);
                    },
                    Action::Return(Err(e)) => {
                        let vsock = match &self.jobs[at].build {
                            Some(Build::Vsock { .. }) => true,
                            _ => false,
                        };
                        if vsock {
                            self.go_on(at, device);
                        } else {
                            self.add(device);
                            self.stage = Stage::Finished(Err(e));
                        }
                    },
                    Action::Panic => {},
                    _ => {
                        self.stage = Stage::Connecting(at, device, run);
                    },
                }
            },
            Stage::Describing(at, device, run) => {
                let mut run = run;
                if let CreateEvent::Replied(reply) = event {
                    run.advance(reply);
                }
                match run.action() {
                    Action::Return(_) => {
                        self.add(device);
                        let n: usize = self.jobs.len();
                        assert(at < n);
                        self.go_to(at + 1);
                    },
                    Action::Panic => {},
                    _ => {
                        self.stage = Stage::Describing(at, device, run);
                    },
                }
            },
            Stage::Finished(result) => {
                self.stage = Stage::Finished(result);
            },
            Stage::Failed => {},
        }
    }

    /// What is known of the registers of the devices, once the run is over.
    pub fn into_made(self) -> (r: Vec<Option<MmioDevice>>)
        requires
            self.wf(),
            self.making() is Finished,
        ensures
            all_registers(r@) == self.making()->Finished_made,
    {
        self.made
    }
}

/// Starts to create the devices of the jobs.
pub fn create(jobs: Vec<Job>, cfg: &BackendConfig) -> (r: Creation)
    requires
        jobs@.len() > 0 ==> ready(cfg@),
    ensures
        r.wf(),
        r.plan() == plan_for(tasks(jobs@), cfg@),
        r.making() == reach(r.plan(), 0, Seq::empty()),
{
    let version: u8 = cfg.driver_variant;
    let through: Option<i32> = if version == 1 {
        cfg.sfd
    } else if version == 2 {
        cfg.vm_sfd
    } else {
        None
    };
    let fd: i32 = match through {
        Some(fd) => fd,
        None => -1,
    };
    let mut run = Creation { jobs, version, fd, made: Vec::new(), stage: Stage::Failed };
    assert(all_registers(run.made@) =~= Seq::empty());
    run.go_to(0);
    run
}

/// What is known of the devices of a list.
pub open spec fn views<D: View>(devices: Seq<D>) -> Seq<D::V> {
    Seq::new(devices.len(), |i: int| devices[i]@)
}

/// A device that can be created.
pub trait Buildable: View + Sized {
    /// What is to be done for the device.
    spec fn task(device: Self::V, version: u8) -> Task;

    /// What is to be done for the device.
    fn job(&self, version: u8) -> (r: Job)
        ensures
            r@ == Self::task(self@, version),
    ;
}

/// What is to be done for the devices of a list.
pub open spec fn tasks_for<D: Buildable>(devices: Seq<D::V>, version: u8) -> Seq<Task> {
    Seq::new(devices.len(), |i: int| D::task(devices[i], version))
}

/// Every device has its own task, in its place.
pub proof fn lemma_each_device_has_its_task<D: Buildable>(
    devices: Seq<D::V>,
    version: u8,
    i: int,
)
    requires
        0 <= i < devices.len(),
    ensures
        tasks_for::<D>(devices, version).len() == devices.len(),
        tasks_for::<D>(devices, version)[i] == D::task(devices[i], version),
{
}

/// Starts to create the devices of a list.
pub fn create_all<D: Buildable>(devices: &Vec<D>, cfg: &BackendConfig) -> (r: Creation)
    requires
        devices@.len() > 0 ==> ready(cfg@),
    ensures
        r.wf(),
        r.plan() == plan_for(tasks_for::<D>(views(devices@), cfg@.driver_variant), cfg@),
        r.making() == reach(r.plan(), 0, Seq::empty()),
{
    let version: u8 = cfg.driver_variant;
    let ghost all = tasks_for::<D>(views(devices@), version);
    let mut jobs: Vec<Job> = Vec::new();
    let n: usize = devices.len();
    let mut i: usize = 0;
    while i < n
        invariant
            i <= n,
            n == devices@.len(),
            all == tasks_for::<D>(views(devices@), version),
            tasks(jobs@) == all.take(i as int),
        decreases n - i,
    {
        let job = devices[i].job(version);
        proof {
            assert(views(devices@)[i as int] == devices@[i as int]@);
            assert(job@ == all[i as int]);
            assert(tasks(jobs@.push(job)) =~= tasks(jobs@).push(job@));
            assert(all.take(i + 1) =~= all.take(i as int).push(job@));
        }
        jobs.push(job);
        i += 1;
    }
    assert(all.take(n as int) =~= all);
    create(jobs, cfg)
}

} // verus!
