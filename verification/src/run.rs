//! Running the backend: the virtual machine is set up, then the devices are
//! created and served until they are done.
use vstd::prelude::*;

use crate::backend;
use crate::backend::{DeviceKind, Known, VMBackend};
use crate::ioctl;
use crate::ioctl::{IoctlArg, VmCommand, VmMemRegion};
use crate::memory;
use crate::memory::MemoryRegion;
use crate::text;

verus! {

/// The most processors that a virtual machine can have.
pub const GH_VCPU_MAX: u16 = 512;

/// The most bytes that the name of a virtual machine can have.
pub const FW_NAME_SIZE: usize = 16;

/// What is run.
pub struct RunPlan {
    /// The name of the virtual machine.
    pub vm: Option<Seq<char>>,
    pub sandbox: bool,
    /// Whether the devices see the memory of the virtual machine itself.
    pub non_protected: bool,
    /// Whether there are devices.
    pub devices: bool,
    pub page_size: u64,
}

/// How the backend runs on a host with pages of this size.
pub open spec fn plan_of(b: backend::Backend, page_size: u64) -> RunPlan {
    RunPlan {
        vm: b.cfg.vm,
        sandbox: b.cfg.sandbox,
        non_protected: b.cfg.non_protected_virtio,
        devices: b.cfg.bkend_dev_exist,
        page_size,
    }
}

/// Where the run stands.
pub enum Running {
    /// The process gives up its rights.
    Jailing,
    /// The hypervisor is opened.
    Opening,
    CreatingVm { sfd: i32 },
    Naming { sfd: i32, vm_sfd: i32 },
    CountingVcpus { sfd: i32, vm_sfd: i32 },
    CountingMemory { k: backend::Knowledge },
    /// The region with this index of `count` regions is asked for.
    AskingRegion { k: backend::Knowledge, count: u8, index: u8, regions: Seq<MemoryRegion> },
    AskingSize { k: backend::Knowledge },
    /// The last of the regions is mapped. It has this index of `count` regions.
    MappingRegion { k: backend::Knowledge, count: u8, index: u8, regions: Seq<MemoryRegion> },
    /// The mapped regions are put together.
    Mapping { k: backend::Knowledge, regions: Seq<MemoryRegion> },
    /// The backend takes what was learned.
    Adopting { k: backend::Knowledge },
    /// The devices with index `at` in the order are created and run.
    RunningDevices { k: backend::Knowledge, at: int },
    /// The threads of the kind with index `at` in the order are waited for.
    Joining { k: backend::Knowledge, at: int },
    Finished { k: backend::Knowledge },
    /// The backend cannot go on, and says why. `usage` says whether it also
    /// shows how it is used.
    Failed { message: Seq<char>, usage: bool },
}

/// What to do next.
#[derive(Debug)]
pub enum RunAction {
    /// Give up the rights that this policy does not grant.
    Jail { policy: String },
    /// Open the file for reading and writing.
    Open { path: String },
    /// Send the request through `fd`.
    Ioctl { fd: i32, cmd: u64, arg: IoctlArg },
    /// Map the region.
    MapRegion { region: MemoryRegion },
    /// Make the memory of these regions, which are mapped.
    MapMemory { regions: Vec<MemoryRegion> },
    /// Let the backend take what was learned.
    Adopt(Known),
    /// Create and run the devices of this kind.
    RunDevices(DeviceKind),
    /// Wait for the threads of the devices of this kind.
    Join(DeviceKind),
    /// Nothing more: the backend is done.
    Return,
    /// Nothing more: the backend cannot go on.
    Panic { message: String, usage: bool },
}

/// `RunAction` with its texts and lists as sequences.
pub enum RunAct {
    Jail { policy: Seq<char> },
    Open { path: Seq<char> },
    Ioctl { fd: i32, cmd: int, arg: ioctl::Arg },
    MapRegion { region: MemoryRegion },
    MapMemory { regions: Seq<MemoryRegion> },
    Adopt(backend::Knowledge),
    RunDevices(DeviceKind),
    Join(DeviceKind),
    Return,
    Panic { message: Seq<char>, usage: bool },
}

impl View for RunAction {
    type V = RunAct;

    open spec fn view(&self) -> RunAct {
        match self {
            RunAction::Jail { policy } => RunAct::Jail { policy: policy@ },
            RunAction::Open { path } => RunAct::Open { path: path@ },
            RunAction::Ioctl { fd, cmd, arg } => RunAct::Ioctl {
                fd: *fd,
                cmd: *cmd as int,
                arg: arg@,
            },
            RunAction::MapRegion { region } => RunAct::MapRegion { region: *region },
            RunAction::MapMemory { regions } => RunAct::MapMemory { regions: regions@ },
            RunAction::Adopt(known) => RunAct::Adopt(known@),
            RunAction::RunDevices(kind) => RunAct::RunDevices(*kind),
            RunAction::Join(kind) => RunAct::Join(*kind),
            RunAction::Return => RunAct::Return,
            RunAction::Panic { message, usage } => RunAct::Panic {
                message: message@,
                usage: *usage,
            },
        }
    }
}

/// What came of an action.
#[derive(Debug)]
pub enum RunEvent {
    /// Whether the rights were given up.
    Jailed(bool),
    /// The descriptor of the file, and what the system said if it is none.
    Opened { fd: i32, error: String },
    /// What the request returned, what became of its argument, and what the
    /// system said.
    Ioctl { ret: i32, arg: IoctlArg, error: String },
    /// Whether the region was mapped, or the memory made.
    Mapped(bool),
    /// It was done.
    Done,
}

/// `RunEvent` with its texts and lists as sequences.
pub enum RunOutcome {
    Jailed(bool),
    Opened { fd: i32, error: Seq<char> },
    Ioctl { ret: i32, arg: ioctl::Arg, error: Seq<char> },
    Mapped(bool),
    Done,
}

impl View for RunEvent {
    type V = RunOutcome;

    open spec fn view(&self) -> RunOutcome {
        match self {
            RunEvent::Jailed(ok) => RunOutcome::Jailed(*ok),
            RunEvent::Opened { fd, error } => RunOutcome::Opened { fd: *fd, error: error@ },
            RunEvent::Ioctl { ret, arg, error } => RunOutcome::Ioctl {
                ret: *ret,
                arg: arg@,
                error: error@,
            },
            RunEvent::Mapped(ok) => RunOutcome::Mapped(*ok),
            RunEvent::Done => RunOutcome::Done,
        }
    }
}

/// Whether `event` can come of `act`.
pub open spec fn run_fits(act: RunAct, event: RunOutcome) -> bool {
    match act {
        RunAct::Jail { .. } => event is Jailed,
        RunAct::Open { .. } => event is Opened,
        RunAct::Ioctl { arg, .. } => event matches RunOutcome::Ioctl { arg: after, .. }
            && ioctl::same_shape(arg, after),
        RunAct::MapRegion { .. } => event is Mapped,
        RunAct::MapMemory { .. } => event is Mapped,
        RunAct::Adopt(_) => event is Done,
        RunAct::RunDevices(_) => event is Done,
        RunAct::Join(_) => event is Done,
        RunAct::Return => false,
        RunAct::Panic { .. } => false,
    }
}

/// The name of the virtual machine as the driver takes it: its bytes, then
/// zeros.
pub open spec fn fw_name(bytes: Seq<u8>) -> Seq<u8> {
    Seq::new(
        16,
        |i: int|
            if i < bytes.len() {
                bytes[i]
            } else {
                0u8
            },
    )
}

/// The driver can tell the name of the virtual machine from what it is given.
pub proof fn lemma_name_is_kept(bytes: Seq<u8>)
    requires
        bytes.len() <= FW_NAME_SIZE,
    ensures
        fw_name(bytes).len() == FW_NAME_SIZE,
        fw_name(bytes).take(bytes.len() as int) == bytes,
        forall|i: int| bytes.len() <= i < FW_NAME_SIZE ==> #[trigger] fw_name(bytes)[i] == 0,
{
    assert(fw_name(bytes).take(bytes.len() as int) =~= bytes);
}

/// A request on behalf of the virtual machine.
pub open spec fn machine_request(fd: i32, cmd: VmCommand, arg: ioctl::Arg) -> RunAct {
    RunAct::Ioctl { fd, cmd: ioctl::machine_command(cmd), arg }
}

/// The question for the region with this index.
pub open spec fn region_question(index: u8) -> VmMemRegion {
    VmMemRegion { mem_idx: index, mem_phys: 0, mem_size: 0, fd: 0 }
}

/// The next step.
pub open spec fn run_step(plan: RunPlan, s: Running) -> RunAct {
    match s {
        Running::Jailing => RunAct::Jail {
            policy: "/system_ext/etc/seccomp_policy/qcrosvm.policy"@,
        },
        Running::Opening => RunAct::Open { path: "/dev/gunyah"@ },
        Running::CreatingVm { sfd } => machine_request(
            sfd,
            VmCommand::CreateVm,
            ioctl::Arg::Nothing,
        ),
        Running::Naming { vm_sfd, .. } => machine_request(
            vm_sfd,
            VmCommand::SetFwName,
            ioctl::Arg::FwName(fw_name(vstd::utf8::encode_utf8(plan.vm->0))),
        ),
        Running::CountingVcpus { vm_sfd, .. } => machine_request(
            vm_sfd,
            VmCommand::GetVcpuCount,
            ioctl::Arg::Nothing,
        ),
        Running::CountingMemory { k } => machine_request(
            k.vm_sfd,
            VmCommand::GetMemCount,
            ioctl::Arg::Nothing,
        ),
        Running::AskingRegion { k, index, .. } => machine_request(
            k.vm_sfd,
            VmCommand::GetMemRegion,
            ioctl::Arg::MemRegion(region_question(index)),
        ),
        Running::AskingSize { k } => machine_request(
            k.vm_sfd,
            VmCommand::GetSharedMemorySize,
            ioctl::Arg::SharedMemorySize(0),
        ),
        Running::MappingRegion { regions, .. } => RunAct::MapRegion { region: regions.last() },
        Running::Mapping { regions, .. } => RunAct::MapMemory { regions },
        Running::Adopting { k } => RunAct::Adopt(k),
        Running::RunningDevices { at, .. } => RunAct::RunDevices(backend::run_order()[at]),
        Running::Joining { at, .. } => RunAct::Join(backend::waiting_order()[at]),
        Running::Finished { .. } => RunAct::Return,
        Running::Failed { message, usage } => RunAct::Panic { message, usage },
    }
}

/// The run at its start. A backend needs the name of its virtual machine.
pub open spec fn begin(plan: RunPlan) -> Running {
    if plan.vm is None {
        Running::Failed { message: "Error: missing vm argument"@, usage: true }
    } else if plan.sandbox {
        Running::Jailing
    } else {
        Running::Opening
    }
}

/// The end of a run for this reason, with what the system said.
pub open spec fn failed(what: Seq<char>, said: Seq<char>) -> Running {
    Running::Failed { message: what + " "@ + said, usage: false }
}

/// The end of a run for this reason.
pub open spec fn plain_failed(what: Seq<char>) -> Running {
    Running::Failed { message: what, usage: false }
}

/// The run when the regions before this index were learned and mapped. They
/// are put together if there are devices that need them.
pub open spec fn ask_region(
    plan: RunPlan,
    k: backend::Knowledge,
    count: u8,
    index: u8,
    regions: Seq<MemoryRegion>,
) -> Running {
    if index < count {
        Running::AskingRegion { k, count, index, regions }
    } else if plan.devices {
        Running::Mapping { k, regions }
    } else {
        Running::Adopting { k }
    }
}

/// Where the run stands after the outcome of a step.
///
/// Regions that are not a whole number of pages are left out; the others are
/// mapped as they are learned.
pub open spec fn after_run(plan: RunPlan, s: Running, event: RunOutcome) -> Running {
    match s {
        Running::Jailing => if event->Jailed_0 {
            Running::Opening
        } else {
            plain_failed("Minijail enforcement failed!!"@)
        },
        Running::Opening => if event->fd < 0 {
            failed("Error: device node open failed"@, event->Opened_error)
        } else {
            Running::CreatingVm { sfd: event->fd }
        },
        Running::CreatingVm { sfd } => if event->ret < 0 {
            failed("Error: create vm ioctl failed with error"@, event->Ioctl_error)
        } else if vstd::utf8::encode_utf8(plan.vm->0).len() > FW_NAME_SIZE {
            plain_failed("Error: the name of the virtual machine is too long"@)
        } else {
            Running::Naming { sfd, vm_sfd: event->ret }
        },
        Running::Naming { sfd, vm_sfd } => if event->ret != 0 {
            failed("Error: set fw name ioctl failed with error"@, event->Ioctl_error)
        } else {
            Running::CountingVcpus { sfd, vm_sfd }
        },
        Running::CountingVcpus { sfd, vm_sfd } => if event->ret < 0 || event->ret > GH_VCPU_MAX {
            failed("Error: get vcpu count ioctl failed"@, event->Ioctl_error)
        } else {
            let k = backend::Knowledge {
                sfd,
                vm_sfd,
                vcpu_count: event->ret as u16,
                mem: None,
            };
            if plan.non_protected {
                Running::CountingMemory { k }
            } else if plan.devices {
                Running::AskingSize { k }
            } else {
                Running::Adopting { k }
            }
        },
        Running::CountingMemory { k } => if event->ret <= 0 {
            failed("Error: get vm mem count ioctl failed"@, event->Ioctl_error)
        } else {
            ask_region(plan, k, (event->ret as int % 0x100) as u8, 0, Seq::empty())
        },
        Running::AskingRegion { k, count, index, regions } => if event->ret != 0 {
            failed("Error: get vm mem region ioctl failed"@, event->Ioctl_error)
        } else {
            let m = event->arg->MemRegion_0;
            match memory::whole_region((m.mem_phys, m.mem_size), m.fd, plan.page_size) {
                Some(region) => Running::MappingRegion {
                    k,
                    count,
                    index,
                    regions: regions.push(region),
                },
                None => ask_region(plan, k, count, (index + 1) as u8, regions),
            }
        },
        Running::AskingSize { k } => {
            let size = event->arg->SharedMemorySize_0;
            if event->ret != 0 || size == 0 {
                failed("Error: get vm shared memory size ioctl failed"@, event->Ioctl_error)
            } else if size % plan.page_size != 0 {
                plain_failed("Error: the shared memory is not aligned"@)
            } else {
                Running::MappingRegion {
                    k,
                    count: 1,
                    index: 0,
                    regions: memory::layout(seq![(0u64, size)], k.vm_sfd),
                }
            }
        },
        Running::MappingRegion { k, count, index, regions } => if event->Mapped_0 {
            ask_region(plan, k, count, (index + 1) as u8, regions)
        } else {
            plain_failed("Error: the region cannot be mapped"@)
        },
        Running::Mapping { k, regions } => if event->Mapped_0 {
            Running::Adopting { k: backend::Knowledge { mem: Some(regions), ..k } }
        } else {
            plain_failed("Error: the memory cannot be mapped"@)
        },
        Running::Adopting { k } => Running::RunningDevices { k, at: 0 },
        Running::RunningDevices { k, at } => if at + 1 < backend::run_order().len() {
            Running::RunningDevices { k, at: at + 1 }
        } else {
            Running::Joining { k, at: 0 }
        },
        Running::Joining { k, at } => if at + 1 < backend::waiting_order().len() {
            Running::Joining { k, at: at + 1 }
        } else {
            Running::Finished { k }
        },
        Running::Finished { .. } => s,
        Running::Failed { .. } => s,
    }
}

/// Whether the regions are whole pages.
pub open spec fn whole_pages(regions: Seq<MemoryRegion>, page_size: u64) -> bool {
    forall|i: int| 0 <= i < regions.len() ==> (#[trigger] regions[i]).size % page_size == 0
}

/// Whether what was learned is enough for the devices: there is memory if and
/// only if there are devices, it consists of whole pages, and there are not
/// too many processors.
pub open spec fn enough(plan: RunPlan, k: backend::Knowledge) -> bool {
    &&& plan.devices == (k.mem is Some)
    &&& k.mem is Some ==> whole_pages(k.mem->0, plan.page_size)
    &&& k.vcpu_count <= GH_VCPU_MAX
}

/// Whether the run is sound: memory is only made for devices, and once the
/// backend takes what was learned, it is enough.
pub open spec fn sound(plan: RunPlan, s: Running) -> bool {
    match s {
        Running::CountingMemory { k } => k.mem is None && k.vcpu_count <= GH_VCPU_MAX,
        Running::AskingRegion { k, count, index, regions } => k.mem is None && k.vcpu_count
            <= GH_VCPU_MAX && whole_pages(regions, plan.page_size) && index < count,
        Running::AskingSize { k } => plan.devices && k.mem is None && k.vcpu_count <= GH_VCPU_MAX,
        Running::MappingRegion { k, index, count, regions } => k.mem is None && k.vcpu_count
            <= GH_VCPU_MAX && whole_pages(regions, plan.page_size) && regions.len() > 0 && index
            < count,
        Running::Mapping { k, regions } => plan.devices && k.vcpu_count <= GH_VCPU_MAX
            && whole_pages(regions, plan.page_size),
        Running::Adopting { k } => enough(plan, k),
        Running::RunningDevices { k, at } => enough(plan, k) && 0 <= at
            < backend::run_order().len(),
        Running::Joining { k, at } => enough(plan, k) && 0 <= at < backend::waiting_order().len(),
        Running::Finished { k } => enough(plan, k),
        _ => true,
    }
}

/// A run is sound from its start on, whatever comes of its steps.
pub proof fn lemma_run_is_sound(plan: RunPlan, s: Running, event: RunOutcome)
    ensures
        sound(plan, begin(plan)),
        sound(plan, s) ==> sound(plan, after_run(plan, s, event)),
{
}

/// When a backend that knows of its devices has taken what was learned, the
/// devices of every kind can be created.
pub proof fn lemma_run_makes_ready(
    b: backend::Backend,
    page_size: u64,
    s: Running,
    kind: DeviceKind,
)
    requires
        backend::knows_its_devices(b),
        sound(plan_of(b, page_size), s),
        s is Adopting,
        backend::device_count(b, kind) > 0,
    ensures
        crate::creation::ready(backend::with_knowledge(b, s->Adopting_k).cfg),
{
    backend::lemma_devices_can_be_created(b, s->Adopting_k, kind);
}

/// Where the run stands after the outcomes `h` of its steps, from its start.
pub open spec fn after_outcomes(plan: RunPlan, h: Seq<RunOutcome>) -> Running
    decreases h.len(),
{
    if h.len() == 0 {
        begin(plan)
    } else {
        after_run(plan, after_outcomes(plan, h.drop_last()), h.last())
    }
}

/// Whether each of the outcomes `h` can come of the step it is the outcome of.
pub open spec fn follows(plan: RunPlan, h: Seq<RunOutcome>) -> bool {
    forall|i: int|
        0 <= i < h.len() ==> run_fits(
            run_step(plan, #[trigger] after_outcomes(plan, h.take(i))),
            h[i],
        )
}

/// The answers to the questions for a region of memory.
pub open spec fn tells_region() -> spec_fn(RunOutcome) -> bool {
    |event: RunOutcome| event matches RunOutcome::Ioctl { arg: ioctl::Arg::MemRegion(_), .. }
}

/// The answers that tell of a region that is a whole number of pages.
pub open spec fn tells_whole_region(page_size: u64) -> spec_fn(RunOutcome) -> bool {
    |event: RunOutcome|
        event matches RunOutcome::Ioctl { arg: ioctl::Arg::MemRegion(m), .. } && m.mem_size
            % page_size == 0
}

/// Whether these are, in order, the regions of which the outcomes told: one
/// for each answer with a whole number of pages, at the address, with the size
/// and in the file of the answer, from the start of the file.
pub open spec fn as_told(
    regions: Seq<MemoryRegion>,
    h: Seq<RunOutcome>,
    page_size: u64,
) -> bool {
    let told = h.filter(tells_whole_region(page_size));
    &&& regions.len() == told.len()
    &&& forall|i: int|
        0 <= i < regions.len() ==> (told[i]->arg matches ioctl::Arg::MemRegion(m) && (
        #[trigger] regions[i]).addr == m.mem_phys && regions[i].size == m.mem_size && regions[i].fd
            == m.fd && regions[i].offset == 0)
}

/// Whether this is the one region of the shared memory: all of the given size,
/// at address zero, from the start of the file of the virtual machine.
pub open spec fn as_shared(regions: Seq<MemoryRegion>, size: u64, vm_sfd: i32) -> bool {
    regions.len() == 1 && regions[0].addr == 0 && regions[0].size == size && regions[0].offset == 0
        && regions[0].fd == vm_sfd
}

/// Where the first step behind the jail stands among the outcomes.
pub open spec fn opened_at(plan: RunPlan) -> int {
    if plan.sandbox {
        1
    } else {
        0
    }
}

/// Whether this is what the outcomes told of the virtual machine.
pub open spec fn known_from(plan: RunPlan, k: backend::Knowledge, h: Seq<RunOutcome>) -> bool {
    let p = opened_at(plan);
    &&& h.len() >= p + 4
    &&& k.sfd == h[p]->fd
    &&& k.vm_sfd == h[p + 1]->ret
    &&& k.vcpu_count == h[p + 3]->ret
}

/// Whether these are the regions that the devices of the plan need.
pub open spec fn needed(plan: RunPlan, regions: Seq<MemoryRegion>, h: Seq<RunOutcome>) -> bool {
    let p = opened_at(plan);
    &&& h.len() >= p + 5
    &&& plan.non_protected ==> as_told(regions, h, plan.page_size)
    &&& !plan.non_protected ==> (h[p + 4]->arg matches ioctl::Arg::SharedMemorySize(size)
        && as_shared(regions, size, h[p + 1]->ret))
}

spec fn traced(plan: RunPlan, h: Seq<RunOutcome>) -> bool {
    let p = opened_at(plan);
    let n = h.len() as int;
    let asked = h.filter(tells_region()).len();
    let told = h.filter(tells_whole_region(plan.page_size)).len();
    match after_outcomes(plan, h) {
        Running::Jailing => plan.sandbox && n == 0,
        Running::Opening => n == p && asked == 0 && told == 0,
        Running::CreatingVm { sfd } => n == p + 1 && sfd == h[p]->fd && asked == 0 && told == 0,
        Running::Naming { sfd, vm_sfd } => n == p + 2 && sfd == h[p]->fd && vm_sfd == h[p + 1]->ret
            && asked == 0 && told == 0,
        Running::CountingVcpus { sfd, vm_sfd } => n == p + 3 && sfd == h[p]->fd && vm_sfd == h[p
            + 1]->ret && asked == 0 && told == 0,
        Running::CountingMemory { k } => n == p + 4 && known_from(plan, k, h) && plan.non_protected
            && k.mem is None && asked == 0 && told == 0,
        Running::AskingRegion { k, count, index, regions } => {
            &&& n >= p + 5
            &&& known_from(plan, k, h)
            &&& plan.non_protected
            &&& k.mem is None
            &&& count == h[p + 4]->ret as int % 0x100
            &&& index == asked
            &&& index < count
            &&& as_told(regions, h, plan.page_size)
        },
        Running::AskingSize { k } => n == p + 4 && known_from(plan, k, h) && !plan.non_protected
            && plan.devices && k.mem is None && asked == 0 && told == 0,
        Running::MappingRegion { k, count, index, regions } => {
            &&& n >= p + 5
            &&& known_from(plan, k, h)
            &&& k.mem is None
            &&& regions.len() > 0
            &&& index < count
            &&& needed(plan, regions, h)
            &&& plan.non_protected ==> count == h[p + 4]->ret as int % 0x100 && asked == index + 1
                && tells_whole_region(plan.page_size)(h.last())
            &&& !plan.non_protected ==> count == 1 && plan.devices
        },
        Running::Mapping { k, regions } => {
            &&& known_from(plan, k, h)
            &&& k.mem is None
            &&& plan.devices
            &&& needed(plan, regions, h)
            &&& plan.non_protected ==> asked == h[p + 4]->ret as int % 0x100
        },
        Running::Adopting { k } => took(plan, k, h),
        Running::RunningDevices { k, .. } => took(plan, k, h),
        Running::Joining { k, .. } => took(plan, k, h),
        Running::Finished { k } => took(plan, k, h),
        Running::Failed { .. } => true,
    }
}

spec fn took(plan: RunPlan, k: backend::Knowledge, h: Seq<RunOutcome>) -> bool {
    let p = opened_at(plan);
    &&& known_from(plan, k, h)
    &&& plan.devices == (k.mem is Some)
    &&& k.mem is Some ==> needed(plan, k.mem->0, h)
    &&& plan.non_protected ==> h.len() >= p + 5 && h.filter(tells_region()).len()
        == h[p + 4]->ret as int % 0x100
}

proof fn lemma_filter_push(h: Seq<RunOutcome>, e: RunOutcome, p: spec_fn(RunOutcome) -> bool)
    ensures
        h.push(e).filter(p) == if p(e) {
            h.filter(p).push(e)
        } else {
            h.filter(p)
        },
{
    reveal(Seq::filter);
    assert(h.push(e).drop_last() =~= h);
}

proof fn lemma_traced_step(plan: RunPlan, h: Seq<RunOutcome>, e: RunOutcome)
    requires
        plan.vm is Some,
        traced(plan, h),
        run_fits(run_step(plan, after_outcomes(plan, h)), e),
    ensures
        traced(plan, h.push(e)),
{
    let all = h.push(e);
    let s = after_outcomes(plan, h);
    assert(all.drop_last() =~= h && all.last() == e);
    assert(after_outcomes(plan, all) == after_run(plan, s, e));
    let whole = tells_whole_region(plan.page_size);
    lemma_filter_push(h, e, tells_region());
    lemma_filter_push(h, e, whole);
    let told = h.filter(whole);
    let told_all = all.filter(whole);
    if whole(e) {
        assert forall|i: int| 0 <= i < told.len() implies told_all[i] == told[i] by {}
        assert(told_all[told.len() as int] == e);
    }
}

proof fn lemma_traced(plan: RunPlan, h: Seq<RunOutcome>)
    requires
        plan.vm is Some,
        follows(plan, h),
    ensures
        traced(plan, h),
    decreases h.len(),
{
    reveal(Seq::filter);
    if h.len() > 0 {
        let before = h.drop_last();
        let n = h.len() as int;
        assert(h.take(n - 1) =~= before);
        assert(run_fits(run_step(plan, after_outcomes(plan, h.take(n - 1))), h[n - 1]));
        assert forall|i: int| 0 <= i < before.len() implies run_fits(
            run_step(plan, #[trigger] after_outcomes(plan, before.take(i))),
            before[i],
        ) by {
            assert(before.take(i) =~= h.take(i));
        }
        lemma_traced(plan, before);
        lemma_traced_step(plan, before, h.last());
        assert(before.push(h.last()) =~= h);
    }
}

/// The memory that is put together, and that the backend takes, is what the
/// hypervisor told of: one region for each answer whose size is a whole number
/// of pages, in the order of the answers, at the address, with the size and
/// in the file of the answer. All regions are asked for before, each once.
pub proof fn lemma_memory_is_what_was_told(plan: RunPlan, h: Seq<RunOutcome>)
    requires
        plan.vm is Some,
        plan.non_protected,
        follows(plan, h),
    ensures
        ({
            let act = run_step(plan, after_outcomes(plan, h));
            let made = act is MapMemory || (act is Adopt && plan.devices);
            let regions = if act is MapMemory {
                act->regions
            } else {
                act->Adopt_0.mem->0
            };
            let told = h.filter(tells_whole_region(plan.page_size));
            let count = h[opened_at(plan) + 4]->ret as int % 0x100;
            &&& act is MapMemory ==> plan.devices
            &&& act is Adopt ==> (act->Adopt_0.mem is Some <==> plan.devices)
            &&& act is MapMemory || act is Adopt ==> h.filter(tells_region()).len() == count
            &&& made ==> regions.len() == told.len()
            &&& made ==> forall|i: int|
                0 <= i < told.len() ==> (told[i]->arg matches ioctl::Arg::MemRegion(m) && (
                #[trigger] regions[i]).addr == m.mem_phys && regions[i].size == m.mem_size
                    && regions[i].fd == m.fd && regions[i].offset == 0)
        }),
{
    lemma_traced(plan, h);
}

/// Each region is asked for by the number of those before it, and mapped, if
/// it is a whole number of pages, as the answer told.
pub proof fn lemma_each_region_is_asked_for_and_mapped(plan: RunPlan, h: Seq<RunOutcome>)
    requires
        plan.vm is Some,
        plan.non_protected,
        follows(plan, h),
    ensures
        ({
            let act = run_step(plan, after_outcomes(plan, h));
            let count = h[opened_at(plan) + 4]->ret as int % 0x100;
            &&& act matches RunAct::Ioctl { fd, cmd, arg: ioctl::Arg::MemRegion(q) } ==> {
                &&& fd == h[opened_at(plan) + 1]->ret
                &&& cmd == ioctl::machine_command(VmCommand::GetMemRegion)
                &&& q.mem_idx == h.filter(tells_region()).len()
                &&& q.mem_idx < count
                &&& q.mem_phys == 0 && q.mem_size == 0 && q.fd == 0
            }
            &&& act matches RunAct::MapRegion { region } ==> h.len() > 0 && (
            h.last() matches RunOutcome::Ioctl { ret, arg: ioctl::Arg::MemRegion(m), .. } && ret
                == 0 && m.mem_size % plan.page_size == 0 && region.addr == m.mem_phys
                && region.size == m.mem_size && region.fd == m.fd && region.offset == 0)
        }),
{
    lemma_traced(plan, h);
    lemma_last_answer_was_granted(plan, h);
    let whole = tells_whole_region(plan.page_size);
    if h.len() > 0 {
        lemma_filter_push(h.drop_last(), h.last(), whole);
        assert(h.drop_last().push(h.last()) =~= h);
    }
}

proof fn lemma_last_answer_was_granted(plan: RunPlan, h: Seq<RunOutcome>)
    requires
        plan.vm is Some,
        follows(plan, h),
    ensures
        after_outcomes(plan, h) is MappingRegion ==> h.len() > 0 && (
        h.last() matches RunOutcome::Ioctl { ret, .. } && ret == 0),
{
    if h.len() > 0 {
        let n = h.len() as int;
        assert(h.take(n - 1) =~= h.drop_last());
        assert(run_fits(run_step(plan, after_outcomes(plan, h.take(n - 1))), h[n - 1]));
    }
}

/// The answer to the question for a region decides what comes next: a region
/// of whole pages is mapped, any other is passed over, and then the next is
/// asked for until there are as many answers as regions.
pub proof fn lemma_no_region_is_passed_over(plan: RunPlan, h: Seq<RunOutcome>, e: RunOutcome)
    requires
        plan.vm is Some,
        plan.non_protected,
        follows(plan, h),
        run_step(plan, after_outcomes(plan, h)) matches RunAct::Ioctl {
            arg: ioctl::Arg::MemRegion(_),
            ..
        },
        e matches RunOutcome::Ioctl { ret, arg: ioctl::Arg::MemRegion(_), .. } && ret == 0,
    ensures
        ({
            let next = run_step(plan, after_outcomes(plan, h.push(e)));
            let count = h[opened_at(plan) + 4]->ret as int % 0x100;
            let before = h.filter(tells_region()).len();
            &&& tells_whole_region(plan.page_size)(e) <==> next is MapRegion
            &&& !(next is MapRegion) && before + 1 < count ==> (next matches RunAct::Ioctl {
                arg: ioctl::Arg::MemRegion(q),
                ..
            } && q.mem_idx == before + 1)
            &&& !(next is MapRegion) && before + 1 >= count ==> if plan.devices {
                next is MapMemory
            } else {
                next is Adopt
            }
        }),
{
    lemma_traced(plan, h);
    assert(h.push(e).drop_last() =~= h);
}

/// A virtual machine that keeps its memory to itself shares one region with
/// its devices: as large as the hypervisor told, at address zero, from the
/// start of the file of the virtual machine. It is mapped before it is put
/// together, and taken as it was mapped.
pub proof fn lemma_shared_memory_is_one_region(plan: RunPlan, h: Seq<RunOutcome>)
    requires
        plan.vm is Some,
        !plan.non_protected,
        follows(plan, h),
    ensures
        ({
            let act = run_step(plan, after_outcomes(plan, h));
            let p = opened_at(plan);
            let size = h[p + 4]->arg->SharedMemorySize_0;
            let vm_sfd = h[p + 1]->ret;
            &&& act matches RunAct::MapRegion { region } ==> region.addr == 0 && region.size == size
                && region.offset == 0 && region.fd == vm_sfd
            &&& act matches RunAct::MapMemory { regions } ==> regions.len() == 1 && regions[0].addr
                == 0 && regions[0].size == size && regions[0].offset == 0 && regions[0].fd
                == vm_sfd
            &&& act matches RunAct::Adopt(k) ==> (k.mem is Some <==> plan.devices) && (
            k.mem matches Some(regions) ==> regions.len() == 1 && regions[0].addr == 0
                && regions[0].size == size && regions[0].offset == 0 && regions[0].fd == vm_sfd)
        }),
{
    lemma_traced(plan, h);
}

/// The backend takes the descriptors and the number of processors as they were
/// answered: the file that was opened, the virtual machine that was created,
/// and the count.
pub proof fn lemma_backend_takes_what_was_answered(plan: RunPlan, h: Seq<RunOutcome>)
    requires
        plan.vm is Some,
        follows(plan, h),
    ensures
        run_step(plan, after_outcomes(plan, h)) matches RunAct::Adopt(k) ==> {
            let p = opened_at(plan);
            &&& h[p] matches RunOutcome::Opened { fd, .. } && k.sfd == fd
            &&& h[p + 1] matches RunOutcome::Ioctl { ret, .. } && k.vm_sfd == ret
            &&& h[p + 3] matches RunOutcome::Ioctl { ret, .. } && k.vcpu_count == ret
        },
{
    lemma_traced(plan, h);
    if after_outcomes(plan, h) is Adopting {
        let p = opened_at(plan);
        lemma_steps_before(plan, h, p);
        lemma_steps_before(plan, h, p + 1);
        lemma_steps_before(plan, h, p + 3);
    }
}

proof fn lemma_failure_stays(plan: RunPlan, h: Seq<RunOutcome>, i: int)
    requires
        0 <= i <= h.len(),
        after_outcomes(plan, h.take(i)) is Failed,
    ensures
        after_outcomes(plan, h) is Failed,
    decreases h.len() - i,
{
    if i < h.len() {
        assert(h.take(i + 1).drop_last() =~= h.take(i));
        lemma_failure_stays(plan, h, i + 1);
    } else {
        assert(h.take(i) =~= h);
    }
}

proof fn lemma_steps_before(plan: RunPlan, h: Seq<RunOutcome>, i: int)
    requires
        plan.vm is Some,
        follows(plan, h),
        0 <= i < h.len(),
        i <= opened_at(plan) + 3,
        !(after_outcomes(plan, h) is Failed),
    ensures
        i == opened_at(plan) ==> h[i] is Opened,
        i > opened_at(plan) ==> h[i] is Ioctl,
    decreases i,
{
    let p = opened_at(plan);
    let early = h.take(i);
    assert(run_fits(run_step(plan, after_outcomes(plan, early)), h[i]));
    assert forall|j: int| 0 <= j < early.len() implies run_fits(
        run_step(plan, #[trigger] after_outcomes(plan, early.take(j))),
        early[j],
    ) by {
        assert(early.take(j) =~= h.take(j));
        assert(run_fits(run_step(plan, after_outcomes(plan, h.take(j))), h[j]));
    }
    lemma_traced(plan, early);
    if after_outcomes(plan, early) is Failed {
        lemma_failure_stays(plan, h, i);
    }
}

/// The steps up to the memory, in order, each sent to the file it belongs to:
/// the hypervisor creates the virtual machine, and the virtual machine is
/// named, and asked for its processors and its memory.
pub proof fn lemma_setup_comes_in_order(plan: RunPlan, h: Seq<RunOutcome>)
    requires
        plan.vm is Some,
        follows(plan, h),
        !(run_step(plan, after_outcomes(plan, h)) is Panic),
    ensures
        ({
            let act = run_step(plan, after_outcomes(plan, h));
            let p = if plan.sandbox {
                1int
            } else {
                0
            };
            let name = vstd::utf8::encode_utf8(plan.vm->0);
            &&& h.len() == 0 && plan.sandbox ==> (act matches RunAct::Jail { policy } && policy
                == "/system_ext/etc/seccomp_policy/qcrosvm.policy"@)
            &&& h.len() == p ==> (act matches RunAct::Open { path } && path == "/dev/gunyah"@)
            &&& h.len() == p + 1 ==> (act matches RunAct::Ioctl { fd, cmd, arg } && fd == h[p]->fd
                && cmd == ioctl::machine_command(VmCommand::CreateVm) && arg is Nothing)
            &&& h.len() == p + 2 ==> (act matches RunAct::Ioctl {
                fd,
                cmd,
                arg: ioctl::Arg::FwName(b),
            } && {
                &&& fd == h[p + 1]->ret
                &&& cmd == ioctl::machine_command(VmCommand::SetFwName)
                &&& b.len() == 16
                &&& name.len() <= 16
                &&& b.take(name.len() as int) == name
                &&& forall|i: int| name.len() <= i < 16 ==> #[trigger] b[i] == 0
            })
            &&& h.len() == p + 3 ==> (act matches RunAct::Ioctl { fd, cmd, arg } && fd == h[p
                + 1]->ret && cmd == ioctl::machine_command(VmCommand::GetVcpuCount)
                && arg is Nothing)
            &&& h.len() == p + 4 && plan.non_protected ==> (act matches RunAct::Ioctl {
                fd,
                cmd,
                arg,
            } && fd == h[p + 1]->ret && cmd == ioctl::machine_command(VmCommand::GetMemCount)
                && arg is Nothing)
            &&& h.len() == p + 4 && !plan.non_protected && plan.devices ==> (
            act matches RunAct::Ioctl { fd, cmd, arg: ioctl::Arg::SharedMemorySize(size) } && fd
                == h[p + 1]->ret && cmd == ioctl::machine_command(VmCommand::GetSharedMemorySize)
                && size == 0)
            &&& h.len() == p + 4 && !plan.non_protected && !plan.devices ==> act is Adopt
        }),
    decreases h.len(),
{
    lemma_traced(plan, h);
    let p = opened_at(plan);
    let n = h.len() as int;
    if 0 < n <= p + 4 {
        let before = h.drop_last();
        assert(h.take(n - 1) =~= before);
        assert(run_fits(run_step(plan, after_outcomes(plan, h.take(n - 1))), h[n - 1]));
        assert forall|j: int| 0 <= j < before.len() implies run_fits(
            run_step(plan, #[trigger] after_outcomes(plan, before.take(j))),
            before[j],
        ) by {
            assert(before.take(j) =~= h.take(j));
            assert(run_fits(run_step(plan, after_outcomes(plan, h.take(j))), h[j]));
        }
        lemma_traced(plan, before);
        lemma_setup_comes_in_order(plan, before);
        if n == p + 2 {
            lemma_name_is_kept(vstd::utf8::encode_utf8(plan.vm->0));
        }
    }
}

/// What ends a run, for each of its steps, and nothing else does.
pub proof fn lemma_what_ends_a_run(plan: RunPlan, h: Seq<RunOutcome>, e: RunOutcome)
    requires
        plan.vm is Some,
        plan.page_size > 0,
        follows(plan, h),
        run_fits(run_step(plan, after_outcomes(plan, h)), e),
    ensures
        ({
            let next = run_step(plan, after_outcomes(plan, h.push(e)));
            next is Panic <==> match run_step(plan, after_outcomes(plan, h)) {
                RunAct::Jail { .. } => e == RunOutcome::Jailed(false),
                RunAct::Open { .. } => e->fd < 0,
                RunAct::Ioctl { cmd, .. } => {
                    ||| cmd == ioctl::machine_command(VmCommand::CreateVm) && (e->ret < 0
                        || vstd::utf8::encode_utf8(plan.vm->0).len() > 16)
                    ||| cmd == ioctl::machine_command(VmCommand::SetFwName) && e->ret != 0
                    ||| cmd == ioctl::machine_command(VmCommand::GetVcpuCount) && !(0 <= e->ret
                        <= 512)
                    ||| cmd == ioctl::machine_command(VmCommand::GetMemCount) && e->ret <= 0
                    ||| cmd == ioctl::machine_command(VmCommand::GetMemRegion) && e->ret != 0
                    ||| cmd == ioctl::machine_command(VmCommand::GetSharedMemorySize) && (e->ret
                        != 0 || e->arg->SharedMemorySize_0 == 0 || e->arg->SharedMemorySize_0
                        % plan.page_size != 0)
                },
                RunAct::MapRegion { .. } => e == RunOutcome::Mapped(false),
                RunAct::MapMemory { .. } => e == RunOutcome::Mapped(false),
                _ => false,
            }
        }),
{
    let s = after_outcomes(plan, h);
    assert(h.push(e).drop_last() =~= h && h.push(e).last() == e);
    assert(after_outcomes(plan, h.push(e)) == after_run(plan, s, e));
}

/// A run that ends early says why, in the words for the step that failed, and
/// what the system said of it.
pub proof fn lemma_run_says_why_it_ends(plan: RunPlan, h: Seq<RunOutcome>, e: RunOutcome)
    requires
        plan.vm is Some,
        plan.page_size > 0,
        follows(plan, h),
        run_fits(run_step(plan, after_outcomes(plan, h)), e),
        run_step(plan, after_outcomes(plan, h.push(e))) is Panic,
    ensures
        run_step(plan, after_outcomes(plan, h.push(e))) matches RunAct::Panic { message, usage }
            && !usage && match run_step(plan, after_outcomes(plan, h)) {
            RunAct::Jail { .. } => message == "Minijail enforcement failed!!"@,
            RunAct::Open { .. } => message == "Error: device node open failed"@ + " "@
                + e->Opened_error,
            RunAct::Ioctl { cmd, .. } => {
                &&& cmd == ioctl::machine_command(VmCommand::CreateVm) ==> message == (if e->ret
                    < 0 {
                    "Error: create vm ioctl failed with error"@ + " "@ + e->Ioctl_error
                } else {
                    "Error: the name of the virtual machine is too long"@
                })
                &&& cmd == ioctl::machine_command(VmCommand::SetFwName) ==> message
                    == "Error: set fw name ioctl failed with error"@ + " "@ + e->Ioctl_error
                &&& cmd == ioctl::machine_command(VmCommand::GetVcpuCount) ==> message
                    == "Error: get vcpu count ioctl failed"@ + " "@ + e->Ioctl_error
                &&& cmd == ioctl::machine_command(VmCommand::GetMemCount) ==> message
                    == "Error: get vm mem count ioctl failed"@ + " "@ + e->Ioctl_error
                &&& cmd == ioctl::machine_command(VmCommand::GetMemRegion) ==> message
                    == "Error: get vm mem region ioctl failed"@ + " "@ + e->Ioctl_error
                &&& cmd == ioctl::machine_command(VmCommand::GetSharedMemorySize) ==> message == (
                if e->ret != 0 || e->arg->SharedMemorySize_0 == 0 {
                    "Error: get vm shared memory size ioctl failed"@ + " "@ + e->Ioctl_error
                } else {
                    "Error: the shared memory is not aligned"@
                })
            },
            RunAct::MapRegion { .. } => message == "Error: the region cannot be mapped"@,
            RunAct::MapMemory { .. } => message == "Error: the memory cannot be mapped"@,
            _ => false,
        },
{
    let s = after_outcomes(plan, h);
    assert(h.push(e).drop_last() =~= h && h.push(e).last() == e);
    assert(after_outcomes(plan, h.push(e)) == after_run(plan, s, e));
}

/// What follows a region that was mapped: the question for the next one, until
/// there are as many answers as regions. Then the memory is put together if
/// there are devices, and behind that the backend takes what was learned.
pub proof fn lemma_mapping_goes_on(plan: RunPlan, h: Seq<RunOutcome>)
    requires
        plan.vm is Some,
        follows(plan, h),
    ensures
        ({
            let act = run_step(plan, after_outcomes(plan, h));
            let next = run_step(plan, after_outcomes(plan, h.push(RunOutcome::Mapped(true))));
            let count = h[opened_at(plan) + 4]->ret as int % 0x100;
            let asked = h.filter(tells_region()).len();
            &&& act is MapRegion && plan.non_protected && asked < count ==> (
            next matches RunAct::Ioctl { arg: ioctl::Arg::MemRegion(q), .. } && q.mem_idx == asked)
            &&& act is MapRegion && plan.non_protected && asked >= count ==> if plan.devices {
                next is MapMemory
            } else {
                next is Adopt
            }
            &&& act is MapRegion && !plan.non_protected ==> next is MapMemory
            &&& act is MapMemory ==> next is Adopt
        }),
{
    lemma_traced(plan, h);
    assert(h.push(RunOutcome::Mapped(true)).drop_last() =~= h);
}

/// How a backend runs is what its options say: under which name, in a jail or
/// not, with which memory, and whether there are devices.
pub proof fn lemma_plan_follows_the_options(b: backend::Backend, page_size: u64)
    ensures
        plan_of(b, page_size).vm == b.cfg.vm,
        plan_of(b, page_size).sandbox == b.cfg.sandbox,
        plan_of(b, page_size).non_protected == b.cfg.non_protected_virtio,
        plan_of(b, page_size).devices == b.cfg.bkend_dev_exist,
        plan_of(b, page_size).page_size == page_size,
{
}

/// A run without the name of a virtual machine ends at once, and says how the
/// backend is used; no other run does.
pub proof fn lemma_run_needs_a_machine(plan: RunPlan, h: Seq<RunOutcome>)
    ensures
        plan.vm is None ==> run_step(plan, begin(plan)) == (RunAct::Panic {
            message: "Error: missing vm argument"@,
            usage: true,
        }),
        plan.vm is Some ==> !(run_step(plan, begin(plan)) is Panic),
        plan.vm is Some ==> (run_step(plan, after_outcomes(plan, h)) matches RunAct::Panic {
            usage,
            ..
        } ==> !usage),
    decreases h.len(),
{
    if h.len() > 0 {
        lemma_run_needs_a_machine(plan, h.drop_last());
    }
}

/// The kind of devices that follows this kind.
pub open spec fn kind_after(kind: DeviceKind) -> Option<DeviceKind> {
    match kind {
        DeviceKind::Disk => Some(DeviceKind::Net),
        DeviceKind::Net => Some(DeviceKind::Hab),
        DeviceKind::Hab => Some(DeviceKind::Input),
        DeviceKind::Input => Some(DeviceKind::Scmi),
        DeviceKind::Scmi => Some(DeviceKind::Console),
        DeviceKind::Console => Some(DeviceKind::VuScmi),
        DeviceKind::VuScmi => Some(DeviceKind::I2c),
        DeviceKind::I2c => Some(DeviceKind::Fs),
        DeviceKind::Fs => Some(DeviceKind::Gp),
        DeviceKind::Gp => Some(DeviceKind::Frpc),
        DeviceKind::Frpc => Some(DeviceKind::Ssr),
        DeviceKind::Ssr => Some(DeviceKind::Gpio),
        DeviceKind::Gpio => Some(DeviceKind::Vsock),
        DeviceKind::Vsock => Some(DeviceKind::Generic),
        DeviceKind::Generic => Some(DeviceKind::Eavb),
        DeviceKind::Eavb => None,
        DeviceKind::Vcpus => None,
    }
}

/// When the backend has taken what was learned, the devices are run kind by
/// kind, the processors last. Then their threads are waited for, those of the
/// processors first, and the run is over behind the last kind of devices.
pub proof fn lemma_kinds_come_in_order(plan: RunPlan, s: Running)
    requires
        sound(plan, s),
    ensures
        ({
            let next = run_step(plan, after_run(plan, s, RunOutcome::Done));
            &&& run_step(plan, s) is Adopt ==> next == RunAct::RunDevices(DeviceKind::Disk)
            &&& run_step(plan, s) matches RunAct::RunDevices(kind) ==> next == (
            if kind == DeviceKind::Vcpus {
                RunAct::Join(DeviceKind::Vcpus)
            } else if kind == DeviceKind::Eavb {
                RunAct::RunDevices(DeviceKind::Vcpus)
            } else {
                RunAct::RunDevices(kind_after(kind)->0)
            })
            &&& run_step(plan, s) matches RunAct::Join(kind) ==> next == (
            if kind == DeviceKind::Vcpus {
                RunAct::Join(DeviceKind::Disk)
            } else if kind == DeviceKind::Eavb {
                RunAct::Return
            } else {
                RunAct::Join(kind_after(kind)->0)
            })
        }),
{
}

/// Where the run stands.
enum Stage {
    Jailing,
    Opening,
    CreatingVm(i32),
    Naming(i32, i32),
    CountingVcpus(i32, i32),
    CountingMemory(Known),
    AskingRegion(Known, u8, u8, Vec<MemoryRegion>),
    AskingSize(Known),
    MappingRegion(Known, u8, u8, Vec<MemoryRegion>),
    Mapping(Known, Vec<MemoryRegion>),
    Adopting(Known),
    RunningDevices(Known, usize),
    Joining(Known, usize),
    Finished(Known),
    Failed(String, bool),
}

/// A run of the backend.
pub struct BackendRun {
    vm: Option<String>,
    sandbox: bool,
    non_protected: bool,
    devices: bool,
    page_size: u64,
    stage: Stage,
}

fn copy_regions(regions: &Vec<MemoryRegion>) -> (r: Vec<MemoryRegion>)
    ensures
        r@ == regions@,
{
    let r: Vec<MemoryRegion> = regions.clone();
    assert(r@ =~= regions@);
    r
}

fn copy_known(k: &Known) -> (r: Known)
    ensures
        r@ == k@,
{
    Known {
        sfd: k.sfd,
        vm_sfd: k.vm_sfd,
        vcpu_count: k.vcpu_count,
        mem: match &k.mem {
            Some(regions) => Some(copy_regions(regions)),
            None => None,
        },
    }
}

/// The name of a virtual machine as the driver takes it.
fn pad_name(name: &str) -> (r: [u8; 16])
    requires
        vstd::utf8::encode_utf8(name@).len() <= FW_NAME_SIZE,
    ensures
        r@ == fw_name(vstd::utf8::encode_utf8(name@)),
{
    let bytes = name.as_bytes();
    let n: usize = bytes.len();
    let mut r: [u8; 16] = [0u8; 16];
    let mut i: usize = 0;
    while i < n
        invariant
            i <= n,
            n == bytes@.len(),
            n <= 16,
            r@.len() == 16,
            forall|j: int| 0 <= j < i ==> r@[j] == bytes@[j],
            forall|j: int| i <= j < 16 ==> r@[j] == 0,
        decreases n - i,
    {
        r[i] = bytes[i];
        i += 1;
    }
    assert(r@ =~= fw_name(vstd::utf8::encode_utf8(name@)));
    r
}

fn fail(what: &str, said: &str) -> (r: Stage)
    ensures
        r matches Stage::Failed(message, false) && message@ == what@ + " "@ + said@,
{
    Stage::Failed(text::concat(text::concat(what, " ").as_str(), said), false)
}

impl BackendRun {
    /// What is run.
    pub closed spec fn plan(self) -> RunPlan {
        RunPlan {
            vm: crate::config::optional_text(self.vm),
            sandbox: self.sandbox,
            non_protected: self.non_protected,
            devices: self.devices,
            page_size: self.page_size,
        }
    }

    /// Where the run stands.
    pub closed spec fn running(self) -> Running {
        match self.stage {
            Stage::Jailing => Running::Jailing,
            Stage::Opening => Running::Opening,
            Stage::CreatingVm(sfd) => Running::CreatingVm { sfd },
            Stage::Naming(sfd, vm_sfd) => Running::Naming { sfd, vm_sfd },
            Stage::CountingVcpus(sfd, vm_sfd) => Running::CountingVcpus { sfd, vm_sfd },
            Stage::CountingMemory(k) => Running::CountingMemory { k: k@ },
            Stage::AskingRegion(k, count, at, regions) => Running::AskingRegion {
                k: k@,
                count,
                index: at,
                regions: regions@,
            },
            Stage::AskingSize(k) => Running::AskingSize { k: k@ },
            Stage::MappingRegion(k, count, at, regions) => Running::MappingRegion {
                k: k@,
                count,
                index: at,
                regions: regions@,
            },
            Stage::Mapping(k, regions) => Running::Mapping { k: k@, regions: regions@ },
            Stage::Adopting(k) => Running::Adopting { k: k@ },
            Stage::RunningDevices(k, at) => Running::RunningDevices { k: k@, at: at as int },
            Stage::Joining(k, at) => Running::Joining { k: k@, at: at as int },
            Stage::Finished(k) => Running::Finished { k: k@ },
            Stage::Failed(message, usage) => Running::Failed { message: message@, usage },
        }
    }

    pub closed spec fn wf(self) -> bool {
        &&& self.page_size > 0
        &&& sound(self.plan(), self.running())
        &&& match self.stage {
            Stage::Failed(_, _) => true,
            _ => self.vm is Some,
        }
        &&& match self.stage {
            Stage::Naming(_, _) => vstd::utf8::encode_utf8(self.vm->0@).len() <= FW_NAME_SIZE,
            _ => true,
        }
    }

    /// This run at another stage.
    spec fn at_stage(self, stage: Stage) -> BackendRun {
        BackendRun { stage, ..self }
    }

    /// The next step.
    pub open spec fn next(self) -> RunAct {
        run_step(self.plan(), self.running())
    }

    /// The next step.
    pub fn action(&self) -> (r: RunAction)
        requires
            self.wf(),
        ensures
            r@ == self.next(),
    {
        match &self.stage {
            Stage::Jailing => RunAction::Jail {
                policy: "/system_ext/etc/seccomp_policy/qcrosvm.policy".to_owned(),
            },
            Stage::Opening => RunAction::Open { path: "/dev/gunyah".to_owned() },
            Stage::CreatingVm(sfd) => RunAction::Ioctl {
                fd: *sfd,
                cmd: ioctl::machine_cmd(VmCommand::CreateVm),
                arg: IoctlArg::Nothing,
            },
            Stage::Naming(_, vm_sfd) => {
                let name = match &self.vm {
                    Some(vm) => pad_name(vm.as_str()),
                    None => [0u8; 16],
                };
                RunAction::Ioctl {
                    fd: *vm_sfd,
                    cmd: ioctl::machine_cmd(VmCommand::SetFwName),
                    arg: IoctlArg::FwName(name),
                }
            },
            Stage::CountingVcpus(_, vm_sfd) => RunAction::Ioctl {
                fd: *vm_sfd,
                cmd: ioctl::machine_cmd(VmCommand::GetVcpuCount),
                arg: IoctlArg::Nothing,
            },
            Stage::CountingMemory(k) => RunAction::Ioctl {
                fd: k.vm_sfd,
                cmd: ioctl::machine_cmd(VmCommand::GetMemCount),
                arg: IoctlArg::Nothing,
            },
            Stage::AskingRegion(k, _, at, _) => RunAction::Ioctl {
                fd: k.vm_sfd,
                cmd: ioctl::machine_cmd(VmCommand::GetMemRegion),
                arg: IoctlArg::MemRegion(
                    VmMemRegion { mem_idx: *at, mem_phys: 0, mem_size: 0, fd: 0 },
                ),
            },
            Stage::AskingSize(k) => RunAction::Ioctl {
                fd: k.vm_sfd,
                cmd: ioctl::machine_cmd(VmCommand::GetSharedMemorySize),
                arg: IoctlArg::SharedMemorySize(0),
            },
            Stage::MappingRegion(_, _, _, regions) => {
                let n: usize = regions.len();
                RunAction::MapRegion { region: regions[n - 1] }
            },
            Stage::Mapping(_, regions) => RunAction::MapMemory { regions: copy_regions(regions) },
            Stage::Adopting(k) => RunAction::Adopt(copy_known(k)),
            Stage::RunningDevices(_, at) => {
                let order = backend::device_order();
                RunAction::RunDevices(order[*at])
            },
            Stage::Joining(_, at) => {
                let order = backend::join_order();
                RunAction::Join(order[*at])
            },
            Stage::Finished(_) => RunAction::Return,
            Stage::Failed(message, usage) => RunAction::Panic {
                message: message.clone(),
                usage: *usage,
            },
        }
    }

    /// The stage when the regions before `at` were learned.
    fn region_stage(&self, k: Known, count: u8, at: u8, regions: Vec<MemoryRegion>) -> (r: Stage)
        ensures
            ({
                let s = ask_region(self.plan(), k@, count, at, regions@);
                match r {
                    Stage::AskingRegion(a, b, c, d) => at < count && s == (Running::AskingRegion {
                        k: a@,
                        count: b,
                        index: c,
                        regions: d@,
                    }),
                    Stage::Mapping(a, b) => s == (Running::Mapping { k: a@, regions: b@ }),
                    Stage::Adopting(a) => s == (Running::Adopting { k: a@ }),
                    _ => false,
                }
            }),
    {
        if at < count {
            Stage::AskingRegion(k, count, at, regions)
        } else if self.devices {
            Stage::Mapping(k, regions)
        } else {
            Stage::Adopting(k)
        }
    }

    /// Takes the reply to a request.
    fn replied(&mut self, stage: Stage, ret: i32, arg: IoctlArg, error: &str)
        requires
            old(self).at_stage(stage).wf(),
            run_fits(
                old(self).at_stage(stage).next(),
                RunOutcome::Ioctl { ret, arg: arg@, error: error@ },
            ),
        ensures
            final(self).wf(),
            final(self).plan() == old(self).plan(),
            final(self).running() == after_run(
                old(self).plan(),
                old(self).at_stage(stage).running(),
                RunOutcome::Ioctl { ret, arg: arg@, error: error@ },
            ),
    {
        let ghost was = old(self).at_stage(stage);
        let ghost event = RunOutcome::Ioctl { ret, arg: arg@, error: error@ };
        proof {
            lemma_run_is_sound(was.plan(), was.running(), event);
        }
        self.stage = match stage {
            Stage::CreatingVm(sfd) => {
                let long = match &self.vm {
                    Some(vm) => vm.as_str().as_bytes().len() > FW_NAME_SIZE,
                    None => false,
                };
                if ret < 0 {
                    fail("Error: create vm ioctl failed with error", error)
                } else if long {
                    Stage::Failed(
                        "Error: the name of the virtual machine is too long".to_owned(),
                        false,
                    )
                } else {
                    Stage::Naming(sfd, ret)
                }
            },
            Stage::Naming(sfd, vm_sfd) => if ret != 0 {
                fail("Error: set fw name ioctl failed with error", error)
            } else {
                Stage::CountingVcpus(sfd, vm_sfd)
            },
            Stage::CountingVcpus(sfd, vm_sfd) => if ret < 0 || ret > GH_VCPU_MAX as i32 {
                fail("Error: get vcpu count ioctl failed", error)
            } else {
                let k = Known { sfd, vm_sfd, vcpu_count: ret as u16, mem: None };
                if self.non_protected {
                    Stage::CountingMemory(k)
                } else if self.devices {
                    Stage::AskingSize(k)
                } else {
                    Stage::Adopting(k)
                }
            },
            Stage::CountingMemory(k) => if ret <= 0 {
                fail("Error: get vm mem count ioctl failed", error)
            } else {
                let regions: Vec<MemoryRegion> = Vec::new();
                assert(regions@ =~= Seq::empty());
                self.region_stage(k, (ret % 0x100) as u8, 0, regions)
            },
            Stage::AskingRegion(k, count, at, regions) => if ret != 0 {
                fail("Error: get vm mem region ioctl failed", error)
            } else {
                let mut regions = regions;
                let whole = match arg {
                    IoctlArg::MemRegion(m) => memory::create_vm_mem_region(
                        (m.mem_phys, m.mem_size),
                        m.fd,
                        self.page_size,
                        &mut regions,
                    ).is_ok(),
                    _ => false,
                };
                if whole {
                    Stage::MappingRegion(k, count, at, regions)
                } else {
                    self.region_stage(k, count, at + 1, regions)
                }
            },
            Stage::AskingSize(k) => {
                let size: u64 = match arg {
                    IoctlArg::SharedMemorySize(size) => size,
                    _ => 0,
                };
                if ret != 0 || size == 0 {
                    fail("Error: get vm shared memory size ioctl failed", error)
                } else {
                    let ranges: Vec<(u64, u64)> = vec![(0u64, size)];
                    proof {
                        assert(ranges@ =~= seq![(0u64, size)]);
                        reveal_with_fuel(memory::bytes_before, 2);
                        assert(ranges@[0].1 == size);
                    }
                    match memory::new_from_rawfd(&ranges, k.vm_sfd, self.page_size) {
                        Ok(regions) => Stage::MappingRegion(k, 1, 0, regions),
                        Err(_) => Stage::Failed(
                            "Error: the shared memory is not aligned".to_owned(),
                            false,
                        ),
                    }
                }
            },
            other => other,
        };
    }

    /// Takes what came of the step that `action` gave.
    pub fn advance(&mut self, event: RunEvent)
        requires
            old(self).wf(),
            run_fits(old(self).next(), event@),
        ensures
            final(self).wf(),
            final(self).plan() == old(self).plan(),
            final(self).running() == after_run(old(self).plan(), old(self).running(), event@),
    {
        proof {
            lemma_run_is_sound(self.plan(), self.running(), event@);
        }
        let mut stage = Stage::Opening;
        std::mem::swap(&mut stage, &mut self.stage);
        match event {
            RunEvent::Jailed(ok) => {
                self.stage = if ok {
                    Stage::Opening
                } else {
                    Stage::Failed("Minijail enforcement failed!!".to_owned(), false)
                };
            },
            RunEvent::Opened { fd, error } => {
                self.stage = if fd < 0 {
                    fail("Error: device node open failed", error.as_str())
                } else {
                    Stage::CreatingVm(fd)
                };
            },
            RunEvent::Ioctl { ret, arg, error } => {
                assert(self.at_stage(stage) == *old(self));
                self.replied(stage, ret, arg, error.as_str());
            },
            RunEvent::Mapped(ok) => {
                self.stage = match stage {
                    Stage::MappingRegion(k, count, at, regions) => if ok {
                        self.region_stage(k, count, at + 1, regions)
                    } else {
                        Stage::Failed("Error: the region cannot be mapped".to_owned(), false)
                    },
                    Stage::Mapping(k, regions) => if ok {
                        Stage::Adopting(
                            Known {
                                sfd: k.sfd,
                                vm_sfd: k.vm_sfd,
                                vcpu_count: k.vcpu_count,
                                mem: Some(regions),
                            },
                        )
                    } else {
                        Stage::Failed("Error: the memory cannot be mapped".to_owned(), false)
                    },
                    other => other,
                };
            },
            RunEvent::Done => {
                self.stage = match stage {
                    Stage::Adopting(k) => Stage::RunningDevices(k, 0),
                    Stage::RunningDevices(k, at) => {
                        let order = backend::device_order();
                        if at + 1 < order.len() {
                            Stage::RunningDevices(k, at + 1)
                        } else {
                            Stage::Joining(k, 0)
                        }
                    },
                    Stage::Joining(k, at) => {
                        let order = backend::join_order();
                        if at + 1 < order.len() {
                            Stage::Joining(k, at + 1)
                        } else {
                            Stage::Finished(k)
                        }
                    },
                    other => other,
                };
            },
        }
    }
}

impl VMBackend {
    /// Starts to run the backend on a host with pages of this size.
    pub fn run_backend(&self, page_size: u64) -> (r: BackendRun)
        requires
            page_size > 0,
        ensures
            r.wf(),
            r.plan() == plan_of(self@, page_size),
            r.running() == begin(r.plan()),
    {
        let vm = match &self.cfg.vm {
            Some(vm) => Some(vm.clone()),
            None => None,
        };
        let stage = if vm.is_none() {
            Stage::Failed("Error: missing vm argument".to_owned(), true)
        } else if self.cfg.sandbox {
            Stage::Jailing
        } else {
            Stage::Opening
        };
        BackendRun {
            vm,
            sandbox: self.cfg.sandbox,
            non_protected: self.cfg.non_protected_virtio,
            devices: self.cfg.bkend_dev_exist,
            page_size,
            stage,
        }
    }
}

} // verus!
