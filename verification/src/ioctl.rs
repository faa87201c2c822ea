//! The requests to the hypervisor driver: their numbers and the structures
//! that go with them.
use vstd::prelude::*;

use crate::error;
use crate::error::BackendError;

verus! {

/// The request type of the current driver.
pub const GH_IOCTL_TYPE_V2: u32 = 0xB2;

/// The request type of the earlier driver.
pub const GH_IOCTL_TYPE_V1: u32 = 0xBC;

/// The flag that connects an event to a queue.
pub const ASSIGN_EVENTFD: u32 = 1;

/// The flag that connects an interrupt.
pub const VBE_ASSIGN_IRQFD: u32 = 1;

/// No argument is transferred.
pub const DIR_NONE: u32 = 0;

/// The argument goes to the driver.
pub const DIR_WRITE: u32 = 1;

/// The argument comes from the driver.
pub const DIR_READ: u32 = 2;

/// The argument goes to the driver and comes back.
pub const DIR_BOTH: u32 = 3;

/// Connects an event to a queue of a device.
#[derive(Clone, Copy, Debug)]
pub struct VirtioEventfd {
    pub label: u32,
    pub flags: u32,
    pub queue_num: u32,
    pub fd: i32,
}

/// Connects the interrupt of a device.
#[derive(Clone, Copy, Debug)]
pub struct VirtioIrqfd {
    pub label: u32,
    pub flags: u32,
    pub fd: i32,
    pub reserved: u32,
}

/// What happened to a device.
#[derive(Clone, Copy, Debug)]
pub struct VirtioEvent {
    pub label: u32,
    pub event: u32,
    pub event_data: u32,
    pub reserved: u32,
}

/// One word of the features that a device offers.
#[derive(Clone, Copy, Debug)]
pub struct VirtioDevFeatures {
    pub label: u32,
    pub reserved: u32,
    pub features_sel: u32,
    pub features: u32,
}

/// The largest size of one queue of a device.
#[derive(Clone, Copy, Debug)]
pub struct VirtioQueueMax {
    pub label: u32,
    pub reserved: u32,
    pub queue_sel: u32,
    pub queue_num_max: u32,
}

/// The configuration space of a device, as words.
#[derive(Debug)]
pub struct VirtioConfigData {
    pub label: u32,
    pub config_size: u32,
    pub config_data: Vec<u32>,
}

/// How the driver set up one queue.
#[derive(Clone, Copy, Debug)]
pub struct VirtioQueueInfo {
    pub label: u32,
    pub queue_sel: u32,
    pub queue_num: u32,
    pub queue_ready: u32,
    pub queue_desc: u64,
    pub queue_driver: u64,
    pub queue_device: u64,
}

/// One word of the features that the driver accepted.
#[derive(Clone, Copy, Debug)]
pub struct VirtioDriverFeatures {
    pub label: u32,
    pub reserved: u32,
    pub features_sel: u32,
    pub features: u32,
}

/// Confirms that a device was reset.
#[derive(Clone, Copy, Debug)]
pub struct VirtioAckReset {
    pub label: u32,
    pub reserved: u32,
}

/// The summary of an input device.
#[derive(Clone, Copy, Debug)]
pub struct VirtioInputDeviceConfig {
    pub label: u32,
    pub device_id: u64,
    pub prop_bits: u32,
    pub num_ev_types: u8,
    pub num_abs_axes: u8,
    pub reserved: u32,
}

/// One record of the configuration of an input device.
#[derive(Clone, Copy, Debug)]
pub struct VirtioInputDeviceData {
    pub label: u32,
    pub sel: u8,
    pub subsel: u8,
    pub size: u8,
    pub reserved: [u8; 5],
    pub payload: [u8; 128],
}

/// One memory region of the virtual machine.
#[derive(Clone, Copy, Debug)]
pub struct VmMemRegion {
    pub mem_idx: u8,
    pub mem_phys: u64,
    pub mem_size: u64,
    pub fd: i32,
}

/// What a request carries.
#[derive(Debug)]
pub enum IoctlArg {
    Nothing,
    Value(u64),
    EventFd(VirtioEventfd),
    IrqFd(VirtioIrqfd),
    Event(VirtioEvent),
    DevFeatures(VirtioDevFeatures),
    QueueMax(VirtioQueueMax),
    ConfigData(VirtioConfigData),
    QueueInfo(VirtioQueueInfo),
    DriverFeatures(VirtioDriverFeatures),
    AckReset(VirtioAckReset),
    InputConfig(VirtioInputDeviceConfig),
    InputData(VirtioInputDeviceData),
    FwName([u8; 16]),
    MemRegion(VmMemRegion),
    SharedMemorySize(u64),
}

/// `IoctlArg` with its lists as sequences.
pub enum Arg {
    Nothing,
    Value(u64),
    EventFd(VirtioEventfd),
    IrqFd(VirtioIrqfd),
    Event(VirtioEvent),
    DevFeatures(VirtioDevFeatures),
    QueueMax(VirtioQueueMax),
    ConfigData { label: u32, config_size: u32, data: Seq<u32> },
    QueueInfo(VirtioQueueInfo),
    DriverFeatures(VirtioDriverFeatures),
    AckReset(VirtioAckReset),
    InputConfig(VirtioInputDeviceConfig),
    InputData { label: u32, sel: u8, subsel: u8, size: u8, reserved: Seq<u8>, payload: Seq<u8> },
    FwName(Seq<u8>),
    MemRegion(VmMemRegion),
    SharedMemorySize(u64),
}

impl View for IoctlArg {
    type V = Arg;

    open spec fn view(&self) -> Arg {
        match self {
            IoctlArg::Nothing => Arg::Nothing,
            IoctlArg::Value(v) => Arg::Value(*v),
            IoctlArg::EventFd(a) => Arg::EventFd(*a),
            IoctlArg::IrqFd(a) => Arg::IrqFd(*a),
            IoctlArg::Event(a) => Arg::Event(*a),
            IoctlArg::DevFeatures(a) => Arg::DevFeatures(*a),
            IoctlArg::QueueMax(a) => Arg::QueueMax(*a),
            IoctlArg::ConfigData(a) => Arg::ConfigData {
                label: a.label,
                config_size: a.config_size,
                data: a.config_data@,
            },
            IoctlArg::QueueInfo(a) => Arg::QueueInfo(*a),
            IoctlArg::DriverFeatures(a) => Arg::DriverFeatures(*a),
            IoctlArg::AckReset(a) => Arg::AckReset(*a),
            IoctlArg::InputConfig(a) => Arg::InputConfig(*a),
            IoctlArg::InputData(a) => Arg::InputData {
                label: a.label,
                sel: a.sel,
                subsel: a.subsel,
                size: a.size,
                reserved: a.reserved@,
                payload: a.payload@,
            },
            IoctlArg::FwName(name) => Arg::FwName(name@),
            IoctlArg::MemRegion(a) => Arg::MemRegion(*a),
            IoctlArg::SharedMemorySize(v) => Arg::SharedMemorySize(*v),
        }
    }
}

/// The model of an argument holds every field of it: arguments with the same
/// model are the same to the driver.
pub proof fn lemma_arguments_are_modelled_in_full(a: IoctlArg)
    ensures
        match a {
            IoctlArg::Nothing => a@ is Nothing,
            IoctlArg::Value(v) => a@ matches Arg::Value(m) && m == v,
            IoctlArg::EventFd(v) => a@ matches Arg::EventFd(m) && m.label == v.label && m.flags
                == v.flags && m.queue_num == v.queue_num && m.fd == v.fd,
            IoctlArg::IrqFd(v) => a@ matches Arg::IrqFd(m) && m.label == v.label && m.flags
                == v.flags && m.fd == v.fd && m.reserved == v.reserved,
            IoctlArg::Event(v) => a@ matches Arg::Event(m) && m.label == v.label && m.event
                == v.event && m.event_data == v.event_data && m.reserved == v.reserved,
            IoctlArg::DevFeatures(v) => a@ matches Arg::DevFeatures(m) && m.label == v.label
                && m.reserved == v.reserved && m.features_sel == v.features_sel && m.features
                == v.features,
            IoctlArg::QueueMax(v) => a@ matches Arg::QueueMax(m) && m.label == v.label
                && m.reserved == v.reserved && m.queue_sel == v.queue_sel && m.queue_num_max
                == v.queue_num_max,
            IoctlArg::ConfigData(v) => a@ matches Arg::ConfigData { label, config_size, data }
                && label == v.label && config_size == v.config_size && data == v.config_data@,
            IoctlArg::QueueInfo(v) => a@ matches Arg::QueueInfo(m) && m == v,
            IoctlArg::DriverFeatures(v) => a@ matches Arg::DriverFeatures(m) && m.label == v.label
                && m.reserved == v.reserved && m.features_sel == v.features_sel && m.features
                == v.features,
            IoctlArg::AckReset(v) => a@ matches Arg::AckReset(m) && m.label == v.label
                && m.reserved == v.reserved,
            IoctlArg::InputConfig(v) => a@ matches Arg::InputConfig(m) && m == v,
            IoctlArg::InputData(v) => a@ matches Arg::InputData {
                label,
                sel,
                subsel,
                size,
                reserved,
                payload,
            } && label == v.label && sel == v.sel && subsel == v.subsel && size == v.size
                && reserved == v.reserved@ && payload == v.payload@,
            IoctlArg::FwName(v) => a@ matches Arg::FwName(m) && m == v@,
            IoctlArg::MemRegion(v) => a@ matches Arg::MemRegion(m) && m == v,
            IoctlArg::SharedMemorySize(v) => a@ matches Arg::SharedMemorySize(m) && m == v,
        },
{
}

/// Whether `b` is what `a` may have become in a request: the same structure,
/// with lists of the same length.
pub open spec fn same_shape(a: Arg, b: Arg) -> bool {
    match a {
        Arg::Nothing => b is Nothing,
        Arg::Value(_) => b is Value,
        Arg::EventFd(_) => b is EventFd,
        Arg::IrqFd(_) => b is IrqFd,
        Arg::Event(_) => b is Event,
        Arg::DevFeatures(_) => b is DevFeatures,
        Arg::QueueMax(_) => b is QueueMax,
        Arg::ConfigData { data, .. } => b matches Arg::ConfigData { data: after, .. }
            && after.len() == data.len(),
        Arg::QueueInfo(_) => b is QueueInfo,
        Arg::DriverFeatures(_) => b is DriverFeatures,
        Arg::AckReset(_) => b is AckReset,
        Arg::InputConfig(_) => b is InputConfig,
        Arg::InputData { .. } => b is InputData,
        Arg::FwName(_) => b is FwName,
        Arg::MemRegion(_) => b is MemRegion,
        Arg::SharedMemorySize(_) => b is SharedMemorySize,
    }
}

/// The number of a request: its direction in the top two bits, the size of its
/// argument in the next fourteen, then its type and its index, a byte each.
pub open spec fn request_number(dir: int, ty: int, nr: int, size: int) -> int {
    dir * 0x4000_0000 + size * 0x1_0000 + ty * 0x100 + nr
}

/// No two requests share a number.
pub proof fn lemma_request_number_is_unique(
    dir: int,
    ty: int,
    nr: int,
    size: int,
    dir2: int,
    ty2: int,
    nr2: int,
    size2: int,
)
    requires
        0 <= dir < 4,
        0 <= dir2 < 4,
        0 <= size < 0x4000,
        0 <= size2 < 0x4000,
        0 <= ty < 0x100,
        0 <= ty2 < 0x100,
        0 <= nr < 0x100,
        0 <= nr2 < 0x100,
        request_number(dir, ty, nr, size) == request_number(dir2, ty2, nr2, size2),
    ensures
        dir == dir2,
        ty == ty2,
        nr == nr2,
        size == size2,
{
}

/// The number of a request.
fn encode(dir: u32, ty: u32, nr: u32, size: u32) -> (r: u64)
    requires
        dir < 4,
        ty < 0x100,
        nr < 0x100,
        size < 0x4000,
    ensures
        r == request_number(dir as int, ty as int, nr as int, size as int),
{
    assert((dir << 30) | (size << 16) | (ty << 8) | nr == dir * 0x4000_0000 + size * 0x1_0000 + ty
        * 0x100 + nr) by (bit_vector)
        requires
            dir < 4,
            ty < 0x100,
            nr < 0x100,
            size < 0x4000,
    ;
    ((dir << 30) | (size << 16) | (ty << 8) | nr) as u64
}

/// The requests on behalf of one virtio device.
#[derive(Clone, Copy, Debug, PartialEq, Eq, Structural)]
pub enum VmIoctl {
    IoEventFd,
    IrqFd,
    WaitForEvent,
    SetDeviceFeatures,
    SetQueueNumMax,
    SetDeviceConfigData,
    GetDriverConfigData,
    GetQueueInfo,
    GetDriverFeatures,
    AckDriverOk,
    AckReset,
    SetInputDeviceConfig,
    SetInputDeviceData,
}

/// The requests on behalf of the virtual machine.
#[derive(Clone, Copy, Debug, PartialEq, Eq, Structural)]
pub enum VmCommand {
    CreateVm,
    CreateVcpu,
    SetFwName,
    GetVcpuCount,
    GetMemCount,
    GetMemRegion,
    GetSharedMemorySize,
    VcpuRun,
}

/// The direction, the index and the size of the argument of a device request
/// to the current driver. The sizes are those of a machine with 64-bit
/// pointers.
pub open spec fn device_request(ioc: VmIoctl) -> (int, int, int) {
    match ioc {
        VmIoctl::IoEventFd => (1, 0x62, 16),
        VmIoctl::IrqFd => (1, 0x63, 16),
        VmIoctl::WaitForEvent => (3, 0x64, 16),
        VmIoctl::SetDeviceFeatures => (1, 0x65, 16),
        VmIoctl::SetQueueNumMax => (1, 0x66, 16),
        VmIoctl::SetDeviceConfigData => (1, 0x67, 16),
        VmIoctl::GetDriverConfigData => (3, 0x68, 16),
        VmIoctl::GetQueueInfo => (3, 0x69, 40),
        VmIoctl::GetDriverFeatures => (3, 0x6a, 16),
        VmIoctl::AckDriverOk => (3, 0x6b, 4),
        VmIoctl::AckReset => (1, 0x6d, 8),
        VmIoctl::SetInputDeviceConfig => (1, 0x6e, 32),
        VmIoctl::SetInputDeviceData => (1, 0x6f, 140),
    }
}

/// Whether the driver of this version knows the request. Only versions 1 and 2
/// exist, and version 1 knows nothing of input devices.
pub open spec fn supported(ioc: VmIoctl, version: u8) -> bool {
    version == 2 || (version == 1 && !(ioc is SetInputDeviceConfig) && !(
    ioc is SetInputDeviceData))
}

/// The number of a device request. Version 1 has its own type, and counts the
/// same requests from 1 where version 2 counts them from 0x61.
pub open spec fn command(ioc: VmIoctl, version: u8) -> int {
    let (dir, nr, size) = device_request(ioc);
    if version == 2 {
        request_number(dir, 0xB2, nr, size)
    } else {
        request_number(dir, 0xBC, nr - 0x60, size)
    }
}

/// The direction, the index and the size of the argument of a request on
/// behalf of the virtual machine.
pub open spec fn machine_request(cmd: VmCommand) -> (int, int, int) {
    match cmd {
        VmCommand::CreateVm => (0, 0x01, 0),
        VmCommand::CreateVcpu => (0, 0x40, 0),
        VmCommand::SetFwName => (1, 0x41, 16),
        VmCommand::GetVcpuCount => (0, 0x43, 0),
        VmCommand::GetMemCount => (0, 0x44, 0),
        VmCommand::GetMemRegion => (3, 0x45, 32),
        VmCommand::GetSharedMemorySize => (2, 0x61, 8),
        VmCommand::VcpuRun => (0, 0x80, 0),
    }
}

/// The number of a request on behalf of the virtual machine.
pub open spec fn machine_command(cmd: VmCommand) -> int {
    let (dir, nr, size) = machine_request(cmd);
    request_number(dir, 0xB2, nr, size)
}

/// Two device requests have the same number only if they are the same request
/// to the same version of the driver.
pub proof fn lemma_commands_are_distinct(a: VmIoctl, va: u8, b: VmIoctl, vb: u8)
    requires
        supported(a, va),
        supported(b, vb),
        command(a, va) == command(b, vb),
    ensures
        a == b,
        va == vb,
{
}

/// No device request has the number of a request on behalf of the machine, and
/// no two of the latter share theirs.
pub proof fn lemma_machine_commands_are_distinct(
    a: VmCommand,
    b: VmCommand,
    ioc: VmIoctl,
    version: u8,
)
    requires
        supported(ioc, version),
    ensures
        machine_command(a) != command(ioc, version),
        machine_command(a) == machine_command(b) ==> a == b,
{
}

/// The two versions of the driver number their requests alike: the earlier one
/// has another type, and starts to count at another index.
pub proof fn lemma_versions_number_alike(ioc: VmIoctl)
    requires
        supported(ioc, 1),
    ensures
        command(ioc, 1) == command(ioc, 2) + (0xBC - 0xB2) * 0x100 - 0x60,
        command(ioc, 2) / 0x100 % 0x100 == 0xB2,
        command(ioc, 1) / 0x100 % 0x100 == 0xBC,
{
    let (dir, nr, size) = device_request(ioc);
    let high = dir * 0x40_0000 + size * 0x100;
    assert(command(ioc, 2) == high * 0x100 + 0xB2 * 0x100 + nr);
    assert(command(ioc, 1) == high * 0x100 + 0xBC * 0x100 + nr - 0x60);
    assert(command(ioc, 2) / 0x100 == high + 0xB2);
    assert(command(ioc, 1) / 0x100 == high + 0xBC);
}

/// A request states what it transfers and which way: its number holds the size
/// of its argument and the direction, which is both ways exactly for what the
/// driver fills in.
pub proof fn lemma_requests_state_their_argument(ioc: VmIoctl)
    ensures
        command(ioc, 2) / 0x1_0000 % 0x4000 == match ioc {
            VmIoctl::GetQueueInfo => 40int,
            VmIoctl::AckDriverOk => 4,
            VmIoctl::AckReset => 8,
            VmIoctl::SetInputDeviceConfig => 32,
            VmIoctl::SetInputDeviceData => 140,
            _ => 16,
        },
        command(ioc, 2) / 0x4000_0000 == if ioc is WaitForEvent || ioc is GetDriverConfigData
            || ioc is GetQueueInfo || ioc is GetDriverFeatures || ioc is AckDriverOk {
            3int
        } else {
            1
        },
        command(ioc, 2) % 0x100 == match ioc {
            VmIoctl::IoEventFd => 0x62int,
            VmIoctl::IrqFd => 0x63,
            VmIoctl::WaitForEvent => 0x64,
            VmIoctl::SetDeviceFeatures => 0x65,
            VmIoctl::SetQueueNumMax => 0x66,
            VmIoctl::SetDeviceConfigData => 0x67,
            VmIoctl::GetDriverConfigData => 0x68,
            VmIoctl::GetQueueInfo => 0x69,
            VmIoctl::GetDriverFeatures => 0x6a,
            VmIoctl::AckDriverOk => 0x6b,
            VmIoctl::AckReset => 0x6d,
            VmIoctl::SetInputDeviceConfig => 0x6e,
            VmIoctl::SetInputDeviceData => 0x6f,
        },
{
}

/// Only the requests of input devices are missing from the earlier driver, and
/// no other driver takes any request.
pub proof fn lemma_what_drivers_support(ioc: VmIoctl, version: u8)
    ensures
        supported(ioc, 2),
        supported(ioc, 1) <==> ioc != VmIoctl::SetInputDeviceConfig && ioc
            != VmIoctl::SetInputDeviceData,
        supported(ioc, version) ==> version == 1 || version == 2,
{
}

/// The requests on behalf of the virtual machine have the type of the current
/// driver, and their own indices.
pub proof fn lemma_machine_requests_state_their_argument(cmd: VmCommand)
    ensures
        machine_command(cmd) == match cmd {
            VmCommand::CreateVm => 0xB201int,
            VmCommand::CreateVcpu => 0xB240,
            VmCommand::SetFwName => 0x4010_B241,
            VmCommand::GetVcpuCount => 0xB243,
            VmCommand::GetMemCount => 0xB244,
            VmCommand::GetMemRegion => 0xC020_B245,
            VmCommand::GetSharedMemorySize => 0x8008_B261,
            VmCommand::VcpuRun => 0xB280,
        },
{
}

/// The number of a device request to the driver of the given version.
pub fn to_cmd(ioc: VmIoctl, version: u8) -> (r: Result<u64, BackendError>)
    ensures
        match r {
            Ok(cmd) => supported(ioc, version) && cmd == command(ioc, version),
            Err(e) => !supported(ioc, version) && e@ == error::Failure::Plain(
                if version == 1 {
                    "Unsupported cmd"@
                } else {
                    "Unsupported driver variant."@
                },
            ),
        },
{
    let (dir, nr, size): (u32, u32, u32) = match ioc {
        VmIoctl::IoEventFd => (DIR_WRITE, 0x62, 16),
        VmIoctl::IrqFd => (DIR_WRITE, 0x63, 16),
        VmIoctl::WaitForEvent => (DIR_BOTH, 0x64, 16),
        VmIoctl::SetDeviceFeatures => (DIR_WRITE, 0x65, 16),
        VmIoctl::SetQueueNumMax => (DIR_WRITE, 0x66, 16),
        VmIoctl::SetDeviceConfigData => (DIR_WRITE, 0x67, 16),
        VmIoctl::GetDriverConfigData => (DIR_BOTH, 0x68, 16),
        VmIoctl::GetQueueInfo => (DIR_BOTH, 0x69, 40),
        VmIoctl::GetDriverFeatures => (DIR_BOTH, 0x6a, 16),
        VmIoctl::AckDriverOk => (DIR_BOTH, 0x6b, 4),
        VmIoctl::AckReset => (DIR_WRITE, 0x6d, 8),
        VmIoctl::SetInputDeviceConfig => (DIR_WRITE, 0x6e, 32),
        VmIoctl::SetInputDeviceData => (DIR_WRITE, 0x6f, 140),
    };
    match version {
        2 => Ok(encode(dir, GH_IOCTL_TYPE_V2, nr, size)),
        1 => match ioc {
            VmIoctl::SetInputDeviceConfig | VmIoctl::SetInputDeviceData => Err(
                error::plain("Unsupported cmd"),
            ),
            _ => Ok(encode(dir, GH_IOCTL_TYPE_V1, nr - 0x60, size)),
        },
        _ => Err(error::plain("Unsupported driver variant.")),
    }
}

/// The number of a device request that the driver knows.
pub(crate) fn known_cmd(ioc: VmIoctl, version: u8) -> (cmd: u64)
    requires
        supported(ioc, version),
    ensures
        cmd == command(ioc, version),
{
    match to_cmd(ioc, version) {
        Ok(cmd) => cmd,
        Err(_) => 0,
    }
}

/// The number of a request on behalf of the virtual machine.
pub fn machine_cmd(cmd: VmCommand) -> (r: u64)
    ensures
        r == machine_command(cmd),
{
    let (dir, nr, size): (u32, u32, u32) = match cmd {
        VmCommand::CreateVm => (DIR_NONE, 0x01, 0),
        VmCommand::CreateVcpu => (DIR_NONE, 0x40, 0),
        VmCommand::SetFwName => (DIR_WRITE, 0x41, 16),
        VmCommand::GetVcpuCount => (DIR_NONE, 0x43, 0),
        VmCommand::GetMemCount => (DIR_NONE, 0x44, 0),
        VmCommand::GetMemRegion => (DIR_BOTH, 0x45, 32),
        VmCommand::GetSharedMemorySize => (DIR_READ, 0x61, 8),
        VmCommand::VcpuRun => (DIR_NONE, 0x80, 0),
    };
    encode(dir, GH_IOCTL_TYPE_V2, nr, size)
}

} // verus!
