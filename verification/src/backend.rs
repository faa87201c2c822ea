//! The backend: what the command line asks for, and the devices of the virtual
//! machine.
use vstd::prelude::*;

use crate::argument;
use crate::argument::Error;
use crate::config;
use crate::config::{BackendConfig, LevelFilter};
use crate::console;
use crate::console::VirtioConsoleDevices;
use crate::creation;
use crate::creation::{Creation, VhostUserKind};
use crate::device;
use crate::device::Common;
use crate::disk;
use crate::disk::VirtioDiskDevices;
use crate::fs;
use crate::fs::VuVirtioFsDevices;
use crate::generic;
use crate::generic::VuVirtioGenericDevices;
use crate::hab;
use crate::hab::VirtioHabDevices;
use crate::input;
use crate::input::VirtioInputDevices;
use crate::input_config::InputSelectors;
use crate::launch;
use crate::memory::MemoryRegion;
use crate::mmio;
use crate::mmio::MmioDevice;
use crate::net;
use crate::net::VirtioNetDevices;
use crate::scmi;
use crate::scmi::ScmiDevices;
use crate::text;
use crate::vcpu;
use crate::vcpu::Vcpus;
use crate::vhost_user;
use crate::vhost_user::{
    SocketDevice, VirtioEAVBDevices, VuGPDevices, VuScmiDevices, VuVirtioGpioDevices,
    VuVirtioI2cDevices, VuVirtioSsrDevices, VuVirtiofrpcDevices,
};
use crate::vsock;
use crate::vsock::VirtioSockDevices;

verus! {

/// The kinds of devices.
#[derive(Clone, Copy, Debug, PartialEq, Eq, Structural)]
pub enum DeviceKind {
    Disk,
    Net,
    Hab,
    Input,
    Scmi,
    Console,
    VuScmi,
    I2c,
    Fs,
    Gp,
    Frpc,
    Ssr,
    Gpio,
    Vsock,
    Generic,
    Eavb,
    Vcpus,
}

/// The backend.
#[derive(Debug)]
pub struct VMBackend {
    pub cfg: BackendConfig,
    pub vcpus: Vcpus,
    pub vdisk_devices: VirtioDiskDevices,
    pub vnet_devices: VirtioNetDevices,
    pub vugp_devices: VuGPDevices,
    pub scmi_devices: ScmiDevices,
    pub vuscmi_devices: VuScmiDevices,
    pub vuvirtio_i2c_devices: VuVirtioI2cDevices,
    pub vuvirtio_fs_devices: VuVirtioFsDevices,
    pub vuvirtio_frpc_devices: VuVirtiofrpcDevices,
    pub vuvirtio_ssr_devices: VuVirtioSsrDevices,
    pub vuvirtio_gpio_devices: VuVirtioGpioDevices,
    pub vhab_devices: VirtioHabDevices,
    pub vinput_devices: VirtioInputDevices,
    pub vconsole_devices: VirtioConsoleDevices,
    pub vsock_devices: VirtioSockDevices,
    pub veavb_devices: VirtioEAVBDevices,
    pub vugeneric_devices: VuVirtioGenericDevices,
}

/// `VMBackend` with its texts and lists as sequences.
pub struct Backend {
    pub cfg: config::Config,
    pub vcpus: Seq<vcpu::Vcpu>,
    pub vcpu_count: u16,
    pub vdisk_devices: Seq<disk::Disk>,
    pub vnet_devices: net::Nets,
    pub vugp_devices: Seq<SocketDevice>,
    pub scmi_devices: Seq<scmi::Scmi>,
    pub vuscmi_devices: Seq<SocketDevice>,
    pub vuvirtio_i2c_devices: Seq<SocketDevice>,
    pub vuvirtio_fs_devices: Seq<fs::Fs>,
    pub vuvirtio_frpc_devices: Seq<SocketDevice>,
    pub vuvirtio_ssr_devices: Seq<SocketDevice>,
    pub vuvirtio_gpio_devices: Seq<SocketDevice>,
    pub vhab_devices: Seq<hab::Hab>,
    pub vinput_devices: Seq<input::Input>,
    pub vconsole_devices: Seq<console::Console>,
    pub vsock_devices: Seq<vsock::Sock>,
    pub veavb_devices: Seq<SocketDevice>,
    pub vugeneric_devices: Seq<generic::Generic>,
}

impl View for VMBackend {
    type V = Backend;

    open spec fn view(&self) -> Backend {
        Backend {
            cfg: self.cfg@,
            vcpus: self.vcpus.vcpus@,
            vcpu_count: self.vcpus.vcpu_count,
            vdisk_devices: self.vdisk_devices@,
            vnet_devices: self.vnet_devices@,
            vugp_devices: self.vugp_devices@,
            scmi_devices: self.scmi_devices@,
            vuscmi_devices: self.vuscmi_devices@,
            vuvirtio_i2c_devices: self.vuvirtio_i2c_devices@,
            vuvirtio_fs_devices: self.vuvirtio_fs_devices@,
            vuvirtio_frpc_devices: self.vuvirtio_frpc_devices@,
            vuvirtio_ssr_devices: self.vuvirtio_ssr_devices@,
            vuvirtio_gpio_devices: self.vuvirtio_gpio_devices@,
            vhab_devices: self.vhab_devices@,
            vinput_devices: self.vinput_devices@,
            vconsole_devices: self.vconsole_devices@,
            vsock_devices: self.vsock_devices@,
            veavb_devices: self.veavb_devices@,
            vugeneric_devices: self.vugeneric_devices@,
        }
    }
}

/// The backend before any argument was read.
pub open spec fn default_backend() -> Backend {
    Backend {
        cfg: config::default_config(),
        vcpus: Seq::empty(),
        vcpu_count: 1,
        vdisk_devices: Seq::empty(),
        vnet_devices: net::Nets {
            nets: Seq::empty(),
            network_dev: false,
            device_path: "/dev/vhost-net"@,
            vhost_net: true,
        },
        vugp_devices: Seq::empty(),
        scmi_devices: Seq::empty(),
        vuscmi_devices: Seq::empty(),
        vuvirtio_i2c_devices: Seq::empty(),
        vuvirtio_fs_devices: Seq::empty(),
        vuvirtio_frpc_devices: Seq::empty(),
        vuvirtio_ssr_devices: Seq::empty(),
        vuvirtio_gpio_devices: Seq::empty(),
        vhab_devices: Seq::empty(),
        vinput_devices: Seq::empty(),
        vconsole_devices: Seq::empty(),
        vsock_devices: Seq::empty(),
        veavb_devices: Seq::empty(),
        vugeneric_devices: Seq::empty(),
    }
}

/// Whether an argument has a value.
#[derive(Clone, Copy, Debug, PartialEq, Eq, Structural)]
pub enum ArgumentKind {
    Flag,
    Value,
}

/// The names of the arguments that have a value.
pub open spec fn value_names() -> Seq<Seq<char>> {
    seq![
        "vm"@,
        "log"@,
        "disk"@,
        "net"@,
        "vhost-user-gp"@,
        "scmi"@,
        "vhost-user-scmi"@,
        "vhost-user-i2c"@,
        "vhost-user-fs"@,
        "vhost-user-frpc"@,
        "vhost-user-ssr"@,
        "vhost-user-gpio"@,
        "vhost-user-hab"@,
        "input"@,
        "console"@,
        "vsock"@,
        "vhost-user-eavb"@,
        "vhost-user-generic"@,
    ]
}

/// The kind of the argument with this name, if there is one.
pub open spec fn argument_kind(name: Seq<char>) -> Option<ArgumentKind> {
    if name == "sandbox"@ || name == "use-non-protected-virtio"@ {
        Some(ArgumentKind::Flag)
    } else if value_names().contains(name) {
        Some(ArgumentKind::Value)
    } else {
        None
    }
}

/// The kind of the argument with this name, if there is one.
pub fn kind_of_argument(name: &str) -> (r: Option<ArgumentKind>)
    ensures
        r == argument_kind(name@),
{
    if text::same(name, "sandbox") || text::same(name, "use-non-protected-virtio") {
        return Some(ArgumentKind::Flag);
    }
    let names = [
        "vm",
        "log",
        "disk",
        "net",
        "vhost-user-gp",
        "scmi",
        "vhost-user-scmi",
        "vhost-user-i2c",
        "vhost-user-fs",
        "vhost-user-frpc",
        "vhost-user-ssr",
        "vhost-user-gpio",
        "vhost-user-hab",
        "input",
        "console",
        "vsock",
        "vhost-user-eavb",
        "vhost-user-generic",
    ];
    let ghost all = value_names();
    let mut i: usize = 0;
    while i < 18
        invariant
            i <= 18,
            all == value_names(),
            names@.len() == 18,
            all.len() == 18,
            forall|j: int| 0 <= j < 18 ==> (#[trigger] names@[j])@ == all[j],
            forall|j: int| 0 <= j < i ==> #[trigger] all[j] != name@,
            name@ != "sandbox"@ && name@ != "use-non-protected-virtio"@,
        decreases 18 - i,
    {
        if text::same(name, names[i]) {
            assert(all[i as int] == name@);
            return Some(ArgumentKind::Value);
        }
        i += 1;
    }
    None
}

/// What the host says of the files and addresses that an argument names.
#[derive(Debug)]
pub struct HostFacts {
    /// Whether the path exists.
    pub exists: bool,
    /// The current directory.
    pub current_dir: String,
    /// Whether the file of a console can be written.
    pub writable: bool,
    /// The hardware addresses.
    pub macs: Vec<Option<[u8; 6]>>,
}

/// `HostFacts` with its texts and lists as sequences.
pub struct Facts {
    pub exists: bool,
    pub current_dir: Seq<char>,
    pub writable: bool,
    pub macs: Seq<Option<Seq<u8>>>,
}

impl View for HostFacts {
    type V = Facts;

    open spec fn view(&self) -> Facts {
        Facts {
            exists: self.exists,
            current_dir: self.current_dir@,
            writable: self.writable,
            macs: net::addresses(self.macs@),
        }
    }
}

/// What the host has to be asked before an argument can be taken.
#[derive(Clone, Copy, Debug, PartialEq, Eq, Structural)]
pub enum HostQuestion {
    /// Nothing.
    Nothing,
    /// Whether the path exists.
    Path,
    /// Whether the socket exists, or comes to exist soon.
    Socket,
    /// Whether the file of a console can be written, and the current directory.
    ConsoleFile,
    /// The hardware addresses.
    Macs,
}

/// What the host has to be asked before the argument with this name can be
/// taken.
pub open spec fn host_question(name: Seq<char>) -> HostQuestion {
    if name == "vhost-user-hab"@ || name == "vhost-user-i2c"@ || name == "vhost-user-gpio"@ || name
        == "vhost-user-ssr"@ {
        HostQuestion::Socket
    } else if name == "disk"@ || name == "input"@ || name == "vhost-user-gp"@ || name
        == "vhost-user-scmi"@ || name == "vhost-user-fs"@ || name == "vhost-user-frpc"@ || name
        == "vhost-user-eavb"@ || name == "vhost-user-generic"@ {
        HostQuestion::Path
    } else if name == "console"@ {
        HostQuestion::ConsoleFile
    } else if name == "net"@ {
        HostQuestion::Macs
    } else {
        HostQuestion::Nothing
    }
}

/// What the host has to be asked before the argument with this name can be
/// taken.
pub fn question_for(name: &str) -> (r: HostQuestion)
    ensures
        r == host_question(name@),
{
    if text::same(name, "vhost-user-hab") || text::same(name, "vhost-user-i2c") || text::same(
        name,
        "vhost-user-gpio",
    ) || text::same(name, "vhost-user-ssr") {
        HostQuestion::Socket
    } else if text::same(name, "disk") || text::same(name, "input") || text::same(
        name,
        "vhost-user-gp",
    ) || text::same(name, "vhost-user-scmi") || text::same(name, "vhost-user-fs") || text::same(
        name,
        "vhost-user-frpc",
    ) || text::same(name, "vhost-user-eavb") || text::same(name, "vhost-user-generic") {
        HostQuestion::Path
    } else if text::same(name, "console") {
        HostQuestion::ConsoleFile
    } else if text::same(name, "net") {
        HostQuestion::Macs
    } else {
        HostQuestion::Nothing
    }
}

/// Whether two hosts give the same answer to the question.
pub open spec fn same_answer(q: HostQuestion, a: Facts, b: Facts) -> bool {
    match q {
        HostQuestion::Nothing => true,
        HostQuestion::Path => a.exists == b.exists,
        HostQuestion::Socket => a.exists == b.exists,
        HostQuestion::ConsoleFile => a.current_dir == b.current_dir && a.writable == b.writable,
        HostQuestion::Macs => a.macs == b.macs,
    }
}

/// A list after a device was asked for.
pub open spec fn added<D>(list: Seq<D>, s: Result<D, argument::Refusal>) -> Seq<D> {
    match s {
        Ok(device) => list.push(device),
        Err(_) => list,
    }
}

/// What is said of a device that was asked for.
pub open spec fn verdict<D>(s: Result<D, argument::Refusal>) -> Result<(), argument::Refusal> {
    match s {
        Ok(_) => Ok(()),
        Err(e) => Err(e),
    }
}

/// The backend when a device was asked for.
pub open spec fn with_device(b: Backend) -> Backend {
    Backend { cfg: config::Config { bkend_dev_exist: true, ..b.cfg }, ..b }
}

/// The backend after the argument `name`, which asks for a device, and what is
/// said of the argument.
pub open spec fn after_device(
    b: Backend,
    name: Seq<char>,
    value: Seq<char>,
    facts: Facts,
) -> (Backend, Result<(), argument::Refusal>) {
    if name == "disk"@ {
        let s = disk::asked(value, facts.exists);
        let vdisk_devices = added(b.vdisk_devices, s);
        (Backend { vdisk_devices, ..b }, verdict(s))
    } else if name == "net"@ {
        let s = net::asked(value, facts.macs);
        let vnet_devices = net::Nets {
            nets: added(b.vnet_devices.nets, s),
            network_dev: b.vnet_devices.network_dev || argument::head(value) == "true"@,
            ..b.vnet_devices
        };
        (Backend { vnet_devices, ..b }, verdict(s))
    } else if name == "vhost-user-gp"@ {
        let s = vhost_user::asked(VhostUserKind::Gp, value, facts.exists);
        let vugp_devices = added(b.vugp_devices, s);
        (Backend { vugp_devices, ..b }, verdict(s))
    } else if name == "scmi"@ {
        let s = scmi::asked(value);
        let scmi_devices = added(b.scmi_devices, s);
        (Backend { scmi_devices, ..b }, verdict(s))
    } else if name == "vhost-user-scmi"@ {
        let s = vhost_user::asked(VhostUserKind::Scmi, value, facts.exists);
        let vuscmi_devices = added(b.vuscmi_devices, s);
        (Backend { vuscmi_devices, ..b }, verdict(s))
    } else if name == "vhost-user-i2c"@ {
        let s = vhost_user::asked(VhostUserKind::I2c, value, facts.exists);
        let vuvirtio_i2c_devices = added(b.vuvirtio_i2c_devices, s);
        (Backend { vuvirtio_i2c_devices, ..b }, verdict(s))
    } else if name == "vhost-user-fs"@ {
        let s = fs::asked(value, facts.exists);
        let vuvirtio_fs_devices = added(b.vuvirtio_fs_devices, s);
        (Backend { vuvirtio_fs_devices, ..b }, verdict(s))
    } else if name == "vhost-user-frpc"@ {
        let s = vhost_user::asked(VhostUserKind::Frpc, value, facts.exists);
        let vuvirtio_frpc_devices = added(b.vuvirtio_frpc_devices, s);
        (Backend { vuvirtio_frpc_devices, ..b }, verdict(s))
    } else if name == "vhost-user-ssr"@ {
        let s = vhost_user::asked(VhostUserKind::Ssr, value, facts.exists);
        let vuvirtio_ssr_devices = added(b.vuvirtio_ssr_devices, s);
        (Backend { vuvirtio_ssr_devices, ..b }, verdict(s))
    } else if name == "vhost-user-gpio"@ {
        let s = vhost_user::asked(VhostUserKind::Gpio, value, facts.exists);
        let vuvirtio_gpio_devices = added(b.vuvirtio_gpio_devices, s);
        (Backend { vuvirtio_gpio_devices, ..b }, verdict(s))
    } else if name == "vhost-user-hab"@ {
        let s = hab::asked(value, facts.exists);
        let vhab_devices = added(b.vhab_devices, s);
        (Backend { vhab_devices, ..b }, verdict(s))
    } else if name == "input"@ {
        let s = input::asked(value, facts.exists);
        let vinput_devices = match s {
            Ok(Some(device)) => b.vinput_devices.push(device),
            _ => b.vinput_devices,
        };
        (Backend { vinput_devices, ..b }, verdict(s))
    } else if name == "console"@ {
        let s = console::asked(value, facts.current_dir, facts.writable);
        let vconsole_devices = added(b.vconsole_devices, s);
        (Backend { vconsole_devices, ..b }, verdict(s))
    } else if name == "vsock"@ {
        let s = vsock::asked(value);
        let vsock_devices = added(b.vsock_devices, s);
        (Backend { vsock_devices, ..b }, verdict(s))
    } else if name == "vhost-user-eavb"@ {
        let s = vhost_user::asked(VhostUserKind::Eavb, value, facts.exists);
        let veavb_devices = added(b.veavb_devices, s);
        (Backend { veavb_devices, ..b }, verdict(s))
    } else if name == "vhost-user-generic"@ {
        let s = generic::asked(value, facts.exists);
        let vugeneric_devices = added(b.vugeneric_devices, s);
        (Backend { vugeneric_devices, ..b }, verdict(s))
    } else {
        (b, Ok(()))
    }
}

/// The backend after the argument `name`, and what is said of the argument.
///
/// An argument for a device is noted even if the device is then refused.
pub open spec fn after_argument(
    b: Backend,
    name: Seq<char>,
    value: Seq<char>,
    facts: Facts,
) -> (Backend, Result<(), argument::Refusal>) {
    if name == "sandbox"@ {
        (Backend { cfg: config::Config { sandbox: true, ..b.cfg }, ..b }, Ok(()))
    } else if name == "use-non-protected-virtio"@ {
        (Backend { cfg: config::Config { non_protected_virtio: true, ..b.cfg }, ..b }, Ok(()))
    } else if name == "vm"@ {
        (Backend { cfg: config::Config { vm: Some(value), ..b.cfg }, ..b }, Ok(()))
    } else if name == "log"@ {
        let (cfg, said) = config::log_options(b.cfg, text::pieces(value, ','));
        (Backend { cfg, ..b }, said)
    } else {
        after_device(with_device(b), name, value, facts)
    }
}

/// Nothing but the answer to its question decides what becomes of an argument.
#[verifier::rlimit(60)]
pub proof fn lemma_only_the_answer_matters(
    b: Backend,
    name: Seq<char>,
    value: Seq<char>,
    x: Facts,
    y: Facts,
)
    requires
        same_answer(host_question(name), x, y),
    ensures
        after_argument(b, name, value, x) == after_argument(b, name, value, y),
{
    lemma_questions();
}

/// The names of arguments with different questions are different.
proof fn lemma_questions()
    ensures
        host_question("console"@) is ConsoleFile,
        host_question("net"@) is Macs,
{
    reveal_strlit("console");
    reveal_strlit("net");
    reveal_strlit("disk");
    reveal_strlit("input");
    reveal_strlit("vhost-user-hab");
    reveal_strlit("vhost-user-i2c");
    reveal_strlit("vhost-user-gpio");
    reveal_strlit("vhost-user-ssr");
    reveal_strlit("vhost-user-gp");
    reveal_strlit("vhost-user-scmi");
    reveal_strlit("vhost-user-fs");
    reveal_strlit("vhost-user-frpc");
    reveal_strlit("vhost-user-eavb");
    reveal_strlit("vhost-user-generic");
    assert("console"@.len() == 7 && "net"@.len() == 3);
    assert("disk"@.len() == 4 && "input"@.len() == 5);
    assert("vhost-user-hab"@.len() == 14 && "vhost-user-i2c"@.len() == 14);
    assert("vhost-user-gpio"@.len() == 15 && "vhost-user-ssr"@.len() == 14);
    assert("vhost-user-gp"@.len() == 13 && "vhost-user-scmi"@.len() == 15);
    assert("vhost-user-fs"@.len() == 13 && "vhost-user-frpc"@.len() == 15);
    assert("vhost-user-eavb"@.len() == 15 && "vhost-user-generic"@.len() == 18);
}

/// How many devices of this kind were asked for. The processors are not asked
/// for.
pub open spec fn device_count(b: Backend, kind: DeviceKind) -> nat {
    match kind {
        DeviceKind::Disk => b.vdisk_devices.len(),
        DeviceKind::Net => b.vnet_devices.nets.len(),
        DeviceKind::Gp => b.vugp_devices.len(),
        DeviceKind::Scmi => b.scmi_devices.len(),
        DeviceKind::VuScmi => b.vuscmi_devices.len(),
        DeviceKind::I2c => b.vuvirtio_i2c_devices.len(),
        DeviceKind::Fs => b.vuvirtio_fs_devices.len(),
        DeviceKind::Frpc => b.vuvirtio_frpc_devices.len(),
        DeviceKind::Ssr => b.vuvirtio_ssr_devices.len(),
        DeviceKind::Gpio => b.vuvirtio_gpio_devices.len(),
        DeviceKind::Hab => b.vhab_devices.len(),
        DeviceKind::Input => b.vinput_devices.len(),
        DeviceKind::Console => b.vconsole_devices.len(),
        DeviceKind::Vsock => b.vsock_devices.len(),
        DeviceKind::Eavb => b.veavb_devices.len(),
        DeviceKind::Generic => b.vugeneric_devices.len(),
        DeviceKind::Vcpus => 0,
    }
}

/// Whether the backend knows that devices were asked for.
pub open spec fn knows_its_devices(b: Backend) -> bool {
    forall|kind: DeviceKind| #[trigger] device_count(b, kind) > 0 ==> b.cfg.bkend_dev_exist
}

/// The backend knows of its devices from the start, and every argument keeps
/// it so.
pub proof fn lemma_backend_knows_its_devices(
    b: Backend,
    name: Seq<char>,
    value: Seq<char>,
    facts: Facts,
)
    ensures
        knows_its_devices(default_backend()),
        knows_its_devices(b) ==> knows_its_devices(after_argument(b, name, value, facts).0),
{
    if knows_its_devices(b) {
        let after = after_argument(b, name, value, facts).0;
        if !after.cfg.bkend_dev_exist {
            config::lemma_log_options_touch_the_log(b.cfg, text::pieces(value, ','));
            assert forall|kind: DeviceKind|
                #[trigger] device_count(after, kind) > 0 implies false by {
                assert(device_count(b, kind) == device_count(after, kind));
            }
        }
    }
}

/// An argument that is refused adds no device, and one that is accepted adds
/// at most one.
#[verifier::rlimit(60)]
pub proof fn lemma_at_most_one_device(
    b: Backend,
    name: Seq<char>,
    value: Seq<char>,
    facts: Facts,
    kind: DeviceKind,
)
    ensures
        ({
            let (after, said) = after_argument(b, name, value, facts);
            &&& device_count(b, kind) <= device_count(after, kind) <= device_count(b, kind) + 1
            &&& said is Err ==> device_count(after, kind) == device_count(b, kind)
        }),
{
    match kind {
        DeviceKind::Disk => {
            lemma_disk_list(b, name, value, facts);
        },
        DeviceKind::Net => {
            lemma_net_list(b, name, value, facts);
        },
        DeviceKind::Gp => {
            lemma_gp_list(b, name, value, facts);
        },
        DeviceKind::Scmi => {
            lemma_scmi_list(b, name, value, facts);
        },
        DeviceKind::VuScmi => {
            lemma_vuscmi_list(b, name, value, facts);
        },
        DeviceKind::I2c => {
            lemma_i2c_list(b, name, value, facts);
        },
        DeviceKind::Fs => {
            lemma_fs_list(b, name, value, facts);
        },
        DeviceKind::Frpc => {
            lemma_frpc_list(b, name, value, facts);
        },
        DeviceKind::Ssr => {
            lemma_ssr_list(b, name, value, facts);
        },
        DeviceKind::Gpio => {
            lemma_gpio_list(b, name, value, facts);
        },
        DeviceKind::Hab => {
            lemma_hab_list(b, name, value, facts);
        },
        DeviceKind::Input => {
            lemma_input_list(b, name, value, facts);
        },
        DeviceKind::Console => {
            lemma_console_list(b, name, value, facts);
        },
        DeviceKind::Vsock => {
            lemma_vsock_list(b, name, value, facts);
        },
        DeviceKind::Eavb => {
            lemma_eavb_list(b, name, value, facts);
        },
        DeviceKind::Generic => {
            lemma_generic_list(b, name, value, facts);
        },
        DeviceKind::Vcpus => {},
    }
}

/// The kind of device that the argument with this name asks for.
pub open spec fn kind_named(name: Seq<char>) -> Option<DeviceKind> {
    if name == "sandbox"@ || name == "use-non-protected-virtio"@ || name == "vm"@ || name
        == "log"@ {
        None
    } else if name == "disk"@ {
        Some(DeviceKind::Disk)
    } else if name == "net"@ {
        Some(DeviceKind::Net)
    } else if name == "vhost-user-gp"@ {
        Some(DeviceKind::Gp)
    } else if name == "scmi"@ {
        Some(DeviceKind::Scmi)
    } else if name == "vhost-user-scmi"@ {
        Some(DeviceKind::VuScmi)
    } else if name == "vhost-user-i2c"@ {
        Some(DeviceKind::I2c)
    } else if name == "vhost-user-fs"@ {
        Some(DeviceKind::Fs)
    } else if name == "vhost-user-frpc"@ {
        Some(DeviceKind::Frpc)
    } else if name == "vhost-user-ssr"@ {
        Some(DeviceKind::Ssr)
    } else if name == "vhost-user-gpio"@ {
        Some(DeviceKind::Gpio)
    } else if name == "vhost-user-hab"@ {
        Some(DeviceKind::Hab)
    } else if name == "input"@ {
        Some(DeviceKind::Input)
    } else if name == "console"@ {
        Some(DeviceKind::Console)
    } else if name == "vsock"@ {
        Some(DeviceKind::Vsock)
    } else if name == "vhost-user-eavb"@ {
        Some(DeviceKind::Eavb)
    } else if name == "vhost-user-generic"@ {
        Some(DeviceKind::Generic)
    } else {
        None
    }
}

/// A disk is put behind those that were asked for before, as its argument
/// asks for it, and no other argument touches them.
pub proof fn lemma_disk_list(b: Backend, name: Seq<char>, value: Seq<char>, facts: Facts)
    ensures
        ({
            let (after, said) = after_argument(b, name, value, facts);
            &&& kind_named(name) == Some(DeviceKind::Disk)
                ==> match disk::asked(value, facts.exists) {
                Ok(device) => said is Ok && after.vdisk_devices == b.vdisk_devices.push(device),
                Err(e) => said == Err::<(), argument::Refusal>(e)
                    && after.vdisk_devices == b.vdisk_devices,
            }
            &&& kind_named(name) != Some(DeviceKind::Disk)
                ==> after.vdisk_devices == b.vdisk_devices
        }),
{
}

/// An interface is put behind those that were asked for before, as its argument
/// asks for it, and no other argument touches them.
pub proof fn lemma_net_list(b: Backend, name: Seq<char>, value: Seq<char>, facts: Facts)
    ensures
        ({
            let (after, said) = after_argument(b, name, value, facts);
            &&& kind_named(name) == Some(DeviceKind::Net) ==> match net::asked(value, facts.macs) {
                Ok(device) => said is Ok
                    && after.vnet_devices.nets == b.vnet_devices.nets.push(device),
                Err(e) => said == Err::<(), argument::Refusal>(e)
                    && after.vnet_devices.nets == b.vnet_devices.nets,
            }
            &&& kind_named(name) != Some(DeviceKind::Net)
                ==> after.vnet_devices.nets == b.vnet_devices.nets
        }),
{
}

/// A gp device is put behind those that were asked for before, as its argument
/// asks for it, and no other argument touches them.
pub proof fn lemma_gp_list(b: Backend, name: Seq<char>, value: Seq<char>, facts: Facts)
    ensures
        ({
            let (after, said) = after_argument(b, name, value, facts);
            &&& kind_named(name) == Some(DeviceKind::Gp)
                ==> match vhost_user::asked(VhostUserKind::Gp, value, facts.exists) {
                Ok(device) => said is Ok && after.vugp_devices == b.vugp_devices.push(device),
                Err(e) => said == Err::<(), argument::Refusal>(e)
                    && after.vugp_devices == b.vugp_devices,
            }
            &&& kind_named(name) != Some(DeviceKind::Gp) ==> after.vugp_devices == b.vugp_devices
        }),
{
}

/// A scmi device is put behind those that were asked for before, as its argument
/// asks for it, and no other argument touches them.
pub proof fn lemma_scmi_list(b: Backend, name: Seq<char>, value: Seq<char>, facts: Facts)
    ensures
        ({
            let (after, said) = after_argument(b, name, value, facts);
            &&& kind_named(name) == Some(DeviceKind::Scmi) ==> match scmi::asked(value) {
                Ok(device) => said is Ok && after.scmi_devices == b.scmi_devices.push(device),
                Err(e) => said == Err::<(), argument::Refusal>(e)
                    && after.scmi_devices == b.scmi_devices,
            }
            &&& kind_named(name) != Some(DeviceKind::Scmi) ==> after.scmi_devices == b.scmi_devices
        }),
{
}

/// A scmi device behind a socket is put behind those that were asked for before, as its argument
/// asks for it, and no other argument touches them.
pub proof fn lemma_vuscmi_list(b: Backend, name: Seq<char>, value: Seq<char>, facts: Facts)
    ensures
        ({
            let (after, said) = after_argument(b, name, value, facts);
            &&& kind_named(name) == Some(DeviceKind::VuScmi)
                ==> match vhost_user::asked(VhostUserKind::Scmi, value, facts.exists) {
                Ok(device) => said is Ok && after.vuscmi_devices == b.vuscmi_devices.push(device),
                Err(e) => said == Err::<(), argument::Refusal>(e)
                    && after.vuscmi_devices == b.vuscmi_devices,
            }
            &&& kind_named(name) != Some(DeviceKind::VuScmi)
                ==> after.vuscmi_devices == b.vuscmi_devices
        }),
{
}

/// An i2c device is put behind those that were asked for before, as its argument
/// asks for it, and no other argument touches them.
pub proof fn lemma_i2c_list(b: Backend, name: Seq<char>, value: Seq<char>, facts: Facts)
    ensures
        ({
            let (after, said) = after_argument(b, name, value, facts);
            &&& kind_named(name) == Some(DeviceKind::I2c)
                ==> match vhost_user::asked(VhostUserKind::I2c, value, facts.exists) {
                Ok(device) => said is Ok
                    && after.vuvirtio_i2c_devices == b.vuvirtio_i2c_devices.push(device),
                Err(e) => said == Err::<(), argument::Refusal>(e)
                    && after.vuvirtio_i2c_devices == b.vuvirtio_i2c_devices,
            }
            &&& kind_named(name) != Some(DeviceKind::I2c)
                ==> after.vuvirtio_i2c_devices == b.vuvirtio_i2c_devices
        }),
{
}

/// A file system is put behind those that were asked for before, as its argument
/// asks for it, and no other argument touches them.
pub proof fn lemma_fs_list(b: Backend, name: Seq<char>, value: Seq<char>, facts: Facts)
    ensures
        ({
            let (after, said) = after_argument(b, name, value, facts);
            &&& kind_named(name) == Some(DeviceKind::Fs) ==> match fs::asked(value, facts.exists) {
                Ok(device) => said is Ok
                    && after.vuvirtio_fs_devices == b.vuvirtio_fs_devices.push(device),
                Err(e) => said == Err::<(), argument::Refusal>(e)
                    && after.vuvirtio_fs_devices == b.vuvirtio_fs_devices,
            }
            &&& kind_named(name) != Some(DeviceKind::Fs)
                ==> after.vuvirtio_fs_devices == b.vuvirtio_fs_devices
        }),
{
}

/// A frpc device is put behind those that were asked for before, as its argument
/// asks for it, and no other argument touches them.
pub proof fn lemma_frpc_list(b: Backend, name: Seq<char>, value: Seq<char>, facts: Facts)
    ensures
        ({
            let (after, said) = after_argument(b, name, value, facts);
            &&& kind_named(name) == Some(DeviceKind::Frpc)
                ==> match vhost_user::asked(VhostUserKind::Frpc, value, facts.exists) {
                Ok(device) => said is Ok
                    && after.vuvirtio_frpc_devices == b.vuvirtio_frpc_devices.push(device),
                Err(e) => said == Err::<(), argument::Refusal>(e)
                    && after.vuvirtio_frpc_devices == b.vuvirtio_frpc_devices,
            }
            &&& kind_named(name) != Some(DeviceKind::Frpc)
                ==> after.vuvirtio_frpc_devices == b.vuvirtio_frpc_devices
        }),
{
}

/// A ssr device is put behind those that were asked for before, as its argument
/// asks for it, and no other argument touches them.
pub proof fn lemma_ssr_list(b: Backend, name: Seq<char>, value: Seq<char>, facts: Facts)
    ensures
        ({
            let (after, said) = after_argument(b, name, value, facts);
            &&& kind_named(name) == Some(DeviceKind::Ssr)
                ==> match vhost_user::asked(VhostUserKind::Ssr, value, facts.exists) {
                Ok(device) => said is Ok
                    && after.vuvirtio_ssr_devices == b.vuvirtio_ssr_devices.push(device),
                Err(e) => said == Err::<(), argument::Refusal>(e)
                    && after.vuvirtio_ssr_devices == b.vuvirtio_ssr_devices,
            }
            &&& kind_named(name) != Some(DeviceKind::Ssr)
                ==> after.vuvirtio_ssr_devices == b.vuvirtio_ssr_devices
        }),
{
}

/// A gpio device is put behind those that were asked for before, as its argument
/// asks for it, and no other argument touches them.
pub proof fn lemma_gpio_list(b: Backend, name: Seq<char>, value: Seq<char>, facts: Facts)
    ensures
        ({
            let (after, said) = after_argument(b, name, value, facts);
            &&& kind_named(name) == Some(DeviceKind::Gpio)
                ==> match vhost_user::asked(VhostUserKind::Gpio, value, facts.exists) {
                Ok(device) => said is Ok
                    && after.vuvirtio_gpio_devices == b.vuvirtio_gpio_devices.push(device),
                Err(e) => said == Err::<(), argument::Refusal>(e)
                    && after.vuvirtio_gpio_devices == b.vuvirtio_gpio_devices,
            }
            &&& kind_named(name) != Some(DeviceKind::Gpio)
                ==> after.vuvirtio_gpio_devices == b.vuvirtio_gpio_devices
        }),
{
}

/// A channel is put behind those that were asked for before, as its argument
/// asks for it, and no other argument touches them.
pub proof fn lemma_hab_list(b: Backend, name: Seq<char>, value: Seq<char>, facts: Facts)
    ensures
        ({
            let (after, said) = after_argument(b, name, value, facts);
            &&& kind_named(name) == Some(DeviceKind::Hab)
                ==> match hab::asked(value, facts.exists) {
                Ok(device) => said is Ok && after.vhab_devices == b.vhab_devices.push(device),
                Err(e) => said == Err::<(), argument::Refusal>(e)
                    && after.vhab_devices == b.vhab_devices,
            }
            &&& kind_named(name) != Some(DeviceKind::Hab) ==> after.vhab_devices == b.vhab_devices
        }),
{
}

/// An input device is put behind those that were asked for before, as its argument
/// asks for it, and no other argument touches them.
pub proof fn lemma_input_list(b: Backend, name: Seq<char>, value: Seq<char>, facts: Facts)
    ensures
        ({
            let (after, said) = after_argument(b, name, value, facts);
            &&& kind_named(name) == Some(DeviceKind::Input)
                ==> match input::asked(value, facts.exists) {
                Ok(Some(device)) => said is Ok && after.vinput_devices == b.vinput_devices.push(
                    device,
                ),
                Ok(None) => said is Ok && after.vinput_devices == b.vinput_devices,
                Err(e) => said == Err::<(), argument::Refusal>(e) && after.vinput_devices
                    == b.vinput_devices,
            }
            &&& kind_named(name) != Some(DeviceKind::Input)
                ==> after.vinput_devices == b.vinput_devices
        }),
{
}

/// A console is put behind those that were asked for before, as its argument
/// asks for it, and no other argument touches them.
pub proof fn lemma_console_list(b: Backend, name: Seq<char>, value: Seq<char>, facts: Facts)
    ensures
        ({
            let (after, said) = after_argument(b, name, value, facts);
            &&& kind_named(name) == Some(DeviceKind::Console)
                ==> match console::asked(value, facts.current_dir, facts.writable) {
                Ok(device) => said is Ok
                    && after.vconsole_devices == b.vconsole_devices.push(device),
                Err(e) => said == Err::<(), argument::Refusal>(e)
                    && after.vconsole_devices == b.vconsole_devices,
            }
            &&& kind_named(name) != Some(DeviceKind::Console)
                ==> after.vconsole_devices == b.vconsole_devices
        }),
{
}

/// A socket to the host is put behind those that were asked for before, as its argument
/// asks for it, and no other argument touches them.
pub proof fn lemma_vsock_list(b: Backend, name: Seq<char>, value: Seq<char>, facts: Facts)
    ensures
        ({
            let (after, said) = after_argument(b, name, value, facts);
            &&& kind_named(name) == Some(DeviceKind::Vsock) ==> match vsock::asked(value) {
                Ok(device) => said is Ok && after.vsock_devices == b.vsock_devices.push(device),
                Err(e) => said == Err::<(), argument::Refusal>(e)
                    && after.vsock_devices == b.vsock_devices,
            }
            &&& kind_named(name) != Some(DeviceKind::Vsock)
                ==> after.vsock_devices == b.vsock_devices
        }),
{
}

/// An eavb device is put behind those that were asked for before, as its argument
/// asks for it, and no other argument touches them.
pub proof fn lemma_eavb_list(b: Backend, name: Seq<char>, value: Seq<char>, facts: Facts)
    ensures
        ({
            let (after, said) = after_argument(b, name, value, facts);
            &&& kind_named(name) == Some(DeviceKind::Eavb)
                ==> match vhost_user::asked(VhostUserKind::Eavb, value, facts.exists) {
                Ok(device) => said is Ok && after.veavb_devices == b.veavb_devices.push(device),
                Err(e) => said == Err::<(), argument::Refusal>(e)
                    && after.veavb_devices == b.veavb_devices,
            }
            &&& kind_named(name) != Some(DeviceKind::Eavb)
                ==> after.veavb_devices == b.veavb_devices
        }),
{
}

/// A device of no particular kind is put behind those that were asked for before, as its argument
/// asks for it, and no other argument touches them.
pub proof fn lemma_generic_list(b: Backend, name: Seq<char>, value: Seq<char>, facts: Facts)
    ensures
        ({
            let (after, said) = after_argument(b, name, value, facts);
            &&& kind_named(name) == Some(DeviceKind::Generic)
                ==> match generic::asked(value, facts.exists) {
                Ok(device) => said is Ok
                    && after.vugeneric_devices == b.vugeneric_devices.push(device),
                Err(e) => said == Err::<(), argument::Refusal>(e)
                    && after.vugeneric_devices == b.vugeneric_devices,
            }
            &&& kind_named(name) != Some(DeviceKind::Generic)
                ==> after.vugeneric_devices == b.vugeneric_devices
        }),
{
}

/// What an argument sets of the backend as a whole: its own switch or text, for
/// a device the note that there is one, and nothing else. The first interface
/// whose argument says so makes the network one of the host.
#[verifier::rlimit(60)]
pub proof fn lemma_argument_sets_its_switch(
    b: Backend,
    name: Seq<char>,
    value: Seq<char>,
    facts: Facts,
)
    ensures
        ({
            let after = after_argument(b, name, value, facts).0;
            let c = after.cfg;
            &&& c.sandbox <==> b.cfg.sandbox || name == "sandbox"@
            &&& c.non_protected_virtio <==> b.cfg.non_protected_virtio || name
                == "use-non-protected-virtio"@
            &&& c.vm == (if name == "vm"@ {
                Some(value)
            } else {
                b.cfg.vm
            })
            &&& kind_named(name) is Some ==> c.bkend_dev_exist
            &&& name == "sandbox"@ || name == "use-non-protected-virtio"@ || name == "vm"@ || name
                == "log"@ ==> c.bkend_dev_exist == b.cfg.bkend_dev_exist
            &&& name != "log"@ ==> c.log_level == b.cfg.log_level && c.log_type == b.cfg.log_type
            &&& name == "log"@ ==> (c, after_argument(b, name, value, facts).1)
                == config::log_options(b.cfg, text::pieces(value, ','))
            &&& c.sfd == b.cfg.sfd && c.vm_sfd == b.cfg.vm_sfd && c.mem == b.cfg.mem
            &&& c.driver_variant == b.cfg.driver_variant
            &&& after.vcpus == b.vcpus && after.vcpu_count == b.vcpu_count
            &&& after.vnet_devices.device_path == b.vnet_devices.device_path
            &&& after.vnet_devices.vhost_net == b.vnet_devices.vhost_net
            &&& after.vnet_devices.network_dev <==> b.vnet_devices.network_dev || (name == "net"@
                && argument::head(value) == seq!['t', 'r', 'u', 'e'])
        }),
{
    lemma_names();
    reveal_strlit("true");
    assert("true"@ =~= seq!['t', 'r', 'u', 'e']);
    config::lemma_log_options_touch_the_log(b.cfg, text::pieces(value, ','));
}

/// The names of the switches are different words.
proof fn lemma_names()
    ensures
        "sandbox"@ != "use-non-protected-virtio"@,
        "sandbox"@ != "vm"@,
        "sandbox"@ != "log"@,
        "sandbox"@ != "net"@,
        "use-non-protected-virtio"@ != "vm"@,
        "use-non-protected-virtio"@ != "log"@,
        "use-non-protected-virtio"@ != "net"@,
        "vm"@ != "log"@,
        "vm"@ != "net"@,
        "log"@ != "net"@,
        "net"@ != "disk"@,
{
    reveal_strlit("sandbox");
    reveal_strlit("use-non-protected-virtio");
    reveal_strlit("vm");
    reveal_strlit("log");
    reveal_strlit("net");
    reveal_strlit("disk");
    assert("sandbox"@.len() == 7 && "use-non-protected-virtio"@.len() == 24 && "vm"@.len() == 2);
    assert("log"@.len() == 3 && "net"@.len() == 3 && "disk"@.len() == 4);
    assert("log"@[0] == 'l' && "net"@[0] == 'n');
}

/// What is to be done for the devices of this kind.
pub open spec fn tasks_of(
    b: Backend,
    kind: DeviceKind,
    selectors: InputSelectors,
) -> Seq<creation::Task> {
    let version = b.cfg.driver_variant;
    match kind {
        DeviceKind::Disk => creation::tasks_for::<disk::VirtioDisk>(b.vdisk_devices, version),
        DeviceKind::Net => net::tasks(b.vnet_devices),
        DeviceKind::Gp => vhost_user::tasks(VhostUserKind::Gp, b.vugp_devices),
        DeviceKind::Scmi => creation::tasks_for::<scmi::ScmiDevice>(b.scmi_devices, version),
        DeviceKind::VuScmi => vhost_user::tasks(VhostUserKind::Scmi, b.vuscmi_devices),
        DeviceKind::I2c => vhost_user::tasks(VhostUserKind::I2c, b.vuvirtio_i2c_devices),
        DeviceKind::Fs => creation::tasks_for::<fs::VuVirtioFs>(b.vuvirtio_fs_devices, version),
        DeviceKind::Frpc => vhost_user::tasks(VhostUserKind::Frpc, b.vuvirtio_frpc_devices),
        DeviceKind::Ssr => vhost_user::tasks(VhostUserKind::Ssr, b.vuvirtio_ssr_devices),
        DeviceKind::Gpio => vhost_user::tasks(VhostUserKind::Gpio, b.vuvirtio_gpio_devices),
        DeviceKind::Hab => creation::tasks_for::<hab::VirtioHab>(b.vhab_devices, version),
        DeviceKind::Input => input::tasks(b.vinput_devices, selectors),
        DeviceKind::Console => creation::tasks_for::<console::VirtioConsole>(
            b.vconsole_devices,
            version,
        ),
        DeviceKind::Vsock => creation::tasks_for::<vsock::VirtioSock>(b.vsock_devices, version),
        DeviceKind::Eavb => vhost_user::tasks(VhostUserKind::Eavb, b.veavb_devices),
        DeviceKind::Generic => creation::tasks_for::<generic::VuVirtioGeneric>(
            b.vugeneric_devices,
            version,
        ),
        DeviceKind::Vcpus => Seq::empty(),
    }
}

/// What the devices of this kind have in common.
pub open spec fn parts_of(b: Backend, kind: DeviceKind) -> Seq<device::Part> {
    match kind {
        DeviceKind::Disk => b.vdisk_devices.map_values(|d: disk::Disk| d.common),
        DeviceKind::Net => b.vnet_devices.nets.map_values(|d: net::Net| d.common),
        DeviceKind::Gp => b.vugp_devices.map_values(|d: SocketDevice| d.common),
        DeviceKind::Scmi => b.scmi_devices.map_values(|d: scmi::Scmi| d.common),
        DeviceKind::VuScmi => b.vuscmi_devices.map_values(|d: SocketDevice| d.common),
        DeviceKind::I2c => b.vuvirtio_i2c_devices.map_values(|d: SocketDevice| d.common),
        DeviceKind::Fs => b.vuvirtio_fs_devices.map_values(|d: fs::Fs| d.common),
        DeviceKind::Frpc => b.vuvirtio_frpc_devices.map_values(|d: SocketDevice| d.common),
        DeviceKind::Ssr => b.vuvirtio_ssr_devices.map_values(|d: SocketDevice| d.common),
        DeviceKind::Gpio => b.vuvirtio_gpio_devices.map_values(|d: SocketDevice| d.common),
        DeviceKind::Hab => b.vhab_devices.map_values(|d: hab::Hab| d.common),
        DeviceKind::Input => b.vinput_devices.map_values(|d: input::Input| d.common),
        DeviceKind::Console => b.vconsole_devices.map_values(|d: console::Console| d.common),
        DeviceKind::Vsock => b.vsock_devices.map_values(|d: vsock::Sock| d.common),
        DeviceKind::Eavb => b.veavb_devices.map_values(|d: SocketDevice| d.common),
        DeviceKind::Generic => b.vugeneric_devices.map_values(|d: generic::Generic| d.common),
        DeviceKind::Vcpus => Seq::empty(),
    }
}

/// The parts with these registers.
pub open spec fn with_registers(
    parts: Seq<device::Part>,
    registers: Seq<Option<mmio::Registers>>,
) -> Seq<device::Part> {
    Seq::new(parts.len(), |i: int| device::Part { mmio: registers[i], ..parts[i] })
}

/// Once the devices of a kind are created, every one of them has registers,
/// so that it can be put to work. Network interfaces are the exception: one
/// whose addresses are not all known is never built.
pub proof fn lemma_created_devices_have_registers(
    b: Backend,
    kind: DeviceKind,
    selectors: InputSelectors,
    made: Seq<Option<mmio::Registers>>,
    i: int,
)
    requires
        creation::in_order(
            creation::plan_for(tasks_of(b, kind, selectors), b.cfg),
            creation::Making::Finished { made, result: Ok(()) },
        ),
        0 <= i < device_count(b, kind),
    ensures
        made.len() == device_count(b, kind),
        kind != DeviceKind::Net ==> with_registers(parts_of(b, kind), made)[i].mmio is Some,
        kind == DeviceKind::Net ==> (with_registers(parts_of(b, kind), made)[i].mmio is Some <==>
            net::net_order(b.vnet_devices, b.vnet_devices.nets[i]) is Some),
{
    let plan = creation::plan_for(tasks_of(b, kind, selectors), b.cfg);
    assert(plan.tasks.len() == device_count(b, kind));
    assert(made[i] is Some == (plan.tasks[i].order is Some));
}

/// What devices have in common is that of the devices of their own list.
pub proof fn lemma_parts_are_those_of_the_devices(b: Backend, kind: DeviceKind, i: int)
    requires
        0 <= i < device_count(b, kind),
    ensures
        parts_of(b, kind).len() == device_count(b, kind),
        kind is Disk ==> parts_of(b, kind)[i] == b.vdisk_devices[i].common,
        kind is Net ==> parts_of(b, kind)[i] == b.vnet_devices.nets[i].common,
        kind is Gp ==> parts_of(b, kind)[i] == b.vugp_devices[i].common,
        kind is Scmi ==> parts_of(b, kind)[i] == b.scmi_devices[i].common,
        kind is VuScmi ==> parts_of(b, kind)[i] == b.vuscmi_devices[i].common,
        kind is I2c ==> parts_of(b, kind)[i] == b.vuvirtio_i2c_devices[i].common,
        kind is Fs ==> parts_of(b, kind)[i] == b.vuvirtio_fs_devices[i].common,
        kind is Frpc ==> parts_of(b, kind)[i] == b.vuvirtio_frpc_devices[i].common,
        kind is Ssr ==> parts_of(b, kind)[i] == b.vuvirtio_ssr_devices[i].common,
        kind is Gpio ==> parts_of(b, kind)[i] == b.vuvirtio_gpio_devices[i].common,
        kind is Hab ==> parts_of(b, kind)[i] == b.vhab_devices[i].common,
        kind is Input ==> parts_of(b, kind)[i] == b.vinput_devices[i].common,
        kind is Console ==> parts_of(b, kind)[i] == b.vconsole_devices[i].common,
        kind is Vsock ==> parts_of(b, kind)[i] == b.vsock_devices[i].common,
        kind is Eavb ==> parts_of(b, kind)[i] == b.veavb_devices[i].common,
        kind is Generic ==> parts_of(b, kind)[i] == b.vugeneric_devices[i].common,
{
}

/// Every device that was asked for has its task, under its own label and in its
/// place.
pub proof fn lemma_each_device_has_its_task(
    b: Backend,
    kind: DeviceKind,
    selectors: InputSelectors,
    i: int,
)
    requires
        0 <= i < device_count(b, kind),
    ensures
        tasks_of(b, kind, selectors).len() == device_count(b, kind),
        tasks_of(b, kind, selectors)[i].label == parts_of(b, kind)[i].label,
        match tasks_of(b, kind, selectors)[i].order {
            Some(order) => match order {
                creation::Order::Block { .. } => kind is Disk,
                creation::Order::Net { .. } => kind is Net,
                creation::Order::VhostUserHab { .. } => kind is Hab,
                creation::Order::VhostUserFs { .. } => kind is Fs,
                creation::Order::VhostUserGeneric { .. } => kind is Generic,
                creation::Order::Input { .. } => kind is Input,
                creation::Order::Console { .. } => kind is Console,
                creation::Order::Scmi { .. } => kind is Scmi,
                creation::Order::Vsock { .. } => kind is Vsock,
                creation::Order::VhostUser { kind: k, .. } => match k {
                    VhostUserKind::Gp => kind is Gp,
                    VhostUserKind::Scmi => kind is VuScmi,
                    VhostUserKind::I2c => kind is I2c,
                    VhostUserKind::Gpio => kind is Gpio,
                    VhostUserKind::Frpc => kind is Frpc,
                    VhostUserKind::Ssr => kind is Ssr,
                    VhostUserKind::Eavb => kind is Eavb,
                },
            },
            None => kind is Net,
        },
{
}

/// The registers that were made are those of the devices in their places, and
/// nothing else changes.
pub proof fn lemma_registers_go_to_their_devices(
    parts: Seq<device::Part>,
    registers: Seq<Option<mmio::Registers>>,
    i: int,
)
    requires
        0 <= i < parts.len(),
    ensures
        with_registers(parts, registers).len() == parts.len(),
        with_registers(parts, registers)[i].mmio == registers[i],
        with_registers(parts, registers)[i].label == parts[i].label,
        with_registers(parts, registers)[i].config_space == parts[i].config_space,
{
}

/// A part when a thread has taken what it needs.
pub open spec fn taken(part: device::Part) -> device::Part {
    device::Part { mmio: None, config_space: None, ..part }
}

/// The backend when the threads of the devices of this kind have taken what
/// they need.
pub open spec fn released(b: Backend, kind: DeviceKind) -> Backend {
    match kind {
        DeviceKind::Disk => Backend {
            vdisk_devices: b.vdisk_devices.map_values(
                |d: disk::Disk| disk::Disk { common: taken(d.common), ..d },
            ),
            ..b
        },
        DeviceKind::Net => Backend {
            vnet_devices: net::Nets {
                nets: b.vnet_devices.nets.map_values(
                    |d: net::Net| net::Net { common: taken(d.common), ..d },
                ),
                ..b.vnet_devices
            },
            ..b
        },
        DeviceKind::Gp => Backend {
            vugp_devices: b.vugp_devices.map_values(
                |d: SocketDevice| SocketDevice { common: taken(d.common), ..d },
            ),
            ..b
        },
        DeviceKind::Scmi => Backend {
            scmi_devices: b.scmi_devices.map_values(
                |d: scmi::Scmi| scmi::Scmi { common: taken(d.common) },
            ),
            ..b
        },
        DeviceKind::VuScmi => Backend {
            vuscmi_devices: b.vuscmi_devices.map_values(
                |d: SocketDevice| SocketDevice { common: taken(d.common), ..d },
            ),
            ..b
        },
        DeviceKind::I2c => Backend {
            vuvirtio_i2c_devices: b.vuvirtio_i2c_devices.map_values(
                |d: SocketDevice| SocketDevice { common: taken(d.common), ..d },
            ),
            ..b
        },
        DeviceKind::Fs => Backend {
            vuvirtio_fs_devices: b.vuvirtio_fs_devices.map_values(
                |d: fs::Fs| fs::Fs { common: taken(d.common), ..d },
            ),
            ..b
        },
        DeviceKind::Frpc => Backend {
            vuvirtio_frpc_devices: b.vuvirtio_frpc_devices.map_values(
                |d: SocketDevice| SocketDevice { common: taken(d.common), ..d },
            ),
            ..b
        },
        DeviceKind::Ssr => Backend {
            vuvirtio_ssr_devices: b.vuvirtio_ssr_devices.map_values(
                |d: SocketDevice| SocketDevice { common: taken(d.common), ..d },
            ),
            ..b
        },
        DeviceKind::Gpio => Backend {
            vuvirtio_gpio_devices: b.vuvirtio_gpio_devices.map_values(
                |d: SocketDevice| SocketDevice { common: taken(d.common), ..d },
            ),
            ..b
        },
        DeviceKind::Hab => Backend {
            vhab_devices: b.vhab_devices.map_values(
                |d: hab::Hab| hab::Hab { common: taken(d.common), ..d },
            ),
            ..b
        },
        DeviceKind::Input => Backend {
            vinput_devices: b.vinput_devices.map_values(
                |d: input::Input| input::Input { common: taken(d.common), ..d },
            ),
            ..b
        },
        DeviceKind::Console => Backend {
            vconsole_devices: b.vconsole_devices.map_values(
                |d: console::Console| console::Console { common: taken(d.common), ..d },
            ),
            ..b
        },
        DeviceKind::Vsock => Backend {
            vsock_devices: b.vsock_devices.map_values(
                |d: vsock::Sock| vsock::Sock { common: taken(d.common), ..d },
            ),
            ..b
        },
        DeviceKind::Eavb => Backend {
            veavb_devices: b.veavb_devices.map_values(
                |d: SocketDevice| SocketDevice { common: taken(d.common), ..d },
            ),
            ..b
        },
        DeviceKind::Generic => Backend {
            vugeneric_devices: b.vugeneric_devices.map_values(
                |d: generic::Generic| generic::Generic { common: taken(d.common), ..d },
            ),
            ..b
        },
        DeviceKind::Vcpus => b,
    }
}

/// When the threads of one kind of devices have taken what they need, those
/// devices have no registers and no space left, and keep everything else. The
/// devices of the other kinds and the rest of the backend stay as they are.
#[verifier::rlimit(60)]
pub proof fn lemma_released_devices_keep_their_labels(
    b: Backend,
    kind: DeviceKind,
    other: DeviceKind,
    selectors: InputSelectors,
    i: int,
)
    requires
        0 <= i < device_count(b, other),
    ensures
        ({
            let after = released(b, kind);
            let part = parts_of(after, other)[i];
            &&& device_count(after, other) == device_count(b, other)
            &&& part.label == parts_of(b, other)[i].label
            &&& other == kind ==> part.mmio is None && part.config_space is None
            &&& other != kind ==> part == parts_of(b, other)[i]
            &&& tasks_of(after, other, selectors)[i] == tasks_of(b, other, selectors)[i]
            &&& after.cfg == b.cfg
            &&& after.vcpus == b.vcpus && after.vcpu_count == b.vcpu_count
        }),
{
}

/// The order in which the devices are created and run. The processors come
/// last, when the devices that they use work.
pub open spec fn run_order() -> Seq<DeviceKind> {
    seq![
        DeviceKind::Disk,
        DeviceKind::Net,
        DeviceKind::Hab,
        DeviceKind::Input,
        DeviceKind::Scmi,
        DeviceKind::Console,
        DeviceKind::VuScmi,
        DeviceKind::I2c,
        DeviceKind::Fs,
        DeviceKind::Gp,
        DeviceKind::Frpc,
        DeviceKind::Ssr,
        DeviceKind::Gpio,
        DeviceKind::Vsock,
        DeviceKind::Generic,
        DeviceKind::Eavb,
        DeviceKind::Vcpus,
    ]
}

/// No kind of device is left out of the order, or is in it twice.
pub proof fn lemma_every_kind_runs_once(kind: DeviceKind)
    ensures
        exists|i: int| 0 <= i < run_order().len() && #[trigger] run_order()[i] == kind,
        forall|i: int, j: int|
            0 <= i < j < run_order().len() ==> #[trigger] run_order()[i]
                != #[trigger] run_order()[j],
{
    let order = run_order();
    let i: int = match kind {
        DeviceKind::Disk => 0,
        DeviceKind::Net => 1,
        DeviceKind::Hab => 2,
        DeviceKind::Input => 3,
        DeviceKind::Scmi => 4,
        DeviceKind::Console => 5,
        DeviceKind::VuScmi => 6,
        DeviceKind::I2c => 7,
        DeviceKind::Fs => 8,
        DeviceKind::Gp => 9,
        DeviceKind::Frpc => 10,
        DeviceKind::Ssr => 11,
        DeviceKind::Gpio => 12,
        DeviceKind::Vsock => 13,
        DeviceKind::Generic => 14,
        DeviceKind::Eavb => 15,
        DeviceKind::Vcpus => 16,
    };
    assert(order[i] == kind);
}

/// The order in which the devices are created and run.
pub fn device_order() -> (r: Vec<DeviceKind>)
    ensures
        r@ == run_order(),
{
    vec![
        DeviceKind::Disk,
        DeviceKind::Net,
        DeviceKind::Hab,
        DeviceKind::Input,
        DeviceKind::Scmi,
        DeviceKind::Console,
        DeviceKind::VuScmi,
        DeviceKind::I2c,
        DeviceKind::Fs,
        DeviceKind::Gp,
        DeviceKind::Frpc,
        DeviceKind::Ssr,
        DeviceKind::Gpio,
        DeviceKind::Vsock,
        DeviceKind::Generic,
        DeviceKind::Eavb,
        DeviceKind::Vcpus,
    ]
}

/// The processors are created and run when all the devices work.
pub proof fn lemma_processors_run_last()
    ensures
        run_order().last() == DeviceKind::Vcpus,
{
}

/// The order in which the threads are waited for: those of the processors
/// first, then those of the devices in the order in which they were started.
pub open spec fn waiting_order() -> Seq<DeviceKind> {
    seq![run_order().last()] + run_order().drop_last()
}

/// The threads of the processors are waited for first, and the threads of
/// every kind are waited for once.
pub proof fn lemma_every_kind_is_joined_once(kind: DeviceKind)
    ensures
        waiting_order().first() == DeviceKind::Vcpus,
        waiting_order().len() == run_order().len(),
        exists|i: int| 0 <= i < waiting_order().len() && #[trigger] waiting_order()[i] == kind,
        forall|i: int, j: int|
            0 <= i < j < waiting_order().len() ==> #[trigger] waiting_order()[i]
                != #[trigger] waiting_order()[j],
{
    lemma_every_kind_runs_once(kind);
    let order = run_order();
    let i = choose|i: int| 0 <= i < order.len() && #[trigger] order[i] == kind;
    if i == order.len() - 1 {
        assert(waiting_order()[0] == kind);
    } else {
        assert(waiting_order()[i + 1] == kind);
    }
    assert forall|i: int, j: int|
        0 <= i < j < waiting_order().len() implies #[trigger] waiting_order()[i]
        != #[trigger] waiting_order()[j] by {
        assert(waiting_order()[j] == order[j - 1]);
        if i > 0 {
            assert(waiting_order()[i] == order[i - 1]);
        } else {
            assert(order[order.len() - 1] == DeviceKind::Vcpus);
        }
    }
}

/// The order in which the threads are waited for.
pub fn join_order() -> (r: Vec<DeviceKind>)
    ensures
        r@ == waiting_order(),
{
    let order = device_order();
    let n: usize = order.len();
    let mut r: Vec<DeviceKind> = vec![DeviceKind::Vcpus];
    let mut i: usize = 0;
    while i < n - 1
        invariant
            n == run_order().len(),
            n == order@.len(),
            order@ == run_order(),
            i <= n - 1,
            r@ == seq![DeviceKind::Vcpus] + run_order().take(i as int),
        decreases n - i,
    {
        r.push(order[i]);
        i += 1;
        assert(r@ =~= seq![DeviceKind::Vcpus] + run_order().take(i as int));
    }
    proof {
        assert(run_order().take(n - 1) =~= run_order().drop_last());
    }
    r
}

/// What was learned of the virtual machine before the devices are created.
#[derive(Debug)]
pub struct Known {
    /// The descriptor of the hypervisor.
    pub sfd: i32,
    /// The descriptor of the virtual machine.
    pub vm_sfd: i32,
    pub vcpu_count: u16,
    /// The memory, if there are devices that need it.
    pub mem: Option<Vec<MemoryRegion>>,
}

/// `Known` with its lists as sequences.
pub struct Knowledge {
    pub sfd: i32,
    pub vm_sfd: i32,
    pub vcpu_count: u16,
    pub mem: Option<Seq<MemoryRegion>>,
}

impl View for Known {
    type V = Knowledge;

    open spec fn view(&self) -> Knowledge {
        Knowledge {
            sfd: self.sfd,
            vm_sfd: self.vm_sfd,
            vcpu_count: self.vcpu_count,
            mem: match self.mem {
                Some(regions) => Some(regions@),
                None => None,
            },
        }
    }
}

/// The backend with what was learned of the virtual machine.
pub open spec fn with_knowledge(b: Backend, known: Knowledge) -> Backend {
    Backend {
        cfg: config::Config {
            sfd: Some(known.sfd),
            vm_sfd: Some(known.vm_sfd),
            driver_variant: 2,
            mem: if known.mem is Some {
                known.mem
            } else {
                b.cfg.mem
            },
            ..b.cfg
        },
        vcpu_count: known.vcpu_count,
        ..b
    }
}

/// What the backend takes of what was learned: both descriptors, the number of
/// processors, the current version of the driver, and the memory if there is
/// any. The options and the devices stay as they are.
pub proof fn lemma_backend_takes_what_was_learned(b: Backend, known: Knowledge, kind: DeviceKind)
    ensures
        ({
            let after = with_knowledge(b, known);
            let c = after.cfg;
            &&& c.sfd == Some(known.sfd)
            &&& c.vm_sfd == Some(known.vm_sfd)
            &&& c.driver_variant == 2
            &&& after.vcpu_count == known.vcpu_count
            &&& c.mem == (if known.mem is Some {
                known.mem
            } else {
                b.cfg.mem
            })
            &&& c.vm == b.cfg.vm && c.sandbox == b.cfg.sandbox
            &&& c.non_protected_virtio == b.cfg.non_protected_virtio
            &&& c.log_level == b.cfg.log_level && c.log_type == b.cfg.log_type
            &&& c.bkend_dev_exist == b.cfg.bkend_dev_exist
            &&& after.vcpus == b.vcpus
            &&& parts_of(after, kind) == parts_of(b, kind)
            &&& device_count(after, kind) == device_count(b, kind)
        }),
{
}

/// Where there is memory whenever there are devices, the devices of every kind
/// can be created.
pub proof fn lemma_devices_can_be_created(b: Backend, known: Knowledge, kind: DeviceKind)
    requires
        knows_its_devices(b),
        b.cfg.bkend_dev_exist ==> known.mem is Some,
        device_count(b, kind) > 0,
    ensures
        creation::ready(with_knowledge(b, known).cfg),
{
}

/// Where the log goes.
#[derive(Debug)]
pub struct Logger {
    pub tag: String,
    pub kind: LoggerKind,
    pub level: LevelFilter,
}

/// The kinds of logs.
#[derive(Clone, Copy, Debug, PartialEq, Eq, Structural)]
pub enum LoggerKind {
    /// The log of the system.
    Logcat,
    /// The terminal.
    Term,
    /// The trace of the kernel.
    Ftrace,
    /// No log.
    Nothing,
}

/// The tag of the messages of this backend.
pub open spec fn log_tag(vm: Option<Seq<char>>) -> Seq<char> {
    match vm {
        Some(name) => "qcrosvm"@ + "_"@ + name,
        None => "qcrosvm"@,
    }
}

/// The kind of log of this type.
pub open spec fn logger_kind(log_type: Seq<char>) -> LoggerKind {
    if log_type == "logcat"@ {
        LoggerKind::Logcat
    } else if log_type == "term"@ {
        LoggerKind::Term
    } else if log_type == "ftrace"@ {
        LoggerKind::Ftrace
    } else {
        LoggerKind::Nothing
    }
}

/// The messages of a backend carry its own name, and behind it that of the
/// virtual machine if it has one.
pub proof fn lemma_messages_carry_the_name(vm: Seq<char>)
    ensures
        log_tag(None) == seq!['q', 'c', 'r', 'o', 's', 'v', 'm'],
        log_tag(Some(vm)) == log_tag(None) + seq!['_'] + vm,
{
    reveal_strlit("qcrosvm");
    reveal_strlit("_");
    assert("qcrosvm"@ =~= seq!['q', 'c', 'r', 'o', 's', 'v', 'm']);
    assert("_"@ =~= seq!['_']);
}

/// Each kind of log has its own word, and nothing else names one.
pub proof fn lemma_logs_have_their_words(s: Seq<char>)
    ensures
        logger_kind(s) is Logcat <==> s == "logcat"@,
        logger_kind(s) is Term <==> s == "term"@,
        logger_kind(s) is Ftrace <==> s == "ftrace"@,
{
    reveal_strlit("logcat");
    reveal_strlit("term");
    reveal_strlit("ftrace");
    assert("logcat"@.len() == 6 && "term"@.len() == 4 && "ftrace"@.len() == 6);
    assert("logcat"@[0] == 'l' && "ftrace"@[0] == 'f');
}

/// Every backend that only arguments have changed has a log.
pub proof fn lemma_there_is_a_log(b: Backend, name: Seq<char>, value: Seq<char>, facts: Facts)
    requires
        b.cfg.log_type is Some,
        !(logger_kind(b.cfg.log_type->0) is Nothing),
    ensures
        default_backend().cfg.log_type is Some,
        !(logger_kind(default_backend().cfg.log_type->0) is Nothing),
        after_argument(b, name, value, facts).0.cfg.log_type is Some,
        !(logger_kind(after_argument(b, name, value, facts).0.cfg.log_type->0) is Nothing),
{
    config::lemma_log_options_keep(b.cfg, text::pieces(value, ','));
}

impl VMBackend {
    /// A backend without devices.
    pub fn new() -> (r: Self)
        ensures
            r@ == default_backend(),
    {
        VMBackend {
            cfg: BackendConfig::new(),
            vcpus: Vcpus::new(),
            vdisk_devices: VirtioDiskDevices::new(),
            vnet_devices: VirtioNetDevices::new(),
            vugp_devices: VuGPDevices::new(),
            scmi_devices: ScmiDevices::new(),
            vuscmi_devices: VuScmiDevices::new(),
            vuvirtio_i2c_devices: VuVirtioI2cDevices::new(),
            vuvirtio_fs_devices: VuVirtioFsDevices::new(),
            vuvirtio_frpc_devices: VuVirtiofrpcDevices::new(),
            vuvirtio_ssr_devices: VuVirtioSsrDevices::new(),
            vuvirtio_gpio_devices: VuVirtioGpioDevices::new(),
            vhab_devices: VirtioHabDevices::new(),
            vinput_devices: VirtioInputDevices::new(),
            vconsole_devices: VirtioConsoleDevices::new(),
            vsock_devices: VirtioSockDevices::new(),
            veavb_devices: VirtioEAVBDevices::new(),
            vugeneric_devices: VuVirtioGenericDevices::new(),
        }
    }

    /// Takes the argument `name`.
    pub fn set_argument(&mut self, name: &str, value: Option<&str>, facts: HostFacts) -> (r: Result<
        (),
        Error,
    >)
        requires
            argument_kind(name@) is Some,
            argument_kind(name@) == Some(ArgumentKind::Value) ==> value is Some,
            name@ == "net"@ ==> facts@.macs.len() == net::mac_values(
                argument::option_parts(value->0@),
            ).len(),
        ensures
            final(self)@ == after_argument(old(self)@, name@, text_of(value), facts@).0,
            argument::agrees(r, after_argument(old(self)@, name@, text_of(value), facts@).1),
    {
        if text::same(name, "sandbox") {
            self.cfg.sandbox = true;
            return Ok(());
        }
        if text::same(name, "use-non-protected-virtio") {
            self.cfg.non_protected_virtio = true;
            return Ok(());
        }
        let param = match value {
            Some(param) => param,
            None => "",
        };
        if text::same(name, "vm") {
            self.cfg.vm = Some(param.to_owned());
            return Ok(());
        }
        if text::same(name, "log") {
            return self.cfg.set_log(param);
        }
        self.cfg.bkend_dev_exist = true;
        self.set_device(name, param, facts)
    }

    /// Takes the argument `name`, which asks for a device.
    fn set_device(&mut self, name: &str, param: &str, facts: HostFacts) -> (r: Result<(), Error>)
        requires
            argument_kind(name@) == Some(ArgumentKind::Value),
            name@ != "sandbox"@ && name@ != "use-non-protected-virtio"@ && name@ != "vm"@ && name@
                != "log"@,
            name@ == "net"@ ==> facts@.macs.len() == net::mac_values(
                argument::option_parts(param@),
            ).len(),
        ensures
            final(self)@ == after_device(old(self)@, name@, param@, facts@).0,
            argument::agrees(r, after_device(old(self)@, name@, param@, facts@).1),
    {
        let value = Some(param);
        if text::same(name, "disk") {
            self.vdisk_devices.set_argument(value, facts.exists)
        } else if text::same(name, "net") {
            self.vnet_devices.set_argument(value, facts.macs)
        } else if text::same(name, "vhost-user-gp") {
            self.vugp_devices.set_argument(value, facts.exists)
        } else if text::same(name, "scmi") {
            self.scmi_devices.set_argument(value)
        } else if text::same(name, "vhost-user-scmi") {
            self.vuscmi_devices.set_argument(value, facts.exists)
        } else if text::same(name, "vhost-user-i2c") {
            self.vuvirtio_i2c_devices.set_argument(value, facts.exists)
        } else if text::same(name, "vhost-user-fs") {
            self.vuvirtio_fs_devices.set_argument(value, facts.exists)
        } else if text::same(name, "vhost-user-frpc") {
            self.vuvirtio_frpc_devices.set_argument(value, facts.exists)
        } else if text::same(name, "vhost-user-ssr") {
            self.vuvirtio_ssr_devices.set_argument(value, facts.exists)
        } else if text::same(name, "vhost-user-gpio") {
            self.vuvirtio_gpio_devices.set_argument(value, facts.exists)
        } else if text::same(name, "vhost-user-hab") {
            self.vhab_devices.set_argument(value, facts.exists)
        } else if text::same(name, "input") {
            match self.vinput_devices.set_argument(value, facts.exists) {
                Ok(_) => Ok(()),
                Err(e) => Err(e),
            }
        } else if text::same(name, "console") {
            self.vconsole_devices.set_argument(value, facts.current_dir.as_str(), facts.writable)
        } else if text::same(name, "vsock") {
            self.vsock_devices.set_argument(value)
        } else if text::same(name, "vhost-user-eavb") {
            self.veavb_devices.set_argument(value, facts.exists)
        } else {
            self.vugeneric_devices.set_argument(value, facts.exists)
        }
    }

    /// Whether no device of this kind was asked for.
    pub fn is_empty(&self, kind: DeviceKind) -> (r: bool)
        ensures
            r == (device_count(self@, kind) == 0),
    {
        match kind {
            DeviceKind::Disk => self.vdisk_devices.virtio_disks.len() == 0,
            DeviceKind::Net => self.vnet_devices.virtio_nets.len() == 0,
            DeviceKind::Gp => self.vugp_devices.vugp_devices.len() == 0,
            DeviceKind::Scmi => self.scmi_devices.scmi_devices.len() == 0,
            DeviceKind::VuScmi => self.vuscmi_devices.vuscmi_devices.len() == 0,
            DeviceKind::I2c => self.vuvirtio_i2c_devices.vui2c_devices.len() == 0,
            DeviceKind::Fs => self.vuvirtio_fs_devices.vufs_devices.len() == 0,
            DeviceKind::Frpc => self.vuvirtio_frpc_devices.vu_frpc_devices.len() == 0,
            DeviceKind::Ssr => self.vuvirtio_ssr_devices.vussr_devices.len() == 0,
            DeviceKind::Gpio => self.vuvirtio_gpio_devices.vugpio_devices.len() == 0,
            DeviceKind::Hab => self.vhab_devices.virtio_hab_devices.len() == 0,
            DeviceKind::Input => self.vinput_devices.virtio_inputs.len() == 0,
            DeviceKind::Console => self.vconsole_devices.v_consoles.len() == 0,
            DeviceKind::Vsock => self.vsock_devices.v_sock_devices.len() == 0,
            DeviceKind::Eavb => self.veavb_devices.virtio_eavb_devices.len() == 0,
            DeviceKind::Generic => self.vugeneric_devices.vugeneric_devices.len() == 0,
            DeviceKind::Vcpus => true,
        }
    }

    /// Starts to create the devices of this kind.
    pub fn create_devices(&self, kind: DeviceKind, selectors: InputSelectors) -> (r: Creation)
        requires
            device_count(self@, kind) > 0 ==> creation::ready(self@.cfg),
        ensures
            r.wf(),
            r.plan() == creation::plan_for(tasks_of(self@, kind, selectors), self@.cfg),
            r.making() == creation::reach(r.plan(), 0, Seq::empty()),
    {
        match kind {
            DeviceKind::Disk => self.vdisk_devices.create_block_devices(&self.cfg),
            DeviceKind::Net => self.vnet_devices.create_net_devices(&self.cfg),
            DeviceKind::Gp => self.vugp_devices.create_vugp_devices(&self.cfg),
            DeviceKind::Scmi => self.scmi_devices.create_scmi_devices(&self.cfg),
            DeviceKind::VuScmi => self.vuscmi_devices.create_vuscmi_devices(&self.cfg),
            DeviceKind::I2c => self.vuvirtio_i2c_devices.create_vui2c_devices(&self.cfg),
            DeviceKind::Fs => self.vuvirtio_fs_devices.create_vufs_devices(&self.cfg),
            DeviceKind::Frpc => self.vuvirtio_frpc_devices.create_vufrpc_devices(&self.cfg),
            DeviceKind::Ssr => self.vuvirtio_ssr_devices.create_vussr_devices(&self.cfg),
            DeviceKind::Gpio => self.vuvirtio_gpio_devices.create_vugpio_devices(&self.cfg),
            DeviceKind::Hab => self.vhab_devices.create_vhab_devices(&self.cfg),
            DeviceKind::Input => self.vinput_devices.create_vinput_devices(&self.cfg, selectors),
            DeviceKind::Console => self.vconsole_devices.create_console_devices(&self.cfg),
            DeviceKind::Vsock => self.vsock_devices.create_vsock_devices(&self.cfg),
            DeviceKind::Eavb => self.veavb_devices.create_veavb_devices(&self.cfg),
            DeviceKind::Generic => self.vugeneric_devices.create_vugeneric_devices(&self.cfg),
            DeviceKind::Vcpus => {
                let jobs: Vec<creation::Job> = Vec::new();
                assert(creation::tasks(jobs@) =~= Seq::empty());
                creation::create(jobs, &self.cfg)
            },
        }
    }

    /// Takes from the devices of this kind what their threads need, with what
    /// is known of their registers.
    pub fn release(&mut self, kind: DeviceKind, made: Vec<Option<MmioDevice>>) -> (r: Vec<Common>)
        requires
            made@.len() == device_count(old(self)@, kind),
        ensures
            launch::all_parts(r@) == with_registers(
                parts_of(old(self)@, kind),
                creation::all_registers(made@),
            ),
            final(self)@ == released(old(self)@, kind),
    {
        let ghost registers = creation::all_registers(made@);
        let ghost before = self@;
        let r = match kind {
            DeviceKind::Disk => {
                let r = device::release(&mut self.vdisk_devices.virtio_disks, made);
                assert(self@.vdisk_devices =~= released(
                    before,
                    kind,
                ).vdisk_devices);
                r
            },
            DeviceKind::Net => {
                let r = device::release(&mut self.vnet_devices.virtio_nets, made);
                assert(self@.vnet_devices.nets =~= released(
                    before,
                    kind,
                ).vnet_devices.nets);
                r
            },
            DeviceKind::Gp => {
                let r = device::release(&mut self.vugp_devices.vugp_devices, made);
                assert(self@.vugp_devices =~= released(
                    before,
                    kind,
                ).vugp_devices);
                r
            },
            DeviceKind::Scmi => {
                let r = device::release(&mut self.scmi_devices.scmi_devices, made);
                assert(self@.scmi_devices =~= released(
                    before,
                    kind,
                ).scmi_devices);
                r
            },
            DeviceKind::VuScmi => {
                let r = device::release(&mut self.vuscmi_devices.vuscmi_devices, made);
                assert(self@.vuscmi_devices =~= released(
                    before,
                    kind,
                ).vuscmi_devices);
                r
            },
            DeviceKind::I2c => {
                let r = device::release(&mut self.vuvirtio_i2c_devices.vui2c_devices, made);
                assert(self@.vuvirtio_i2c_devices =~= released(
                    before,
                    kind,
                ).vuvirtio_i2c_devices);
                r
            },
            DeviceKind::Fs => {
                let r = device::release(&mut self.vuvirtio_fs_devices.vufs_devices, made);
                assert(self@.vuvirtio_fs_devices =~= released(
                    before,
                    kind,
                ).vuvirtio_fs_devices);
                r
            },
            DeviceKind::Frpc => {
                let r = device::release(&mut self.vuvirtio_frpc_devices.vu_frpc_devices, made);
                assert(self@.vuvirtio_frpc_devices =~= released(
                    before,
                    kind,
                ).vuvirtio_frpc_devices);
                r
            },
            DeviceKind::Ssr => {
                let r = device::release(&mut self.vuvirtio_ssr_devices.vussr_devices, made);
                assert(self@.vuvirtio_ssr_devices =~= released(
                    before,
                    kind,
                ).vuvirtio_ssr_devices);
                r
            },
            DeviceKind::Gpio => {
                let r = device::release(&mut self.vuvirtio_gpio_devices.vugpio_devices, made);
                assert(self@.vuvirtio_gpio_devices =~= released(
                    before,
                    kind,
                ).vuvirtio_gpio_devices);
                r
            },
            DeviceKind::Hab => {
                let r = device::release(&mut self.vhab_devices.virtio_hab_devices, made);
                assert(self@.vhab_devices =~= released(
                    before,
                    kind,
                ).vhab_devices);
                r
            },
            DeviceKind::Input => {
                let r = device::release(&mut self.vinput_devices.virtio_inputs, made);
                assert(self@.vinput_devices =~= released(
                    before,
                    kind,
                ).vinput_devices);
                r
            },
            DeviceKind::Console => {
                let r = device::release(&mut self.vconsole_devices.v_consoles, made);
                assert(self@.vconsole_devices =~= released(
                    before,
                    kind,
                ).vconsole_devices);
                r
            },
            DeviceKind::Vsock => {
                let r = device::release(&mut self.vsock_devices.v_sock_devices, made);
                assert(self@.vsock_devices =~= released(
                    before,
                    kind,
                ).vsock_devices);
                r
            },
            DeviceKind::Eavb => {
                let r = device::release(&mut self.veavb_devices.virtio_eavb_devices, made);
                assert(self@.veavb_devices =~= released(
                    before,
                    kind,
                ).veavb_devices);
                r
            },
            DeviceKind::Generic => {
                let r = device::release(&mut self.vugeneric_devices.vugeneric_devices, made);
                assert(self@.vugeneric_devices =~= released(
                    before,
                    kind,
                ).vugeneric_devices);
                r
            },
            DeviceKind::Vcpus => Vec::new(),
        };
        assert(launch::all_parts(r@) =~= with_registers(parts_of(before, kind), registers));
        r
    }

    /// Takes what was learned of the virtual machine.
    pub fn adopt(&mut self, known: Known)
        ensures
            final(self)@ == with_knowledge(old(self)@, known@),
    {
        self.cfg.sfd = Some(known.sfd);
        self.cfg.vm_sfd = Some(known.vm_sfd);
        self.cfg.driver_variant = 2;
        self.vcpus.vcpu_count = known.vcpu_count;
        if let Some(regions) = known.mem {
            self.cfg.mem = Some(regions);
        }
    }

    /// Where the log goes.
    pub fn set_logger(&self) -> (r: Logger)
        requires
            self@.cfg.log_type is Some,
        ensures
            r.tag@ == log_tag(self@.cfg.vm),
            r.kind == logger_kind(self@.cfg.log_type->0),
            r.level == self@.cfg.log_level,
    {
        let mut tag = "qcrosvm".to_owned();
        if let Some(name) = &self.cfg.vm {
            tag.append("_");
            tag.append(name.as_str());
        }
        let log_type = match &self.cfg.log_type {
            Some(log_type) => log_type.as_str(),
            None => "",
        };
        let kind = if text::same(log_type, "logcat") {
            LoggerKind::Logcat
        } else if text::same(log_type, "term") {
            LoggerKind::Term
        } else if text::same(log_type, "ftrace") {
            LoggerKind::Ftrace
        } else {
            LoggerKind::Nothing
        };
        Logger { tag, kind, level: self.cfg.log_level }
    }
}

/// The text of the value of an argument; a flag has none.
pub open spec fn text_of(value: Option<&str>) -> Seq<char> {
    match value {
        Some(text) => text@,
        None => Seq::empty(),
    }
}

} // verus!
