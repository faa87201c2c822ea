use qcrosvm::argument::Error;
use qcrosvm::backend::{
    device_order, join_order, kind_of_argument, question_for, ArgumentKind, DeviceKind, HostFacts,
    HostQuestion, Known, LoggerKind, VMBackend,
};
use qcrosvm::config::{BackendConfig, Level, LevelFilter};
use qcrosvm::creation::{
    Build, BuildFailure, CreateAction, CreateEvent, Creation, DiskLock, DiskSource, VhostUserKind,
};
use qcrosvm::error::BackendError;
use qcrosvm::input_config::InputSelectors;
use qcrosvm::ioctl::{machine_cmd, IoctlArg, VmCommand};
use qcrosvm::launch::{launch, LaunchAction, LaunchEvent};
use qcrosvm::memory::MemoryRegion;
use qcrosvm::mmio::{Action, MmioDevice, Reply};
use qcrosvm::run::{BackendRun, RunAction, RunEvent};
use qcrosvm::vcpu::{Vcpu, VcpuExit, Vcpus};

fn facts() -> HostFacts {
    HostFacts { exists: true, current_dir: "/cur".to_string(), writable: true, macs: vec![] }
}

fn absent() -> HostFacts {
    HostFacts { exists: false, ..facts() }
}

fn region() -> MemoryRegion {
    MemoryRegion { size: 0x1000, addr: 0, offset: 0, fd: 4 }
}

fn selectors() -> InputSelectors {
    InputSelectors {
        id_name: 1,
        id_serial: 2,
        id_devids: 3,
        prop_bits: 0x10,
        ev_bits: 0x11,
        abs_info: 0x12,
        ev_count: 1,
        abs_count: 1,
    }
}

fn adopted(vm: &mut VMBackend) {
    vm.adopt(Known { sfd: 3, vm_sfd: 4, vcpu_count: 2, mem: Some(vec![region()]) });
}

fn device() -> MmioDevice {
    MmioDevice { queue_evts: vec![10], interrupt_evt: Some(11), num_queues: 1 }
}

fn granted(arg: IoctlArg) -> Reply {
    Reply::Ioctl { ret: 0, arg, error: String::new() }
}

#[test]
fn a_backend_has_defaults() {
    let cfg = BackendConfig::new();
    assert_eq!(cfg.driver_variant, 2);
    assert!(cfg.vm.is_none() && cfg.mem.is_none() && cfg.sfd.is_none() && cfg.vm_sfd.is_none());
    assert!(!cfg.sandbox && !cfg.non_protected_virtio && !cfg.bkend_dev_exist);
    assert_eq!(cfg.log_level, LevelFilter::Info);
    assert_eq!(cfg.log_type.as_deref(), Some("ftrace"));
    assert_eq!(VMBackend::new().vcpus.vcpu_count, 1);
}

#[test]
fn arguments_are_known_by_name() {
    assert_eq!(kind_of_argument("sandbox"), Some(ArgumentKind::Flag));
    assert_eq!(kind_of_argument("use-non-protected-virtio"), Some(ArgumentKind::Flag));
    for name in ["vm", "log", "disk", "net", "console", "vsock", "vhost-user-generic", "input"] {
        assert_eq!(kind_of_argument(name), Some(ArgumentKind::Value));
    }
    assert_eq!(kind_of_argument("Disk"), None);
    assert_eq!(kind_of_argument(""), None);
}

#[test]
fn the_host_is_asked_what_matters() {
    for name in ["vhost-user-hab", "vhost-user-i2c", "vhost-user-gpio", "vhost-user-ssr"] {
        assert_eq!(question_for(name), HostQuestion::Socket);
    }
    for name in ["disk", "input", "vhost-user-gp", "vhost-user-scmi", "vhost-user-eavb"] {
        assert_eq!(question_for(name), HostQuestion::Path);
    }
    assert_eq!(question_for("console"), HostQuestion::ConsoleFile);
    assert_eq!(question_for("net"), HostQuestion::Macs);
    for name in ["vm", "log", "sandbox", "scmi", "vsock"] {
        assert_eq!(question_for(name), HostQuestion::Nothing);
    }
    let mut vm = VMBackend::new();
    assert!(vm.set_argument("scmi", Some("true,label=1"), absent()).is_ok());
    assert!(!vm.is_empty(DeviceKind::Scmi));
}

#[test]
fn flags_and_the_name_are_kept() {
    let mut vm = VMBackend::new();
    assert!(vm.set_argument("sandbox", None, facts()).is_ok());
    assert!(vm.set_argument("use-non-protected-virtio", None, facts()).is_ok());
    assert!(vm.set_argument("vm", Some("guest"), facts()).is_ok());
    assert!(vm.cfg.sandbox && vm.cfg.non_protected_virtio);
    assert_eq!(vm.cfg.vm.as_deref(), Some("guest"));
    assert!(!vm.cfg.bkend_dev_exist);
}

#[test]
fn a_device_is_noted_even_if_it_is_refused() {
    let mut vm = VMBackend::new();
    let r = vm.set_argument("disk", Some("/none"), absent());
    match r {
        Err(Error::InvalidValue { value, .. }) => assert_eq!(value, "/none"),
        Ok(()) => panic!("accepted"),
    }
    assert!(vm.cfg.bkend_dev_exist);
    assert!(vm.is_empty(DeviceKind::Disk));
}

#[test]
fn every_kind_of_device_has_its_list() {
    let mut vm = VMBackend::new();
    for (name, value, kind) in [
        ("disk", "/d,label=1", DeviceKind::Disk),
        ("net", "true,label=2", DeviceKind::Net),
        ("vhost-user-gp", "/s,label=3", DeviceKind::Gp),
        ("scmi", "true,label=4", DeviceKind::Scmi),
        ("vhost-user-scmi", "/s,label=5", DeviceKind::VuScmi),
        ("vhost-user-i2c", "/s,label=6", DeviceKind::I2c),
        ("vhost-user-fs", "/s,label=7,tag=t", DeviceKind::Fs),
        ("vhost-user-frpc", "/s,label=8", DeviceKind::Frpc),
        ("vhost-user-ssr", "/s,label=9", DeviceKind::Ssr),
        ("vhost-user-gpio", "/s,label=a", DeviceKind::Gpio),
        ("vhost-user-hab", "/s,label=b", DeviceKind::Hab),
        ("input", "/dev/i,label=c", DeviceKind::Input),
        ("console", "stdio,label=d", DeviceKind::Console),
        ("vsock", "cid=3,label=e", DeviceKind::Vsock),
        ("vhost-user-eavb", "/s,label=f", DeviceKind::Eavb),
        ("vhost-user-generic", "/s,label=10", DeviceKind::Generic),
    ] {
        assert!(vm.is_empty(kind));
        assert!(vm.set_argument(name, Some(value), facts()).is_ok());
        assert!(!vm.is_empty(kind));
    }
    assert!(vm.is_empty(DeviceKind::Vcpus));
    assert_eq!(vm.vugeneric_devices.vugeneric_devices[0].common.label, 16);
}

#[test]
fn the_log_is_set_up() {
    let mut vm = VMBackend::new();
    let log = vm.set_logger();
    assert_eq!(log.tag, "qcrosvm");
    assert_eq!((log.kind, log.level), (LoggerKind::Ftrace, LevelFilter::Info));
    assert!(vm.set_argument("log", Some("level=DeBuG,type=term"), facts()).is_ok());
    assert!(vm.set_argument("vm", Some("guest"), facts()).is_ok());
    let log = vm.set_logger();
    assert_eq!(log.tag, "qcrosvm_guest");
    assert_eq!((log.kind, log.level), (LoggerKind::Term, LevelFilter::Debug));
    assert!(vm.set_argument("log", Some("type=logcat"), facts()).is_ok());
    assert_eq!(vm.set_logger().kind, LoggerKind::Logcat);
}

#[test]
fn levels_are_read_by_name() {
    for (name, filter) in [
        ("error", LevelFilter::Error),
        ("WARN", LevelFilter::Warn),
        ("Info", LevelFilter::Info),
        ("debug", LevelFilter::Debug),
        ("tRACE", LevelFilter::Trace),
    ] {
        let mut cfg = BackendConfig::new();
        assert!(cfg.set_log(&format!("level={}", name)).is_ok());
        assert_eq!(cfg.log_level, filter);
    }
    assert_eq!(Level::Warn.to_level_filter(), LevelFilter::Warn);
}

#[test]
fn the_log_is_refused_for_each_reason() {
    for (param, bad, expected) in [
        ("level", "level", "log options must be of the form `kind=value`"),
        ("level=loud", "loud", "trace | debug | info | warn | error"),
        ("level=off", "off", "trace | debug | info | warn | error"),
        ("type=file", "file", "supported logger options. 'type=logcat|term|ftrace"),
        ("size=1", "size", "supported logger options. 'type=logcat | term | ftrace'"),
    ] {
        let mut cfg = BackendConfig::new();
        match cfg.set_log(param) {
            Err(Error::InvalidValue { value, expected: said }) => {
                assert_eq!((value.as_str(), said.as_str()), (bad, expected))
            }
            Ok(()) => panic!("accepted {}", param),
        }
    }
    let mut cfg = BackendConfig::new();
    assert!(cfg.set_log("level=trace,type=paper,level=error").is_err());
    assert_eq!(cfg.log_level, LevelFilter::Trace);
    assert_eq!(cfg.log_type.as_deref(), Some("ftrace"));
}

#[test]
fn every_kind_runs_once() {
    let order = device_order();
    assert_eq!(order.len(), 17);
    assert_eq!(order[0], DeviceKind::Disk);
    assert_eq!(order[15], DeviceKind::Eavb);
    assert_eq!(order[16], DeviceKind::Vcpus);
    for i in 0..order.len() {
        for j in 0..i {
            assert_ne!(order[i], order[j]);
        }
    }
}

#[test]
fn processors_are_waited_for_first() {
    let order = device_order();
    let joined = join_order();
    assert_eq!(joined[0], DeviceKind::Vcpus);
    assert_eq!(joined[1..], order[..16]);
}

#[test]
fn an_empty_list_needs_nothing() {
    let vm = VMBackend::new();
    for kind in device_order() {
        let run = vm.create_devices(kind, selectors());
        assert!(matches!(run.action(), CreateAction::Return(Ok(()))));
        assert!(run.into_made().is_empty());
    }
    assert!(matches!(launch(vec![], &vm.cfg).action(), LaunchAction::Return));
}

#[test]
fn a_disk_is_built_with_its_options() {
    let mut vm = VMBackend::new();
    assert!(vm.set_argument("disk", Some("/proc/self/fd/5,label=1"), facts()).is_ok());
    assert!(vm.set_argument("disk", Some("/d,label=2,rw=true,dio=true"), facts()).is_ok());
    adopted(&mut vm);
    let mut run = vm.create_devices(DeviceKind::Disk, selectors());
    match run.action() {
        CreateAction::Build(Build::Block { path, source, lock, read_only, queue_size, .. }) => {
            assert_eq!(path, "/proc/self/fd/5");
            assert_eq!(source, DiskSource::Inherited);
            assert_eq!(lock, DiskLock::Shared);
            assert!(read_only);
            assert_eq!(queue_size, Some(128));
        }
        other => panic!("{:?}", other),
    }
    connect(&mut run, 4);
    match run.action() {
        CreateAction::Build(Build::Block { source, lock, .. }) => {
            assert_eq!(source, DiskSource::File { write: true, direct: true });
            assert_eq!(lock, DiskLock::Exclusive);
        }
        other => panic!("{:?}", other),
    }
    connect(&mut run, 4);
    assert!(matches!(run.action(), CreateAction::Return(Ok(()))));
    let made = run.into_made();
    assert_eq!(made.len(), 2);
    assert!(made[0].is_some() && made[1].is_some());
}

/// Builds the next device and connects it, with requests through `fd`.
fn connect(run: &mut Creation, through: i32) {
    assert!(matches!(run.action(), CreateAction::Build(_)));
    run.advance(CreateEvent::Built(device()));
    for _ in 0..2 {
        match run.action() {
            CreateAction::Step { fd, action: Action::Ioctl { arg, .. } } => {
                assert_eq!(fd, through);
                run.advance(CreateEvent::Replied(granted(arg)));
            }
            other => panic!("{:?}", other),
        }
    }
}

#[test]
fn the_version_of_the_driver_decides() {
    let mut vm = VMBackend::new();
    assert!(vm.set_argument("disk", Some("/d,label=2"), facts()).is_ok());
    assert!(vm.set_argument("scmi", Some("true,label=2"), facts()).is_ok());
    adopted(&mut vm);
    vm.cfg.driver_variant = 1;
    let mut run = vm.create_devices(DeviceKind::Disk, selectors());
    match run.action() {
        CreateAction::Build(Build::Block { queue_size, .. }) => assert_eq!(queue_size, Some(256)),
        other => panic!("{:?}", other),
    }
    connect(&mut run, 3);

    vm.cfg.driver_variant = 3;
    let run = vm.create_devices(DeviceKind::Disk, selectors());
    match run.action() {
        CreateAction::Return(Err(BackendError::StrError(s))) => {
            assert_eq!(s, "Unsupported driver variant.")
        }
        other => panic!("{:?}", other),
    }
    let mut run = vm.create_devices(DeviceKind::Scmi, selectors());
    match run.action() {
        CreateAction::Build(Build::Scmi { path }) => assert_eq!(path, "/dev/vhost-scmi"),
        other => panic!("{:?}", other),
    }
    run.advance(CreateEvent::Built(device()));
    assert!(matches!(run.action(), CreateAction::Return(Err(_))));
}

#[test]
fn interfaces_without_addresses_are_passed_over() {
    let mut vm = VMBackend::new();
    assert!(vm.set_argument("net", Some("true,label=1,ip_addr=1.2.3.4"), facts()).is_ok());
    let value = "true,label=2,ip_addr=1.2.3.4,netmask=255.0.0.0,mac=m,tapName=guest";
    let known = HostFacts { macs: vec![Some([1, 2, 3, 4, 5, 6])], ..facts() };
    assert!(vm.set_argument("net", Some(value), known).is_ok());
    adopted(&mut vm);
    let mut run = vm.create_devices(DeviceKind::Net, selectors());
    match run.action() {
        CreateAction::Build(Build::Net { device_path, ip_addr, netmask, mac_addr, name }) => {
            assert_eq!(device_path, "/dev/vhost-net");
            assert_eq!((ip_addr, netmask), ([1, 2, 3, 4], [255, 0, 0, 0]));
            assert_eq!(mac_addr, [1, 2, 3, 4, 5, 6]);
            assert_eq!(name.as_deref(), Some("vmtap-guest"));
        }
        other => panic!("{:?}", other),
    }
    connect(&mut run, 4);
    assert!(matches!(run.action(), CreateAction::Return(Ok(()))));
    let made = run.into_made();
    assert!(made[0].is_none() && made[1].is_some());
    let parts = vm.release(DeviceKind::Net, made);
    assert_eq!((parts[0].label, parts[1].label), (1, 2));
    assert!(vm.vnet_devices.virtio_nets[1].common.config_space.is_none());
    assert!(matches!(launch(parts, &vm.cfg).action(), LaunchAction::Panic));
}

fn failure(kind: DeviceKind, name: &str, value: &str, failure: BuildFailure) -> String {
    let mut vm = VMBackend::new();
    let known = HostFacts { macs: vec![Some([0; 6]); value.matches("mac=").count()], ..facts() };
    assert!(vm.set_argument(name, Some(value), known).is_ok());
    adopted(&mut vm);
    let mut run = vm.create_devices(kind, selectors());
    run.advance(CreateEvent::NotBuilt { failure, error: "no".to_string() });
    match run.action() {
        CreateAction::Return(Err(e)) => e.message(),
        other => panic!("{:?}", other),
    }
}

#[test]
fn devices_that_cannot_be_built_are_reported() {
    let net = "true,ip_addr=1.1.1.1,netmask=1.1.1.1,mac=m";
    for (kind, name, value, step, message) in [
        (DeviceKind::Disk, "disk", "/proc/self/fd/1", BuildFailure::FileDescriptor, "Error: raw_fd_from_path failed"),
        (DeviceKind::Disk, "disk", "/d", BuildFailure::Open, "Error: open of disk file failed (no)"),
        (DeviceKind::Disk, "disk", "/d", BuildFailure::Lock, "Error: flock on disk file failed (no)"),
        (DeviceKind::Disk, "disk", "/d", BuildFailure::DiskFile, "Error: create_disk_file failed (no)"),
        (DeviceKind::Disk, "disk", "/d", BuildFailure::Device, "Error: virtio_block_new failed"),
        (DeviceKind::Net, "net", net, BuildFailure::Device, "Error: vhost_net_new failed"),
        (DeviceKind::Net, "net", "true,ip_addr=1.1.1.1,netmask=1.1.1.1,mac=m,tapName=t", BuildFailure::Device, "Error: new with name failed failed"),
        (DeviceKind::Gp, "vhost-user-gp", "/s", BuildFailure::Device, "Error: vhost gp new failed"),
        (DeviceKind::VuScmi, "vhost-user-scmi", "/s", BuildFailure::Device, "Error: vhost scmi new failed"),
        (DeviceKind::I2c, "vhost-user-i2c", "/s", BuildFailure::Device, "Error: vhost user i2c new failed"),
        (DeviceKind::Gpio, "vhost-user-gpio", "/s", BuildFailure::Device, "Error: vhost user gpio new failed"),
        (DeviceKind::Frpc, "vhost-user-frpc", "/s", BuildFailure::Device, "Error: vhost frpc new failed"),
        (DeviceKind::Ssr, "vhost-user-ssr", "/s", BuildFailure::Device, "Error: vhost user ssr new failed"),
        (DeviceKind::Eavb, "vhost-user-eavb", "/s", BuildFailure::Device, "Error: vhost eavb new failed"),
        (DeviceKind::Hab, "vhost-user-hab", "/s", BuildFailure::Device, "Error: vhost hab new failed"),
        (DeviceKind::Fs, "vhost-user-fs", "/s", BuildFailure::Device, "Error: vhost user fs new failed"),
        (DeviceKind::Generic, "vhost-user-generic", "/s", BuildFailure::Device, "Error: vhost user generic new failed"),
        (DeviceKind::Input, "input", "/i", BuildFailure::Open, "Error: open vinput device faild (no)"),
        (DeviceKind::Input, "input", "/i", BuildFailure::Device, "Error: set up input device failed"),
        (DeviceKind::Console, "console", "stdio", BuildFailure::Event, "Error: failed to create event"),
        (DeviceKind::Console, "console", "stdio", BuildFailure::Device, "Error: failed to create console device"),
        (DeviceKind::Scmi, "scmi", "true", BuildFailure::Device, "Error: virtio scmi new failed"),
    ] {
        assert_eq!(failure(kind, name, value, step), message);
    }
}

#[test]
fn a_socket_to_the_host_is_different() {
    let mut vm = VMBackend::new();
    assert!(vm.set_argument("vsock", Some("cid=9,label=1"), facts()).is_ok());
    adopted(&mut vm);
    let mut run = vm.create_devices(DeviceKind::Vsock, selectors());
    match run.action() {
        CreateAction::Build(Build::Vsock { path, cid }) => {
            assert_eq!((path.as_str(), cid), ("/dev/vhost-vsock", 9))
        }
        other => panic!("{:?}", other),
    }
    run.advance(CreateEvent::Built(device()));
    match run.action() {
        CreateAction::Step { action: Action::Ioctl { arg, .. }, .. } => {
            run.advance(CreateEvent::Replied(Reply::Ioctl { ret: -1, arg, error: String::new() }))
        }
        other => panic!("{:?}", other),
    }
    assert!(matches!(run.action(), CreateAction::Return(Ok(()))));

    let mut run = vm.create_devices(DeviceKind::Vsock, selectors());
    run.advance(CreateEvent::NotBuilt { failure: BuildFailure::Device, error: String::new() });
    assert!(matches!(run.action(), CreateAction::Panic));
}

#[test]
fn devices_behind_sockets_are_built_from_them() {
    let mut vm = VMBackend::new();
    assert!(vm.set_argument("vhost-user-gpio", Some("/g,label=1"), facts()).is_ok());
    assert!(vm.set_argument("vhost-user-hab", Some("/h,device-id=4,queue-num=5"), facts()).is_ok());
    assert!(vm.set_argument("vhost-user-fs", Some("/f,tag=x"), facts()).is_ok());
    adopted(&mut vm);
    match vm.create_devices(DeviceKind::Gpio, selectors()).action() {
        CreateAction::Build(Build::VhostUser { kind, socket }) => {
            assert_eq!((kind, socket.as_str()), (VhostUserKind::Gpio, "/g"))
        }
        other => panic!("{:?}", other),
    }
    match vm.create_devices(DeviceKind::Hab, selectors()).action() {
        CreateAction::Build(Build::VhostUserHab { socket, device_id, no_of_queues }) => {
            assert_eq!((socket.as_str(), device_id, no_of_queues), ("/h", 4, 5))
        }
        other => panic!("{:?}", other),
    }
    match vm.create_devices(DeviceKind::Fs, selectors()).action() {
        CreateAction::Build(Build::VhostUserFs { socket, tag }) => {
            assert_eq!((socket.as_str(), tag.as_str()), ("/f", "x"))
        }
        other => panic!("{:?}", other),
    }
    assert!(matches!(
        vm.create_devices(DeviceKind::Gp, selectors()).action(),
        CreateAction::Return(Ok(()))
    ));
}

#[test]
fn an_input_device_is_described_after_it_is_connected() {
    let mut vm = VMBackend::new();
    assert!(vm.set_argument("input", Some("/i,label=1"), facts()).is_ok());
    adopted(&mut vm);
    let mut run = vm.create_devices(DeviceKind::Input, selectors());
    connect(&mut run, 4);
    match run.action() {
        CreateAction::Step { fd, action: Action::MmioWrite { offset, data } } => {
            assert_eq!((fd, offset, data), (4, 0x100, vec![1, 0]));
            run.advance(CreateEvent::Replied(Reply::Written));
        }
        other => panic!("{:?}", other),
    }
    run.advance(CreateEvent::Replied(Reply::Read(vec![0; 136])));
    assert!(matches!(run.action(), CreateAction::Panic));
}

#[test]
fn a_device_without_registers_ends_the_backend() {
    let mut vm = VMBackend::new();
    assert!(vm.set_argument("disk", Some("/d"), facts()).is_ok());
    adopted(&mut vm);
    let mut run = vm.create_devices(DeviceKind::Disk, selectors());
    run.advance(CreateEvent::NoRegisters);
    assert!(matches!(run.action(), CreateAction::Panic));
}

#[test]
fn one_thread_is_started_for_each_device() {
    let mut vm = VMBackend::new();
    for label in ["1", "2"] {
        let value = format!("/d,label={}", label);
        assert!(vm.set_argument("disk", Some(&value), facts()).is_ok());
    }
    adopted(&mut vm);
    let parts = vm.release(DeviceKind::Disk, vec![Some(device()), Some(device())]);
    let mut run = launch(parts, &vm.cfg);
    let mut started: Vec<u32> = Vec::new();
    loop {
        match run.action() {
            LaunchAction::Return => break,
            LaunchAction::Start { label, fd, device, cspace } => {
                assert_eq!(fd, 4);
                assert_eq!(device.queue_evts, vec![10]);
                assert_eq!(cspace.len(), 1024);
                started.push(label);
                run.advance(LaunchEvent::Started);
            }
            LaunchAction::Step { action: Action::MmioRead { data, .. }, .. } => {
                run.advance(LaunchEvent::Replied(Reply::Read(data)))
            }
            LaunchAction::Step { action: Action::MmioWrite { .. }, .. } => {
                run.advance(LaunchEvent::Replied(Reply::Written))
            }
            LaunchAction::Step { fd, action: Action::Ioctl { arg, .. } } => {
                assert_eq!(fd, 4);
                run.advance(LaunchEvent::Replied(granted(arg)))
            }
            other => panic!("{:?}", other),
        }
    }
    assert_eq!(started, vec![1, 2]);
}

#[test]
fn processors_are_created_in_order() {
    let mut vcpus = Vcpus { vcpus: vec![], vcpu_count: 3 };
    let mut run = vcpus.create_vcpus();
    for (id, ret) in [(0u64, 20), (1, 21), (2, -1)] {
        match run.action() {
            Action::Ioctl { cmd, arg: IoctlArg::Value(v) } => {
                assert_eq!((cmd, v), (machine_cmd(VmCommand::CreateVcpu), id));
                run.advance(Reply::Ioctl { ret, arg: IoctlArg::Value(v), error: "no".to_string() });
            }
            other => panic!("{:?}", other),
        }
    }
    match run.action() {
        Action::Return(Err(e)) => assert_eq!(e.message(), "Error: create vcpu ioctl failed (no)"),
        other => panic!("{:?}", other),
    }
    vcpus.take_created(run);
    assert_eq!(vcpus.vcpus, vec![Vcpu { id: 0, raw_fd: 20 }, Vcpu { id: 1, raw_fd: 21 }]);
    assert!(vcpus.set_argument(None).is_ok());
}

#[test]
fn the_numbers_of_processors_wrap() {
    let mut vcpus = Vcpus { vcpus: vec![], vcpu_count: 257 };
    let mut run = vcpus.create_vcpus();
    while let Action::Ioctl { arg, .. } = run.action() {
        run.advance(Reply::Ioctl { ret: 5, arg, error: String::new() });
    }
    assert!(matches!(run.action(), Action::Return(Ok(()))));
    vcpus.take_created(run);
    assert_eq!(vcpus.vcpus.len(), 257);
    assert_eq!(vcpus.vcpus[255].id, 255);
    assert_eq!(vcpus.vcpus[256].id, 0);
}

#[test]
fn a_processor_that_stops_is_reported() {
    let vcpu = Vcpu { id: 12, raw_fd: 1 };
    assert_eq!(vcpu.name("guest"), "guest_vcpu12");
    assert_ne!(vcpu.name("guest"), Vcpu { id: 1, raw_fd: 1 }.name("guest"));
    match vcpu.run_vcpu("guest", 0) {
        VcpuExit::Exit { message } => assert_eq!(message, "guest_vcpu12 returned 0"),
        other => panic!("{:?}", other),
    }
    match vcpu.run_vcpu("guest", -22) {
        VcpuExit::Panic { message } => {
            assert_eq!(message, "guest_vcpu12 exited with reason -22")
        }
        other => panic!("{:?}", other),
    }
    assert_eq!(
        vcpu.no_thread("guest", "busy").message(),
        "Error: guest_vcpu12 thread create failed (busy)"
    );
}

fn started(arguments: &[(&str, Option<&str>)]) -> (VMBackend, BackendRun) {
    let mut vm = VMBackend::new();
    for (name, value) in arguments {
        assert!(vm.set_argument(name, *value, facts()).is_ok());
    }
    let run = vm.run_backend(0x1000);
    (vm, run)
}

fn answered(ret: i32, arg: IoctlArg) -> RunEvent {
    RunEvent::Ioctl { ret, arg, error: "EIO".to_string() }
}

/// Takes the run to the request `cmd`, with success.
fn go_to(run: &mut BackendRun, cmd: VmCommand) {
    loop {
        match run.action() {
            RunAction::Ioctl { cmd: c, .. } if c == machine_cmd(cmd) => return,
            RunAction::Jail { .. } => run.advance(RunEvent::Jailed(true)),
            RunAction::Open { .. } => {
                run.advance(RunEvent::Opened { fd: 3, error: String::new() })
            }
            RunAction::Ioctl { cmd: c, arg, .. } => {
                let ret = if c == machine_cmd(VmCommand::CreateVm) {
                    7
                } else if c == machine_cmd(VmCommand::GetMemCount) {
                    2
                } else {
                    0
                };
                run.advance(answered(ret, arg));
            }
            other => panic!("{:?}", other),
        }
    }
}

fn end(run: &BackendRun) -> (String, bool) {
    match run.action() {
        RunAction::Panic { message, usage } => (message, usage),
        other => panic!("{:?}", other),
    }
}

#[test]
fn a_backend_needs_a_name() {
    let (_, run) = started(&[]);
    assert_eq!(end(&run), ("Error: missing vm argument".to_string(), true));
}

#[test]
fn a_sandbox_comes_first() {
    let (_, mut run) = started(&[("vm", Some("g")), ("sandbox", None)]);
    match run.action() {
        RunAction::Jail { policy } => {
            assert_eq!(policy, "/system_ext/etc/seccomp_policy/qcrosvm.policy")
        }
        other => panic!("{:?}", other),
    }
    run.advance(RunEvent::Jailed(false));
    assert_eq!(end(&run), ("Minijail enforcement failed!!".to_string(), false));
}

#[test]
fn a_backend_with_devices_runs() {
    let (mut vm, mut run) = started(&[("vm", Some("guest")), ("disk", Some("/d,label=1"))]);
    match run.action() {
        RunAction::Open { path } => assert_eq!(path, "/dev/gunyah"),
        other => panic!("{:?}", other),
    }
    go_to(&mut run, VmCommand::SetFwName);
    match run.action() {
        RunAction::Ioctl { fd, arg: IoctlArg::FwName(name), .. } => {
            assert_eq!(fd, 7);
            assert_eq!(&name[..6], b"guest\0");
            assert_eq!(name[15], 0);
            run.advance(answered(0, IoctlArg::FwName(name)));
        }
        other => panic!("{:?}", other),
    }
    match run.action() {
        RunAction::Ioctl { fd, cmd, arg } => {
            assert_eq!((fd, cmd), (7, machine_cmd(VmCommand::GetVcpuCount)));
            run.advance(answered(512, arg));
        }
        other => panic!("{:?}", other),
    }
    match run.action() {
        RunAction::Ioctl { cmd, arg: IoctlArg::SharedMemorySize(0), .. } => {
            assert_eq!(cmd, machine_cmd(VmCommand::GetSharedMemorySize));
            run.advance(answered(0, IoctlArg::SharedMemorySize(0x20_0000)));
        }
        other => panic!("{:?}", other),
    }
    match run.action() {
        RunAction::MapRegion { region: r } => {
            assert_eq!((r.addr, r.size, r.offset, r.fd), (0, 0x20_0000, 0, 7));
            run.advance(RunEvent::Mapped(true));
        }
        other => panic!("{:?}", other),
    }
    match run.action() {
        RunAction::MapMemory { regions } => {
            assert_eq!((regions.len(), regions[0].size), (1, 0x20_0000));
            run.advance(RunEvent::Mapped(true));
        }
        other => panic!("{:?}", other),
    }
    match run.action() {
        RunAction::Adopt(known) => {
            assert_eq!((known.sfd, known.vm_sfd, known.vcpu_count), (3, 7, 512));
            assert!(known.mem.is_some());
            vm.adopt(known);
            run.advance(RunEvent::Done);
        }
        other => panic!("{:?}", other),
    }
    assert_eq!((vm.cfg.sfd, vm.cfg.vm_sfd, vm.vcpus.vcpu_count), (Some(3), Some(7), 512));
    for kind in device_order() {
        match run.action() {
            RunAction::RunDevices(k) => assert_eq!(k, kind),
            other => panic!("{:?}", other),
        }
        run.advance(RunEvent::Done);
    }
    for kind in join_order() {
        match run.action() {
            RunAction::Join(k) => assert_eq!(k, kind),
            other => panic!("{:?}", other),
        }
        run.advance(RunEvent::Done);
    }
    assert!(matches!(run.action(), RunAction::Return));
}

#[test]
fn a_backend_without_devices_maps_nothing() {
    let (_, mut run) = started(&[("vm", Some("guest"))]);
    go_to(&mut run, VmCommand::GetVcpuCount);
    run.advance(answered(1, IoctlArg::Nothing));
    match run.action() {
        RunAction::Adopt(known) => assert!(known.mem.is_none()),
        other => panic!("{:?}", other),
    }
}

#[test]
fn regions_of_whole_pages_are_mapped() {
    let (_, mut run) = started(&[
        ("vm", Some("guest")),
        ("use-non-protected-virtio", None),
        ("disk", Some("/d,label=1")),
    ]);
    learn_regions(&mut run);
    match run.action() {
        RunAction::MapMemory { regions } => {
            assert_eq!(regions.len(), 1);
            let r = regions[0];
            assert_eq!((r.addr, r.size, r.offset, r.fd), (0x8000, 0x1000, 0, 30));
        }
        other => panic!("{:?}", other),
    }
    run.advance(RunEvent::Mapped(false));
    assert_eq!(end(&run).0, "Error: the memory cannot be mapped");
}

/// Answers for two regions, of which only the first is a whole number of pages.
fn learn_regions(run: &mut BackendRun) {
    go_to(run, VmCommand::GetMemRegion);
    for (idx, size) in [(0u8, 0x1000u64), (1, 0x1001)] {
        match run.action() {
            RunAction::Ioctl { arg: IoctlArg::MemRegion(mut m), .. } => {
                assert_eq!((m.mem_idx, m.mem_phys, m.mem_size, m.fd), (idx, 0, 0, 0));
                m.mem_phys = 0x8000;
                m.mem_size = size;
                m.fd = 30;
                run.advance(answered(0, IoctlArg::MemRegion(m)));
            }
            other => panic!("{:?}", other),
        }
        if idx == 0 {
            match run.action() {
                RunAction::MapRegion { region } => assert_eq!((region.size, region.fd), (0x1000, 30)),
                other => panic!("{:?}", other),
            }
            run.advance(RunEvent::Mapped(true));
        }
    }
}

#[test]
fn regions_are_mapped_even_without_devices() {
    let (_, mut run) = started(&[("vm", Some("guest")), ("use-non-protected-virtio", None)]);
    learn_regions(&mut run);
    match run.action() {
        RunAction::Adopt(known) => assert!(known.mem.is_none()),
        other => panic!("{:?}", other),
    }

    let (_, mut run) = started(&[("vm", Some("guest")), ("use-non-protected-virtio", None)]);
    go_to(&mut run, VmCommand::GetMemRegion);
    match run.action() {
        RunAction::Ioctl { arg: IoctlArg::MemRegion(mut m), .. } => {
            m.mem_size = 0x2000;
            run.advance(answered(0, IoctlArg::MemRegion(m)));
        }
        other => panic!("{:?}", other),
    }
    run.advance(RunEvent::Mapped(false));
    assert_eq!(end(&run).0, "Error: the region cannot be mapped");
}

#[test]
fn a_run_ends_for_each_reason() {
    let (_, mut run) = started(&[("vm", Some("g"))]);
    run.advance(RunEvent::Opened { fd: -1, error: "ENOENT".to_string() });
    assert_eq!(end(&run), ("Error: device node open failed ENOENT".to_string(), false));

    for (cmd, ret, message) in [
        (VmCommand::CreateVm, -1, "Error: create vm ioctl failed with error EIO"),
        (VmCommand::SetFwName, 1, "Error: set fw name ioctl failed with error EIO"),
        (VmCommand::GetVcpuCount, -1, "Error: get vcpu count ioctl failed EIO"),
        (VmCommand::GetVcpuCount, 513, "Error: get vcpu count ioctl failed EIO"),
        (VmCommand::GetMemCount, 0, "Error: get vm mem count ioctl failed EIO"),
        (VmCommand::GetMemRegion, 2, "Error: get vm mem region ioctl failed EIO"),
    ] {
        let (_, mut run) = started(&[("vm", Some("g")), ("use-non-protected-virtio", None)]);
        go_to(&mut run, cmd);
        match run.action() {
            RunAction::Ioctl { arg, .. } => run.advance(answered(ret, arg)),
            other => panic!("{:?}", other),
        }
        assert_eq!(end(&run), (message.to_string(), false));
    }

    for (ret, size, message) in [
        (1, 0x1000, "Error: get vm shared memory size ioctl failed EIO"),
        (0, 0, "Error: get vm shared memory size ioctl failed EIO"),
        (0, 0x1001, "Error: the shared memory is not aligned"),
    ] {
        let (_, mut run) = started(&[("vm", Some("g")), ("disk", Some("/d"))]);
        go_to(&mut run, VmCommand::GetSharedMemorySize);
        run.advance(answered(ret, IoctlArg::SharedMemorySize(size)));
        assert_eq!(end(&run), (message.to_string(), false));
    }

    let (_, mut run) = started(&[("vm", Some("a name that is too long"))]);
    go_to(&mut run, VmCommand::CreateVm);
    run.advance(answered(7, IoctlArg::Nothing));
    assert_eq!(end(&run).0, "Error: the name of the virtual machine is too long");
}
