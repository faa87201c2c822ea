use qcrosvm::argument::Error;
use qcrosvm::console::{file_to_try, old_log, VirtioConsole, VirtioConsoleDevices};
use qcrosvm::creation::{SerialHardware, SerialType};
use qcrosvm::disk::{is_inherited, raw_fd_from_path, VirtioDisk, VirtioDiskDevices};
use qcrosvm::fs::{VuVirtioFs, VuVirtioFsDevices};
use qcrosvm::generic::{VuVirtioGeneric, VuVirtioGenericDevices};
use qcrosvm::hab::{VirtioHab, VirtioHabDevices};
use qcrosvm::input::{VirtioInput, VirtioInputDevices};
use qcrosvm::net::{mac_texts, VirtioNet, VirtioNetDevices};
use qcrosvm::scmi::{ScmiDevice, ScmiDevices};
use qcrosvm::vhost_user::{
    VirtioEAVB, VirtioEAVBDevices, VuGPDevices, VuScmiDevices, VuVirtioGP, VuVirtioGpioDevices,
    VuVirtioI2c, VuVirtioI2cDevices, VuVirtioScmi, VuVirtioSsrDevices, VuVirtiofrpc,
    VuVirtiofrpcDevices,
};
use qcrosvm::vsock::{VirtioSock, VirtioSockDevices};
use qcrosvm::wait::{SocketWait, WaitStep};

fn refusal<T>(r: Result<T, Error>) -> (String, String) {
    match r {
        Ok(_) => panic!("the argument was accepted"),
        Err(Error::InvalidValue { value, expected }) => (value, expected),
    }
}

fn refused<T>(r: Result<T, Error>, value: &str, expected: &str) {
    assert_eq!(refusal(r), (value.to_string(), expected.to_string()));
}

#[test]
fn a_disk_has_defaults() {
    let disk = VirtioDisk::new();
    assert_eq!(disk.common.label, 0);
    assert!(disk.common.mmio.is_none());
    assert_eq!(disk.common.config_space, Some(vec![]));
    assert!(disk.disk.read_only);
    assert!(!disk.disk.o_direct);
    assert!(disk.disk.sparse);
    assert_eq!(disk.disk.block_size, 512);
}

#[test]
fn a_disk_takes_its_options() {
    let mut disks = VirtioDiskDevices::new();
    let value = "/data/a.img,label=1F,rw=true,sparse=false,block_size=1024,dio=true";
    assert!(disks.set_argument(Some(value), true).is_ok());
    assert_eq!(disks.virtio_disks.len(), 1);
    let disk = &disks.virtio_disks[0];
    assert_eq!(disk.common.label, 31);
    assert_eq!(disk.disk.path, "/data/a.img");
    assert!(!disk.disk.read_only);
    assert!(!disk.disk.sparse);
    assert!(disk.disk.o_direct);
    assert_eq!(disk.disk.block_size, 1024);
}

#[test]
fn the_last_option_of_a_disk_stands() {
    let mut disks = VirtioDiskDevices::new();
    assert!(disks.set_argument(Some("a,label=2,label=3,rw=true,rw=false"), true).is_ok());
    assert_eq!(disks.virtio_disks[0].common.label, 3);
    assert!(disks.virtio_disks[0].disk.read_only);
}

#[test]
fn a_disk_is_refused_for_each_reason() {
    let mut d = VirtioDiskDevices::new();
    refused(d.set_argument(Some("x,label=1"), false), "x,label=1", "disk path must be an existing path");
    refused(d.set_argument(Some("x,label"), true), "label", "disk options must be of the form `kind=value`");
    refused(d.set_argument(Some("x,"), true), "", "disk options must be of the form `kind=value`");
    refused(d.set_argument(Some("x,label=z"), true), "z", "`label` must be an unsigned integer");
    refused(d.set_argument(Some("x,label=0"), true), "0", "`label` must be a non zero integer");
    refused(d.set_argument(Some("x,sparse=1"), true), "1", "`sparse` must be a boolean");
    refused(d.set_argument(Some("x,block_size=big"), true), "big", "`block_size` must be an integer");
    refused(d.set_argument(Some("x,block_size=513"), true), "513", "`block_size` must be 512 or 1024");
    refused(d.set_argument(Some("x,rw=yes"), true), "yes", "`rw` must be a boolean");
    refused(d.set_argument(Some("x,dio=no"), true), "no", "`dio` must be a boolean");
    refused(d.set_argument(Some("x,colour=red"), true), "colour", "supported disk options only");
    refused(d.set_argument(Some("x,label=1,label=0,rw=?"), true), "0", "`label` must be a non zero integer");
    assert!(d.virtio_disks.is_empty());
}

#[test]
fn descriptors_are_found_in_paths() {
    assert!(is_inherited("/proc/self/fd/7"));
    assert!(is_inherited("/proc/./self//fd/7"));
    assert!(!is_inherited("proc/self/fd/7"));
    assert!(!is_inherited("/proc/self/fd"));
    assert!(!is_inherited("/proc/self/fd/7/8"));
    assert_eq!(raw_fd_from_path("/proc/self/fd/7", true), Some(7));
    assert_eq!(raw_fd_from_path("/proc/self/fd/7", false), None);
    assert_eq!(raw_fd_from_path("/proc/self/fd/x", true), None);
    assert_eq!(raw_fd_from_path("/proc/self/fd/..", true), None);
}

#[test]
fn an_interface_takes_its_options() {
    let value = "true,label=a,ip_addr=10.0.0.1,netmask=255.255.255.0,mac=02:00:00:00:00:01,tapName=vm";
    assert_eq!(mac_texts(value), vec!["02:00:00:00:00:01"]);
    let mut nets = VirtioNetDevices::new();
    assert_eq!(nets.vhost_net_device_path, "/dev/vhost-net");
    assert!(nets.vhost_net);
    assert!(nets.set_argument(Some(value), vec![Some([2, 0, 0, 0, 0, 1])]).is_ok());
    assert!(nets.network_dev);
    let net = &nets.virtio_nets[0];
    assert_eq!(net.common.label, 10);
    assert_eq!(net.ip_addr, Some([10, 0, 0, 1]));
    assert_eq!(net.netmask, Some([255, 255, 255, 0]));
    assert_eq!(net.mac_addr, Some([2, 0, 0, 0, 0, 1]));
    assert_eq!(net.tap_name.as_deref(), Some("vm"));
    assert!(net.warnings().is_empty());
}

#[test]
fn an_interface_needs_no_word_in_front() {
    let mut nets = VirtioNetDevices::new();
    assert_eq!(mac_texts("mac=x,label=a"), vec!["x"]);
    assert!(nets.set_argument(Some("label=a,ip_addr=10.0.0.1"), vec![]).is_ok());
    assert!(nets.set_argument(Some("true,label=a,ip_addr=10.0.0.1"), vec![]).is_ok());
    for net in &nets.virtio_nets {
        assert_eq!(net.common.label, 10);
        assert_eq!(net.ip_addr, Some([10, 0, 0, 1]));
    }
    assert!(nets.set_argument(Some("mac=x,label=b"), vec![Some([7; 6])]).is_ok());
    assert_eq!(nets.virtio_nets[2].mac_addr, Some([7; 6]));
}

#[test]
fn an_interface_is_refused_for_each_reason() {
    let mut n = VirtioNetDevices::new();
    refused(n.set_argument(Some("no,label"), vec![]), "label", "net options must be of the form `kind=value`");
    assert!(!n.network_dev);
    refused(n.set_argument(Some("true,label=q"), vec![]), "q", "`label` must be an unsigned integer");
    assert!(n.network_dev);
    refused(n.set_argument(Some("true,label=0"), vec![]), "0", "invalid `label` value");
    refused(n.set_argument(Some("true,ip_addr=1.2"), vec![]), "1.2", "`ip_addr` needs to be in the form \"x.x.x.x\"");
    refused(n.set_argument(Some("true,netmask=f"), vec![]), "f", "`netmask` needs to be in the form \"x.x.x.x\"");
    refused(n.set_argument(Some("true,mac=zz"), vec![None]), "zz", "`mac` needs to be in the form \"XX:XX:XX:XX:XX:XX\"");
    refused(n.set_argument(Some("true,speed=9"), vec![]), "speed", "unrecognized net option");
    assert!(n.virtio_nets.is_empty());
}

#[test]
fn the_last_hardware_address_stands() {
    let value = "true,mac=a,label=1,mac=b";
    assert_eq!(mac_texts(value), vec!["a", "b"]);
    let mut nets = VirtioNetDevices::new();
    let macs = vec![Some([1, 1, 1, 1, 1, 1]), Some([2, 2, 2, 2, 2, 2])];
    assert!(nets.set_argument(Some(value), macs).is_ok());
    assert_eq!(nets.virtio_nets[0].mac_addr, Some([2, 2, 2, 2, 2, 2]));
    assert_eq!(
        nets.virtio_nets[0].warnings(),
        vec!["ip address not found", "netmask not found"]
    );
    assert!(VirtioNet::new().warnings().is_empty());
}

#[test]
fn a_channel_takes_its_options() {
    let mut habs = VirtioHabDevices::new();
    assert!(habs.set_argument(Some("/run/hab,label=11,device-id=7,queue-num=2"), true).is_ok());
    let hab = &habs.virtio_hab_devices[0];
    assert_eq!(hab.common.label, 17);
    assert_eq!(hab.hab_device_id, 7);
    assert_eq!(hab.no_of_queues, 2);
    assert_eq!(hab.vhost_user_hab.socket, "/run/hab");
    assert_eq!(VirtioHab::new().no_of_queues, 0);
}

#[test]
fn a_channel_is_refused_for_each_reason() {
    let mut h = VirtioHabDevices::new();
    refused(h.set_argument(Some("s"), false), "s", "vhost-user-hab socket path must be an existing path");
    refused(h.set_argument(Some("s,x"), true), "x", "vhost HAB options must be of the form `kind=value`");
    refused(h.set_argument(Some("s,label=-"), true), "-", "`label` must be an unsigned integer");
    refused(h.set_argument(Some("s,label=0"), true), "0", "`label` must be a non zero integer");
    refused(h.set_argument(Some("s,device-id=a"), true), "a", "device-id must be an integer");
    refused(h.set_argument(Some("s,queue-num=a"), true), "a", "queue number must be an integer ");
    refused(h.set_argument(Some("s,device_id=1"), true), "device_id", "supported vhost hab options only");
    assert!(h.virtio_hab_devices.is_empty());
}

#[test]
fn a_file_system_takes_its_options() {
    let mut all = VuVirtioFsDevices::new();
    assert!(all.set_argument(Some("/run/fs,label=5,tag=shared=1"), true).is_ok());
    assert_eq!(all.vufs_devices[0].tag, "shared=1");
    assert_eq!(all.vufs_devices[0].common.label, 5);
    assert_eq!(all.vufs_devices[0].vhost_user_fs.socket, "/run/fs");
    assert_eq!(VuVirtioFs::new("t".to_string()).tag, "t");
    refused(all.set_argument(Some("s"), false), "s", "vhost-user-fs socket path must an existing path");
    refused(all.set_argument(Some("s,x"), true), "x", "vhost-user-fs options must be of the form `kind=value`");
    refused(all.set_argument(Some("s,label=?"), true), "?", "`label` must be an unsigned integer");
    refused(all.set_argument(Some("s,label=0"), true), "0", "`label` must be a non zero integer");
    refused(all.set_argument(Some("s,a=b"), true), "a", "vhost-user-fs only supports label");
    assert_eq!(all.vufs_devices.len(), 1);
}

#[test]
fn a_generic_device_takes_its_options() {
    let mut all = VuVirtioGenericDevices::new();
    assert_eq!(VuVirtioGeneric::new().num_queues, None);
    assert!(all.set_argument(Some("/run/x,queue-num=18446744073709551615,label=1"), true).is_ok());
    assert_eq!(all.vugeneric_devices[0].num_queues, Some(u64::MAX));
    refused(all.set_argument(Some("s"), false), "s", "vhost-user-generic socket path must be an existing path");
    refused(all.set_argument(Some("s,x"), true), "x", "vhost-user-generic options must be of the form `kind=value`");
    refused(all.set_argument(Some("s,queue-num=-1"), true), "-1", "queue number must be an unsigned integer ");
    refused(all.set_argument(Some("s,label=?"), true), "?", "`label` must be an unsigned integer");
    refused(all.set_argument(Some("s,label=0"), true), "0", "`label` must be a non zero integer");
    refused(all.set_argument(Some("s,a=b"), true), "a", "supported vhost-user-generic options only");
}

#[test]
fn a_socket_to_the_host_takes_its_options() {
    let mut all = VirtioSockDevices::new();
    assert_eq!(VirtioSock::new().vhost_vsock_path, "/dev/vhost-vsock");
    assert!(all.set_argument(Some("cid=3,label=1e")).is_ok());
    assert_eq!(all.v_sock_devices[0].context_id, 3);
    assert_eq!(all.v_sock_devices[0].common.label, 30);
    refused(all.set_argument(Some("")), "", "vsock cid must be of the form `cid=value`");
    refused(all.set_argument(Some("true,cid=3")), "true", "vsock cid must be of the form `cid=value`");
    refused(all.set_argument(Some("cid=x")), "x", "context id must be an integer");
    refused(all.set_argument(Some("label=x")), "x", "`label must be an unsigned integer`");
    refused(all.set_argument(Some("label=0")), "0", "`label` must be a non-zero integer");
    refused(all.set_argument(Some("a=b")), "a", "supported vsock options are cid and label");
    assert_eq!(all.v_sock_devices.len(), 1);
}

#[test]
fn a_system_control_device_takes_its_label() {
    let mut all = ScmiDevices::new();
    assert_eq!(ScmiDevice::new().common.label, 0);
    assert!(all.set_argument(Some("true,label=2")).is_ok());
    assert_eq!(all.scmi_devices[0].common.label, 2);
    assert!(all.set_argument(Some("label=2")).is_ok());
    assert_eq!(all.scmi_devices[1].common.label, 2);
    assert!(all.set_argument(Some("label=1c")).is_ok());
    assert_eq!(all.scmi_devices[2].common.label, 28);
    assert!(all.set_argument(Some("true")).is_ok());
    assert_eq!(all.scmi_devices[3].common.label, 0);
    refused(all.set_argument(Some("label=0")), "0", "`label` must be a non zero integer");
    refused(all.set_argument(Some("a=b,label=1")), "a", "supported scmi options only");
    refused(all.set_argument(Some("true,label")), "label", "scmi options must be of the form `kind=value`");
    refused(all.set_argument(Some("true,label=x")), "x", "`label` must be an unsigned integer");
    refused(all.set_argument(Some("true,label=0")), "0", "`label` must be a non zero integer");
    refused(all.set_argument(Some("true,a=b")), "a", "supported scmi options only");
}

#[test]
fn an_input_device_needs_its_file() {
    let mut all = VirtioInputDevices::new();
    assert_eq!(VirtioInput::new().dev_path, "");
    assert!(matches!(all.set_argument(Some("/dev/input/event0,label=6"), true), Ok(true)));
    assert_eq!(all.virtio_inputs[0].dev_path, "/dev/input/event0");
    assert_eq!(all.virtio_inputs[0].common.label, 6);
    assert!(matches!(all.set_argument(Some("/dev/none,label=0"), false), Ok(false)));
    assert_eq!(all.virtio_inputs.len(), 1);
    refused(all.set_argument(Some("p,x"), true), "x", "input options must be of the form `kind=value`");
    refused(all.set_argument(Some("p,label=x"), true), "x", "`label` must be an unsigned integer");
    refused(all.set_argument(Some("p,label=0"), true), "0", "`label` must be a non zero integer");
    refused(all.set_argument(Some("p,a=b"), true), "a", "supported input options only");
}

#[test]
fn a_console_uses_the_terminal_or_a_file() {
    let mut all = VirtioConsoleDevices::new();
    assert!(!VirtioConsole::new().serial_params.console);
    assert_eq!(file_to_try("stdio,label=1", "/cur"), None);
    assert_eq!(file_to_try("stdout,label=1", "/cur"), None);
    assert_eq!(file_to_try("dev/stdio,label=1", "/cur"), None);
    assert_eq!(file_to_try("/tmp/stdout,label=2", "/cur"), Some("/tmp/stdout".to_string()));
    assert_eq!(old_log("stdio,label=1", "/cur", false), None);
    assert_eq!(old_log("log.txt,label=1", "/cur", true), Some("/cur/log.txt".to_string()));
    assert_eq!(old_log("log.txt,label=1", "/cur", false), Some("/tmp/la_gvm.txt".to_string()));
    assert_eq!(file_to_try("log.txt,label=1", "/cur"), Some("/cur/log.txt".to_string()));
    assert_eq!(file_to_try("/log.txt,label=1", "/cur"), Some("/log.txt".to_string()));

    assert!(all.set_argument(Some("stdio,label=1"), "/cur", true).is_ok());
    let p = &all.v_consoles[0].serial_params;
    assert!(p.type_ == SerialType::Stdout && p.hardware == SerialHardware::VirtioConsole);
    assert_eq!(p.path, None);
    assert!(p.stdin && p.console && !p.earlycon && !p.out_timestamp);
    assert_eq!((p.num, p.input.is_none()), (1, true));

    assert!(all.set_argument(Some("log.txt,label=2"), "/cur", true).is_ok());
    let p = &all.v_consoles[1].serial_params;
    assert!(p.type_ == SerialType::File && !p.stdin && p.console);
    assert_eq!(p.path.as_deref(), Some("/cur/log.txt"));
    assert_eq!(all.v_consoles[1].common.label, 2);

    assert!(all.set_argument(Some("log.txt,label=3"), "/cur", false).is_ok());
    assert_eq!(all.v_consoles[2].serial_params.path.as_deref(), Some("/tmp/la_gvm.txt"));

    refused(all.set_argument(Some("p,x"), "/", true), "x", "console options must be of the form `kind=value`");
    refused(all.set_argument(Some("p,label=x"), "/", true), "x", "`label` must be an unsigned integer");
    refused(all.set_argument(Some("p,label=0"), "/", true), "0", "`label` must be a non zero integer");
    refused(all.set_argument(Some("p,a=b"), "/", true), "a", "supported console options only");
    assert_eq!(all.v_consoles.len(), 3);

    assert!(all.set_argument(Some("/tmp/stdout,label=2"), "/cur", true).is_ok());
    let p = &all.v_consoles[3].serial_params;
    assert!(p.type_ == SerialType::File && !p.stdin);
    assert_eq!(p.path.as_deref(), Some("/tmp/stdout"));
}

#[test]
fn devices_behind_sockets_take_their_label() {
    let value = Some("/run/s,label=C");
    let mut gp = VuGPDevices::new();
    assert!(gp.set_argument(value, true).is_ok());
    assert_eq!(gp.vugp_devices[0].common.label, 12);
    assert_eq!(gp.vugp_devices[0].vhost_user_gp.socket, "/run/s");
    let mut scmi = VuScmiDevices::new();
    assert!(scmi.set_argument(value, true).is_ok());
    assert_eq!(scmi.vuscmi_devices[0].vhost_user_scmi.socket, "/run/s");
    let mut i2c = VuVirtioI2cDevices::new();
    assert!(i2c.set_argument(value, true).is_ok());
    assert_eq!(i2c.vui2c_devices[0].vhost_user_i2c.socket, "/run/s");
    let mut gpio = VuVirtioGpioDevices::new();
    assert!(gpio.set_argument(value, true).is_ok());
    assert_eq!(gpio.vugpio_devices[0].vhost_user_gpio.socket, "/run/s");
    let mut frpc = VuVirtiofrpcDevices::new();
    assert!(frpc.set_argument(value, true).is_ok());
    assert_eq!(frpc.vu_frpc_devices[0].vhost_user_frpc.socket, "/run/s");
    let mut ssr = VuVirtioSsrDevices::new();
    assert!(ssr.set_argument(value, true).is_ok());
    assert_eq!(ssr.vussr_devices[0].vhost_user_ssr.socket, "/run/s");
    let mut eavb = VirtioEAVBDevices::new();
    assert!(eavb.set_argument(value, true).is_ok());
    assert_eq!(eavb.virtio_eavb_devices[0].vhost_user_eavb.socket, "/run/s");
    assert_eq!(VuVirtioGP::new().common.label, 0);
    assert_eq!(VuVirtioScmi::new().vhost_user_scmi.socket, "");
    assert_eq!(VuVirtioI2c::new().vhost_user_i2c.socket, "");
    assert_eq!(VuVirtiofrpc::new().vhost_user_frpc.socket, "");
    assert_eq!(VirtioEAVB::new().vhost_user_eavb.socket, "");
}

#[test]
fn devices_behind_sockets_are_refused() {
    let mut gp = VuGPDevices::new();
    refused(gp.set_argument(Some("s,l"), false), "s,l", "vhost-user-gp socket path must be an existing path");
    refused(gp.set_argument(Some("s,l"), true), "l", "vhost gp options must be of the form `kind=value`");
    refused(gp.set_argument(Some("s,a=b"), true), "a", "supported vhost gp options only");
    refused(gp.set_argument(Some("s,label=x"), true), "x", "`label` must be an unsigned integer");
    refused(gp.set_argument(Some("s,label=0"), true), "0", "`label` must be a non zero integer");
    assert!(gp.vugp_devices.is_empty());
    let mut scmi = VuScmiDevices::new();
    refused(scmi.set_argument(Some("s"), false), "s", "vhost-user-scmi socket path must be an existing path");
    refused(scmi.set_argument(Some("s,l"), true), "l", "vhost-user-scmi options must be of the form `kind=value`");
    refused(scmi.set_argument(Some("s,a=b"), true), "a", "vhost-user-scmi only supports label");
    let mut i2c = VuVirtioI2cDevices::new();
    refused(i2c.set_argument(Some("s"), false), "s", "vhost-user-i2c socket path must an existing path");
    refused(i2c.set_argument(Some("s,l"), true), "l", "vhost-user-i2c options must be of the form `kind=value`");
    refused(i2c.set_argument(Some("s,a=b"), true), "a", "vhost-user-i2c only supports label");
    let mut gpio = VuVirtioGpioDevices::new();
    refused(gpio.set_argument(Some("s"), false), "s", "vhost-user-gpio socket path must an existing path");
    refused(gpio.set_argument(Some("s,l"), true), "l", "vhost-user-gpio options must be of the form `kind=value`");
    refused(gpio.set_argument(Some("s,a=b"), true), "a", "vhost-user-gpio only supports label");
    let mut frpc = VuVirtiofrpcDevices::new();
    refused(frpc.set_argument(Some("s"), false), "s", "vhost-user-frpc socket path must be an existing path");
    refused(frpc.set_argument(Some("s,l"), true), "l", "vhost-user-frpc options must be of the form `kind=value`");
    refused(frpc.set_argument(Some("s,a=b"), true), "a", "vhost-user-frpc only supports label");
    let mut ssr = VuVirtioSsrDevices::new();
    refused(ssr.set_argument(Some("s"), false), "s", "vhost-user-ssr socket path must an existing path");
    refused(ssr.set_argument(Some("s,l"), true), "l", "vhost-user-ssr options must be of the form `kind=value`");
    refused(ssr.set_argument(Some("s,a=b"), true), "a", "vhost-user-ssr only supports label");
    let mut eavb = VirtioEAVBDevices::new();
    refused(eavb.set_argument(Some("s"), false), "s", "vhost-user-eavb socket path must be an existing path");
    refused(eavb.set_argument(Some("s,l"), true), "l", "vhost-user-eavb options must be of the form `kind=value`");
    refused(eavb.set_argument(Some("s,a=b"), true), "a", "vhost-user-eavb only supports label");
}

#[test]
fn a_label_is_zero_only_without_options() {
    let mut gp = VuGPDevices::new();
    assert!(gp.set_argument(Some("/run/s"), true).is_ok());
    assert_eq!(gp.vugp_devices[0].common.label, 0);
}

#[test]
fn a_socket_is_waited_for() {
    let mut wait = SocketWait::new();
    for _ in 0..19 {
        assert_eq!(wait.look(false), WaitStep::Sleep(100));
    }
    assert_eq!(wait.look(false), WaitStep::GiveUp);
    let mut wait = SocketWait::new();
    assert_eq!(wait.look(false), WaitStep::Sleep(100));
    assert_eq!(wait.look(true), WaitStep::Found);
}

#[test]
fn what_no_option_speaks_of_stays() {
    let mut disks = VirtioDiskDevices::new();
    assert!(disks.set_argument(Some("/d,label=1"), true).is_ok());
    let disk = &disks.virtio_disks[0].disk;
    assert!(disk.read_only && disk.sparse && !disk.o_direct);
    assert_eq!(disk.block_size, 512);
    assert!(disks.set_argument(Some("/d,rw=true"), true).is_ok());
    assert_eq!(disks.virtio_disks[1].common.label, 0);
    assert!(!disks.virtio_disks[1].disk.read_only);
}
