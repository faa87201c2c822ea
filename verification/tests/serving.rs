use qcrosvm::config_space::init_config_space;
use qcrosvm::driver_ok::handle_driver_ok;
use qcrosvm::error::BackendError;
use qcrosvm::events::{handle_events, is_event_known};
use qcrosvm::input_config::{init_input_config, InputSelectors};
use qcrosvm::ioctl::{to_cmd, IoctlArg, VirtioEvent, VmIoctl};
use qcrosvm::mmio::{Action, MmioDevice, Reply};
use qcrosvm::reset::handle_device_reset;
use qcrosvm::wiring::mmio_handle;

fn device(queue_evts: Vec<i32>) -> MmioDevice {
    let num_queues = queue_evts.len();
    MmioDevice { queue_evts, interrupt_evt: Some(99), num_queues }
}

fn granted(arg: IoctlArg) -> Reply {
    Reply::Ioctl { ret: 0, arg, error: String::new() }
}

fn refused(arg: IoctlArg) -> Reply {
    Reply::Ioctl { ret: -1, arg, error: "Invalid argument".to_string() }
}

fn number(ioc: VmIoctl) -> u64 {
    to_cmd(ioc, 2).unwrap()
}

#[test]
fn every_queue_is_connected_and_then_the_interrupt() {
    let mut run = mmio_handle(&Some(device(vec![10, 11])), 7, 2);
    for (k, fd) in [(0u32, 10), (1, 11)] {
        match run.action() {
            Action::Ioctl { cmd, arg: IoctlArg::EventFd(a) } => {
                assert_eq!(cmd, number(VmIoctl::IoEventFd));
                assert_eq!((a.label, a.flags, a.queue_num, a.fd), (7, 1, k, fd));
                run.advance(granted(IoctlArg::EventFd(a)));
            }
            other => panic!("{:?}", other),
        }
    }
    match run.action() {
        Action::Ioctl { cmd, arg: IoctlArg::IrqFd(a) } => {
            assert_eq!(cmd, number(VmIoctl::IrqFd));
            assert_eq!((a.label, a.flags, a.fd, a.reserved), (7, 1, 99, 0));
            run.advance(Reply::Ioctl { ret: 5, arg: IoctlArg::IrqFd(a), error: String::new() });
        }
        other => panic!("{:?}", other),
    }
    assert!(matches!(run.action(), Action::Return(Ok(()))));
}

#[test]
fn a_refused_connection_is_an_error() {
    let mut run = mmio_handle(&Some(device(vec![10])), 7, 1);
    match run.action() {
        Action::Ioctl { arg, .. } => run.advance(refused(arg)),
        other => panic!("{:?}", other),
    }
    match run.action() {
        Action::Return(Err(BackendError::StrNumError { err, val })) => {
            assert_eq!(err, "ioeventfd ioctl failed");
            assert_eq!(val, "Invalid argument");
        }
        other => panic!("{:?}", other),
    }

    let mut run = mmio_handle(&Some(device(vec![])), 7, 2);
    match run.action() {
        Action::Ioctl { arg, .. } => run.advance(refused(arg)),
        other => panic!("{:?}", other),
    }
    match run.action() {
        Action::Return(Err(BackendError::StrNumError { err, .. })) => {
            assert_eq!(err, "irqfd ioctl failed")
        }
        other => panic!("{:?}", other),
    }
}

#[test]
fn a_device_needs_an_interrupt() {
    let bare = MmioDevice { queue_evts: vec![], interrupt_evt: None, num_queues: 0 };
    assert!(matches!(mmio_handle(&Some(bare), 1, 2).action(), Action::Panic));
}

#[test]
fn a_reset_is_confirmed_last() {
    let mut run = handle_device_reset(3, &vec![20, 21], 0, 2);
    match run.action() {
        Action::MmioWrite { offset, data } => {
            assert_eq!(offset, 0x70);
            assert_eq!(data, vec![0, 0, 0, 0]);
            run.advance(Reply::Written);
        }
        other => panic!("{:?}", other),
    }
    for k in 0..2u32 {
        match run.action() {
            Action::Ioctl { cmd, arg: IoctlArg::EventFd(a) } => {
                assert_eq!(cmd, number(VmIoctl::IoEventFd));
                assert_eq!((a.queue_num, a.fd), (k, 20 + k as i32));
                run.advance(granted(IoctlArg::EventFd(a)));
            }
            other => panic!("{:?}", other),
        }
    }
    match run.action() {
        Action::Ioctl { cmd, arg: IoctlArg::AckReset(a) } => {
            assert_eq!(cmd, number(VmIoctl::AckReset));
            assert_eq!((a.label, a.reserved), (3, 0));
            run.advance(granted(IoctlArg::AckReset(a)));
        }
        other => panic!("{:?}", other),
    }
    assert!(matches!(run.action(), Action::Return(Ok(()))));

    let mut run = handle_device_reset(3, &vec![20], 0, 2);
    run.advance(Reply::Written);
    match run.action() {
        Action::Ioctl { arg, .. } => run.advance(refused(arg)),
        other => panic!("{:?}", other),
    }
    assert!(matches!(run.action(), Action::Panic));
}

/// Answers a step as a device would whose registers are all `word`.
fn answer(action: Action, word: u8) -> Reply {
    match action {
        Action::MmioWrite { .. } => Reply::Written,
        Action::MmioRead { data, .. } => Reply::Read(vec![word; data.len()]),
        Action::Ioctl { arg, .. } => granted(arg),
        other => panic!("{:?}", other),
    }
}

#[test]
fn the_configuration_space_is_published() {
    let mut run = init_config_space(vec![], 4, &device(vec![1, 2]), 2);
    let mut reads = 0;
    let mut features: Vec<(u32, u32)> = Vec::new();
    let mut queues: Vec<(u32, u32)> = Vec::new();
    loop {
        let action = run.action();
        match &action {
            Action::Return(Ok(())) => break,
            Action::MmioRead { offset, data } => {
                if reads < 64 {
                    assert_eq!(*offset, 4 * reads);
                    assert_eq!(data.len(), 4);
                } else if reads == 64 {
                    assert_eq!((*offset, data.len()), (0x100, 3840));
                }
                reads += 1;
            }
            Action::Ioctl { cmd, arg: IoctlArg::ConfigData(a) } => {
                assert_eq!(*cmd, number(VmIoctl::SetDeviceConfigData));
                assert_eq!((a.label, a.config_size), (4, 4096));
                assert_eq!(a.config_data, vec![0x0505_0505; 1024]);
            }
            Action::Ioctl { cmd, arg: IoctlArg::DevFeatures(a) } => {
                assert_eq!(*cmd, number(VmIoctl::SetDeviceFeatures));
                features.push((a.features_sel, a.features));
            }
            Action::Ioctl { cmd, arg: IoctlArg::QueueMax(a) } => {
                assert_eq!(*cmd, number(VmIoctl::SetQueueNumMax));
                queues.push((a.queue_sel, a.queue_num_max));
            }
            Action::MmioWrite { offset, data } => {
                assert!(*offset == 0x14 || *offset == 0x30);
                assert_eq!(data.len(), 4);
            }
            other => panic!("{:?}", other),
        }
        run.advance(answer(action, 5));
    }
    assert_eq!(features, vec![(0, 0x0505_0505), (1, 0x0505_0505)]);
    assert_eq!(queues, vec![(0, 0x0505_0505), (1, 0x0505_0505)]);
    assert_eq!(run.into_cspace(), vec![0x0505_0505; 1024]);
}

#[test]
fn a_refused_configuration_space_ends_the_backend() {
    let mut run = init_config_space(vec![], 4, &device(vec![1]), 2);
    loop {
        let action = run.action();
        if let Action::Ioctl { arg, .. } = action {
            run.advance(refused(arg));
            break;
        }
        run.advance(answer(action, 1));
    }
    assert!(matches!(run.action(), Action::Panic));
}

#[test]
fn a_driver_brings_its_queues_up() {
    let mut run = handle_driver_ok(6, 1, vec![0; 1024], 2);
    let mut writes: Vec<(u64, u32)> = Vec::new();
    let mut acknowledged = false;
    loop {
        match run.action() {
            Action::Return(Ok(())) => break,
            Action::Ioctl { arg: IoctlArg::ConfigData(mut a), .. } => {
                assert_eq!(a.config_data.len(), 1024);
                a.config_data[28] = 0xf;
                run.advance(granted(IoctlArg::ConfigData(a)));
            }
            Action::Ioctl { arg: IoctlArg::DriverFeatures(mut a), .. } => {
                a.features = 0x100 + a.features_sel;
                run.advance(granted(IoctlArg::DriverFeatures(a)));
            }
            Action::Ioctl { arg: IoctlArg::QueueInfo(mut a), .. } => {
                assert_eq!((a.label, a.queue_sel, a.queue_num), (6, 0, 0));
                a.queue_num = 64;
                a.queue_ready = 1;
                a.queue_desc = 0x1_0000_0002;
                a.queue_driver = 0x3_0000_0004;
                a.queue_device = 0x5_0000_0006;
                run.advance(granted(IoctlArg::QueueInfo(a)));
            }
            Action::Ioctl { cmd, arg: IoctlArg::Value(v) } => {
                assert_eq!(cmd, number(VmIoctl::AckDriverOk));
                assert_eq!(v, 6);
                acknowledged = true;
                run.advance(granted(IoctlArg::Value(v)));
            }
            Action::MmioWrite { offset, data } => {
                assert!(!acknowledged);
                writes.push((offset, u32::from_le_bytes([data[0], data[1], data[2], data[3]])));
                run.advance(Reply::Written);
            }
            other => panic!("{:?}", other),
        }
    }
    assert!(acknowledged);
    assert_eq!(
        writes,
        vec![
            (0x24, 0),
            (0x20, 0x100),
            (0x24, 1),
            (0x24, 0x101),
            (0x30, 0),
            (0x38, 64),
            (0x80, 2),
            (0x84, 1),
            (0x90, 4),
            (0x94, 3),
            (0xa0, 6),
            (0xa4, 5),
            (0x44, 1),
            (0x70, 0xf),
        ]
    );
    assert_eq!(run.into_cspace()[28], 0xf);
}

fn selectors() -> InputSelectors {
    InputSelectors {
        id_name: 1,
        id_serial: 2,
        id_devids: 3,
        prop_bits: 0x10,
        ev_bits: 0x11,
        abs_info: 0x12,
        ev_count: 3,
        abs_count: 2,
    }
}

/// What an input device shows for a question: its name and serial number,
/// event type 1 and axis 0 exist.
fn shown(sel: u8, subsel: u8) -> Vec<u8> {
    let size = match (sel, subsel) {
        (1, 0) => 4,
        (2, 0) => 0,
        (3, 0) => 8,
        (0x10, 0) => 4,
        (0x11, 1) => 16,
        (0x12, 0) => 20,
        _ => 0,
    };
    let mut data = vec![0u8; 136];
    data[0] = sel;
    data[1] = subsel;
    data[2] = size;
    for i in 0..8 {
        data[8 + i] = i as u8 + 1;
    }
    data
}

#[test]
fn an_input_device_is_described() {
    let mut run = init_input_config(9, selectors(), 2);
    let mut asked = (0, 0);
    let mut records: Vec<(u8, u8, u8)> = Vec::new();
    loop {
        match run.action() {
            Action::Return(Ok(())) => break,
            Action::MmioWrite { offset, data } => {
                assert_eq!((offset, data.len()), (0x100, 2));
                asked = (data[0], data[1]);
                run.advance(Reply::Written);
            }
            Action::MmioRead { offset, data } => {
                assert_eq!((offset, data.len()), (0x100, 136));
                run.advance(Reply::Read(shown(asked.0, asked.1)));
            }
            Action::Ioctl { cmd, arg: IoctlArg::InputConfig(a) } => {
                assert_eq!(cmd, number(VmIoctl::SetInputDeviceConfig));
                assert_eq!((a.label, a.num_ev_types, a.num_abs_axes, a.reserved), (9, 1, 1, 0));
                assert_eq!(a.device_id, 0x0807_0605_0403_0201);
                assert_eq!(a.prop_bits, 0x0403_0201);
                run.advance(granted(IoctlArg::InputConfig(a)));
            }
            Action::Ioctl { cmd, arg: IoctlArg::InputData(a) } => {
                assert_eq!(cmd, number(VmIoctl::SetInputDeviceData));
                assert_eq!((a.label, a.reserved, a.payload[7]), (9, [0; 5], 8));
                records.push((a.sel, a.subsel, a.size));
                run.advance(granted(IoctlArg::InputData(a)));
            }
            other => panic!("{:?}", other),
        }
    }
    assert_eq!(records, vec![(1, 0, 4), (0x11, 1, 16), (0x12, 0, 20)]);
}

#[test]
fn an_input_device_must_answer_the_question() {
    for broken in 0..3 {
        let mut run = init_input_config(9, selectors(), 2);
        run.advance(Reply::Written);
        let mut data = shown(1, 0);
        match broken {
            0 => data[0] = 9,
            1 => data[1] = 9,
            _ => data[2] = 129,
        }
        run.advance(Reply::Read(data));
        assert!(matches!(run.action(), Action::Panic));
    }
    let mut run = init_input_config(9, selectors(), 2);
    for sel in 1..4 {
        run.advance(Reply::Written);
        let mut data = shown(sel, 0);
        if sel == 3 {
            data[2] = 7;
        }
        run.advance(Reply::Read(data));
    }
    assert!(matches!(run.action(), Action::Panic));
}

#[test]
fn a_device_is_served_until_it_exits() {
    let mut run = handle_events(8, &device(vec![1]), vec![0; 1024], 0, 2);
    let mut events = vec![0x100, 2, 8, 4, 1];
    let mut written: Vec<(u64, Vec<u8>)> = Vec::new();
    loop {
        match run.action() {
            Action::Return(Ok(())) => break,
            Action::Ioctl { cmd, arg: IoctlArg::Event(a) } => {
                assert_eq!(cmd, number(VmIoctl::WaitForEvent));
                assert_eq!((a.label, a.event, a.event_data, a.reserved), (8, 0, 0, 0));
                let event = events.pop().unwrap();
                run.advance(granted(IoctlArg::Event(VirtioEvent {
                    label: 8,
                    event,
                    event_data: 0x21,
                    reserved: 0,
                })));
            }
            Action::MmioWrite { offset, data } => {
                written.push((offset, data));
                run.advance(Reply::Written);
            }
            Action::Ioctl { arg, .. } => run.advance(granted(arg)),
            other => panic!("{:?}", other),
        }
    }
    assert!(events.is_empty());
    assert_eq!(written[0], (0x64, vec![0x21, 0, 0, 0]));
    assert_eq!(*written.last().unwrap(), (0x70, vec![0, 0, 0, 0]));
}

#[test]
fn four_events_are_known() {
    for event in [2, 4, 8, 0x100] {
        assert!(is_event_known(event));
    }
    for event in [0, 1, 3, 6, 0x101] {
        assert!(!is_event_known(event));
    }
}

#[test]
fn a_refused_wait_ends_the_backend() {
    let mut run = handle_events(8, &device(vec![1]), vec![0; 1024], 0, 1);
    match run.action() {
        Action::Ioctl { arg, .. } => run.advance(refused(arg)),
        other => panic!("{:?}", other),
    }
    assert!(matches!(run.action(), Action::Panic));
}
