use qcrosvm::error::{plain, system, BackendError};
use qcrosvm::ioctl::{machine_cmd, to_cmd, VmCommand, VmIoctl};
use qcrosvm::memory::{create_vm_mem_region, new_from_rawfd, MemoryError};

#[test]
fn requests_to_the_current_driver_have_their_numbers() {
    assert_eq!(to_cmd(VmIoctl::IoEventFd, 2).unwrap(), 0x4010_B262);
    assert_eq!(to_cmd(VmIoctl::IrqFd, 2).unwrap(), 0x4010_B263);
    assert_eq!(to_cmd(VmIoctl::WaitForEvent, 2).unwrap(), 0xC010_B264);
    assert_eq!(to_cmd(VmIoctl::SetDeviceFeatures, 2).unwrap(), 0x4010_B265);
    assert_eq!(to_cmd(VmIoctl::SetQueueNumMax, 2).unwrap(), 0x4010_B266);
    assert_eq!(to_cmd(VmIoctl::SetDeviceConfigData, 2).unwrap(), 0x4010_B267);
    assert_eq!(to_cmd(VmIoctl::GetDriverConfigData, 2).unwrap(), 0xC010_B268);
    assert_eq!(to_cmd(VmIoctl::GetQueueInfo, 2).unwrap(), 0xC028_B269);
    assert_eq!(to_cmd(VmIoctl::GetDriverFeatures, 2).unwrap(), 0xC010_B26A);
    assert_eq!(to_cmd(VmIoctl::AckDriverOk, 2).unwrap(), 0xC004_B26B);
    assert_eq!(to_cmd(VmIoctl::AckReset, 2).unwrap(), 0x4008_B26D);
    assert_eq!(to_cmd(VmIoctl::SetInputDeviceConfig, 2).unwrap(), 0x4020_B26E);
    assert_eq!(to_cmd(VmIoctl::SetInputDeviceData, 2).unwrap(), 0x408C_B26F);
}

#[test]
fn requests_to_the_earlier_driver_have_their_numbers() {
    assert_eq!(to_cmd(VmIoctl::IoEventFd, 1).unwrap(), 0x4010_BC02);
    assert_eq!(to_cmd(VmIoctl::WaitForEvent, 1).unwrap(), 0xC010_BC04);
    assert_eq!(to_cmd(VmIoctl::AckDriverOk, 1).unwrap(), 0xC004_BC0B);
    assert_eq!(to_cmd(VmIoctl::AckReset, 1).unwrap(), 0x4008_BC0D);
}

#[test]
fn requests_that_do_not_exist_are_refused() {
    for ioc in [VmIoctl::SetInputDeviceConfig, VmIoctl::SetInputDeviceData] {
        match to_cmd(ioc, 1) {
            Err(BackendError::StrError(s)) => assert_eq!(s, "Unsupported cmd"),
            other => panic!("{:?}", other),
        }
    }
    for version in [0, 3, 255] {
        match to_cmd(VmIoctl::IrqFd, version) {
            Err(BackendError::StrError(s)) => assert_eq!(s, "Unsupported driver variant."),
            other => panic!("{:?}", other),
        }
    }
}

#[test]
fn no_two_requests_share_a_number() {
    let all = [
        VmIoctl::IoEventFd,
        VmIoctl::IrqFd,
        VmIoctl::WaitForEvent,
        VmIoctl::SetDeviceFeatures,
        VmIoctl::SetQueueNumMax,
        VmIoctl::SetDeviceConfigData,
        VmIoctl::GetDriverConfigData,
        VmIoctl::GetQueueInfo,
        VmIoctl::GetDriverFeatures,
        VmIoctl::AckDriverOk,
        VmIoctl::AckReset,
    ];
    let mut numbers: Vec<u64> = Vec::new();
    for version in [1, 2] {
        for ioc in all {
            numbers.push(to_cmd(ioc, version).unwrap());
        }
    }
    for cmd in [
        VmCommand::CreateVm,
        VmCommand::CreateVcpu,
        VmCommand::SetFwName,
        VmCommand::GetVcpuCount,
        VmCommand::GetMemCount,
        VmCommand::GetMemRegion,
        VmCommand::GetSharedMemorySize,
        VmCommand::VcpuRun,
    ] {
        numbers.push(machine_cmd(cmd));
    }
    for i in 0..numbers.len() {
        for j in 0..i {
            assert_ne!(numbers[i], numbers[j]);
        }
    }
}

#[test]
fn requests_for_the_machine_have_their_numbers() {
    assert_eq!(machine_cmd(VmCommand::CreateVm), 0xB201);
    assert_eq!(machine_cmd(VmCommand::CreateVcpu), 0xB240);
    assert_eq!(machine_cmd(VmCommand::SetFwName), 0x4010_B241);
    assert_eq!(machine_cmd(VmCommand::GetVcpuCount), 0xB243);
    assert_eq!(machine_cmd(VmCommand::GetMemCount), 0xB244);
    assert_eq!(machine_cmd(VmCommand::GetMemRegion), 0xC020_B245);
    assert_eq!(machine_cmd(VmCommand::GetSharedMemorySize), 0x8008_B261);
    assert_eq!(machine_cmd(VmCommand::VcpuRun), 0xB280);
}

#[test]
fn errors_say_what_failed() {
    assert_eq!(plain("virtio_block_new failed").message(), "Error: virtio_block_new failed");
    assert_eq!(
        system("irqfd ioctl failed", "Bad file descriptor").message(),
        "Error: irqfd ioctl failed (Bad file descriptor)"
    );
}

#[test]
fn memory_lies_one_after_the_other_in_its_file() {
    let regions = new_from_rawfd(&vec![(0x1000, 0x2000), (0x8000, 0x1000)], 9, 0x1000).unwrap();
    assert_eq!(regions.len(), 2);
    assert_eq!((regions[0].addr, regions[0].size, regions[0].offset, regions[0].fd), (0x1000, 0x2000, 0, 9));
    assert_eq!((regions[1].addr, regions[1].size, regions[1].offset), (0x8000, 0x1000, 0x2000));
    assert!(regions[0].offset + regions[0].size <= regions[1].offset);
    match new_from_rawfd(&vec![(0, 0x1001)], 9, 0x1000) {
        Err(e) => assert_eq!(e, MemoryError::MemoryNotAligned),
        Ok(_) => panic!("not aligned"),
    }
}

#[test]
fn a_region_is_a_whole_number_of_pages() {
    let mut regions = Vec::new();
    assert!(create_vm_mem_region((0x4000, 0x2000), 5, 0x1000, &mut regions).is_ok());
    assert_eq!(
        create_vm_mem_region((0, 0x10), 5, 0x1000, &mut regions),
        Err(MemoryError::MemoryNotAligned)
    );
    assert_eq!(regions.len(), 1);
    assert_eq!((regions[0].addr, regions[0].size, regions[0].offset, regions[0].fd), (0x4000, 0x2000, 0, 5));
}
