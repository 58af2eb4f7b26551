use exokernel::kernel::caps::GlobalCapTable;
use exokernel::kernel::init::{init_capabilities, init_grant_list, INIT_PID};
use exokernel::kernel::pci::{
    config_address, device_exists, PciScanner, find_virtio_block_devices, is_multifunction, read_device, BarInfo, PciDevice,
    VirtioDeviceType,
};
use exokernel::shared::caps::{ResourceDescriptor, ResourceType, Rights};

fn device(vendor: u16, device_id: u16, bars: [u32; 6]) -> PciDevice {
    read_device(0, 3, 0, ((device_id as u32) << 16) | vendor as u32, 0x0102_0300, bars)
}

#[test]
fn config_space_decoding() {
    assert_eq!(config_address(1, 2, 3, 0x13), 0x8001_1310);
    assert!(device_exists(0x1001_1AF4));
    assert!(!device_exists(0xFFFF_FFFF));
    assert!(is_multifunction(0x0080_0000));
    assert!(!is_multifunction(0x0000_0000));
    let d = device(0x1AF4, 0x1001, [0; 6]);
    assert_eq!((d.vendor_id, d.device_id), (0x1AF4, 0x1001));
    assert_eq!((d.class, d.subclass, d.prog_if), (0x01, 0x02, 0x03));
    assert_eq!((d.bus, d.device, d.function), (0, 3, 0));
}

#[test]
fn virtio_types() {
    assert_eq!(device(0x1AF4, 0x1001, [0; 6]).virtio_device_type(), Some(VirtioDeviceType::Block));
    assert_eq!(device(0x1AF4, 0x1042, [0; 6]).virtio_device_type(), Some(VirtioDeviceType::Block));
    assert_eq!(device(0x1AF4, 0x1041, [0; 6]).virtio_device_type(), Some(VirtioDeviceType::Network));
    assert_eq!(device(0x1AF4, 0x1043, [0; 6]).virtio_device_type(), Some(VirtioDeviceType::Console));
    assert_eq!(device(0x1AF4, 0x1045, [0; 6]).virtio_device_type(), Some(VirtioDeviceType::Balloon));
    assert_eq!(device(0x1AF4, 0x1048, [0; 6]).virtio_device_type(), Some(VirtioDeviceType::Scsi));
    assert_eq!(device(0x1AF4, 0x1002, [0; 6]).virtio_device_type(), Some(VirtioDeviceType::Balloon));
    assert_eq!(device(0x1AF4, 0x1003, [0; 6]).virtio_device_type(), Some(VirtioDeviceType::Console));
    assert_eq!(device(0x1AF4, 0x1044, [0; 6]).virtio_device_type(), Some(VirtioDeviceType::Unknown(0x1044)));
    assert_eq!(device(0x1AF4, 0x1000, [0; 6]).virtio_device_type(), Some(VirtioDeviceType::Network));
    assert_eq!(device(0x1AF4, 0x1234, [0; 6]).virtio_device_type(), Some(VirtioDeviceType::Unknown(0x1234)));
    assert_eq!(device(0x8086, 0x1001, [0; 6]).virtio_device_type(), None);
    assert!(device(0x1AF4, 0, [0; 6]).is_virtio());
}

#[test]
fn base_address_registers() {
    let io = device(0x1AF4, 0x1001, [0xC041, 0xFEB0_0000, 0, 0, 0, 0]);
    assert_eq!(io.bar0_address(), Some(BarInfo::IoPort(0xC040)));
    assert_eq!(io.bar1_address(), Some(BarInfo::Memory32(0xFEB0_0000)));
    let mem64 = device(0x1AF4, 0x1041, [0xFE00_000C, 0x2, 0xFD00_0004, 0x2, 0, 0]);
    assert_eq!(mem64.bar0_address(), Some(BarInfo::Memory64(0x2_FE00_0000)));
    assert_eq!(mem64.bar1_address(), Some(BarInfo::Memory64(0x2_FD00_0000)));
    assert_eq!(device(0x1AF4, 0x1001, [0; 6]).bar0_address(), None);
    let odd_high = device(0x1AF4, 0x1041, [0xFE00_000C, 0x1, 0, 0, 0, 0]);
    assert_eq!(odd_high.bar1_address(), Some(BarInfo::IoPort(0)));
    assert_eq!(BarInfo::Memory32(5).mmio_address(), Some(5));
    assert_eq!(BarInfo::IoPort(5).mmio_address(), None);
    assert_eq!(BarInfo::IoPort(5).io_port(), Some(5));
    assert_eq!(BarInfo::Memory64(5).io_port(), None);
}

#[test]
fn virtio_block_devices_are_found_in_order() {
    let devs = vec![
        device(0x1AF4, 0x1001, [1; 6]),
        device(0x8086, 0x1001, [2; 6]),
        device(0x1AF4, 0x1000, [3; 6]),
        device(0x1AF4, 0x1041, [5; 6]),
        device(0x1AF4, 0x1042, [4; 6]),
    ];
    let blocks = find_virtio_block_devices(&devs);
    assert_eq!(blocks.len(), 2);
    assert_eq!(blocks[0].bars[0], 1);
    assert_eq!(blocks[1].bars[0], 4);
}

#[test]
fn init_gets_ports_irqs_and_virtio_regions() {
    let devs = vec![
        device(0x1AF4, 0x1001, [0xC041, 0, 0, 0, 0, 0]),
        device(0x1AF4, 0x1042, [0xFE00_0000, 0, 0, 0, 0, 0]),
        device(0x1AF4, 0x1041, [0xFD00_0000, 0, 0, 0, 0, 0]),
        device(0x8086, 0x1001, [0xC081, 0, 0, 0, 0, 0]),
    ];
    let grants = init_grant_list(&devs);
    assert_eq!(grants.len(), 1 + 16 + 2);
    assert_eq!(grants[0].0, ResourceDescriptor::io_port(0, 0x10000));
    assert_eq!(grants[5].0, ResourceDescriptor::irq(4));
    assert_eq!(grants[5].1 .0, Rights::BIND | Rights::ACK);
    assert_eq!(grants[17].0, ResourceDescriptor::io_port(0xC040, 256));
    assert_eq!(grants[18].0, ResourceDescriptor { resource_type: ResourceType::DeviceMmio, base: 0xFE00_0000, size: 0x1000 });
    assert_eq!(grants[18].1 .0, Rights::READ | Rights::WRITE | Rights::MAP);
    let mut caps = GlobalCapTable::new();
    let handles = init_capabilities(&mut caps, &devs).unwrap();
    assert_eq!(handles.len(), 19);
    for (k, h) in handles.iter().enumerate() {
        let c = caps.get(*h).unwrap();
        assert_eq!(c.owner, INIT_PID);
        assert_eq!(c.resource, grants[k].0);
    }
}

#[test]
fn scanner_stops_after_empty_bus_zero() {
    let mut scan = PciScanner::new();
    let mut probes = 0;
    while let Some((bus, device, function)) = scan.next_probe() {
        assert_eq!((bus, function), (0, 0));
        assert_eq!(device, probes);
        scan.advance(false, false);
        probes += 1;
    }
    assert_eq!(probes, 32);
}

#[test]
fn scanner_walks_functions_of_multifunction_devices() {
    let mut scan = PciScanner::new();
    assert_eq!(scan.next_probe(), Some((0, 0, 0)));
    scan.advance(true, true);
    for f in 1..8u8 {
        assert_eq!(scan.next_probe(), Some((0, 0, f)));
        scan.advance(f == 2, false);
    }
    assert_eq!(scan.next_probe(), Some((0, 1, 0)));
    scan.advance(true, false);
    assert_eq!(scan.next_probe(), Some((0, 2, 0)));
    for _ in 2..32 {
        scan.advance(false, false);
    }
    // bus 0 held devices, so bus 1 is scanned too
    assert_eq!(scan.next_probe(), Some((1, 0, 0)));
}

#[test]
fn a_full_scan_probes_every_bus_once_bus_zero_holds_a_device() {
    // device 0 of bus 0 exists and has several functions, of which 3 exists;
    // device 5 of bus 7 exists; nothing else
    let present = |b: u8, d: u8, f: u8| (b, d) == (0, 0) && (f == 0 || f == 3) || (b, d, f) == (7, 5, 0);
    let multi = |b: u8, d: u8| (b, d) == (0, 0);
    let mut scan = PciScanner::new();
    let mut probes: Vec<(u8, u8, u8)> = Vec::new();
    while let Some((b, d, f)) = scan.next_probe() {
        probes.push((b, d, f));
        scan.advance(present(b, d, f), multi(b, d));
    }
    let mut expected: Vec<(u8, u8, u8)> = Vec::new();
    for b in 0..=255u8 {
        for d in 0..32u8 {
            expected.push((b, d, 0));
            if (b, d) == (0, 0) {
                for f in 1..8u8 {
                    expected.push((0, 0, f));
                }
            }
        }
    }
    assert_eq!(probes, expected);
}
