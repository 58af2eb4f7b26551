//! PCI devices: configuration-space decoding and base address registers.
//!
//! The kernel discovers devices on the PCI bus at boot and grants
//! capabilities for their register regions. Reading configuration space is
//! port I/O, done by the caller: it reads the dwords at the addresses
//! `config_address` gives, follows `PciScanner` through the bus, and hands
//! the values back.
use vstd::prelude::*;

verus! {

/// PCI configuration address port (write-only).
pub const PCI_CONFIG_ADDRESS: u16 = 0xCF8;
/// PCI configuration data port (read/write).
pub const PCI_CONFIG_DATA: u16 = 0xCFC;
/// Vendor ID of virtio devices.
pub const VIRTIO_VENDOR_ID: u16 = 0x1AF4;

/// PCI device information.
#[derive(Debug, Clone, Copy)]
pub struct PciDevice {
    pub bus: u8,
    pub device: u8,
    pub function: u8,
    pub vendor_id: u16,
    pub device_id: u16,
    pub class: u8,
    pub subclass: u8,
    pub prog_if: u8,
    pub bars: [u32; 6],
}

/// A base address register's address and kind.
#[derive(Debug, Clone, Copy, PartialEq, Eq, Structural)]
pub enum BarInfo {
    /// 32-bit memory-mapped I/O address
    Memory32(u64),
    /// 64-bit memory-mapped I/O address
    Memory64(u64),
    /// I/O port address
    IoPort(u16),
}

/// Virtio device types.
#[derive(Debug, Clone, Copy, PartialEq, Eq, Structural)]
pub enum VirtioDeviceType {
    Network,
    Block,
    Console,
    Balloon,
    Scsi,
    Unknown(u16),
}

/// The virtio type that a virtio device's ID names: transitional IDs 0x1000
/// network, 0x1001 block, 0x1002 balloon, 0x1003 console; modern IDs are
/// 0x1040 plus the virtio device type (1 network, 2 block, 3 console,
/// 5 balloon, 8 SCSI).
pub open spec fn virtio_type_of(device_id: u16) -> VirtioDeviceType {
    if device_id == 0x1000 || device_id == 0x1041 {
        VirtioDeviceType::Network
    } else if device_id == 0x1001 || device_id == 0x1042 {
        VirtioDeviceType::Block
    } else if device_id == 0x1002 || device_id == 0x1045 {
        VirtioDeviceType::Balloon
    } else if device_id == 0x1003 || device_id == 0x1043 {
        VirtioDeviceType::Console
    } else if device_id == 0x1048 {
        VirtioDeviceType::Scsi
    } else {
        VirtioDeviceType::Unknown(device_id)
    }
}

/// What a BAR value `bar` says, with `high` the next register (the upper
/// half of a 64-bit memory BAR): none for 0; bit 0 clear is memory (the
/// address with the low 4 bits cleared; 64-bit when bits 1-2 are 2), set is
/// I/O (the port with the low 2 bits cleared).
pub open spec fn bar_info(bar: u32, high: u32) -> Option<BarInfo> {
    if bar == 0 {
        None
    } else if bar & 1 == 0 {
        let addr = (bar & 0xFFFFFFF0) as u64;
        if (bar >> 1) & 0x3 == 2 {
            Some(BarInfo::Memory64(((high as u64) << 32) | addr))
        } else {
            Some(BarInfo::Memory32(addr))
        }
    } else {
        Some(BarInfo::IoPort((bar & 0xFFFFFFFC) as u16))
    }
}

/// `bar` is the lower half of a 64-bit memory BAR.
pub open spec fn is_mem64(bar: u32) -> bool {
    bar & 1 == 0 && (bar >> 1) & 0x3 == 2
}

/// The bit facts that BAR decoding rests on: bit 0 tells I/O from memory,
/// bits 1-2 the memory type, the low 4 (memory) or 2 (I/O) bits are flags.
proof fn lemma_bar_bits(bar: u32)
    by (bit_vector)
    ensures
        (bar & 1 == 0) == (bar % 2 == 0),
        (bar >> 1) & 0x3 == (bar / 2) % 4,
        bar & 0xFFFFFFF0 == bar - bar % 16,
        ((bar & 0xFFFFFFFC) as u16) as u32 == bar % 0x10000 - bar % 4,
{
}

/// The halves of a 64-bit BAR address: `high` above, `low` below.
proof fn lemma_bar_halves(low: u64, high: u32)
    by (bit_vector)
    requires
        low < 0x1_0000_0000,
    ensures
        (((high as u64) << 32) | low) % 0x1_0000_0000 == low,
        (((high as u64) << 32) | low) / 0x1_0000_0000 == high as u64,
{
}

/// How a BAR value decodes: 0 is no BAR; an odd one is an I/O port, its
/// low 16 bits with the 2 flag bits cleared; an even one is memory, its
/// address the value with the low 4 flag bits cleared, and for a 64-bit
/// BAR (type bits 1-2 equal to 2) the next register `high` as the upper
/// 32 bits.
pub proof fn lemma_bar_decoding(bar: u32, high: u32)
    ensures
        bar_info(bar, high) is None <==> bar == 0,
        match bar_info(bar, high) {
            Some(BarInfo::Memory32(a)) => bar % 2 == 0 && (bar / 2) % 4 != 2 && a == bar - bar % 16,
            Some(BarInfo::Memory64(a)) => bar % 2 == 0 && (bar / 2) % 4 == 2 && a % 0x1_0000_0000 == bar - bar % 16
                && a / 0x1_0000_0000 == high,
            Some(BarInfo::IoPort(port)) => bar % 2 == 1 && port == bar % 0x10000 - bar % 4,
            None => true,
        },
        match bar_info(bar, high) {
            Some(BarInfo::Memory32(a)) => a % 16 == 0,
            Some(BarInfo::Memory64(a)) => a % 16 == 0,
            Some(BarInfo::IoPort(port)) => port % 4 == 0,
            None => true,
        },
{
    lemma_bar_bits(bar);
    let low = (bar & 0xFFFFFFF0) as u64;
    lemma_bar_halves(low, high);
}

fn decode_bar(bar: u32, high: u32) -> (r: Option<BarInfo>)
    ensures
        r == bar_info(bar, high),
{
    if bar == 0 {
        return None;
    }
    if bar & 1 == 0 {
        let addr = (bar & 0xFFFFFFF0) as u64;
        if (bar >> 1) & 0x3 == 2 {
            Some(BarInfo::Memory64(((high as u64) << 32) | addr))
        } else {
            Some(BarInfo::Memory32(addr))
        }
    } else {
        Some(BarInfo::IoPort((bar & 0xFFFFFFFC) as u16))
    }
}

impl PciDevice {
    /// Whether this is a virtio device (vendor ID 0x1AF4).
    pub fn is_virtio(&self) -> (r: bool)
        ensures
            r == (self.vendor_id == VIRTIO_VENDOR_ID),
    {
        self.vendor_id == VIRTIO_VENDOR_ID
    }

    /// The virtio device type, for a virtio device.
    pub fn virtio_device_type(&self) -> (r: Option<VirtioDeviceType>)
        ensures
            r == if self.vendor_id == VIRTIO_VENDOR_ID {
                Some(virtio_type_of(self.device_id))
            } else {
                None
            },
    {
        if !self.is_virtio() {
            return None;
        }
        match self.device_id {
            0x1000 | 0x1041 => Some(VirtioDeviceType::Network),
            0x1001 | 0x1042 => Some(VirtioDeviceType::Block),
            0x1002 | 0x1045 => Some(VirtioDeviceType::Balloon),
            0x1003 | 0x1043 => Some(VirtioDeviceType::Console),
            0x1048 => Some(VirtioDeviceType::Scsi),
            _ => Some(VirtioDeviceType::Unknown(self.device_id)),
        }
    }

    /// The address and kind of BAR0 (a 64-bit one takes BAR1 as its upper
    /// half).
    pub fn bar0_address(&self) -> (r: Option<BarInfo>)
        ensures
            r == bar_info(self.bars[0], self.bars[1]),
    {
        decode_bar(self.bars[0], self.bars[1])
    }

    /// The address and kind of the region after BAR0 (for virtio-pci usually
    /// the MMIO region): BAR1, or BAR2 (with BAR3 as upper half) when BAR1 is
    /// the upper half of a 64-bit BAR0. A memory BAR1 is read as 32-bit.
    pub fn bar1_address(&self) -> (r: Option<BarInfo>)
        ensures
            r == if self.bars[1] == 0 {
                None
            } else if self.bars[1] & 1 == 0 {
                if is_mem64(self.bars[0]) {
                    bar_info(self.bars[2], self.bars[3])
                } else {
                    Some(BarInfo::Memory32((self.bars[1] & 0xFFFFFFF0) as u64))
                }
            } else {
                Some(BarInfo::IoPort((self.bars[1] & 0xFFFFFFFC) as u16))
            },
            self.bars[1] != 0 && !is_mem64(self.bars[0]) ==> r == if self.bars[1] % 2 == 0 {
                Some(BarInfo::Memory32((self.bars[1] - self.bars[1] % 16) as u64))
            } else {
                Some(BarInfo::IoPort((self.bars[1] % 0x10000 - self.bars[1] % 4) as u16))
            },
            match r {
                Some(BarInfo::Memory32(a)) => a % 16 == 0,
                Some(BarInfo::Memory64(a)) => a % 16 == 0,
                Some(BarInfo::IoPort(port)) => port % 4 == 0,
                None => true,
            },
    {
        proof {
            lemma_bar_bits(self.bars[1]);
            lemma_bar_decoding(self.bars[2], self.bars[3]);
        }
        let bar1 = self.bars[1];
        if bar1 == 0 {
            return None;
        }
        if bar1 & 1 == 0 {
            let addr = (bar1 & 0xFFFFFFF0) as u64;
            let bar0 = self.bars[0];
            if bar0 & 1 == 0 && (bar0 >> 1) & 0x3 == 2 {
                return decode_bar(self.bars[2], self.bars[3]);
            }
            Some(BarInfo::Memory32(addr))
        } else {
            Some(BarInfo::IoPort((bar1 & 0xFFFFFFFC) as u16))
        }
    }
}

impl BarInfo {
    /// The MMIO address, for a memory BAR.
    pub fn mmio_address(&self) -> (r: Option<u64>)
        ensures
            r == match *self {
                BarInfo::Memory32(a) => Some(a),
                BarInfo::Memory64(a) => Some(a),
                BarInfo::IoPort(_) => None,
            },
    {
        match self {
            BarInfo::Memory32(addr) => Some(*addr),
            BarInfo::Memory64(addr) => Some(*addr),
            BarInfo::IoPort(_) => None,
        }
    }

    /// The I/O port, for a port BAR.
    pub fn io_port(&self) -> (r: Option<u16>)
        ensures
            r == match *self {
                BarInfo::IoPort(p) => Some(p),
                _ => None,
            },
    {
        match self {
            BarInfo::IoPort(port) => Some(*port),
            _ => None,
        }
    }
}

/// The configuration address of a register: enable bit, bus, device,
/// function, and the register offset rounded down to a dword.
pub open spec fn config_address_of(bus: u8, device: u8, function: u8, offset: u8) -> u32 {
    0x8000_0000u32 | ((bus as u32) << 16) | ((device as u32) << 11) | ((function as u32) << 8) | ((
    offset as u32) & 0xFC)
}

/// The value to write to the configuration address port to read or write a
/// register.
pub fn config_address(bus: u8, device: u8, function: u8, offset: u8) -> (r: u32)
    ensures
        r == config_address_of(bus, device, function, offset),
{
    0x8000_0000u32 | ((bus as u32) << 16) | ((device as u32) << 11) | ((function as u32) << 8) | ((
    offset as u32) & 0xFC)
}

/// Whether a function exists, from its ID register (vendor 0xFFFF: none).
pub fn device_exists(id: u32) -> (r: bool)
    ensures
        r == (id & 0xFFFF != 0xFFFF),
{
    id & 0xFFFF != 0xFFFF
}

/// Whether a device has several functions, from its header register
/// (offset 0x0C): bit 7 of the header type.
pub fn is_multifunction(header: u32) -> (r: bool)
    ensures
        r == ((header >> 16) & 0x80 != 0),
{
    (header >> 16) & 0x80 != 0
}

/// The device described by the registers of one function: the ID register
/// (offset 0), the class register (offset 8) and the six BARs (offsets 0x10
/// to 0x24).
pub fn read_device(bus: u8, device: u8, function: u8, id: u32, class_info: u32, bars: [u32; 6]) -> (r:
    PciDevice)
    ensures
        r.bus == bus,
        r.device == device,
        r.function == function,
        r.vendor_id == id & 0xFFFF,
        r.device_id == (id >> 16) & 0xFFFF,
        r.class == (class_info >> 24) & 0xFF,
        r.subclass == (class_info >> 16) & 0xFF,
        r.prog_if == (class_info >> 8) & 0xFF,
        r.bars == bars,
{
    let vendor = id & 0xFFFF;
    let dev_id = (id >> 16) & 0xFFFF;
    let class = (class_info >> 24) & 0xFF;
    let subclass = (class_info >> 16) & 0xFF;
    let prog_if = (class_info >> 8) & 0xFF;
    assert(vendor <= 0xFFFF && dev_id <= 0xFFFF) by (bit_vector)
        requires
            vendor == id & 0xFFFF,
            dev_id == (id >> 16) & 0xFFFF,
    ;
    assert(class <= 0xFF && subclass <= 0xFF && prog_if <= 0xFF) by (bit_vector)
        requires
            class == (class_info >> 24) & 0xFF,
            subclass == (class_info >> 16) & 0xFF,
            prog_if == (class_info >> 8) & 0xFF,
    ;
    PciDevice {
        bus,
        device,
        function,
        vendor_id: vendor as u16,
        device_id: dev_id as u16,
        class: class as u8,
        subclass: subclass as u8,
        prog_if: prog_if as u8,
        bars,
    }
}

/// Where a bus scan stands: the function it probes next, whether any
/// device has been found so far, and whether the scan is over.
#[derive(Debug, Clone, Copy, PartialEq, Eq, Structural)]
pub struct PciScanner {
    pub bus: u8,
    pub device: u8,
    pub function: u8,
    pub found_any: bool,
    pub done: bool,
}

/// The order in which functions are probed: bus, then device, then function.
pub open spec fn probe_index(bus: u8, device: u8, function: u8) -> int {
    (bus as int) * 256 + (device as int) * 8 + function as int
}

impl PciScanner {
    /// Device and function numbers are in range.
    pub open spec fn wf(self) -> bool {
        self.device < 32 && self.function < 8
    }

    /// The position of the next probe.
    pub open spec fn position(self) -> int {
        probe_index(self.bus, self.device, self.function)
    }

    /// How many probes can still come: a measure that every step lowers.
    pub open spec fn remaining(self) -> int {
        if self.done {
            0
        } else {
            256 * 256 - self.position()
        }
    }

    /// The scan after the last function of the current device.
    pub open spec fn after_device(self) -> PciScanner {
        if self.device < 31 {
            PciScanner { device: (self.device + 1) as u8, function: 0, ..self }
        } else if self.bus == 255 || (self.bus == 0 && !self.found_any) {
            PciScanner { done: true, ..self }
        } else {
            PciScanner { bus: (self.bus + 1) as u8, device: 0, function: 0, ..self }
        }
    }

    /// The scan after the current probe found a function (`exists`), and,
    /// for function 0, whether the device has several functions.
    pub open spec fn after_probe(self, exists: bool, multifunction: bool) -> PciScanner {
        if self.function == 0 {
            if exists && multifunction {
                PciScanner { function: 1, found_any: true, ..self }
            } else if exists {
                PciScanner { found_any: true, ..self }.after_device()
            } else {
                self.after_device()
            }
        } else if self.function < 7 {
            PciScanner { function: (self.function + 1) as u8, ..self }
        } else {
            self.after_device()
        }
    }

    /// A scan that starts at bus 0, device 0, function 0.
    pub fn new() -> (r: PciScanner)
        ensures
            r.wf(),
            r == (PciScanner { bus: 0, device: 0, function: 0, found_any: false, done: false }),
    {
        PciScanner { bus: 0, device: 0, function: 0, found_any: false, done: false }
    }

    /// The function to probe next, `None` once the scan is over.
    pub fn next_probe(&self) -> (r: Option<(u8, u8, u8)>)
        ensures
            r == (if self.done {
                None
            } else {
                Some((self.bus, self.device, self.function))
            }),
    {
        if self.done {
            None
        } else {
            Some((self.bus, self.device, self.function))
        }
    }

    /// Takes the result of the current probe: whether the function exists,
    /// and for function 0 whether the device is multi-function. Functions 1
    /// to 7 are probed only on multi-function devices; the scan stops after
    /// bus 255, or after bus 0 when that bus held no device.
    pub fn advance(&mut self, exists: bool, multifunction: bool)
        requires
            old(self).wf(),
            !old(self).done,
        ensures
            *final(self) == old(self).after_probe(exists, multifunction),
            final(self).wf(),
            final(self).remaining() < old(self).remaining(),
            !final(self).done ==> final(self).position() > old(self).position(),
    {
        if self.function == 0 {
            if exists {
                self.found_any = true;
                if multifunction {
                    self.function = 1;
                    return;
                }
            }
        } else if self.function < 7 {
            self.function = self.function + 1;
            return;
        }
        if self.device < 31 {
            self.device = self.device + 1;
            self.function = 0;
        } else if self.bus == 255 || (self.bus == 0 && !self.found_any) {
            self.done = true;
        } else {
            self.bus = self.bus + 1;
            self.device = 0;
            self.function = 0;
        }
    }
}

/// The functions probed on device `dev` of bus `bus`, when `present` says
/// which functions exist and `multi` which devices have several: function
/// 0, then functions 1 to 7 where function 0 exists and the device has
/// several.
pub open spec fn device_probes(
    bus: u8,
    dev: u8,
    present: spec_fn(u8, u8, u8) -> bool,
    multi: spec_fn(u8, u8) -> bool,
) -> Seq<(u8, u8, u8)> {
    if present(bus, dev, 0) && multi(bus, dev) {
        Seq::new(8, |f: int| (bus, dev, f as u8))
    } else {
        seq![(bus, dev, 0u8)]
    }
}

/// The functions probed on devices `dev` to 31 of bus `bus`, in order.
pub open spec fn devices_probes(
    bus: u8,
    dev: int,
    present: spec_fn(u8, u8, u8) -> bool,
    multi: spec_fn(u8, u8) -> bool,
) -> Seq<(u8, u8, u8)>
    decreases 32 - dev,
{
    if dev < 0 || dev >= 32 {
        Seq::empty()
    } else {
        device_probes(bus, dev as u8, present, multi) + devices_probes(bus, dev + 1, present, multi)
    }
}

/// Some device from `dev` to 31 of bus `bus` has a function 0.
pub open spec fn device_from(bus: u8, dev: int, present: spec_fn(u8, u8, u8) -> bool) -> bool
    decreases 32 - dev,
{
    if dev < 0 || dev >= 32 {
        false
    } else {
        present(bus, dev as u8, 0) || device_from(bus, dev + 1, present)
    }
}

/// The functions probed on buses `bus` to 255, in order: after bus 0 the
/// scan stops when that bus held no device.
pub open spec fn buses_probes(
    bus: int,
    present: spec_fn(u8, u8, u8) -> bool,
    multi: spec_fn(u8, u8) -> bool,
) -> Seq<(u8, u8, u8)>
    decreases 256 - bus,
{
    if bus < 0 || bus > 255 {
        Seq::empty()
    } else if bus == 0 && !device_from(0, 0, present) {
        devices_probes(0, 0, present, multi)
    } else {
        devices_probes(bus as u8, 0, present, multi) + buses_probes(bus + 1, present, multi)
    }
}

/// The functions that a scan standing at `s` probes, in order, when every
/// probe is answered by `present` and `multi` and fed back to `advance`.
pub open spec fn probes_from(
    s: PciScanner,
    present: spec_fn(u8, u8, u8) -> bool,
    multi: spec_fn(u8, u8) -> bool,
) -> Seq<(u8, u8, u8)>
    decreases s.remaining(),
{
    if s.done || !s.wf() {
        Seq::empty()
    } else {
        seq![(s.bus, s.device, s.function)] + probes_from(
            s.after_probe(present(s.bus, s.device, s.function), multi(s.bus, s.device)),
            present,
            multi,
        )
    }
}

/// Two scans on the same device of the same bus, with the same findings,
/// go on alike once the device is done.
proof fn lemma_same_next_device(
    s: PciScanner,
    t: PciScanner,
    present: spec_fn(u8, u8, u8) -> bool,
    multi: spec_fn(u8, u8) -> bool,
)
    requires
        s.wf(),
        t.wf(),
        s.bus == t.bus,
        s.device == t.device,
        s.found_any == t.found_any,
        !s.done,
        !t.done,
    ensures
        probes_from(s.after_device(), present, multi) == probes_from(t.after_device(), present, multi),
{
    if s.after_device().done {
        assert(t.after_device().done);
    } else {
        assert(s.after_device() == t.after_device());
    }
}

/// From function `f` (1 to 7) of a multi-function device, the scan probes
/// the remaining functions of that device, then goes on to the next device.
proof fn lemma_rest_of_device(s: PciScanner, present: spec_fn(u8, u8, u8) -> bool, multi: spec_fn(u8, u8) -> bool)
    requires
        s.wf(),
        !s.done,
        1 <= s.function <= 7,
    ensures
        probes_from(s, present, multi) == Seq::new((8 - s.function) as nat, |k: int| (s.bus, s.device, (s.function + k) as u8))
            + probes_from(s.after_device(), present, multi),
    decreases 8 - s.function,
{
    let rest = Seq::new((8 - s.function) as nat, |k: int| (s.bus, s.device, (s.function + k) as u8));
    if s.function == 7 {
        assert(rest =~= seq![(s.bus, s.device, 7u8)]);
    } else {
        let t = PciScanner { function: (s.function + 1) as u8, ..s };
        lemma_rest_of_device(t, present, multi);
        lemma_same_next_device(t, s, present, multi);
        let tail = Seq::new((8 - t.function) as nat, |k: int| (t.bus, t.device, (t.function + k) as u8));
        assert(rest =~= seq![(s.bus, s.device, s.function)] + tail);
        assert(seq![(s.bus, s.device, s.function)] + (tail + probes_from(s.after_device(), present, multi)) =~= rest
            + probes_from(s.after_device(), present, multi));
    }
}

/// From function 0 of a device, the scan probes that device's functions,
/// then goes on to the next device, having noted whether function 0 exists.
proof fn lemma_one_device(s: PciScanner, present: spec_fn(u8, u8, u8) -> bool, multi: spec_fn(u8, u8) -> bool)
    requires
        s.wf(),
        !s.done,
        s.function == 0,
    ensures
        probes_from(s, present, multi) == device_probes(s.bus, s.device, present, multi) + probes_from(
            PciScanner { found_any: s.found_any || present(s.bus, s.device, 0), ..s }.after_device(),
            present,
            multi,
        ),
{
    let b = s.bus;
    let d = s.device;
    let seen = PciScanner { found_any: s.found_any || present(b, d, 0), ..s };
    if present(b, d, 0) && multi(b, d) {
        let t = PciScanner { function: 1, found_any: true, ..s };
        lemma_rest_of_device(t, present, multi);
        lemma_same_next_device(t, seen, present, multi);
        let tail = Seq::new(7, |k: int| (b, d, (1 + k) as u8));
        assert(Seq::new((8 - t.function) as nat, |k: int| (t.bus, t.device, (t.function + k) as u8)) =~= tail);
        assert(device_probes(b, d, present, multi) =~= seq![(b, d, 0u8)] + tail);
        assert(seq![(b, d, 0u8)] + (tail + probes_from(seen.after_device(), present, multi)) =~= device_probes(
            b,
            d,
            present,
            multi,
        ) + probes_from(seen.after_device(), present, multi));
    } else if present(b, d, 0) {
        assert(s.after_probe(true, multi(b, d)) == seen.after_device());
    } else {
        assert(seen == s);
    }
}

/// From function 0 of device `s.device`, the scan probes the functions of
/// that device and of the later devices of the bus, then goes on from the
/// last device, having noted whether any device was found.
proof fn lemma_rest_of_bus(s: PciScanner, present: spec_fn(u8, u8, u8) -> bool, multi: spec_fn(u8, u8) -> bool)
    requires
        s.wf(),
        !s.done,
        s.function == 0,
    ensures
        probes_from(s, present, multi) == devices_probes(s.bus, s.device as int, present, multi) + probes_from(
            PciScanner {
                bus: s.bus,
                device: 31,
                function: 0,
                found_any: s.found_any || device_from(s.bus, s.device as int, present),
                done: false,
            }.after_device(),
            present,
            multi,
        ),
    decreases 32 - s.device,
{
    let b = s.bus;
    let d = s.device;
    lemma_one_device(s, present, multi);
    let seen = PciScanner { found_any: s.found_any || present(b, d, 0), ..s };
    let end = PciScanner {
        bus: b,
        device: 31,
        function: 0,
        found_any: s.found_any || device_from(b, d as int, present),
        done: false,
    };
    assert(devices_probes(b, d as int, present, multi) == device_probes(b, d, present, multi) + devices_probes(
        b,
        d + 1,
        present,
        multi,
    ));
    if d == 31 {
        assert(!device_from(b, 32, present));
        assert(device_from(b, 31, present) == present(b, 31, 0));
        assert(seen == end);
        assert(devices_probes(b, 32, present, multi) =~= Seq::<(u8, u8, u8)>::empty());
        assert(device_probes(b, d, present, multi) + Seq::<(u8, u8, u8)>::empty() =~= device_probes(b, d, present, multi));
    } else {
        let t = seen.after_device();
        assert(t == PciScanner { device: (d + 1) as u8, function: 0, ..seen });
        lemma_rest_of_bus(t, present, multi);
        assert(device_from(b, d as int, present) == (present(b, d, 0) || device_from(b, d + 1, present)));
        let end_t = PciScanner {
            bus: b,
            device: 31,
            function: 0,
            found_any: t.found_any || device_from(b, t.device as int, present),
            done: false,
        };
        assert(end_t == end);
        let p1 = device_probes(b, d, present, multi);
        let p2 = devices_probes(b, d + 1, present, multi);
        let p3 = probes_from(end.after_device(), present, multi);
        assert(p1 + (p2 + p3) =~= (p1 + p2) + p3);
    }
}

/// From bus `s.bus` on (with nothing found yet, when that is bus 0), the
/// scan probes exactly the functions of `buses_probes`.
proof fn lemma_rest_of_buses(s: PciScanner, present: spec_fn(u8, u8, u8) -> bool, multi: spec_fn(u8, u8) -> bool)
    requires
        !s.done,
        s.device == 0,
        s.function == 0,
        s.bus == 0 ==> !s.found_any,
    ensures
        probes_from(s, present, multi) == buses_probes(s.bus as int, present, multi),
    decreases 256 - s.bus,
{
    let b = s.bus;
    lemma_rest_of_bus(s, present, multi);
    let end = PciScanner {
        bus: b,
        device: 31,
        function: 0,
        found_any: s.found_any || device_from(b, 0, present),
        done: false,
    };
    let p1 = devices_probes(b, 0, present, multi);
    if b == 255 {
        assert(end.after_device().done);
        assert(buses_probes(256, present, multi) =~= Seq::<(u8, u8, u8)>::empty());
        assert(p1 + Seq::<(u8, u8, u8)>::empty() =~= p1);
    } else if b == 0 && !device_from(0, 0, present) {
        assert(end.after_device().done);
        assert(p1 + Seq::<(u8, u8, u8)>::empty() =~= p1);
    } else {
        let t = end.after_device();
        assert(t == PciScanner { bus: (b + 1) as u8, device: 0, function: 0, ..end });
        lemma_rest_of_buses(t, present, multi);
    }
}

/// A scan from the start probes exactly: bus after bus, function 0 of each
/// device, and functions 1 to 7 of each device whose function 0 exists and
/// which has several functions; it stops after bus 0 when that bus held no
/// device, and after bus 255 otherwise.
pub proof fn lemma_full_scan(present: spec_fn(u8, u8, u8) -> bool, multi: spec_fn(u8, u8) -> bool)
    ensures
        probes_from(PciScanner { bus: 0, device: 0, function: 0, found_any: false, done: false }, present, multi)
            == buses_probes(0, present, multi),
{
    lemma_rest_of_buses(PciScanner { bus: 0, device: 0, function: 0, found_any: false, done: false }, present, multi);
}

/// The device is a virtio block device.
pub open spec fn is_virtio_block(d: PciDevice) -> bool {
    d.vendor_id == VIRTIO_VENDOR_ID && virtio_type_of(d.device_id) == VirtioDeviceType::Block
}

/// The virtio block devices among `devices`, in order.
pub fn find_virtio_block_devices(devices: &Vec<PciDevice>) -> (r: Vec<PciDevice>)
    ensures
        r@ == devices@.filter(|d: PciDevice| is_virtio_block(d)),
{
    let mut out: Vec<PciDevice> = Vec::new();
    let mut i: usize = 0;
    while i < devices.len()
        invariant
            i <= devices@.len(),
            out@ == devices@.take(i as int).filter(|d: PciDevice| is_virtio_block(d)),
        decreases devices@.len() - i,
    {
        let d = devices[i];
        let is_block = match d.virtio_device_type() {
            Some(VirtioDeviceType::Block) => true,
            _ => false,
        };
        if is_block {
            out.push(d);
        }
        proof {
            let f = |d: PciDevice| is_virtio_block(d);
            reveal_with_fuel(Seq::<_>::filter, 2);
            assert(devices@.take(i + 1).drop_last() =~= devices@.take(i as int));
            assert(devices@.take(i + 1).last() == d);
        }
        i = i + 1;
    }
    proof {
        assert(devices@.take(i as int) =~= devices@);
    }
    out
}

} // verus!
