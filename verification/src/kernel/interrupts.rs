//! Interrupt vectors and the 8259 programmable interrupt controllers.
//!
//! The controllers are programmed through I/O ports: the writes to make are
//! worked out here, in order, and made by the caller.
use vstd::prelude::*;

verus! {

/// First vector of the primary PIC.
pub const PIC_1_OFFSET: u8 = 32;
/// First vector of the secondary PIC.
pub const PIC_2_OFFSET: u8 = 40;
/// Command port of the primary PIC.
pub const PIC1_COMMAND: u16 = 0x20;
/// Data port of the primary PIC.
pub const PIC1_DATA: u16 = 0x21;
/// Command port of the secondary PIC.
pub const PIC2_COMMAND: u16 = 0xA0;
/// Data port of the secondary PIC.
pub const PIC2_DATA: u16 = 0xA1;
/// The port written to wait for an I/O cycle.
pub const WAIT_PORT: u16 = 0x80;
/// The end-of-interrupt command.
pub const EOI: u8 = 0x20;

/// Hardware interrupt vectors.
#[derive(Debug, Clone, Copy, PartialEq, Eq, Structural)]
pub enum InterruptIndex {
    Timer,
    Keyboard,
}

/// The vector of a hardware interrupt: the timer is the primary PIC's
/// first, the keyboard the next.
pub open spec fn vector(i: InterruptIndex) -> u8 {
    match i {
        InterruptIndex::Timer => PIC_1_OFFSET,
        InterruptIndex::Keyboard => (PIC_1_OFFSET + 1) as u8,
    }
}

impl InterruptIndex {
    /// The vector.
    pub fn as_u8(self) -> (r: u8)
        ensures
            r == vector(self),
    {
        match self {
            InterruptIndex::Timer => PIC_1_OFFSET,
            InterruptIndex::Keyboard => PIC_1_OFFSET + 1,
        }
    }

    /// The vector, as an index.
    pub fn as_usize(self) -> (r: usize)
        ensures
            r == vector(self) as usize,
    {
        self.as_u8() as usize
    }
}

/// The keyboard's IRQ line.
pub const KEYBOARD_IRQ: usize = 1;

/// What the kernel does on an interrupt or exception vector.
#[derive(Debug, Clone, Copy, PartialEq, Eq, Structural)]
pub enum InterruptAction {
    /// Timer: acknowledge, then count down the time slice.
    Tick,
    /// Keyboard: read the scancode, deliver IRQ 1, then acknowledge.
    Keyboard,
    /// Debug, NMI, breakpoint: report and carry on.
    Report,
    /// Any other exception: report and halt.
    Halt,
}

/// The action for `vector`.
pub open spec fn interrupt_action_of(vector_number: u8) -> InterruptAction {
    if vector_number == vector(InterruptIndex::Timer) {
        InterruptAction::Tick
    } else if vector_number == vector(InterruptIndex::Keyboard) {
        InterruptAction::Keyboard
    } else if vector_number == 1 || vector_number == 2 || vector_number == 3 {
        InterruptAction::Report
    } else {
        InterruptAction::Halt
    }
}

/// Decides what to do on `vector_number`.
pub fn interrupt_action(vector_number: u8) -> (r: InterruptAction)
    ensures
        r == interrupt_action_of(vector_number),
{
    if vector_number == InterruptIndex::Timer.as_u8() {
        InterruptAction::Tick
    } else if vector_number == InterruptIndex::Keyboard.as_u8() {
        InterruptAction::Keyboard
    } else if vector_number == 1 || vector_number == 2 || vector_number == 3 {
        InterruptAction::Report
    } else {
        InterruptAction::Halt
    }
}

/// The two cascaded PICs and their vector offsets.
#[derive(Debug, Clone, Copy, PartialEq, Eq, Structural)]
pub struct Pics {
    pic1_offset: u8,
    pic2_offset: u8,
}

impl Pics {
    pub closed spec fn offsets(&self) -> (u8, u8) {
        (self.pic1_offset, self.pic2_offset)
    }

    /// PICs whose vectors start at `offset1` and `offset2`.
    pub fn new(offset1: u8, offset2: u8) -> (r: Pics)
        ensures
            r.offsets() == (offset1, offset2),
    {
        Pics { pic1_offset: offset1, pic2_offset: offset2 }
    }

    /// The port writes that initialize both PICs, given the interrupt masks
    /// read from their data ports first: ICW1 (0x11) to both command ports,
    /// the vector offsets (ICW2), the cascade wiring (ICW3: secondary on line
    /// 2, identity 2), 8086 mode (ICW4), each followed by a wait write; then
    /// the masks restored.
    pub fn init(&self, mask1: u8, mask2: u8) -> (r: Vec<(u16, u8)>)
        ensures
            r@ == seq![
                (PIC1_COMMAND, 0x11u8),
                (WAIT_PORT, 0u8),
                (PIC2_COMMAND, 0x11u8),
                (WAIT_PORT, 0u8),
                (PIC1_DATA, self.offsets().0),
                (WAIT_PORT, 0u8),
                (PIC2_DATA, self.offsets().1),
                (WAIT_PORT, 0u8),
                (PIC1_DATA, 4u8),
                (WAIT_PORT, 0u8),
                (PIC2_DATA, 2u8),
                (WAIT_PORT, 0u8),
                (PIC1_DATA, 1u8),
                (WAIT_PORT, 0u8),
                (PIC2_DATA, 1u8),
                (WAIT_PORT, 0u8),
                (PIC1_DATA, mask1),
                (PIC2_DATA, mask2),
            ],
    {
        let mut w: Vec<(u16, u8)> = Vec::new();
        w.push((PIC1_COMMAND, 0x11));
        w.push((WAIT_PORT, 0));
        w.push((PIC2_COMMAND, 0x11));
        w.push((WAIT_PORT, 0));
        w.push((PIC1_DATA, self.pic1_offset));
        w.push((WAIT_PORT, 0));
        w.push((PIC2_DATA, self.pic2_offset));
        w.push((WAIT_PORT, 0));
        w.push((PIC1_DATA, 4));
        w.push((WAIT_PORT, 0));
        w.push((PIC2_DATA, 2));
        w.push((WAIT_PORT, 0));
        w.push((PIC1_DATA, 1));
        w.push((WAIT_PORT, 0));
        w.push((PIC2_DATA, 1));
        w.push((WAIT_PORT, 0));
        w.push((PIC1_DATA, mask1));
        w.push((PIC2_DATA, mask2));
        assert(w@ =~= seq![
            (PIC1_COMMAND, 0x11u8),
            (WAIT_PORT, 0u8),
            (PIC2_COMMAND, 0x11u8),
            (WAIT_PORT, 0u8),
            (PIC1_DATA, self.offsets().0),
            (WAIT_PORT, 0u8),
            (PIC2_DATA, self.offsets().1),
            (WAIT_PORT, 0u8),
            (PIC1_DATA, 4u8),
            (WAIT_PORT, 0u8),
            (PIC2_DATA, 2u8),
            (WAIT_PORT, 0u8),
            (PIC1_DATA, 1u8),
            (WAIT_PORT, 0u8),
            (PIC2_DATA, 1u8),
            (WAIT_PORT, 0u8),
            (PIC1_DATA, mask1),
            (PIC2_DATA, mask2),
        ]);
        w
    }

    /// The command ports to send end-of-interrupt to for vector `irq`: the
    /// secondary PIC's too when the vector is one of its, then the primary's.
    pub fn end_of_interrupt(&self, irq: u8) -> (r: Vec<u16>)
        ensures
            r@ == if irq >= self.offsets().1 {
                seq![PIC2_COMMAND, PIC1_COMMAND]
            } else {
                seq![PIC1_COMMAND]
            },
    {
        let mut ports: Vec<u16> = Vec::new();
        if irq >= self.pic2_offset {
            ports.push(PIC2_COMMAND);
        }
        ports.push(PIC1_COMMAND);
        proof {
            if irq >= self.pic2_offset {
                assert(ports@ =~= seq![PIC2_COMMAND, PIC1_COMMAND]);
            } else {
                assert(ports@ =~= seq![PIC1_COMMAND]);
            }
        }
        ports
    }
}

} // verus!
