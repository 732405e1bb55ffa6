//! The interrupt descriptor table: which handler serves each vector, and what
//! each handler does.

use vstd::prelude::*;

use crate::pic8259::MASTER_OFFSET;

verus! {

/// The hardware interrupts the kernel serves, by their remapped vectors.
#[derive(Clone, Copy, PartialEq, Eq, Structural, Debug)]
pub enum InterruptIndex {
    Timer,
    Keyboard,
}

impl InterruptIndex {
    /// The vector of the interrupt: IRQ 0 and 1 remapped to 0x20 and 0x21.
    pub open spec fn vector(self) -> u8 {
        match self {
            InterruptIndex::Timer => 0x20,
            InterruptIndex::Keyboard => 0x21,
        }
    }

    /// The IRQ line of the interrupt on the master controller: its vector
    /// less the master's vector base.
    pub open spec fn irq_line(self) -> u8 {
        (self.vector() - MASTER_OFFSET) as u8
    }

    /// The IRQ line of the interrupt, the value that acknowledges it.
    pub fn irq(self) -> (r: u8)
        ensures
            r == self.irq_line(),
    {
        self.as_u8() - MASTER_OFFSET
    }

    /// The vector of the interrupt as a byte.
    pub fn as_u8(self) -> (r: u8)
        ensures
            r == self.vector(),
    {
        match self {
            InterruptIndex::Timer => 0x20,
            InterruptIndex::Keyboard => 0x21,
        }
    }

    /// The vector of the interrupt as an index.
    pub fn as_usize(self) -> (r: usize)
        ensures
            r == self.vector() as usize,
    {
        match self {
            InterruptIndex::Timer => 0x20,
            InterruptIndex::Keyboard => 0x21,
        }
    }
}

/// The handlers installed in the descriptor table.
#[derive(Clone, Copy, PartialEq, Eq, Structural, Debug)]
pub enum Handler {
    DivideError,
    Debug,
    NonMaskableInterrupt,
    Breakpoint,
    Overflow,
    BoundRangeExceeded,
    InvalidOpcode,
    DeviceNotAvailable,
    DoubleFault,
    InvalidTss,
    SegmentNotPresent,
    StackSegmentFault,
    GeneralProtectionFault,
    PageFault,
    X87FloatingPoint,
    AlignmentCheck,
    MachineCheck,
    SimdFloatingPoint,
    Virtualization,
    Timer,
    Keyboard,
    SpuriousIrq7,
}

impl Handler {
    /// The vector at which the handler is installed: the architectural vector
    /// of each exception, the remapped vectors of the timer and keyboard
    /// interrupts, and 0x27 for IRQ 7.
    pub open spec fn vector(self) -> u8 {
        match self {
            Handler::DivideError => 0,
            Handler::Debug => 1,
            Handler::NonMaskableInterrupt => 2,
            Handler::Breakpoint => 3,
            Handler::Overflow => 4,
            Handler::BoundRangeExceeded => 5,
            Handler::InvalidOpcode => 6,
            Handler::DeviceNotAvailable => 7,
            Handler::DoubleFault => 8,
            Handler::InvalidTss => 10,
            Handler::SegmentNotPresent => 11,
            Handler::StackSegmentFault => 12,
            Handler::GeneralProtectionFault => 13,
            Handler::PageFault => 14,
            Handler::X87FloatingPoint => 16,
            Handler::AlignmentCheck => 17,
            Handler::MachineCheck => 18,
            Handler::SimdFloatingPoint => 19,
            Handler::Virtualization => 20,
            Handler::Timer => InterruptIndex::Timer.vector(),
            Handler::Keyboard => InterruptIndex::Keyboard.vector(),
            Handler::SpuriousIrq7 => 0x27,
        }
    }

    /// What the handler does.
    pub open spec fn reaction_spec(self) -> Reaction {
        match self {
            Handler::Breakpoint => Reaction::Report,
            Handler::Timer => Reaction::EndOfInterrupt(InterruptIndex::Timer.irq_line()),
            Handler::Keyboard => Reaction::KeyboardThenEndOfInterrupt(
                InterruptIndex::Keyboard.irq_line(),
            ),
            Handler::SpuriousIrq7 => Reaction::Ignore,
            _ => Reaction::Halt,
        }
    }

    /// What the handler does: a breakpoint is reported and execution goes
    /// on; the timer interrupt is acknowledged on its IRQ line 0; the keyboard
    /// interrupt is served and then acknowledged on its IRQ line 1, with
    /// interrupts disabled; a spurious
    /// IRQ 7 is neither served nor acknowledged; every other exception halts
    /// the kernel with a report.
    pub fn reaction(self) -> (r: Reaction)
        ensures
            r == self.reaction_spec(),
    {
        match self {
            Handler::Breakpoint => Reaction::Report,
            Handler::Timer => Reaction::EndOfInterrupt(InterruptIndex::Timer.irq()),
            Handler::Keyboard => Reaction::KeyboardThenEndOfInterrupt(
                InterruptIndex::Keyboard.irq(),
            ),
            Handler::SpuriousIrq7 => Reaction::Ignore,
            _ => Reaction::Halt,
        }
    }
}

/// What a handler does.
#[derive(Clone, Copy, PartialEq, Eq, Structural, Debug)]
pub enum Reaction {
    /// Report the exception and halt.
    Halt,
    /// Report the exception and return.
    Report,
    /// Signal end of interrupt for this IRQ line, then return.
    EndOfInterrupt(u8),
    /// Serve the keyboard, then signal end of interrupt for this IRQ line.
    KeyboardThenEndOfInterrupt(u8),
    /// Return at once.
    Ignore,
}

/// The handler installed at `vector`, if any.
pub fn handler_for_vector(vector: u8) -> (r: Option<Handler>)
    ensures
        r matches Some(h) ==> h.vector() == vector,
        r is None ==> forall|h: Handler| h.vector() != vector,
{
    match vector {
        0 => Some(Handler::DivideError),
        1 => Some(Handler::Debug),
        2 => Some(Handler::NonMaskableInterrupt),
        3 => Some(Handler::Breakpoint),
        4 => Some(Handler::Overflow),
        5 => Some(Handler::BoundRangeExceeded),
        6 => Some(Handler::InvalidOpcode),
        7 => Some(Handler::DeviceNotAvailable),
        8 => Some(Handler::DoubleFault),
        10 => Some(Handler::InvalidTss),
        11 => Some(Handler::SegmentNotPresent),
        12 => Some(Handler::StackSegmentFault),
        13 => Some(Handler::GeneralProtectionFault),
        14 => Some(Handler::PageFault),
        16 => Some(Handler::X87FloatingPoint),
        17 => Some(Handler::AlignmentCheck),
        18 => Some(Handler::MachineCheck),
        19 => Some(Handler::SimdFloatingPoint),
        20 => Some(Handler::Virtualization),
        0x20 => Some(Handler::Timer),
        0x21 => Some(Handler::Keyboard),
        0x27 => Some(Handler::SpuriousIrq7),
        _ => None,
    }
}

/// No two handlers share a vector, so the table is well defined.
pub proof fn lemma_vectors_distinct(h1: Handler, h2: Handler)
    ensures
        h1.vector() == h2.vector() ==> h1 == h2,
{
}

/// Each hardware interrupt the kernel serves is acknowledged on its own IRQ
/// line, whose vector is that line past the master's vector base; the line
/// is below 8, so only the master controller is signalled. Only the hardware
/// interrupt handlers acknowledge anything.
pub proof fn lemma_interrupts_acknowledged(h: Handler)
    ensures
        h == Handler::Timer ==> h.reaction_spec() == Reaction::EndOfInterrupt(0),
        h == Handler::Keyboard ==> h.reaction_spec() == Reaction::KeyboardThenEndOfInterrupt(1),
        h.reaction_spec() matches Reaction::EndOfInterrupt(l) ==> l < 8 && l + MASTER_OFFSET
            == h.vector(),
        h.reaction_spec() matches Reaction::KeyboardThenEndOfInterrupt(l) ==> l < 8 && l
            + MASTER_OFFSET == h.vector(),
        (h.reaction_spec() matches Reaction::EndOfInterrupt(_)) ==> h == Handler::Timer,
        (h.reaction_spec() matches Reaction::KeyboardThenEndOfInterrupt(_)) ==> h
            == Handler::Keyboard,
        h.vector() < 32 && h != Handler::Breakpoint ==> h.reaction_spec() == Reaction::Halt,
{
}

/// Each exception handler sits at its architectural x86 vector (divide
/// error 0, debug 1, NMI 2, breakpoint 3, overflow 4, bound range 5, invalid
/// opcode 6, device not available 7, double fault 8, invalid TSS 10, segment
/// not present 11, stack-segment fault 12, general protection 13, page fault
/// 14, x87 16, alignment check 17, machine check 18, SIMD 19, virtualization
/// 20), the timer and keyboard at IRQ 0 and 1 past the master's base 0x20,
/// and the spurious IRQ 7 at 0x27; the reserved vectors 9 and 15, the
/// vectors from 21 to 31 and every other vector have no handler.
pub proof fn lemma_architectural_vectors(v: u8)
    ensures
        Handler::DivideError.vector() == 0,
        Handler::Debug.vector() == 1,
        Handler::NonMaskableInterrupt.vector() == 2,
        Handler::Breakpoint.vector() == 3,
        Handler::Overflow.vector() == 4,
        Handler::BoundRangeExceeded.vector() == 5,
        Handler::InvalidOpcode.vector() == 6,
        Handler::DeviceNotAvailable.vector() == 7,
        Handler::DoubleFault.vector() == 8,
        Handler::InvalidTss.vector() == 10,
        Handler::SegmentNotPresent.vector() == 11,
        Handler::StackSegmentFault.vector() == 12,
        Handler::GeneralProtectionFault.vector() == 13,
        Handler::PageFault.vector() == 14,
        Handler::X87FloatingPoint.vector() == 16,
        Handler::AlignmentCheck.vector() == 17,
        Handler::MachineCheck.vector() == 18,
        Handler::SimdFloatingPoint.vector() == 19,
        Handler::Virtualization.vector() == 20,
        Handler::Timer.vector() == 0x20 + 0,
        Handler::Keyboard.vector() == 0x20 + 1,
        Handler::SpuriousIrq7.vector() == 0x20 + 7,
        (v == 9 || v == 15 || (21 <= v < 0x20) || (0x22 <= v < 0x27) || v > 0x27) ==> forall|
            h: Handler,
        | h.vector() != v,
{
}

} // verus!
