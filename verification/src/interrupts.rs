//! Interrupt routing: where the programmable interrupt controllers place the
//! hardware interrupts, which handler serves each vector of the interrupt
//! descriptor table, and how the keyboard handler reads a scancode.

use vstd::prelude::*;
use crate::gdt::DOUBLE_FAULT_IST_INDEX;

verus! {

/// First vector of the primary interrupt controller.
pub const PIC_1_OFFSET: u8 = 32;

/// First vector of the secondary interrupt controller.
pub const PIC_2_OFFSET: u8 = PIC_1_OFFSET + 8;

/// Vector of the breakpoint exception (`int3`).
pub const BREAKPOINT_VECTOR: u8 = 3;

/// Vector of the double-fault exception.
pub const DOUBLE_FAULT_VECTOR: u8 = 8;

/// Number of vectors in an interrupt descriptor table.
pub const IDT_ENTRIES: usize = 256;

/// The hardware interrupts the kernel serves, on the primary controller.
#[allow(non_camel_case_types)]
#[derive(Clone, Copy, Debug, PartialEq, Eq, Structural)]
pub enum InterruptIndex {
    TIMER,
    KeyBoard,
}

impl InterruptIndex {
    /// The interrupt vector: the timer is the controller's first line, the
    /// keyboard the next one.
    pub open spec fn spec_as_u8(self) -> u8 {
        match self {
            InterruptIndex::TIMER => PIC_1_OFFSET,
            InterruptIndex::KeyBoard => (PIC_1_OFFSET + 1) as u8,
        }
    }

    /// The interrupt vector.
    #[verifier::when_used_as_spec(spec_as_u8)]
    pub fn as_u8(self) -> (v: u8)
        ensures
            v == self.spec_as_u8(),
    {
        match self {
            InterruptIndex::TIMER => PIC_1_OFFSET,
            InterruptIndex::KeyBoard => PIC_1_OFFSET + 1,
        }
    }
}

/// The kernel's interrupt handlers.
#[derive(Clone, Copy, Debug, PartialEq, Eq, Structural)]
pub enum InterruptHandler {
    Breakpoint,
    DoubleFault,
    Timer,
    Keyboard,
}

/// One installed entry of the interrupt descriptor table: its handler, and
/// the interrupt stack table entry it switches to, if any.
#[derive(Clone, Copy, Debug, PartialEq, Eq, Structural)]
pub struct IdtEntry {
    pub handler: InterruptHandler,
    pub stack_index: Option<u16>,
}

/// The entry that the kernel installs at `vector`.
pub open spec fn idt_entry(vector: int) -> Option<IdtEntry> {
    if vector == BREAKPOINT_VECTOR {
        Some(IdtEntry { handler: InterruptHandler::Breakpoint, stack_index: None })
    } else if vector == DOUBLE_FAULT_VECTOR {
        Some(IdtEntry { handler: InterruptHandler::DoubleFault, stack_index: Some(DOUBLE_FAULT_IST_INDEX) })
    } else if vector == InterruptIndex::TIMER.spec_as_u8() {
        Some(IdtEntry { handler: InterruptHandler::Timer, stack_index: None })
    } else if vector == InterruptIndex::KeyBoard.spec_as_u8() {
        Some(IdtEntry { handler: InterruptHandler::Keyboard, stack_index: None })
    } else {
        None
    }
}

/// The interrupt descriptor table, one optional entry per vector.
pub struct IdtLayout {
    entries: Vec<Option<IdtEntry>>,
}

impl View for IdtLayout {
    type V = Seq<Option<IdtEntry>>;

    closed spec fn view(&self) -> Seq<Option<IdtEntry>> {
        self.entries@
    }
}

impl IdtLayout {
    /// The entry installed at `vector`.
    pub fn entry(&self, vector: u8) -> (e: Option<IdtEntry>)
        requires
            self@.len() == IDT_ENTRIES,
        ensures
            e == self@[vector as int],
    {
        self.entries[vector as usize]
    }
}

/// The interrupt descriptor table that the kernel loads: the breakpoint and
/// double-fault exceptions, the latter on its own stack, and the timer and
/// keyboard interrupts; every other vector is left empty.
pub fn init_idt() -> (idt: IdtLayout)
    ensures
        idt@.len() == IDT_ENTRIES,
        forall|v: int| 0 <= v < IDT_ENTRIES ==> idt@[v] == idt_entry(v),
{
    let mut entries: Vec<Option<IdtEntry>> = Vec::new();
    for i in 0..IDT_ENTRIES
        invariant
            entries@.len() == i,
            forall|j: int| 0 <= j < i ==> entries@[j] is None,
    {
        entries.push(None);
    }
    entries.set(BREAKPOINT_VECTOR as usize, Some(IdtEntry { handler: InterruptHandler::Breakpoint, stack_index: None }));
    entries.set(
        DOUBLE_FAULT_VECTOR as usize,
        Some(IdtEntry { handler: InterruptHandler::DoubleFault, stack_index: Some(DOUBLE_FAULT_IST_INDEX) }),
    );
    entries.set(InterruptIndex::TIMER.as_u8() as usize, Some(IdtEntry { handler: InterruptHandler::Timer, stack_index: None }));
    entries.set(InterruptIndex::KeyBoard.as_u8() as usize, Some(IdtEntry { handler: InterruptHandler::Keyboard, stack_index: None }));
    let idt = IdtLayout { entries };
    assert forall|v: int| 0 <= v < IDT_ENTRIES implies idt@[v] == idt_entry(v) by {}
    idt
}

/// The key of the top row of digits that a keyboard scancode (set 1) presses.
pub open spec fn key_of_scancode(scancode: u8) -> Option<char> {
    match scancode {
        0x02 => Some('1'),
        0x03 => Some('2'),
        0x04 => Some('3'),
        0x05 => Some('4'),
        0x06 => Some('5'),
        0x07 => Some('6'),
        0x08 => Some('7'),
        0x09 => Some('8'),
        0x0a => Some('9'),
        0x0b => Some('0'),
        _ => None,
    }
}

/// Decodes a scancode read from the keyboard controller: the digit keys give
/// their character, any other scancode nothing.
pub fn scancode_to_key(scancode: u8) -> (key: Option<char>)
    ensures
        key == key_of_scancode(scancode),
{
    match scancode {
        0x02 => Some('1'),
        0x03 => Some('2'),
        0x04 => Some('3'),
        0x05 => Some('4'),
        0x06 => Some('5'),
        0x07 => Some('6'),
        0x08 => Some('7'),
        0x09 => Some('8'),
        0x0a => Some('9'),
        0x0b => Some('0'),
        _ => None,
    }
}

/// Only the make codes of the digit row, `0x02..=0x0b`, give a key: the
/// keys `'1'` to `'9'` for `0x02` to `0x0a` and `'0'` for `0x0b`; every
/// other scancode, among them every release code (top bit set), gives none.
pub proof fn lemma_scancode_keys(scancode: u8)
    ensures
        key_of_scancode(scancode) is Some <==> 0x02 <= scancode <= 0x0b,
        scancode >= 0x80 ==> key_of_scancode(scancode) is None,
        0x02 <= scancode <= 0x0a ==> key_of_scancode(scancode) == Some(((scancode + 0x2f) as u8) as char),
        scancode == 0x0b ==> key_of_scancode(scancode) == Some('0'),
{
}

} // verus!
