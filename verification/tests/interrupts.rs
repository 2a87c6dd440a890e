use emb_trial::gdt::{tss_interrupt_stack_table, DOUBLE_FAULT_IST_INDEX, STACK_SIZE};
use emb_trial::interrupts::{
    init_idt, scancode_to_key, IdtEntry, InterruptHandler, InterruptIndex, PIC_1_OFFSET, PIC_2_OFFSET,
};

#[test]
fn interrupt_index_vectors() {
    assert_eq!(PIC_1_OFFSET, 32);
    assert_eq!(PIC_2_OFFSET, 40);
    assert_eq!(InterruptIndex::TIMER.as_u8(), 32);
    assert_eq!(InterruptIndex::KeyBoard.as_u8(), 33);
}

#[test]
fn idt_layout() {
    let idt = init_idt();
    assert_eq!(idt.entry(3), Some(IdtEntry { handler: InterruptHandler::Breakpoint, stack_index: None }));
    assert_eq!(
        idt.entry(8),
        Some(IdtEntry { handler: InterruptHandler::DoubleFault, stack_index: Some(DOUBLE_FAULT_IST_INDEX) })
    );
    assert_eq!(idt.entry(32), Some(IdtEntry { handler: InterruptHandler::Timer, stack_index: None }));
    assert_eq!(idt.entry(33), Some(IdtEntry { handler: InterruptHandler::Keyboard, stack_index: None }));
    for v in 0..=255u8 {
        if ![3, 8, 32, 33].contains(&v) {
            assert_eq!(idt.entry(v), None);
        }
    }
}

#[test]
fn scancodes_of_digit_keys() {
    let digits = "1234567890";
    for (i, c) in digits.chars().enumerate() {
        assert_eq!(scancode_to_key(0x02 + i as u8), Some(c));
    }
    assert_eq!(scancode_to_key(0x01), None);
    assert_eq!(scancode_to_key(0x0c), None);
    assert_eq!(scancode_to_key(0x82), None);
}

#[test]
fn double_fault_stack_table() {
    let start: u64 = 0x0000_0000_0020_1000;
    let table = tss_interrupt_stack_table(start);
    assert_eq!(table.len(), 7);
    assert_eq!(table[DOUBLE_FAULT_IST_INDEX as usize], start + STACK_SIZE as u64);
    assert_eq!(table[DOUBLE_FAULT_IST_INDEX as usize], 0x206000);
    assert!(table[1..].iter().all(|&e| e == 0));

    let high: u64 = 0xffff_8000_0000_0000;
    let table = tss_interrupt_stack_table(high);
    assert_eq!(table[0], 0xffff_8000_0000_5000);
}
