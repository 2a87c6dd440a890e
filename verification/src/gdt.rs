//! The task state segment's interrupt stack table: the double-fault handler
//! runs on a stack of its own, so that a kernel stack overflow can be caught.

use vstd::prelude::*;

verus! {

/// Entry of the interrupt stack table that the double-fault handler uses.
pub const DOUBLE_FAULT_IST_INDEX: u16 = 0;

/// Size in bytes of the double-fault stack.
pub const STACK_SIZE: usize = 4096 * 5;

/// Number of entries in the interrupt stack table of a task state segment.
pub const IST_ENTRIES: usize = 7;

/// An x86-64 virtual address is canonical when bits 48 to 63 repeat bit 47.
pub open spec fn is_canonical(addr: u64) -> bool {
    addr < 0x0000_8000_0000_0000 || addr >= 0xffff_8000_0000_0000
}

/// Calls `x86_64::VirtAddr::try_new`, which accepts exactly the canonical
/// addresses and keeps their value; the contract claims `Some(addr)` for a
/// canonical address and `None` for any other.
#[verifier::external_body]
fn virt_addr_try_new(addr: u64) -> (r: Option<u64>)
    ensures
        r == (if is_canonical(addr) {
            Some(addr)
        } else {
            None::<u64>
        }),
{
    match x86_64::VirtAddr::try_new(addr) {
        Ok(v) => Some(v.as_u64()),
        Err(_) => None,
    }
}

/// The interrupt stack table of the kernel's task state segment, for a
/// double-fault stack that starts at `stack_start`: the entry
/// `DOUBLE_FAULT_IST_INDEX` holds the end of the stack (stacks grow down),
/// every other entry is zero.
pub fn tss_interrupt_stack_table(stack_start: u64) -> (table: Vec<u64>)
    requires
        is_canonical(stack_start),
        stack_start + STACK_SIZE <= u64::MAX,
        is_canonical((stack_start + STACK_SIZE) as u64),
    ensures
        table@.len() == IST_ENTRIES,
        table@[DOUBLE_FAULT_IST_INDEX as int] == stack_start + STACK_SIZE,
        forall|i: int| 0 <= i < IST_ENTRIES && i != DOUBLE_FAULT_IST_INDEX ==> table@[i] == 0,
{
    let mut table: Vec<u64> = Vec::new();
    for i in 0..IST_ENTRIES
        invariant
            table@.len() == i,
            forall|j: int| 0 <= j < i ==> table@[j] == 0,
    {
        table.push(0);
    }
    let start = virt_addr_try_new(stack_start);
    if let Some(start) = start {
        let end = virt_addr_try_new(start + STACK_SIZE as u64);
        if let Some(end) = end {
            table.set(DOUBLE_FAULT_IST_INDEX as usize, end);
        }
    }
    table
}

} // verus!
