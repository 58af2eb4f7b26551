//! A fixed user-space layout for a first test program: a code page and a
//! small stack below it, and a program that spins.
use vstd::prelude::*;
use crate::kernel::syscall::memory::{PTE_PRESENT, PTE_USER_ACCESSIBLE, PTE_WRITABLE};

verus! {

/// User space code is loaded at this address.
pub const USER_CODE_START: u64 = 0x0000_0040_0000;
/// User space stack starts here (grows downward).
pub const USER_STACK_TOP: u64 = 0x0000_0080_0000;
/// User stack size: 16 KiB.
pub const USER_STACK_SIZE: u64 = 0x4000;

/// The user mappings to make: the stack's pages (present, writable, user)
/// from `stack_first_page` on, and one code page (present, user; not
/// writable).
#[derive(Debug, Clone, Copy, PartialEq, Eq, Structural)]
pub struct UserMemoryPlan {
    pub stack_first_page: u64,
    pub stack_pages: u64,
    pub stack_flags: u64,
    pub code_page: u64,
    pub code_flags: u64,
}

/// The mappings of the test layout: the pages from the one holding the
/// stack's lowest byte to the one holding its highest, and the page holding
/// the code's start.
pub fn user_memory_plan() -> (r: UserMemoryPlan)
    ensures
        r == (UserMemoryPlan {
            stack_first_page: (USER_STACK_TOP - USER_STACK_SIZE) as u64,
            stack_pages: 4,
            stack_flags: PTE_PRESENT | PTE_WRITABLE | PTE_USER_ACCESSIBLE,
            code_page: USER_CODE_START,
            code_flags: PTE_PRESENT | PTE_USER_ACCESSIBLE,
        }),
{
    let stack_start = USER_STACK_TOP - USER_STACK_SIZE;
    let first = stack_start - stack_start % 4096;
    let last_byte = USER_STACK_TOP - 1;
    let last = last_byte - last_byte % 4096;
    UserMemoryPlan {
        stack_first_page: first,
        stack_pages: (last - first) / 4096 + 1,
        stack_flags: PTE_PRESENT | PTE_WRITABLE | PTE_USER_ACCESSIBLE,
        code_page: USER_CODE_START - USER_CODE_START % 4096,
        code_flags: PTE_PRESENT | PTE_USER_ACCESSIBLE,
    }
}

/// The test program, written at the code page's start: four NOPs, then a
/// short jump to itself.
pub fn test_program() -> (r: [u8; 6])
    ensures
        r@ == seq![0x90u8, 0x90u8, 0x90u8, 0x90u8, 0xEBu8, 0xFEu8],
{
    let r = [0x90u8, 0x90, 0x90, 0x90, 0xEB, 0xFE];
    assert(r@ =~= seq![0x90u8, 0x90u8, 0x90u8, 0x90u8, 0xEBu8, 0xFEu8]);
    r
}

} // verus!
