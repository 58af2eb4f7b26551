//! Detecting memory: the BIOS memory map (E820) is read one entry per call
//! into a table of 100 entries; this decides after each call whether to go
//! on.
use vstd::prelude::*;

verus! {

/// The signature ("SMAP") a successful E820 call answers.
pub const SMAP: u32 = 0x534D4150;
/// Entries in the memory-map table.
pub const MEMORY_MAP_ENTRIES: usize = 100;

/// What follows an E820 call.
#[derive(Debug, Clone, Copy, PartialEq, Eq, Structural)]
pub enum E820Step {
    /// Call again, filling entry `count` next.
    Next { count: usize },
    /// The map is complete: its first `len` entries.
    Done { len: usize },
    /// The BIOS answered this instead of the signature.
    Failed(u32),
}

/// The entries counted after a call that wrote `written` bytes.
pub open spec fn counted(count: usize, written: usize) -> int {
    count + if written != 0 {
        1int
    } else {
        0int
    }
}

/// The decision after an E820 call made with `count` entries filled, which
/// answered `ret`, wrote `written` bytes and gave the continuation value
/// `continuation`: a wrong signature fails; an entry is counted when bytes
/// were written; a continuation of 0 ends the map, which keeps all counted
/// entries but the last.
pub fn e820_step(count: usize, ret: u32, written: usize, continuation: u32) -> (r: E820Step)
    requires
        count < MEMORY_MAP_ENTRIES,
        ret == SMAP && continuation == 0 ==> counted(count, written) >= 1,
    ensures
        r == if ret != SMAP {
            E820Step::Failed(ret)
        } else if continuation == 0 {
            E820Step::Done { len: (counted(count, written) - 1) as usize }
        } else {
            E820Step::Next { count: counted(count, written) as usize }
        },
{
    if ret != SMAP {
        return E820Step::Failed(ret);
    }
    let c = if written != 0 {
        count + 1
    } else {
        count
    };
    if continuation == 0 {
        E820Step::Done { len: c - 1 }
    } else {
        E820Step::Next { count: c }
    }
}

} // verus!
