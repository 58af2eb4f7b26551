//! The partition entry the second stage locates its files with.
use vstd::prelude::*;

verus! {

/// A partition table entry: its first sector and length.
#[derive(Debug, Clone, Copy, PartialEq, Eq, Structural)]
pub struct PartitionTableEntry {
    ignored: u64,
    pub sector: u32,
    pub length: u32,
}

} // verus!
