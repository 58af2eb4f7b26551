//! Memory mapping flags.
use vstd::prelude::*;

verus! {

pub const READ: u64 = 0x1;
pub const WRITE: u64 = 0x2;
pub const EXECUTE: u64 = 0x4;
pub const USER: u64 = 0x8;
pub const RW: u64 = 0x3;
pub const RWX: u64 = 0x7;
pub const RW_USER: u64 = 0xB;

} // verus!
