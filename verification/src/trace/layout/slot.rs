//! Column offsets within one value-bus slot, from the slot's base column.

use vstd::prelude::*;

verus! {

/// Access address in the unified address space.
pub const ADDR: usize = 0;
/// Low 32-bit limb of the accessed value.
pub const LO: usize = 1;
/// High 32-bit limb of the accessed value.
pub const HI: usize = 2;
/// One on a write (store) access, zero on a read (load).
pub const IS_WRITE: usize = 3;
/// One when the slot carries a real access, zero when it is idle.
pub const ACTIVE: usize = 4;

} // verus!
