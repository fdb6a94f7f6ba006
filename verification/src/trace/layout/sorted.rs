//! Column offsets within one sorted-log entry, from the entry's base column.

use vstd::prelude::*;

verus! {

/// Access address; entries are laid in non-decreasing address order.
pub const ADDR: usize = 0;
/// Timestamp the access carried on the value bus, `r * BUS_SLOTS + s`.
pub const TS: usize = 1;
/// Low 32-bit limb of the accessed value.
pub const LO: usize = 2;
/// High 32-bit limb of the accessed value.
pub const HI: usize = 3;
/// One on a write access, zero on a read.
pub const IS_WRITE: usize = 4;
/// One when the entry is real, zero when it pads the log's tail.
pub const ACTIVE: usize = 5;
/// One when this entry shares the previous entry's address (a continuing access
/// to the same cell), zero when it opens a new address.
pub const SAME_ADDR: usize = 6;

} // verus!
