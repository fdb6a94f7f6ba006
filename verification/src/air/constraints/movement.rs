//! The data-movement relations over the value bus: the copy operators
//! (`local.get`/`set`/`tee`, `global.get`/`set`) write the value they read limb
//! for limb, and `i32.wrap_i64` and `i64.extend_i32_u` keep the low limb and
//! clear the high one. Every family reads its source on bus slot 0 and writes
//! its result on slot 1.

use vstd::prelude::*;
use crate::air::constraints::address::{bus_col, row_fits, sel, sel_of};
use crate::air::field::{felt_add, felt_mul, felt_sub, fp_add, fp_mul, fp_sub};
use crate::decoder::opcode::OpCode;
use crate::trace::layout::{bus_slot, slot};

verus! {

/// The movement residuals of the trace row `local`: a row satisfies the
/// relations when every one is zero.
pub open spec fn movement_residuals(local: Seq<u64>) -> Seq<u64> {
    let copy = fp_add(
        fp_add(
            fp_add(fp_add(sel(local, OpCode::LocalGet), sel(local, OpCode::GlobalGet)), sel(local, OpCode::LocalSet)),
            sel(local, OpCode::GlobalSet),
        ),
        sel(local, OpCode::LocalTee),
    );
    let truncate = fp_add(sel(local, OpCode::I32WrapI64), sel(local, OpCode::I64ExtendI32U));
    seq![
        fp_mul(copy, fp_sub(local[bus_col(1, slot::LO)], local[bus_col(0, slot::LO)])),
        fp_mul(copy, fp_sub(local[bus_col(1, slot::HI)], local[bus_col(0, slot::HI)])),
        fp_mul(truncate, fp_sub(local[bus_col(1, slot::LO)], local[bus_col(0, slot::LO)])),
        fp_mul(truncate, local[bus_col(1, slot::HI)]),
    ]
}

/// Evaluates the movement residuals of the trace row `local`.
pub fn evaluate(local: &[u64]) -> (r: Vec<u64>)
    requires
        row_fits(local@),
    ensures
        r@ == movement_residuals(local@),
{
    let copy = felt_add(
        felt_add(
            felt_add(felt_add(sel_of(local, OpCode::LocalGet), sel_of(local, OpCode::GlobalGet)), sel_of(local, OpCode::LocalSet)),
            sel_of(local, OpCode::GlobalSet),
        ),
        sel_of(local, OpCode::LocalTee),
    );
    let truncate = felt_add(sel_of(local, OpCode::I32WrapI64), sel_of(local, OpCode::I64ExtendI32U));
    let mut r: Vec<u64> = Vec::new();
    r.push(felt_mul(copy, felt_sub(local[bus_slot(1) + slot::LO], local[bus_slot(0) + slot::LO])));
    r.push(felt_mul(copy, felt_sub(local[bus_slot(1) + slot::HI], local[bus_slot(0) + slot::HI])));
    r.push(felt_mul(truncate, felt_sub(local[bus_slot(1) + slot::LO], local[bus_slot(0) + slot::LO])));
    r.push(felt_mul(truncate, local[bus_slot(1) + slot::HI]));
    assert(r@ =~= movement_residuals(local@));
    r
}

} // verus!
