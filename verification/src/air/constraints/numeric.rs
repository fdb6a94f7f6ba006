//! The numeric relations: `add` and `sub` over the two-limb value-bus
//! encoding. The low limbs balance up to one carry (or borrow) of `2^32`, a
//! 32-bit result has no high limb, and the high limbs of a 64-bit result
//! balance with the carry (or borrow) the low limbs passed up, up to one wrap.

use vstd::prelude::*;
use crate::air::constraints::FIELD_ORDER;
use crate::air::constraints::address::{bus_col, row_fits, sel, sel_of};
use crate::air::field::{felt_add, felt_inverse, felt_mul, felt_new, felt_sub, fp_add, fp_mul, fp_sub, lemma_inverse_unique};
use crate::decoder::opcode::OpCode;
use crate::trace::layout::{bus_slot, slot};

verus! {

/// `2^32`, the weight of a high limb.
pub const TWO32: u64 = 0x1_0000_0000;

/// The inverse of [`TWO32`] in the field.
pub const INV_TWO32: u64 = 0xFFFF_FFFE_0000_0002;

/// The numeric residuals of the trace row `local`, the operands read on bus
/// slots 0 and 1 and the result written on slot 2: a row satisfies the
/// relations when every one is zero.
pub open spec fn numeric_residuals(local: Seq<u64>) -> Seq<u64> {
    let add32 = sel(local, OpCode::I32Add);
    let sub32 = sel(local, OpCode::I32Sub);
    let add64 = sel(local, OpCode::I64Add);
    let sub64 = sel(local, OpCode::I64Sub);
    let c2_lo = local[bus_col(0, slot::LO)];
    let c2_hi = local[bus_col(0, slot::HI)];
    let c1_lo = local[bus_col(1, slot::LO)];
    let c1_hi = local[bus_col(1, slot::HI)];
    let r_lo = local[bus_col(2, slot::LO)];
    let r_hi = local[bus_col(2, slot::HI)];
    let add_balance = fp_sub(fp_add(c1_lo, c2_lo), r_lo);
    let sub_balance = fp_sub(fp_sub(c1_lo, c2_lo), r_lo);
    let carry = fp_mul(add_balance, INV_TWO32);
    let add_hi = fp_sub(fp_add(fp_add(c1_hi, c2_hi), carry), r_hi);
    let borrow = fp_mul(fp_sub(0, sub_balance), INV_TWO32);
    let sub_hi = fp_sub(fp_sub(fp_sub(c1_hi, c2_hi), borrow), r_hi);
    seq![
        fp_mul(fp_mul(fp_add(add32, add64), add_balance), fp_sub(add_balance, TWO32)),
        fp_mul(fp_mul(fp_add(sub32, sub64), sub_balance), fp_add(sub_balance, TWO32)),
        fp_mul(fp_add(add32, sub32), r_hi),
        fp_mul(fp_mul(add64, add_hi), fp_sub(add_hi, TWO32)),
        fp_mul(fp_mul(sub64, sub_hi), fp_add(sub_hi, TWO32)),
    ]
}

/// Evaluates the numeric residuals of the trace row `local`.
pub fn evaluate(local: &[u64]) -> (r: Vec<u64>)
    requires
        row_fits(local@),
    ensures
        r@ == numeric_residuals(local@),
{
    let two32 = felt_new(TWO32);
    let inv32 = felt_inverse(two32);
    proof {
        assert(fp_mul(TWO32, INV_TWO32) == 1) by (nonlinear_arith);
        lemma_inverse_unique(TWO32, inv32, INV_TWO32);
    }
    let add32 = sel_of(local, OpCode::I32Add);
    let sub32 = sel_of(local, OpCode::I32Sub);
    let add64 = sel_of(local, OpCode::I64Add);
    let sub64 = sel_of(local, OpCode::I64Sub);
    let c2_lo = local[bus_slot(0) + slot::LO];
    let c2_hi = local[bus_slot(0) + slot::HI];
    let c1_lo = local[bus_slot(1) + slot::LO];
    let c1_hi = local[bus_slot(1) + slot::HI];
    let r_lo = local[bus_slot(2) + slot::LO];
    let r_hi = local[bus_slot(2) + slot::HI];
    let add_balance = felt_sub(felt_add(c1_lo, c2_lo), r_lo);
    let sub_balance = felt_sub(felt_sub(c1_lo, c2_lo), r_lo);
    let carry = felt_mul(add_balance, inv32);
    let add_hi = felt_sub(felt_add(felt_add(c1_hi, c2_hi), carry), r_hi);
    let borrow = felt_mul(felt_sub(0, sub_balance), inv32);
    let sub_hi = felt_sub(felt_sub(felt_sub(c1_hi, c2_hi), borrow), r_hi);
    let mut r: Vec<u64> = Vec::new();
    r.push(felt_mul(felt_mul(felt_add(add32, add64), add_balance), felt_sub(add_balance, two32)));
    r.push(felt_mul(felt_mul(felt_add(sub32, sub64), sub_balance), felt_add(sub_balance, two32)));
    r.push(felt_mul(felt_add(add32, sub32), r_hi));
    r.push(felt_mul(felt_mul(add64, add_hi), felt_sub(add_hi, two32)));
    r.push(felt_mul(felt_mul(sub64, sub_hi), felt_add(sub_hi, two32)));
    assert(r@ =~= numeric_residuals(local@));
    r
}

} // verus!
