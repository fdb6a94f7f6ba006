//! Binding the value-bus slot addresses of a trace row to the static
//! schedule: for each shape of register access, the slots the row's
//! instruction touches sit at the addresses its operand-stack height and the
//! bank it names give, are active, and read or write as the shape says; the
//! slots it does not touch are idle.

use vstd::prelude::*;
use crate::air::constraints::FIELD_ORDER;
use crate::air::field::{felt_add, felt_mul, felt_new, felt_sub, fp_add, fp_mul, fp_sub};
use crate::decoder::opcode::OpCode;
use crate::trace::layout::{BUS_BASE, BUS_SLOT_COLS, COL_FRAME_BASE, COL_HEIGHT, COL_IMM, REGISTER_REGION, SELECTOR_BASE, bus_slot, slot};
use crate::trace::selector::{NUM_SELECTORS, opcode_index};
use crate::decoder::opcode::opcode_position;

verus! {

/// Whether `local` is a trace row: wide enough for every column up to the
/// selectors, each entry a canonical field element.
pub open spec fn row_fits(local: Seq<u64>) -> bool {
    &&& local.len() >= SELECTOR_BASE + NUM_SELECTORS
    &&& forall|i: int| 0 <= i < local.len() ==> #[trigger] local[i] < FIELD_ORDER
}

/// The column of field `c` of value-bus slot `s`.
pub open spec fn bus_col(s: int, c: usize) -> int {
    BUS_BASE + s * BUS_SLOT_COLS + c
}

/// The selector of `op` in `local`.
pub open spec fn sel(local: Seq<u64>, op: OpCode) -> u64 {
    local[SELECTOR_BASE + opcode_position(op)]
}

/// The addresses a row's accesses are bound to.
#[derive(Clone, Copy)]
pub struct Anchors {
    /// The bank slot the immediate names: frame base, register region and
    /// immediate.
    pub bank: u64,
    /// The slot a push lands in: frame base, register region, stack base and
    /// height.
    pub new_top: u64,
    /// The operand-stack top, one below `new_top`.
    pub pop_top: u64,
    /// The slot beneath the top, two below `new_top`.
    pub deep: u64,
}

/// The anchors of `local` for the frame's public `stack_base`.
pub open spec fn anchors_of(local: Seq<u64>, stack_base: u64) -> Anchors {
    let base = fp_add(fp_add(local[COL_FRAME_BASE as int], REGISTER_REGION), (stack_base % FIELD_ORDER) as u64);
    let new_top = fp_add(base, local[COL_HEIGHT as int]);
    Anchors {
        bank: fp_add(fp_add(local[COL_FRAME_BASE as int], REGISTER_REGION), local[COL_IMM as int]),
        new_top,
        pop_top: fp_sub(new_top, 1),
        deep: fp_sub(new_top, 2),
    }
}

/// Whether every anchor is a canonical field element.
pub open spec fn anchors_fit(a: Anchors) -> bool {
    a.bank < FIELD_ORDER && a.new_top < FIELD_ORDER && a.pop_top < FIELD_ORDER && a.deep < FIELD_ORDER
}

/// The residuals of the pop-two-push-one shape (`add`, `sub`, the comparisons and the binary bitwise operators): the two operands read from the top and the slot beneath it, the result written over the deeper one.
pub open spec fn group_residuals(local: Seq<u64>, a: Anchors) -> Seq<u64> {
    let g = fp_add(fp_add(fp_add(fp_add(fp_add(fp_add(fp_add(fp_add(fp_add(fp_add(fp_add(fp_add(fp_add(fp_add(fp_add(fp_add(fp_add(fp_add(fp_add(fp_add(fp_add(fp_add(fp_add(fp_add(fp_add(fp_add(fp_add(fp_add(fp_add(sel(local, OpCode::I32Add), sel(local, OpCode::I32Sub)), sel(local, OpCode::I64Add)), sel(local, OpCode::I64Sub)), sel(local, OpCode::I32Eq)), sel(local, OpCode::I32Ne)), sel(local, OpCode::I32LtS)), sel(local, OpCode::I32LtU)), sel(local, OpCode::I32GtS)), sel(local, OpCode::I32GtU)), sel(local, OpCode::I32LeS)), sel(local, OpCode::I32LeU)), sel(local, OpCode::I32GeS)), sel(local, OpCode::I32GeU)), sel(local, OpCode::I64Eq)), sel(local, OpCode::I64Ne)), sel(local, OpCode::I64LtS)), sel(local, OpCode::I64LtU)), sel(local, OpCode::I64GtS)), sel(local, OpCode::I64GtU)), sel(local, OpCode::I64LeS)), sel(local, OpCode::I64LeU)), sel(local, OpCode::I64GeS)), sel(local, OpCode::I64GeU)), sel(local, OpCode::I32And)), sel(local, OpCode::I32Or)), sel(local, OpCode::I32Xor)), sel(local, OpCode::I64And)), sel(local, OpCode::I64Or)), sel(local, OpCode::I64Xor));
    seq![
        fp_mul(g, fp_sub(local[bus_col(0, slot::ADDR)], a.pop_top)),
        fp_mul(g, fp_sub(local[bus_col(1, slot::ADDR)], a.deep)),
        fp_mul(g, fp_sub(local[bus_col(2, slot::ADDR)], a.deep)),
        fp_mul(g, fp_sub(local[bus_col(0, slot::ACTIVE)], 1)),
        fp_mul(g, fp_sub(local[bus_col(1, slot::ACTIVE)], 1)),
        fp_mul(g, fp_sub(local[bus_col(2, slot::ACTIVE)], 1)),
        fp_mul(g, local[bus_col(3, slot::ACTIVE)]),
        fp_mul(g, local[bus_col(0, slot::IS_WRITE)]),
        fp_mul(g, local[bus_col(1, slot::IS_WRITE)]),
        fp_mul(g, fp_sub(local[bus_col(2, slot::IS_WRITE)], 1)),
    ]
}

/// The residuals of `local.get` and `global.get`: read the named bank slot and push it as the new top.
pub open spec fn read_push_residuals(local: Seq<u64>, a: Anchors) -> Seq<u64> {
    let g = fp_add(sel(local, OpCode::LocalGet), sel(local, OpCode::GlobalGet));
    seq![
        fp_mul(g, fp_sub(local[bus_col(0, slot::ADDR)], a.bank)),
        fp_mul(g, fp_sub(local[bus_col(0, slot::ACTIVE)], 1)),
        fp_mul(g, local[bus_col(0, slot::IS_WRITE)]),
        fp_mul(g, fp_sub(local[bus_col(1, slot::ADDR)], a.new_top)),
        fp_mul(g, fp_sub(local[bus_col(1, slot::ACTIVE)], 1)),
        fp_mul(g, fp_sub(local[bus_col(1, slot::IS_WRITE)], 1)),
        fp_mul(g, local[bus_col(2, slot::ACTIVE)]),
        fp_mul(g, local[bus_col(3, slot::ACTIVE)]),
    ]
}

/// The residuals of `i32.const` and `i64.const`: push the immediate as the new top.
pub open spec fn push_const_residuals(local: Seq<u64>, a: Anchors) -> Seq<u64> {
    let g = fp_add(sel(local, OpCode::I32Const), sel(local, OpCode::I64Const));
    seq![
        fp_mul(g, fp_sub(local[bus_col(0, slot::ADDR)], a.new_top)),
        fp_mul(g, fp_sub(local[bus_col(0, slot::ACTIVE)], 1)),
        fp_mul(g, fp_sub(local[bus_col(0, slot::IS_WRITE)], 1)),
        fp_mul(g, local[bus_col(1, slot::ACTIVE)]),
        fp_mul(g, local[bus_col(2, slot::ACTIVE)]),
        fp_mul(g, local[bus_col(3, slot::ACTIVE)]),
    ]
}

/// The residuals of `local.set`, `global.set` and `local.tee`: read the top and write the named bank slot.
pub open spec fn pop_write_residuals(local: Seq<u64>, a: Anchors) -> Seq<u64> {
    let g = fp_add(fp_add(sel(local, OpCode::LocalSet), sel(local, OpCode::GlobalSet)), sel(local, OpCode::LocalTee));
    seq![
        fp_mul(g, fp_sub(local[bus_col(0, slot::ADDR)], a.pop_top)),
        fp_mul(g, fp_sub(local[bus_col(0, slot::ACTIVE)], 1)),
        fp_mul(g, local[bus_col(0, slot::IS_WRITE)]),
        fp_mul(g, fp_sub(local[bus_col(1, slot::ADDR)], a.bank)),
        fp_mul(g, fp_sub(local[bus_col(1, slot::ACTIVE)], 1)),
        fp_mul(g, fp_sub(local[bus_col(1, slot::IS_WRITE)], 1)),
        fp_mul(g, local[bus_col(2, slot::ACTIVE)]),
        fp_mul(g, local[bus_col(3, slot::ACTIVE)]),
    ]
}

/// The residuals of `drop`, `if` and `br_if`: read the top and touch nothing else.
pub open spec fn pop_read_residuals(local: Seq<u64>, a: Anchors) -> Seq<u64> {
    let g = fp_add(fp_add(sel(local, OpCode::Drop), sel(local, OpCode::If)), sel(local, OpCode::BrIf));
    seq![
        fp_mul(g, fp_sub(local[bus_col(0, slot::ADDR)], a.pop_top)),
        fp_mul(g, fp_sub(local[bus_col(0, slot::ACTIVE)], 1)),
        fp_mul(g, local[bus_col(0, slot::IS_WRITE)]),
        fp_mul(g, local[bus_col(1, slot::ACTIVE)]),
        fp_mul(g, local[bus_col(2, slot::ACTIVE)]),
        fp_mul(g, local[bus_col(3, slot::ACTIVE)]),
    ]
}

/// The residuals of the pop-one-push-one shape (`wrap`, the extensions, `eqz` and `popcnt`): read the top and write the result over it.
pub open spec fn unary_residuals(local: Seq<u64>, a: Anchors) -> Seq<u64> {
    let g = fp_add(fp_add(fp_add(fp_add(fp_add(fp_add(sel(local, OpCode::I32WrapI64), sel(local, OpCode::I64ExtendI32U)), sel(local, OpCode::I64ExtendI32S)), sel(local, OpCode::I32Eqz)), sel(local, OpCode::I64Eqz)), sel(local, OpCode::I32Popcnt)), sel(local, OpCode::I64Popcnt));
    seq![
        fp_mul(g, fp_sub(local[bus_col(0, slot::ADDR)], a.pop_top)),
        fp_mul(g, fp_sub(local[bus_col(0, slot::ACTIVE)], 1)),
        fp_mul(g, local[bus_col(0, slot::IS_WRITE)]),
        fp_mul(g, fp_sub(local[bus_col(1, slot::ADDR)], a.pop_top)),
        fp_mul(g, fp_sub(local[bus_col(1, slot::ACTIVE)], 1)),
        fp_mul(g, fp_sub(local[bus_col(1, slot::IS_WRITE)], 1)),
        fp_mul(g, local[bus_col(2, slot::ACTIVE)]),
        fp_mul(g, local[bus_col(3, slot::ACTIVE)]),
    ]
}

/// The residuals of `select`: the condition on top, `val2` beneath it and `val1` below that read, the result written over `val1`.
pub open spec fn select_residuals(local: Seq<u64>, a: Anchors) -> Seq<u64> {
    let g = sel(local, OpCode::Select);
    seq![
        fp_mul(g, fp_sub(local[bus_col(0, slot::ADDR)], a.pop_top)),
        fp_mul(g, fp_sub(local[bus_col(1, slot::ADDR)], fp_sub(a.pop_top, 1))),
        fp_mul(g, fp_sub(local[bus_col(2, slot::ADDR)], fp_sub(a.pop_top, 2))),
        fp_mul(g, fp_sub(local[bus_col(3, slot::ADDR)], fp_sub(a.pop_top, 2))),
        fp_mul(g, fp_sub(local[bus_col(0, slot::ACTIVE)], 1)),
        fp_mul(g, fp_sub(local[bus_col(1, slot::ACTIVE)], 1)),
        fp_mul(g, fp_sub(local[bus_col(2, slot::ACTIVE)], 1)),
        fp_mul(g, fp_sub(local[bus_col(3, slot::ACTIVE)], 1)),
        fp_mul(g, local[bus_col(0, slot::IS_WRITE)]),
        fp_mul(g, local[bus_col(1, slot::IS_WRITE)]),
        fp_mul(g, local[bus_col(2, slot::IS_WRITE)]),
        fp_mul(g, fp_sub(local[bus_col(3, slot::IS_WRITE)], 1)),
    ]
}

/// The address-binding residuals of the row `local` for the frame's public
/// `stack_base`, shape by shape; a row satisfies the binding when every one
/// is zero.
pub open spec fn address_residuals(local: Seq<u64>, stack_base: u64) -> Seq<u64> {
    let a = anchors_of(local, stack_base);
    group_residuals(local, a) + read_push_residuals(local, a) + push_const_residuals(local, a) + pop_write_residuals(local, a) + pop_read_residuals(local, a) + unary_residuals(local, a) + select_residuals(local, a)
}

/// The selector of `op` in `local`.
pub(crate) fn sel_of(local: &[u64], op: OpCode) -> (r: u64)
    requires
        row_fits(local@),
    ensures
        r == sel(local@, op),
        r < FIELD_ORDER,
{
    local[SELECTOR_BASE + opcode_index(op)]
}

/// Evaluates [`anchors_of`].
fn anchors(local: &[u64], stack_base: u64) -> (r: Anchors)
    requires
        row_fits(local@),
    ensures
        r == anchors_of(local@, stack_base),
        anchors_fit(r),
{
    let region = felt_add(local[COL_FRAME_BASE], REGISTER_REGION);
    let base = felt_add(region, felt_new(stack_base));
    let new_top = felt_add(base, local[COL_HEIGHT]);
    Anchors {
        bank: felt_add(region, local[COL_IMM]),
        new_top,
        pop_top: felt_sub(new_top, 1),
        deep: felt_sub(new_top, 2),
    }
}

/// Evaluates the address-binding residuals of the trace row `local` for the
/// frame's public `stack_base`.
pub fn evaluate(local: &[u64], stack_base: u64) -> (r: Vec<u64>)
    requires
        row_fits(local@),
    ensures
        r@ == address_residuals(local@, stack_base),
{
    let a = anchors(local, stack_base);
    let mut r = group(local, a);
    let mut part = read_push(local, a);
    r.append(&mut part);
    let mut part = push_const(local, a);
    r.append(&mut part);
    let mut part = pop_write(local, a);
    r.append(&mut part);
    let mut part = pop_read(local, a);
    r.append(&mut part);
    let mut part = unary(local, a);
    r.append(&mut part);
    let mut part = select(local, a);
    r.append(&mut part);
    r
}

/// Evaluates [`group_residuals`].
fn group(local: &[u64], a: Anchors) -> (r: Vec<u64>)
    requires
        row_fits(local@),
        anchors_fit(a),
    ensures
        r@ == group_residuals(local@, a),
{
    let g = felt_add(felt_add(felt_add(felt_add(felt_add(felt_add(felt_add(felt_add(felt_add(felt_add(felt_add(felt_add(felt_add(felt_add(felt_add(felt_add(felt_add(felt_add(felt_add(felt_add(felt_add(felt_add(felt_add(felt_add(felt_add(felt_add(felt_add(felt_add(felt_add(sel_of(local, OpCode::I32Add), sel_of(local, OpCode::I32Sub)), sel_of(local, OpCode::I64Add)), sel_of(local, OpCode::I64Sub)), sel_of(local, OpCode::I32Eq)), sel_of(local, OpCode::I32Ne)), sel_of(local, OpCode::I32LtS)), sel_of(local, OpCode::I32LtU)), sel_of(local, OpCode::I32GtS)), sel_of(local, OpCode::I32GtU)), sel_of(local, OpCode::I32LeS)), sel_of(local, OpCode::I32LeU)), sel_of(local, OpCode::I32GeS)), sel_of(local, OpCode::I32GeU)), sel_of(local, OpCode::I64Eq)), sel_of(local, OpCode::I64Ne)), sel_of(local, OpCode::I64LtS)), sel_of(local, OpCode::I64LtU)), sel_of(local, OpCode::I64GtS)), sel_of(local, OpCode::I64GtU)), sel_of(local, OpCode::I64LeS)), sel_of(local, OpCode::I64LeU)), sel_of(local, OpCode::I64GeS)), sel_of(local, OpCode::I64GeU)), sel_of(local, OpCode::I32And)), sel_of(local, OpCode::I32Or)), sel_of(local, OpCode::I32Xor)), sel_of(local, OpCode::I64And)), sel_of(local, OpCode::I64Or)), sel_of(local, OpCode::I64Xor));
    let mut r: Vec<u64> = Vec::new();
    r.push(felt_mul(g, felt_sub(local[bus_slot(0) + slot::ADDR], a.pop_top)));
    r.push(felt_mul(g, felt_sub(local[bus_slot(1) + slot::ADDR], a.deep)));
    r.push(felt_mul(g, felt_sub(local[bus_slot(2) + slot::ADDR], a.deep)));
    r.push(felt_mul(g, felt_sub(local[bus_slot(0) + slot::ACTIVE], 1)));
    r.push(felt_mul(g, felt_sub(local[bus_slot(1) + slot::ACTIVE], 1)));
    r.push(felt_mul(g, felt_sub(local[bus_slot(2) + slot::ACTIVE], 1)));
    r.push(felt_mul(g, local[bus_slot(3) + slot::ACTIVE]));
    r.push(felt_mul(g, local[bus_slot(0) + slot::IS_WRITE]));
    r.push(felt_mul(g, local[bus_slot(1) + slot::IS_WRITE]));
    r.push(felt_mul(g, felt_sub(local[bus_slot(2) + slot::IS_WRITE], 1)));
    assert(r@ =~= group_residuals(local@, a));
    r
}

/// Evaluates [`read_push_residuals`].
fn read_push(local: &[u64], a: Anchors) -> (r: Vec<u64>)
    requires
        row_fits(local@),
        anchors_fit(a),
    ensures
        r@ == read_push_residuals(local@, a),
{
    let g = felt_add(sel_of(local, OpCode::LocalGet), sel_of(local, OpCode::GlobalGet));
    let mut r: Vec<u64> = Vec::new();
    r.push(felt_mul(g, felt_sub(local[bus_slot(0) + slot::ADDR], a.bank)));
    r.push(felt_mul(g, felt_sub(local[bus_slot(0) + slot::ACTIVE], 1)));
    r.push(felt_mul(g, local[bus_slot(0) + slot::IS_WRITE]));
    r.push(felt_mul(g, felt_sub(local[bus_slot(1) + slot::ADDR], a.new_top)));
    r.push(felt_mul(g, felt_sub(local[bus_slot(1) + slot::ACTIVE], 1)));
    r.push(felt_mul(g, felt_sub(local[bus_slot(1) + slot::IS_WRITE], 1)));
    r.push(felt_mul(g, local[bus_slot(2) + slot::ACTIVE]));
    r.push(felt_mul(g, local[bus_slot(3) + slot::ACTIVE]));
    assert(r@ =~= read_push_residuals(local@, a));
    r
}

/// Evaluates [`push_const_residuals`].
fn push_const(local: &[u64], a: Anchors) -> (r: Vec<u64>)
    requires
        row_fits(local@),
        anchors_fit(a),
    ensures
        r@ == push_const_residuals(local@, a),
{
    let g = felt_add(sel_of(local, OpCode::I32Const), sel_of(local, OpCode::I64Const));
    let mut r: Vec<u64> = Vec::new();
    r.push(felt_mul(g, felt_sub(local[bus_slot(0) + slot::ADDR], a.new_top)));
    r.push(felt_mul(g, felt_sub(local[bus_slot(0) + slot::ACTIVE], 1)));
    r.push(felt_mul(g, felt_sub(local[bus_slot(0) + slot::IS_WRITE], 1)));
    r.push(felt_mul(g, local[bus_slot(1) + slot::ACTIVE]));
    r.push(felt_mul(g, local[bus_slot(2) + slot::ACTIVE]));
    r.push(felt_mul(g, local[bus_slot(3) + slot::ACTIVE]));
    assert(r@ =~= push_const_residuals(local@, a));
    r
}

/// Evaluates [`pop_write_residuals`].
fn pop_write(local: &[u64], a: Anchors) -> (r: Vec<u64>)
    requires
        row_fits(local@),
        anchors_fit(a),
    ensures
        r@ == pop_write_residuals(local@, a),
{
    let g = felt_add(felt_add(sel_of(local, OpCode::LocalSet), sel_of(local, OpCode::GlobalSet)), sel_of(local, OpCode::LocalTee));
    let mut r: Vec<u64> = Vec::new();
    r.push(felt_mul(g, felt_sub(local[bus_slot(0) + slot::ADDR], a.pop_top)));
    r.push(felt_mul(g, felt_sub(local[bus_slot(0) + slot::ACTIVE], 1)));
    r.push(felt_mul(g, local[bus_slot(0) + slot::IS_WRITE]));
    r.push(felt_mul(g, felt_sub(local[bus_slot(1) + slot::ADDR], a.bank)));
    r.push(felt_mul(g, felt_sub(local[bus_slot(1) + slot::ACTIVE], 1)));
    r.push(felt_mul(g, felt_sub(local[bus_slot(1) + slot::IS_WRITE], 1)));
    r.push(felt_mul(g, local[bus_slot(2) + slot::ACTIVE]));
    r.push(felt_mul(g, local[bus_slot(3) + slot::ACTIVE]));
    assert(r@ =~= pop_write_residuals(local@, a));
    r
}

/// Evaluates [`pop_read_residuals`].
fn pop_read(local: &[u64], a: Anchors) -> (r: Vec<u64>)
    requires
        row_fits(local@),
        anchors_fit(a),
    ensures
        r@ == pop_read_residuals(local@, a),
{
    let g = felt_add(felt_add(sel_of(local, OpCode::Drop), sel_of(local, OpCode::If)), sel_of(local, OpCode::BrIf));
    let mut r: Vec<u64> = Vec::new();
    r.push(felt_mul(g, felt_sub(local[bus_slot(0) + slot::ADDR], a.pop_top)));
    r.push(felt_mul(g, felt_sub(local[bus_slot(0) + slot::ACTIVE], 1)));
    r.push(felt_mul(g, local[bus_slot(0) + slot::IS_WRITE]));
    r.push(felt_mul(g, local[bus_slot(1) + slot::ACTIVE]));
    r.push(felt_mul(g, local[bus_slot(2) + slot::ACTIVE]));
    r.push(felt_mul(g, local[bus_slot(3) + slot::ACTIVE]));
    assert(r@ =~= pop_read_residuals(local@, a));
    r
}

/// Evaluates [`unary_residuals`].
fn unary(local: &[u64], a: Anchors) -> (r: Vec<u64>)
    requires
        row_fits(local@),
        anchors_fit(a),
    ensures
        r@ == unary_residuals(local@, a),
{
    let g = felt_add(felt_add(felt_add(felt_add(felt_add(felt_add(sel_of(local, OpCode::I32WrapI64), sel_of(local, OpCode::I64ExtendI32U)), sel_of(local, OpCode::I64ExtendI32S)), sel_of(local, OpCode::I32Eqz)), sel_of(local, OpCode::I64Eqz)), sel_of(local, OpCode::I32Popcnt)), sel_of(local, OpCode::I64Popcnt));
    let mut r: Vec<u64> = Vec::new();
    r.push(felt_mul(g, felt_sub(local[bus_slot(0) + slot::ADDR], a.pop_top)));
    r.push(felt_mul(g, felt_sub(local[bus_slot(0) + slot::ACTIVE], 1)));
    r.push(felt_mul(g, local[bus_slot(0) + slot::IS_WRITE]));
    r.push(felt_mul(g, felt_sub(local[bus_slot(1) + slot::ADDR], a.pop_top)));
    r.push(felt_mul(g, felt_sub(local[bus_slot(1) + slot::ACTIVE], 1)));
    r.push(felt_mul(g, felt_sub(local[bus_slot(1) + slot::IS_WRITE], 1)));
    r.push(felt_mul(g, local[bus_slot(2) + slot::ACTIVE]));
    r.push(felt_mul(g, local[bus_slot(3) + slot::ACTIVE]));
    assert(r@ =~= unary_residuals(local@, a));
    r
}

/// Evaluates [`select_residuals`].
fn select(local: &[u64], a: Anchors) -> (r: Vec<u64>)
    requires
        row_fits(local@),
        anchors_fit(a),
    ensures
        r@ == select_residuals(local@, a),
{
    let g = sel_of(local, OpCode::Select);
    let mut r: Vec<u64> = Vec::new();
    r.push(felt_mul(g, felt_sub(local[bus_slot(0) + slot::ADDR], a.pop_top)));
    r.push(felt_mul(g, felt_sub(local[bus_slot(1) + slot::ADDR], felt_sub(a.pop_top, 1))));
    r.push(felt_mul(g, felt_sub(local[bus_slot(2) + slot::ADDR], felt_sub(a.pop_top, 2))));
    r.push(felt_mul(g, felt_sub(local[bus_slot(3) + slot::ADDR], felt_sub(a.pop_top, 2))));
    r.push(felt_mul(g, felt_sub(local[bus_slot(0) + slot::ACTIVE], 1)));
    r.push(felt_mul(g, felt_sub(local[bus_slot(1) + slot::ACTIVE], 1)));
    r.push(felt_mul(g, felt_sub(local[bus_slot(2) + slot::ACTIVE], 1)));
    r.push(felt_mul(g, felt_sub(local[bus_slot(3) + slot::ACTIVE], 1)));
    r.push(felt_mul(g, local[bus_slot(0) + slot::IS_WRITE]));
    r.push(felt_mul(g, local[bus_slot(1) + slot::IS_WRITE]));
    r.push(felt_mul(g, local[bus_slot(2) + slot::IS_WRITE]));
    r.push(felt_mul(g, felt_sub(local[bus_slot(3) + slot::IS_WRITE], 1)));
    assert(r@ =~= select_residuals(local@, a));
    r
}

/// `x - y` vanishes in the field exactly when the canonical elements agree.
proof fn lemma_sub_zero(x: u64, y: u64)
    requires
        x < FIELD_ORDER,
        y < FIELD_ORDER,
    ensures
        fp_sub(x, y) == 0 <==> x == y,
        fp_mul(1, fp_sub(x, y)) == fp_sub(x, y),
{
    let p = FIELD_ORDER as int;
    let d = x - y;
    if d >= 0 {
        vstd::arithmetic::div_mod::lemma_small_mod(d as nat, p as nat);
    } else {
        vstd::arithmetic::div_mod::lemma_fundamental_div_mod_converse(d, p, -1, d + p);
    }
    let s = fp_sub(x, y);
    assert(s < FIELD_ORDER);
    vstd::arithmetic::div_mod::lemma_small_mod(s as nat, p as nat);
}

/// On a `select` row whose `val1` slot (slot 2) is bound to its address, the
/// result's slot (slot 3) is bound exactly when it is `val1`'s slot: the
/// result is written over the first operand.
#[verifier::spinoff_prover]
#[verifier::rlimit(50)]
pub proof fn law_select_writes_over_its_first_operand(local: Seq<u64>, stack_base: u64)
    requires
        row_fits(local),
        sel(local, OpCode::Select) == 1,
        address_residuals(local, stack_base)[48] == 0,
    ensures
        address_residuals(local, stack_base)[49] == 0 <==> local[bus_col(3, slot::ADDR)] == local[bus_col(2, slot::ADDR)],
{
    let a = anchors_of(local, stack_base);
    let r = address_residuals(local, stack_base);
    let g = sel(local, OpCode::Select);
    let x = fp_sub(a.pop_top, 2);
    let s2 = local[bus_col(2, slot::ADDR)];
    let s3 = local[bus_col(3, slot::ADDR)];
    assert(s2 < FIELD_ORDER && s3 < FIELD_ORDER);
    assert(x < FIELD_ORDER);
    let sr = select_residuals(local, a);
    let front = group_residuals(local, a) + read_push_residuals(local, a) + push_const_residuals(local, a) + pop_write_residuals(
        local,
        a,
    ) + pop_read_residuals(local, a) + unary_residuals(local, a);
    assert(front.len() == 46) by {
        assert(group_residuals(local, a).len() == 10);
        assert(read_push_residuals(local, a).len() == 8);
        assert(push_const_residuals(local, a).len() == 6);
        assert(pop_write_residuals(local, a).len() == 8);
        assert(pop_read_residuals(local, a).len() == 6);
        assert(unary_residuals(local, a).len() == 8);
    }
    assert(r == front + sr);
    assert(r[48] == sr[2]);
    assert(r[49] == sr[3]);
    assert(sr[2] == fp_mul(g, fp_sub(s2, x)));
    assert(sr[3] == fp_mul(g, fp_sub(s3, x)));
    lemma_sub_zero(s2, x);
    lemma_sub_zero(s3, x);
}

} // verus!
