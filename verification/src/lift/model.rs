//! The state of the lift as its success depends on it: operand-stack heights,
//! control frames and the successors of the program points scheduled so far,
//! with one transition per operator.

use vstd::prelude::*;
use crate::decoder::instruction::Instruction;
use crate::lift::analysis::{block_arities, popped_height, value_effect, PENDING_BRANCH_TARGET};
use crate::lift::program::{CtrlFrame, Fixup, SuccessorSlot, Successors};

verus! {

/// A program point's successors, with a table's targets taken by value.
pub enum SuccModel {
    Fallthrough,
    Jump(u32),
    Branch { taken: u32, not_taken: u32 },
    Table { targets: Seq<u32>, default: u32 },
    Return,
    Trap,
}

/// The model of successors `s`.
pub open spec fn succ_model(s: Successors) -> SuccModel {
    match s {
        Successors::Fallthrough => SuccModel::Fallthrough,
        Successors::Jump(t) => SuccModel::Jump(t),
        Successors::Branch { taken, not_taken } => SuccModel::Branch { taken, not_taken },
        Successors::Table { targets, default } => SuccModel::Table { targets: targets@, default },
        Successors::Return => SuccModel::Return,
        Successors::Trap => SuccModel::Trap,
    }
}

/// Whether successors `s` have the slot `slot`.
pub open spec fn succ_fits(s: SuccModel, slot: SuccessorSlot) -> bool {
    match (s, slot) {
        (SuccModel::Jump(_), SuccessorSlot::Jump) => true,
        (SuccModel::Branch { .. }, SuccessorSlot::BranchTaken) => true,
        (SuccModel::Table { .. }, SuccessorSlot::TableEntry(_)) => true,
        (SuccModel::Table { .. }, SuccessorSlot::TableDefault) => true,
        _ => false,
    }
}

/// Successors `s` with the slot `slot` set to `target`; a table entry past the
/// table, or a slot `s` lacks, leaves `s` as it is.
pub open spec fn patch_m(s: SuccModel, slot: SuccessorSlot, target: u32) -> SuccModel {
    match (s, slot) {
        (SuccModel::Jump(_), SuccessorSlot::Jump) => SuccModel::Jump(target),
        (SuccModel::Branch { not_taken, .. }, SuccessorSlot::BranchTaken) => SuccModel::Branch { taken: target, not_taken },
        (SuccModel::Table { targets, default }, SuccessorSlot::TableEntry(i)) => SuccModel::Table {
            targets: if i < targets.len() {
                targets.update(i as int, target)
            } else {
                targets
            },
            default,
        },
        (SuccModel::Table { targets, .. }, SuccessorSlot::TableDefault) => SuccModel::Table { targets, default: target },
        _ => s,
    }
}

/// `succs` after the first `k` of `fixups` are patched to `target`, in order.
pub open spec fn patch_all_m(succs: Seq<SuccModel>, fixups: Seq<Fixup>, target: u32, k: int) -> Seq<SuccModel>
    decreases k,
{
    if k <= 0 {
        succs
    } else {
        let prev = patch_all_m(succs, fixups, target, k - 1);
        let f = fixups[k - 1];
        prev.update(f.instr_index as int, patch_m(prev[f.instr_index as int], f.slot, target))
    }
}

/// `succs` with the `not_taken` target of the branch at `i` set to `target`,
/// where `i` names a branch.
pub open spec fn patch_not_taken_m(succs: Seq<SuccModel>, i: int, target: u32) -> Seq<SuccModel> {
    if 0 <= i < succs.len() && succs[i] is Branch {
        succs.update(i, SuccModel::Branch { taken: succs[i]->taken, not_taken: target })
    } else {
        succs
    }
}

/// Whether every fixup names a program point among `succs` that has the
/// fixup's slot.
pub open spec fn fixups_fit_succs(succs: Seq<SuccModel>, fixups: Seq<Fixup>) -> bool {
    forall|j: int|
        0 <= j < fixups.len() ==> (#[trigger] fixups[j]).instr_index < succs.len() && succ_fits(
            succs[fixups[j].instr_index as int],
            fixups[j].slot,
        )
}

/// A control frame with its fixups taken by value.
#[verifier::ext_equal]
pub struct FrameModel {
    pub in_arity: u32,
    pub out_arity: u32,
    pub floor: u32,
    pub unreachable: bool,
    pub loop_header: Option<u32>,
    pub fixups: Seq<Fixup>,
    pub if_instr: Option<usize>,
}

/// The model of frame `f`.
pub open spec fn frame_model(f: CtrlFrame) -> FrameModel {
    FrameModel {
        in_arity: f.in_arity,
        out_arity: f.out_arity,
        floor: f.floor,
        unreachable: f.unreachable,
        loop_header: f.loop_header,
        fixups: f.fixups@,
        if_instr: f.if_instr,
    }
}

/// The lift's state: the operand-stack height and its running maximum, the
/// open control frames, innermost last, and the successors of each scheduled
/// program point.
#[verifier::ext_equal]
pub struct LiftModel {
    pub height: u32,
    pub max_height: u32,
    pub frames: Seq<FrameModel>,
    pub succs: Seq<SuccModel>,
}

/// The floor of the innermost frame, `0` outside every frame.
pub open spec fn floor_m(frames: Seq<FrameModel>) -> int {
    if frames.len() == 0 {
        0
    } else {
        frames.last().floor as int
    }
}

/// The state at a function's entry: its function frame open, nothing scheduled.
pub open spec fn entry_model(result_arity: u32) -> LiftModel {
    LiftModel {
        height: 0,
        max_height: 0,
        frames: seq![
            FrameModel {
                in_arity: 0,
                out_arity: result_arity,
                floor: 0,
                unreachable: false,
                loop_header: None,
                fixups: Seq::empty(),
                if_instr: None,
            },
        ],
        succs: Seq::empty(),
    }
}

/// `m` with the height raised to `h` and the maximum following it.
pub open spec fn raised_m(m: LiftModel, h: int) -> LiftModel {
    LiftModel {
        height: h as u32,
        max_height: if m.max_height >= h {
            m.max_height
        } else {
            h as u32
        },
        ..m
    }
}

/// `m` after `n` pops, which stop at the innermost frame's floor.
pub open spec fn popped_m(m: LiftModel, n: int) -> LiftModel {
    LiftModel { height: popped_height(m.height as int, floor_m(m.frames), n) as u32, ..m }
}

/// `m` with a program point of successors `sc` scheduled.
pub open spec fn scheduled_m(m: LiftModel, sc: SuccModel) -> LiftModel {
    LiftModel { succs: m.succs.push(sc), ..m }
}

/// The target a branch to depth `d` takes from inside `frames`: a loop's
/// header, or the placeholder a forward frame patches at its `end`.
pub open spec fn target_m(frames: Seq<FrameModel>, d: u32) -> u32 {
    match frames[frames.len() - 1 - d].loop_header {
        Some(h) => h,
        None => PENDING_BRANCH_TARGET,
    }
}

/// `m` after a frame is opened: its inputs are popped, the frame's floor is
/// set below them, and they are pushed back inside it.
pub open spec fn opened_m(m: LiftModel, in_arity: u32, out_arity: u32, loop_header: Option<u32>, if_instr: Option<usize>) -> LiftModel {
    let m1 = popped_m(m, in_arity as int);
    let f = FrameModel {
        in_arity,
        out_arity,
        floor: m1.height,
        unreachable: false,
        loop_header,
        fixups: Seq::empty(),
        if_instr,
    };
    raised_m(LiftModel { frames: m1.frames.push(f), ..m1 }, m1.height + in_arity)
}

/// `m` with the innermost frame marked unreachable and the height reset to its
/// floor.
pub open spec fn unreachable_m(m: LiftModel) -> LiftModel {
    if m.frames.len() == 0 {
        m
    } else {
        let t = m.frames.last();
        LiftModel { height: t.floor, frames: m.frames.drop_last().push(FrameModel { unreachable: true, ..t }), ..m }
    }
}

/// `m` after a branch to depth `d` from program point `idx`: a forward target
/// frame records a fixup of slot `slot`.
pub open spec fn branched_m(m: LiftModel, d: u32, idx: usize, slot: SuccessorSlot) -> LiftModel {
    let i = m.frames.len() - 1 - d;
    let f = m.frames[i];
    if f.loop_header is Some {
        m
    } else {
        LiftModel { frames: m.frames.update(i, FrameModel { fixups: f.fixups.push(Fixup { instr_index: idx, slot }), ..f }), ..m }
    }
}

/// `m` after the first `k` entries of a branch table from program point `idx`.
pub open spec fn table_m(m: LiftModel, targets: Seq<u32>, idx: usize, k: int) -> LiftModel
    decreases k,
{
    if k <= 0 {
        m
    } else {
        branched_m(table_m(m, targets, idx, k - 1), targets[k - 1], idx, SuccessorSlot::TableEntry((k - 1) as usize))
    }
}

/// Whether interpreting `op` in state `m` succeeds: the program point fits a
/// `u32`, the block type, branch depths and callee exist, the operand stack
/// holds what reachable code reads, fixups fit at an `end`, and no height
/// overflows.
pub open spec fn step_ok_m(m: LiftModel, op: Instruction, type_arities: Seq<(u32, u32)>, func_types: Seq<u32>, result_arity: u32) -> bool {
    let n = m.succs.len();
    let h = m.height as int;
    let fr = m.frames;
    let reach = fr.len() > 0 && !fr.last().unreachable;
    let fl = floor_m(fr);
    &&& n <= u32::MAX
    &&& match op {
        Instruction::Block { blockty } => match block_arities(blockty, type_arities) {
            Some(a) => popped_height(h, fl, a.0 as int) + a.0 <= u32::MAX,
            None => false,
        },
        Instruction::Loop { blockty } => match block_arities(blockty, type_arities) {
            Some(a) => n < u32::MAX && popped_height(h, fl, a.0 as int) + a.0 <= u32::MAX,
            None => false,
        },
        Instruction::If { blockty } => match block_arities(blockty, type_arities) {
            Some(a) => (reach ==> h >= 1) && n < u32::MAX && popped_height(popped_height(h, fl, 1), fl, a.0 as int) + a.0
                <= u32::MAX,
            None => false,
        },
        Instruction::Else => fr.len() > 0 && fr.last().if_instr is Some && n < u32::MAX && fr.last().floor
            + fr.last().in_arity <= u32::MAX,
        Instruction::End => fr.len() > 0 && n < u32::MAX && fixups_fit_succs(m.succs, fr.last().fixups)
            && fr.last().floor + fr.last().out_arity <= u32::MAX,
        Instruction::Br { relative_depth } => relative_depth < fr.len(),
        Instruction::BrIf { relative_depth } => (reach ==> h >= 1) && relative_depth < fr.len() && n < u32::MAX,
        Instruction::BrTable { targets, default } => (reach ==> h >= 1) && default < fr.len() && forall|k: int|
            0 <= k < targets@.len() ==> #[trigger] targets@[k] < fr.len(),
        Instruction::Return => reach ==> result_arity <= h,
        Instruction::Unreachable | Instruction::Nop => true,
        _ => match value_effect(op, type_arities, func_types) {
            Some(e) => (reach ==> e.pops <= h && (e.is_tee || e.pushes == 0 || h - e.pops + e.pushes - 1 <= u32::MAX))
                && popped_height(h, fl, e.pops as int) + e.pushes <= u32::MAX,
            None => false,
        },
    }
}

/// `succs` after the frame `t` ends with continuation `target`: its fixups,
/// then a pending `if`'s `not_taken`, are set to `target`.
pub open spec fn ended_succs(succs: Seq<SuccModel>, t: FrameModel, target: u32) -> Seq<SuccModel> {
    let s1 = patch_all_m(succs, t.fixups, target, t.fixups.len() as int);
    match t.if_instr {
        Some(i) => patch_not_taken_m(s1, i as int, target),
        None => s1,
    }
}

/// The successors after an `end` at program point `n` closes the frame `t`:
/// the frame ends with continuation `n + 1`, and the `end` that closes the
/// function frame returns.
pub open spec fn closed_succs(succs: Seq<SuccModel>, t: FrameModel, n: int, closes_function: bool) -> Seq<SuccModel> {
    let s2 = ended_succs(succs.push(SuccModel::Fallthrough), t, (n + 1) as u32);
    if closes_function {
        s2.update(n, SuccModel::Return)
    } else {
        s2
    }
}

/// The state after interpreting `op` in state `m`, where that succeeds.
pub open spec fn next_m(m: LiftModel, op: Instruction, type_arities: Seq<(u32, u32)>, func_types: Seq<u32>) -> LiftModel {
    let n = m.succs.len();
    let fr = m.frames;
    match op {
        Instruction::Block { blockty } => {
            let a = block_arities(blockty, type_arities)->0;
            opened_m(scheduled_m(m, SuccModel::Fallthrough), a.0, a.1, None, None)
        },
        Instruction::Loop { blockty } => {
            let a = block_arities(blockty, type_arities)->0;
            opened_m(scheduled_m(m, SuccModel::Fallthrough), a.0, a.1, Some((n + 1) as u32), None)
        },
        Instruction::If { blockty } => {
            let a = block_arities(blockty, type_arities)->0;
            let sc = SuccModel::Branch { taken: (n + 1) as u32, not_taken: PENDING_BRANCH_TARGET };
            opened_m(popped_m(scheduled_m(m, sc), 1), a.0, a.1, None, Some(n as usize))
        },
        Instruction::Else => {
            let t = fr.last();
            let f = FrameModel {
                unreachable: false,
                fixups: t.fixups.push(Fixup { instr_index: n as usize, slot: SuccessorSlot::Jump }),
                if_instr: None,
                ..t
            };
            let succs = patch_not_taken_m(m.succs, t.if_instr->0 as int, (n + 1) as u32).push(SuccModel::Jump(PENDING_BRANCH_TARGET));
            raised_m(LiftModel { height: t.floor, frames: fr.drop_last().push(f), succs, ..m }, t.floor + t.in_arity)
        },
        Instruction::End => {
            let t = fr.last();
            raised_m(
                LiftModel { frames: fr.drop_last(), succs: closed_succs(m.succs, t, n as int, fr.len() == 1), ..m },
                t.floor + t.out_arity,
            )
        },
        Instruction::Br { relative_depth } => unreachable_m(
            scheduled_m(
                branched_m(m, relative_depth, n as usize, SuccessorSlot::Jump),
                SuccModel::Jump(target_m(fr, relative_depth)),
            ),
        ),
        Instruction::BrIf { relative_depth } => scheduled_m(
            branched_m(popped_m(m, 1), relative_depth, n as usize, SuccessorSlot::BranchTaken),
            SuccModel::Branch { taken: target_m(fr, relative_depth), not_taken: (n + 1) as u32 },
        ),
        Instruction::BrTable { targets, default } => unreachable_m(
            scheduled_m(
                branched_m(table_m(popped_m(m, 1), targets@, n as usize, targets@.len() as int), default, n as usize, SuccessorSlot::TableDefault),
                SuccModel::Table { targets: targets@.map_values(|d: u32| target_m(fr, d)), default: target_m(fr, default) },
            ),
        ),
        Instruction::Return => unreachable_m(scheduled_m(m, SuccModel::Return)),
        Instruction::Unreachable => unreachable_m(scheduled_m(m, SuccModel::Trap)),
        Instruction::Nop => scheduled_m(m, SuccModel::Fallthrough),
        _ => {
            let e = value_effect(op, type_arities, func_types)->0;
            let m1 = popped_m(m, e.pops as int);
            scheduled_m(raised_m(m1, m1.height + e.pushes), SuccModel::Fallthrough)
        },
    }
}

/// The state after the first `k` operators of `ops` from `start`, or `None`
/// where one of them fails.
pub open spec fn run_m(start: LiftModel, ops: Seq<Instruction>, k: int, type_arities: Seq<(u32, u32)>, func_types: Seq<u32>, result_arity: u32) -> Option<LiftModel>
    decreases k,
{
    if k <= 0 {
        Some(start)
    } else {
        match run_m(start, ops, k - 1, type_arities, func_types, result_arity) {
            Some(m) => if step_ok_m(m, ops[k - 1], type_arities, func_types, result_arity) {
                Some(next_m(m, ops[k - 1], type_arities, func_types))
            } else {
                None
            },
            None => None,
        }
    }
}

} // verus!
