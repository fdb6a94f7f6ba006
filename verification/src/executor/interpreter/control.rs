//! The control instructions: what a block, loop, conditional, branch, `end`
//! or `return` does to the operand stack and the control labels, and where
//! control goes next.

use vstd::prelude::*;
use crate::decoder::image::Image;
use crate::decoder::instruction::{BlockType, Instruction};
use crate::decoder::types::{Word, word_bits};
use crate::executor::error::{ExecuteError, Trap};
use crate::executor::record::Transition;
use crate::executor::runtime::label::{Label, branch_resolution, popped_past};
use crate::executor::runtime::stack::{unwind_defined, unwound};
use crate::lift::program::{Schedule, Successors};
use super::signal::{Signal, StepOutcome};

verus! {

/// The `(inputs, results)` arities of a block type, as the image's types give
/// them.
pub open spec fn block_arity_of(image: Image, ty: BlockType) -> Option<(u32, u32)> {
    match ty {
        BlockType::Empty => Some((0, 0)),
        BlockType::Type => Some((0, 1)),
        BlockType::FuncType(idx) => if idx < image.types@.len() && image.types@[idx as int].params@.len() <= u32::MAX {
            Some((image.types@[idx as int].params@.len() as u32, image.types@[idx as int].results))
        } else {
            None
        },
    }
}

/// Whether `r` continues at `next` with the operand stack `s1` and the labels
/// `lb1` as given.
pub open spec fn goes_to(r: Result<StepOutcome, ExecuteError>, next: int, s1: Seq<Word>, lb1: Seq<Label>, s: Seq<Word>, lb: Seq<Label>) -> bool {
    &&& r matches Ok(o)
    &&& o.control == Signal::Advance(next as usize)
    &&& o.transition == Transition::Next(next as u32)
    &&& s1 == s
    &&& lb1 == lb
}

/// Where a control instruction takes execution: on to program point `next`
/// with the operand stack and labels given, out of the function with the
/// values given, into a trap, into an error, or somewhere this module does not
/// decide (a call, or an instruction that is not a control instruction).
pub enum CtrlNext {
    Go { next: int, stack: Seq<Word>, labels: Seq<Label> },
    Ret { values: Seq<Word>, rest: Seq<Word> },
    Trapped(Trap),
    Fail,
    Open,
}

/// Returning the top `arity` values of `s`, leaving the rest, or failing when
/// there are fewer.
pub open spec fn ret_top(s: Seq<Word>, arity: u32) -> CtrlNext {
    if arity <= s.len() {
        CtrlNext::Ret { values: s.subrange(s.len() - arity, s.len() as int), rest: s.subrange(0, s.len() - arity) }
    } else {
        CtrlNext::Fail
    }
}

/// A branch `relative_depth` labels out to program point `target` of a body
/// with schedules `body`, from operand stack `s` and labels `lb`: a branch to
/// the end of the body returns; any other unwinds the stack to the target's
/// entry height, keeping the label's arity of values, and drops the labels it
/// leaves.
pub open spec fn branch_next(s: Seq<Word>, lb: Seq<Label>, relative_depth: u32, target: u32, body: Seq<Schedule>, arity: u32) -> CtrlNext {
    if target == body.len() {
        ret_top(s, arity)
    } else if relative_depth < lb.len() && target < body.len() && unwind_defined(
        s,
        body[target as int].height_in as int,
        branch_resolution(lb, relative_depth as int).0.branch_arity as int,
    ) {
        let (label, keep) = branch_resolution(lb, relative_depth as int);
        CtrlNext::Go {
            next: target as int,
            stack: unwound(s, body[target as int].height_in as int, label.branch_arity as int),
            labels: lb.subrange(0, keep),
        }
    } else {
        CtrlNext::Fail
    }
}

/// Where the control instruction `instr` at program point `pc`, scheduled as
/// `sched` in a body with schedules `body` and `end` points `ends`, of a
/// function returning `arity` values, takes execution from operand stack `s`
/// and labels `lb`.
pub open spec fn control_next(
    instr: Instruction,
    sched: Schedule,
    image: Image,
    ends: Seq<u32>,
    body: Seq<Schedule>,
    arity: u32,
    pc: int,
    s: Seq<Word>,
    lb: Seq<Label>,
) -> CtrlNext {
    match instr {
        Instruction::Unreachable => CtrlNext::Trapped(Trap::Unreachable),
        Instruction::Block { blockty } => match block_arity_of(image, blockty) {
            Some((_, out)) => CtrlNext::Go {
                next: pc + 1,
                stack: s,
                labels: lb.push(Label { is_loop: false, branch_arity: out, end_pc: ends[pc] }),
            },
            None => CtrlNext::Fail,
        },
        Instruction::Loop { blockty } => match block_arity_of(image, blockty) {
            Some((input, _)) => CtrlNext::Go {
                next: pc + 1,
                stack: s,
                labels: lb.push(Label { is_loop: true, branch_arity: input, end_pc: ends[pc] }),
            },
            None => CtrlNext::Fail,
        },
        Instruction::If { blockty } => match (block_arity_of(image, blockty), sched.successors) {
            (Some((_, out)), Successors::Branch { taken, not_taken }) => if s.len() >= 1 {
                let next: u32 = if word_bits(s.last()) != 0 {
                    taken
                } else {
                    not_taken
                };
                CtrlNext::Go {
                    next: next as int,
                    stack: s.drop_last(),
                    labels: popped_past(lb.push(Label { is_loop: false, branch_arity: out, end_pc: ends[pc] }), next as int),
                }
            } else {
                CtrlNext::Fail
            },
            _ => CtrlNext::Fail,
        },
        Instruction::Else => match sched.successors {
            Successors::Jump(t) => CtrlNext::Go { next: t as int, stack: s, labels: popped_past(lb, t as int) },
            _ => CtrlNext::Fail,
        },
        Instruction::End => match sched.successors {
            Successors::Return => ret_top(s, arity),
            _ => CtrlNext::Go { next: pc + 1, stack: s, labels: popped_past(lb, pc + 1) },
        },
        Instruction::Br { relative_depth } => match sched.successors {
            Successors::Jump(t) => branch_next(s, lb, relative_depth, t, body, arity),
            _ => CtrlNext::Fail,
        },
        Instruction::BrIf { relative_depth } => if s.len() == 0 {
            CtrlNext::Fail
        } else {
            match sched.successors {
                Successors::Branch { taken, not_taken } => if word_bits(s.last()) != 0 {
                    branch_next(s.drop_last(), lb, relative_depth, taken, body, arity)
                } else {
                    CtrlNext::Go { next: not_taken as int, stack: s.drop_last(), labels: popped_past(lb, not_taken as int) }
                },
                _ => CtrlNext::Fail,
            }
        },
        Instruction::BrTable { targets, default } => if s.len() == 0 {
            CtrlNext::Fail
        } else {
            match sched.successors {
                Successors::Table { targets: pcs, default: default_pc } => {
                    let sel = (word_bits(s.last()) as u32) as int;
                    if sel < targets@.len() {
                        if sel < pcs@.len() {
                            branch_next(s.drop_last(), lb, targets@[sel], pcs@[sel], body, arity)
                        } else {
                            CtrlNext::Fail
                        }
                    } else {
                        branch_next(s.drop_last(), lb, default, default_pc, body, arity)
                    }
                },
                _ => CtrlNext::Fail,
            }
        },
        Instruction::Return => ret_top(s, arity),
        Instruction::CallIndirect { .. } | Instruction::Other { .. } => CtrlNext::Fail,
        _ => CtrlNext::Open,
    }
}

/// Whether running the control instruction `instr`, as [`control_next`]
/// describes it, gave `r` and left the operand stack `s1` and labels `lb1`.
/// Other instructions are not constrained here.
pub open spec fn control_outcome(
    instr: Instruction,
    sched: Schedule,
    image: Image,
    ends: Seq<u32>,
    body: Seq<Schedule>,
    arity: u32,
    pc: int,
    s: Seq<Word>,
    lb: Seq<Label>,
    r: Result<StepOutcome, ExecuteError>,
    s1: Seq<Word>,
    lb1: Seq<Label>,
) -> bool {
    match control_next(instr, sched, image, ends, body, arity, pc, s, lb) {
        CtrlNext::Go { next, stack, labels } => goes_to(r, next, s1, lb1, stack, labels),
        CtrlNext::Ret { values, rest } => {
            &&& r matches Ok(o)
            &&& o.control matches Signal::Return(w) && w@ == values
            &&& o.transition == Transition::Return
            &&& s1 == rest
        },
        CtrlNext::Trapped(t) => r == Err::<StepOutcome, ExecuteError>(ExecuteError::Trap(t)),
        CtrlNext::Fail => r is Err,
        CtrlNext::Open => true,
    }
}

} // verus!
