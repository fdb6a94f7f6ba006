//! Free-standing operand-stack, control-frame and register helpers over plain
//! vectors.

use vstd::prelude::*;
use crate::decoder::types::{Word, word_bits};
use crate::executor::error::ExecuteError;
use crate::executor::record::RegAccess;
use crate::executor::runtime::label::{Label, popped_past};
use crate::executor::runtime::registers::register_value;
use crate::executor::runtime::stack::{unwind_defined, unwound};
use crate::lift::program::Register;

verus! {

/// Pops the top of `stack`.
pub fn stack_pop(stack: &mut Vec<Word>) -> (r: Result<Word, ExecuteError>)
    ensures
        old(stack)@.len() > 0 ==> r == Ok::<Word, ExecuteError>(old(stack)@.last())
            && final(stack)@ == old(stack)@.drop_last(),
        old(stack)@.len() == 0 ==> r is Err && final(stack)@ == old(stack)@,
{
    match stack.pop() {
        Some(w) => Ok(w),
        None => Err(ExecuteError::invalid_binary("operand stack underflow")),
    }
}

/// Pops the top of `stack` and returns its low 32 bits.
pub fn stack_pop_u32(stack: &mut Vec<Word>) -> (r: Result<u32, ExecuteError>)
    ensures
        old(stack)@.len() > 0 ==> r == Ok::<u32, ExecuteError>(word_bits(old(stack)@.last()) as u32)
            && final(stack)@ == old(stack)@.drop_last(),
        old(stack)@.len() == 0 ==> r is Err && final(stack)@ == old(stack)@,
{
    let w = stack_pop(stack)?;
    Ok(w.as_u32())
}

/// Removes and returns the top `n` values of `stack`, bottom first.
pub fn stack_take_top(stack: &mut Vec<Word>, n: u32) -> (r: Result<Vec<Word>, ExecuteError>)
    ensures
        n <= old(stack)@.len() ==> (r matches Ok(v) && v@ == old(stack)@.subrange(
            old(stack)@.len() - n,
            old(stack)@.len() as int,
        ) && final(stack)@ == old(stack)@.subrange(0, old(stack)@.len() - n)),
        n > old(stack)@.len() ==> r is Err && final(stack)@ == old(stack)@,
{
    if (n as usize) > stack.len() {
        return Err(ExecuteError::invalid_binary("arity exceeds the stack height"));
    }
    let at = stack.len() - n as usize;
    Ok(stack.split_off(at))
}

/// Unwinds `stack` for a taken branch: keeps its top `arity` values and moves
/// them down so the stack ends `target_height` high.
pub fn stack_unwind(stack: &mut Vec<Word>, target_height: usize, arity: usize) -> (r: Result<(), ExecuteError>)
    ensures
        unwind_defined(old(stack)@, target_height as int, arity as int) ==> r is Ok
            && final(stack)@ == unwound(old(stack)@, target_height as int, arity as int),
        !unwind_defined(old(stack)@, target_height as int, arity as int) ==> r is Err
            && final(stack)@ == old(stack)@,
{
    if arity > target_height {
        return Err(ExecuteError::invalid_binary("branch arity exceeds the target height"));
    }
    if arity > stack.len() {
        return Err(ExecuteError::invalid_binary("branch arity exceeds the stack height"));
    }
    let keep = target_height - arity;
    let from = stack.len() - arity;
    let ghost s = stack@;
    let mut carried = stack.split_off(from);
    stack.truncate(keep);
    stack.append(&mut carried);
    assert(stack@ =~= unwound(s, target_height as int, arity as int));
    Ok(())
}

/// Pops every frame whose scope has closed before control reaches `next`.
pub fn frame_pop(frames: &mut Vec<Label>, next: usize)
    ensures
        final(frames)@ == popped_past(old(frames)@, next as int),
{
    while frames.len() > 0 && (frames[frames.len() - 1].end_pc as usize) < next
        invariant
            popped_past(frames@, next as int) == popped_past(old(frames)@, next as int),
        decreases frames.len(),
    {
        frames.pop();
    }
}

/// Whether every register in `regs` is in range of the banks.
pub open spec fn registers_in_range(regs: Seq<Register>, stack: Seq<Word>, locals: Seq<Word>, globals: Seq<Word>) -> bool {
    forall|i: int| 0 <= i < regs.len() ==> #[trigger] register_value(regs[i], stack, locals, globals) is Some
}

/// Whether `accesses` resolves `regs`, in order, against the banks.
pub open spec fn resolves(accesses: Seq<RegAccess>, regs: Seq<Register>, stack: Seq<Word>, locals: Seq<Word>, globals: Seq<Word>) -> bool {
    &&& accesses.len() == regs.len()
    &&& forall|i: int| 0 <= i < regs.len() ==> #[trigger] accesses[i] == (RegAccess {
        reg: regs[i],
        value: register_value(regs[i], stack, locals, globals)->0,
    })
}

/// Resolves each register of `regs`, in order, to the value it holds.
pub fn resolve_register_access(
    regs: &[Register],
    stack: &[Word],
    locals: &[Word],
    globals: &[Word],
) -> (r: Result<Vec<RegAccess>, ExecuteError>)
    ensures
        registers_in_range(regs@, stack@, locals@, globals@) ==> (r matches Ok(v) && resolves(
            v@,
            regs@,
            stack@,
            locals@,
            globals@,
        )),
        !registers_in_range(regs@, stack@, locals@, globals@) ==> r is Err,
{
    let mut out: Vec<RegAccess> = Vec::new();
    let mut i: usize = 0;
    while i < regs.len()
        invariant
            i <= regs@.len(),
            out@.len() == i,
            forall|j: int| 0 <= j < i ==> #[trigger] register_value(regs@[j], stack@, locals@, globals@) is Some,
            forall|j: int| 0 <= j < i ==> #[trigger] out@[j] == (RegAccess {
                reg: regs@[j],
                value: register_value(regs@[j], stack@, locals@, globals@)->0,
            }),
        decreases regs.len() - i,
    {
        let reg = regs[i];
        let value = match read_register(reg, stack, locals, globals) {
            Some(w) => w,
            None => {
                assert(register_value(regs@[i as int], stack@, locals@, globals@) is None);
                return Err(ExecuteError::invalid_binary("register access out of range"));
            },
        };
        out.push(RegAccess { reg, value });
        i = i + 1;
    }
    Ok(out)
}

fn read_register(reg: Register, stack: &[Word], locals: &[Word], globals: &[Word]) -> (r: Option<Word>)
    ensures
        r == register_value(reg, stack@, locals@, globals@),
{
    let (bank, i) = match reg {
        Register::Local(i) => (locals, i),
        Register::Global(g) => (globals, g),
        Register::Stack(d) => (stack, d),
    };
    if (i as usize) < bank.len() {
        Some(bank[i as usize])
    } else {
        None
    }
}

} // verus!
