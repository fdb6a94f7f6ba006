use vstd::prelude::*;
use crate::decoder::types::{Word, word_bits};
use crate::executor::error::ExecuteError;

verus! {

/// The operand stack of one function activation, bottom first.
pub struct OperandStack(Vec<Word>);

impl View for OperandStack {
    type V = Seq<Word>;

    closed spec fn view(&self) -> Seq<Word> {
        self.0@
    }
}

/// The stack an unwinding branch leaves: the `arity` carried values moved
/// down onto the first `target_height - arity` entries.
pub open spec fn unwound(s: Seq<Word>, target_height: int, arity: int) -> Seq<Word> {
    s.subrange(0, if target_height - arity < s.len() - arity { target_height - arity } else {
        s.len() - arity
    }) + s.subrange(s.len() - arity, s.len() as int)
}

/// Whether an unwind to `target_height` carrying `arity` values is possible.
pub open spec fn unwind_defined(s: Seq<Word>, target_height: int, arity: int) -> bool {
    arity <= target_height && arity <= s.len()
}

impl OperandStack {
    /// An empty stack.
    pub fn new() -> (r: Self)
        ensures
            r@ == Seq::<Word>::empty(),
    {
        OperandStack(Vec::new())
    }

    /// Pops the top value; an empty stack is an inconsistency validation rules out.
    pub fn pop(&mut self) -> (r: Result<Word, ExecuteError>)
        ensures
            old(self)@.len() > 0 ==> r == Ok::<Word, ExecuteError>(old(self)@.last())
                && final(self)@ == old(self)@.drop_last(),
            old(self)@.len() == 0 ==> r is Err && final(self)@ == old(self)@,
    {
        match self.0.pop() {
            Some(w) => Ok(w),
            None => Err(ExecuteError::invalid_binary("operand stack underflow")),
        }
    }

    /// Pops the top value and returns its low 32 bits.
    pub fn pop_u32(&mut self) -> (r: Result<u32, ExecuteError>)
        ensures
            old(self)@.len() > 0 ==> r == Ok::<u32, ExecuteError>(word_bits(old(self)@.last()) as u32)
                && final(self)@ == old(self)@.drop_last(),
            old(self)@.len() == 0 ==> r is Err && final(self)@ == old(self)@,
    {
        let w = self.pop()?;
        Ok(w.as_u32())
    }

    /// Pushes a value.
    pub fn push(&mut self, w: Word)
        ensures
            final(self)@ == old(self)@.push(w),
    {
        self.0.push(w)
    }

    /// Removes and returns the top `n` values, bottom first.
    pub fn take_top(&mut self, n: u32) -> (r: Result<Vec<Word>, ExecuteError>)
        ensures
            n <= old(self)@.len() ==> (r matches Ok(v) && v@ == old(self)@.subrange(
                old(self)@.len() - n,
                old(self)@.len() as int,
            ) && final(self)@ == old(self)@.subrange(0, old(self)@.len() - n)),
            n > old(self)@.len() ==> r is Err && final(self)@ == old(self)@,
    {
        if (n as usize) > self.0.len() {
            return Err(ExecuteError::invalid_binary("arity exceeds the stack height"));
        }
        let at = self.0.len() - n as usize;
        Ok(self.0.split_off(at))
    }

    /// Pushes `values` in order, so the last of them ends on top.
    pub fn extend(&mut self, values: Vec<Word>)
        ensures
            final(self)@ == old(self)@ + values@,
    {
        let mut values = values;
        self.0.append(&mut values);
    }

    /// Unwinds for a taken branch: keeps the top `arity` values and moves them
    /// down so the stack ends `target_height` high.
    pub fn unwind(&mut self, target_height: usize, arity: usize) -> (r: Result<(), ExecuteError>)
        ensures
            unwind_defined(old(self)@, target_height as int, arity as int) ==> r is Ok
                && final(self)@ == unwound(old(self)@, target_height as int, arity as int),
            !unwind_defined(old(self)@, target_height as int, arity as int) ==> r is Err
                && final(self)@ == old(self)@,
    {
        if arity > target_height {
            return Err(ExecuteError::invalid_binary("branch arity exceeds the target height"));
        }
        if arity > self.0.len() {
            return Err(ExecuteError::invalid_binary("branch arity exceeds the stack height"));
        }
        let keep = target_height - arity;
        let from = self.0.len() - arity;
        let ghost s = self.0@;
        let mut carried = self.0.split_off(from);
        self.0.truncate(keep);
        self.0.append(&mut carried);
        assert(self.0@ =~= unwound(s, target_height as int, arity as int));
        Ok(())
    }

    /// The stack contents, bottom first.
    pub fn as_slice(&self) -> (r: &[Word])
        ensures
            r@ == self@,
    {
        self.0.as_slice()
    }

    /// The top value, if any.
    pub fn last(&self) -> (r: Option<&Word>)
        ensures
            self@.len() > 0 ==> r == Some(&self@.last()),
            self@.len() == 0 ==> r is None,
    {
        if self.0.len() == 0 {
            None
        } else {
            Some(&self.0[self.0.len() - 1])
        }
    }

    /// Checks that the stack is `expected` values high, as the schedule
    /// predicts at program point `pc` of function `func_index`.
    pub fn expect_height(&self, expected: u32, func_index: u32, pc: u32) -> (r: Result<(), ExecuteError>)
        ensures
            self@.len() == expected ==> r is Ok,
            self@.len() != expected ==> r == Err::<(), ExecuteError>(ExecuteError::ScheduleMismatch {
                func_index,
                pc,
                schedule: expected,
                actual: self@.len() as u32,
            }),
    {
        if self.0.len() != expected as usize {
            return Err(ExecuteError::ScheduleMismatch {
                func_index,
                pc,
                schedule: expected,
                actual: self.0.len() as u32,
            });
        }
        Ok(())
    }
}

} // verus!
