use vstd::prelude::*;
use crate::decoder::opcode::OpCode;
use crate::decoder::types::Word;
use crate::executor::record::{MemAccess, Transition};

verus! {

/// What executing a single instruction produced.
pub enum Signal {
    /// Control continues at this program point.
    Advance(usize),
    /// The function returned these results.
    Return(Vec<Word>),
    /// The program halted with this status.
    Exit(i32),
}

/// The transition a control signal records.
pub open spec fn transition_of(s: Signal) -> Transition {
    match s {
        Signal::Advance(next) => Transition::Next(next as u32),
        Signal::Return(_) => Transition::Return,
        Signal::Exit(code) => Transition::Exit(code),
    }
}

impl Signal {
    /// The transition this signal records.
    pub fn transition(&self) -> (r: Transition)
        ensures
            r == transition_of(*self),
    {
        match self {
            Signal::Advance(next) => Transition::Next(*next as u32),
            Signal::Return(_) => Transition::Return,
            Signal::Exit(code) => Transition::Exit(*code),
        }
    }
}

/// The record-bearing result of executing one instruction.
pub struct StepOutcome {
    /// The executed operator.
    pub opcode: OpCode,
    /// The transition it took.
    pub transition: Transition,
    /// The memory accesses it made.
    pub mem: Vec<MemAccess>,
    /// Where control goes next.
    pub control: Signal,
}

impl StepOutcome {
    /// A step that touches no memory and continues at `next`.
    pub fn advance(opcode: OpCode, next: usize) -> (r: Self)
        ensures
            r.opcode == opcode,
            r.transition == Transition::Next(next as u32),
            r.mem@.len() == 0,
            r.control == Signal::Advance(next),
    {
        StepOutcome { opcode, transition: Transition::Next(next as u32), mem: Vec::new(), control: Signal::Advance(next) }
    }
}

/// What a function evaluation produced.
pub enum Completion {
    /// The function returned these results.
    Return(Vec<Word>),
    /// The program halted with this status.
    Exit(i32),
}

} // verus!
