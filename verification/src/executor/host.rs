//! The host environment imported functions are dispatched to.

use vstd::prelude::*;
use crate::decoder::types::{ImportEntry, Word};
use crate::executor::error::ExecuteError;

verus! {

/// What an imported host function returns to the executor.
#[derive(Clone, Debug, PartialEq, Eq)]
pub enum HostAction {
    /// The call returned the given results to the operand stack.
    Return(Vec<Word>),
    /// The call halted the program with this exit status (`proc_exit`).
    Exit(i32),
}

/// How a host answers a call, as the executor reads it: values for the
/// operand stack, a halt with an exit status, or a failure.
pub enum HostAnswer {
    Return(Seq<Word>),
    Exit(i32),
    Fail,
}

/// Whether `r`, what a host call returned, is the answer `a`.
pub open spec fn answers(r: Result<HostAction, ExecuteError>, a: HostAnswer) -> bool {
    match a {
        HostAnswer::Return(v) => r matches Ok(HostAction::Return(w)) && w@ == v,
        HostAnswer::Exit(c) => r == Ok::<HostAction, ExecuteError>(HostAction::Exit(c)),
        HostAnswer::Fail => r is Err,
    }
}

/// The host environment imported functions are dispatched to.
///
/// A host is deterministic: what it answers a call, the state it is left in
/// and the memory it leaves are functions of its state (its view), the
/// import, the arguments and the memory it is handed.
pub trait Host: View + Sized {
    /// What a host in state `state` answers a call of `import` on `args` with
    /// linear memory `memory`.
    spec fn answer(state: Self::V, import: ImportEntry, args: Seq<Word>, memory: Seq<u8>) -> HostAnswer;

    /// The state that call leaves the host in.
    spec fn state_after(state: Self::V, import: ImportEntry, args: Seq<Word>, memory: Seq<u8>) -> Self::V;

    /// The linear memory that call leaves.
    spec fn memory_after(state: Self::V, import: ImportEntry, args: Seq<Word>, memory: Seq<u8>) -> Seq<u8>;

    /// Dispatches a call to the imported function `import` with `args`,
    /// granting mutable access to linear `memory` for argument and result
    /// marshalling.
    fn call(&mut self, import: &ImportEntry, args: &[Word], memory: &mut [u8]) -> (r: Result<HostAction, ExecuteError>)
        ensures
            answers(r, Self::answer(old(self)@, *import, args@, old(memory)@)),
            final(self)@ == Self::state_after(old(self)@, *import, args@, old(memory)@),
            final(memory)@ == Self::memory_after(old(self)@, *import, args@, old(memory)@),
    ;
}

/// A host that rejects every import. Suitable for modules with no imports.
#[derive(Clone, Copy, Debug)]
pub struct NoHost;

impl Default for NoHost {
    fn default() -> (r: Self)
        ensures
            r == NoHost,
    {
        NoHost
    }
}

impl View for NoHost {
    type V = ();

    open spec fn view(&self) -> () {
        ()
    }
}

impl Host for NoHost {
    open spec fn answer(state: (), import: ImportEntry, args: Seq<Word>, memory: Seq<u8>) -> HostAnswer {
        HostAnswer::Fail
    }

    open spec fn state_after(state: (), import: ImportEntry, args: Seq<Word>, memory: Seq<u8>) -> () {
        ()
    }

    open spec fn memory_after(state: (), import: ImportEntry, args: Seq<Word>, memory: Seq<u8>) -> Seq<u8> {
        memory
    }

    fn call(&mut self, import: &ImportEntry, args: &[Word], memory: &mut [u8]) -> (r: Result<HostAction, ExecuteError>)
        ensures
            r matches Err(ExecuteError::Host { module, name, message }) && module == import.module
                && name == import.name,
            final(memory)@ == old(memory)@,
    {
        Err(ExecuteError::Host {
            module: import.module.clone(),
            name: import.name.clone(),
            message: "no host environment was supplied".to_owned(),
        })
    }
}

} // verus!
