use vstd::prelude::*;
use crate::decoder::types::Word;
use crate::executor::error::ExecuteError;
use crate::lift::program::Register;

verus! {

/// The value a register names in the given banks, if it is in range.
pub open spec fn register_value(reg: Register, stack: Seq<Word>, locals: Seq<Word>, globals: Seq<Word>) -> Option<Word> {
    let (bank, i) = match reg {
        Register::Local(i) => (locals, i),
        Register::Global(g) => (globals, g),
        Register::Stack(d) => (stack, d),
    };
    if (i as int) < bank.len() {
        Some(bank[i as int])
    } else {
        None
    }
}

/// The three register banks of a live activation.
pub struct Registers<'a> {
    /// The operand stack, bottom first.
    pub stack: &'a [Word],
    /// Parameters followed by declared locals.
    pub locals: &'a [Word],
    /// Module globals.
    pub globals: &'a [Word],
}

impl Registers<'_> {
    /// The value held in `reg`.
    pub fn read(&self, reg: Register) -> (r: Result<Word, ExecuteError>)
        ensures
            match register_value(reg, self.stack@, self.locals@, self.globals@) {
                Some(w) => r == Ok::<Word, ExecuteError>(w),
                None => r is Err,
            },
    {
        let (bank, i) = match reg {
            Register::Local(i) => (self.locals, i),
            Register::Global(g) => (self.globals, g),
            Register::Stack(d) => (self.stack, d),
        };
        if (i as usize) < bank.len() {
            Ok(bank[i as usize])
        } else {
            Err(ExecuteError::invalid_binary("register access out of range"))
        }
    }
}

} // verus!
