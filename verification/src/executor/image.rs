//! Executor-side views of a module's image: its functions' opcodes and
//! constants, its globals' initial values, and an entry's parameter types.

use vstd::prelude::*;
use crate::decoder::error::DecodeError;
use crate::decoder::image::{Image, image_supported};
use crate::decoder::instruction::Instruction;
use crate::decoder::module::Module;
use crate::decoder::opcode::{OpCode, opcode_of};
use crate::decoder::queries::{constant_of, defined_body};
use crate::decoder::types::Word;
use crate::executor::error::ExecuteError;

pub use crate::decoder::types::WordType;
pub use crate::executor::entry::entry_parameters;

verus! {

/// Returns the [`OpCode`] of every instruction in the body of the defined
/// function with index `func_index`.
pub fn function_opcodes(module: &Module, func_index: u32) -> (r: Result<Vec<OpCode>, ExecuteError>)
    ensures
        !image_supported(module.sections_view()) ==> r is Err,
        image_supported(module.sections_view()) ==> match defined_body(module.sections_view(), func_index) {
            None => r matches Err(e) && e is MalformedModule,
            Some(b) => if forall|i: int| 0 <= i < b.instructions@.len() ==> (#[trigger] opcode_of(b.instructions@[i])) is Some {
                r matches Ok(v) && v@ == b.instructions@.map_values(|i: Instruction| opcode_of(i)->0)
            } else {
                r matches Err(e) && e is UnsupportedOperator
            },
        },
{
    match crate::decoder::queries::function_opcodes(module, func_index) {
        Ok(v) => Ok(v),
        Err(DecodeError::UnsupportedOperator { offset, operator }) => Err(ExecuteError::UnsupportedOperator { offset, message: operator }),
        Err(DecodeError::InvalidBinary { offset, message }) => {
            if image_ok(module) {
                Err(ExecuteError::MalformedModule { offset, message })
            } else {
                Err(ExecuteError::Decode(DecodeError::InvalidBinary { offset, message }))
            }
        },
        Err(e) => Err(ExecuteError::Decode(e)),
    }
}

fn image_ok(module: &Module) -> (r: bool)
    ensures
        r == image_supported(module.sections_view()),
{
    match Image::parse(module.sections()) {
        Ok(_) => true,
        Err(_) => false,
    }
}

/// The initial value of every global, in declaration order.
pub fn global_initializers(module: &Module) -> (r: Result<Vec<Word>, ExecuteError>)
    ensures
        image_supported(module.sections_view()) ==> (r matches Ok(v) && v@ == module.sections_view().globals@.map_values(
            |g: Option<Word>| g->0,
        )),
        !image_supported(module.sections_view()) ==> r is Err,
{
    match crate::decoder::queries::global_initializers(module) {
        Ok(v) => Ok(v),
        Err(e) => Err(ExecuteError::Decode(e)),
    }
}

/// The constant each instruction of the defined function `func_index` pushes,
/// `None` for an instruction that is no constant.
pub fn function_constants(module: &Module, func_index: u32) -> (r: Result<Vec<Option<u64>>, ExecuteError>)
    ensures
        !image_supported(module.sections_view()) ==> r is Err,
        image_supported(module.sections_view()) ==> match defined_body(module.sections_view(), func_index) {
            None => r matches Err(e) && e is MalformedModule,
            Some(b) => r matches Ok(v) && v@ == b.instructions@.map_values(|i: Instruction| constant_of(i)),
        },
{
    match crate::decoder::queries::function_constants(module, func_index) {
        Ok(v) => Ok(v),
        Err(DecodeError::InvalidBinary { offset, message }) => {
            if image_ok(module) {
                Err(ExecuteError::MalformedModule { offset, message })
            } else {
                Err(ExecuteError::Decode(DecodeError::InvalidBinary { offset, message }))
            }
        },
        Err(e) => Err(ExecuteError::Decode(e)),
    }
}

} // verus!
