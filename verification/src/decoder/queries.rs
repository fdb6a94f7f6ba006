//! Per-module queries the proving side reads: a function's opcodes and
//! constants, and the globals' initial values.

use vstd::prelude::*;
use crate::decoder::error::DecodeError;
use crate::decoder::image::{FuncImage, Image, image_of, image_supported};
use crate::decoder::instruction::Instruction;
use crate::decoder::module::{Module, imported_func_types};
use crate::decoder::opcode::{OpCode, opcode_of};
use crate::decoder::sections::{BodyDecl, ModuleSections};
use crate::decoder::types::Word;

verus! {

/// The body of the defined function at `func_index`, if there is one.
pub open spec fn defined_body(s: ModuleSections, func_index: u32) -> Option<BodyDecl> {
    let n = imported_func_types(s.imports@).len();
    if n <= func_index < n + s.bodies@.len() {
        Some(s.bodies@[func_index - n])
    } else {
        None
    }
}

/// The constant an instruction pushes, as its zero-extended bit pattern.
pub open spec fn constant_of(i: Instruction) -> Option<u64> {
    match i {
        Instruction::I32Const { value } => Some(value as u32 as u64),
        Instruction::I64Const { value } => Some(value as u64),
        _ => None,
    }
}

/// Finds the image of the defined function `func_index`.
pub fn find_func<'a, 'b>(image: &'b Image<'a>, func_index: u32) -> (r: Option<&'b FuncImage<'a>>)
    ensures
        r matches Some(f) ==> f.func_index == func_index && exists|i: int| 0 <= i < image.funcs@.len() && image.funcs@[i] == *f,
        r is None ==> forall|i: int| 0 <= i < image.funcs@.len() ==> (#[trigger] image.funcs@[i]).func_index != func_index,
{
    let mut i: usize = 0;
    while i < image.funcs.len()
        invariant
            i <= image.funcs@.len(),
            forall|j: int| 0 <= j < i ==> (#[trigger] image.funcs@[j]).func_index != func_index,
        decreases image.funcs.len() - i,
    {
        if image.funcs[i].func_index == func_index {
            return Some(&image.funcs[i]);
        }
        i = i + 1;
    }
    None
}

proof fn lemma_find_body(img: Image, s: ModuleSections, func_index: u32, f: FuncImage)
    requires
        image_supported(s),
        image_of(img, s),
        exists|i: int| 0 <= i < img.funcs@.len() && img.funcs@[i] == f,
        f.func_index == func_index,
    ensures
        defined_body(s, func_index) matches Some(b) && f.instructions@ == b.instructions@,
{
    let i = choose|i: int| 0 <= i < img.funcs@.len() && img.funcs@[i] == f;
    assert(crate::decoder::image::func_image_of(img.funcs@[i], (imported_func_types(s.imports@).len() + i) as u32, crate::decoder::module::func_types_of(s), s.bodies@[i]));
}

proof fn lemma_no_body(img: Image, s: ModuleSections, func_index: u32)
    requires
        image_supported(s),
        image_of(img, s),
        forall|i: int| 0 <= i < img.funcs@.len() ==> (#[trigger] img.funcs@[i]).func_index != func_index,
    ensures
        defined_body(s, func_index) is None,
{
    let n = imported_func_types(s.imports@).len();
    if n <= func_index < n + s.bodies@.len() {
        let i = func_index - n;
        assert(crate::decoder::image::func_image_of(img.funcs@[i], (n + i) as u32, crate::decoder::module::func_types_of(s), s.bodies@[i]));
        assert(img.funcs@[i].func_index == func_index);
    }
}

/// Returns the [`OpCode`] of every instruction in the body of the defined
/// function with index `func_index`.
pub fn function_opcodes(module: &Module, func_index: u32) -> (r: Result<Vec<OpCode>, DecodeError>)
    ensures
        !image_supported(module.sections_view()) ==> r is Err,
        image_supported(module.sections_view()) ==> match defined_body(module.sections_view(), func_index) {
            None => r matches Err(e) && e is InvalidBinary,
            Some(b) => if forall|i: int| 0 <= i < b.instructions@.len() ==> (#[trigger] opcode_of(b.instructions@[i])) is Some {
                r matches Ok(v) && v@ == b.instructions@.map_values(|i: Instruction| opcode_of(i)->0)
            } else {
                r matches Err(e) && e is UnsupportedOperator
            },
        },
{
    let image = Image::parse(module.sections())?;
    let func = match find_func(&image, func_index) {
        Some(f) => f,
        None => {
            proof {
                lemma_no_body(image, module.sections_view(), func_index);
            }
            return Err(DecodeError::internal("no defined function for the requested index"));
        },
    };
    proof {
        lemma_find_body(image, module.sections_view(), func_index, *func);
    }
    let mut out: Vec<OpCode> = Vec::new();
    let mut i: usize = 0;
    while i < func.instructions.len()
        invariant
            i <= func.instructions@.len(),
            image_supported(module.sections_view()),
            defined_body(module.sections_view(), func_index) matches Some(b) && func.instructions@ == b.instructions@,
            forall|j: int| 0 <= j < i ==> (#[trigger] opcode_of(func.instructions@[j])) is Some,
            out@ == func.instructions@.subrange(0, i as int).map_values(|x: Instruction| opcode_of(x)->0),
        decreases func.instructions.len() - i,
    {
        let op = OpCode::from_instruction(&func.instructions[i])?;
        out.push(op);
        i = i + 1;
        assert(out@ =~= func.instructions@.subrange(0, i as int).map_values(|x: Instruction| opcode_of(x)->0));
    }
    assert(func.instructions@.subrange(0, i as int) =~= func.instructions@);
    Ok(out)
}

/// The initial value of every global, in declaration order.
pub fn global_initializers(module: &Module) -> (r: Result<Vec<Word>, DecodeError>)
    ensures
        image_supported(module.sections_view()) ==> (r matches Ok(v) && v@ == module.sections_view().globals@.map_values(
            |g: Option<Word>| g->0,
        )),
        !image_supported(module.sections_view()) ==> r is Err,
{
    let image = Image::parse(module.sections())?;
    Ok(image.globals)
}

/// The constant each instruction of the defined function `func_index` pushes,
/// `None` for an instruction that is no constant.
pub fn function_constants(module: &Module, func_index: u32) -> (r: Result<Vec<Option<u64>>, DecodeError>)
    ensures
        !image_supported(module.sections_view()) ==> r is Err,
        image_supported(module.sections_view()) ==> match defined_body(module.sections_view(), func_index) {
            None => r matches Err(e) && e is InvalidBinary,
            Some(b) => r matches Ok(v) && v@ == b.instructions@.map_values(|i: Instruction| constant_of(i)),
        },
{
    let image = Image::parse(module.sections())?;
    let func = match find_func(&image, func_index) {
        Some(f) => f,
        None => {
            proof {
                lemma_no_body(image, module.sections_view(), func_index);
            }
            return Err(DecodeError::internal("no defined function for the requested index"));
        },
    };
    proof {
        lemma_find_body(image, module.sections_view(), func_index, *func);
    }
    let mut out: Vec<Option<u64>> = Vec::new();
    let mut i: usize = 0;
    while i < func.instructions.len()
        invariant
            i <= func.instructions@.len(),
            out@ == func.instructions@.subrange(0, i as int).map_values(|x: Instruction| constant_of(x)),
        decreases func.instructions.len() - i,
    {
        let c = match &func.instructions[i] {
            Instruction::I32Const { value } => Some(*value as u32 as u64),
            Instruction::I64Const { value } => Some(*value as u64),
            _ => None,
        };
        out.push(c);
        i = i + 1;
        assert(out@ =~= func.instructions@.subrange(0, i as int).map_values(|x: Instruction| constant_of(x)));
    }
    assert(func.instructions@.subrange(0, i as int) =~= func.instructions@);
    Ok(out)
}

} // verus!
