//! Static stack-to-register lift for the Ananse zkVM.
//!
//! WebAssembly validation fixes a single operand-stack height at every
//! reachable program point. The lift re-derives that height by abstract
//! interpretation over the structured control flow and addresses the operand
//! stack, locals, and globals as a single static register file (see
//! [`Register`]). Because every predecessor of a control-flow join agrees on
//! height, merges need no value muxing: only the next program point is
//! data-dependent, surfaced through [`Successors`].

pub mod analysis;
pub mod error;
pub mod model;
pub mod program;
pub mod resolved;

pub use error::LiftError;
pub use program::{
    CtrlFrame, Fixup, LiftedFunction, LiftedProgram, Register, Schedule, SuccessorSlot,
    Successors, ValueEffect,
};

use vstd::prelude::*;
use crate::decoder::module::{Module, ModuleInfo, func_types_of, imported_func_types, info_fits, type_arity_of};
use crate::decoder::sections::{ModuleSections, TypeDecl};
use crate::lift::analysis::{declared_count, follows_effect, lift_functions, lift_ok, lift_run, register_file_covers};
use crate::lift::model::succ_model;
use crate::lift::resolved::targets_within;

verus! {

/// Whether `p` is a lift of a module with sections `s`: one function per
/// body, in code-section order, each indexed after the imports, with the
/// module's globals and its parameters and declared locals, one schedule per
/// operator whose register file covers every register it names, whose register
/// touches follow each operator's value effect, and whose successors are those
/// the lift's run over the body computes, each target a point of the body or
/// its end.
pub open spec fn lifted_from(p: LiftedProgram, s: ModuleSections) -> bool {
    &&& p.functions@.len() == s.bodies@.len()
    &&& forall|i: int|
        0 <= i < p.functions@.len() ==> {
            &&& register_file_covers(#[trigger] p.functions@[i])
            &&& p.functions@[i].schedules@.len() == s.bodies@[i].instructions@.len()
            &&& p.functions@[i].func_index == imported_func_types(s.imports@).len() + i
            &&& p.functions@[i].globals_count == s.globals@.len()
            &&& targets_within(p.functions@[i].schedules@.map_values(|sc: Schedule| succ_model(sc.successors)))
            &&& s.bodies@[i].instructions@.len() > 0 && s.bodies@[i].instructions@.last() is End
                ==> p.functions@[i].schedules@.last().successors == Successors::Return
            &&& p.functions@[i].locals_count == type_arity_of(
                s.types@[func_types_of(s)[p.functions@[i].func_index as int] as int],
            ).0 + declared_count(s.bodies@[i].locals@)
            &&& forall|k: int|
                0 <= k < p.functions@[i].schedules@.len() ==> succ_model(#[trigger] p.functions@[i].schedules@[k].successors)
                    == lift_run(
                    s.types@.map_values(|t: TypeDecl| type_arity_of(t)),
                    func_types_of(s),
                    imported_func_types(s.imports@).len() as u32,
                    i as usize,
                    s.bodies@[i],
                )->0.succs[k]
            &&& forall|k: int|
                0 <= k < p.functions@[i].schedules@.len() ==> follows_effect(
                    #[trigger] p.functions@[i].schedules@[k],
                    s.bodies@[i].instructions@[k],
                    s.types@.map_values(|t: TypeDecl| type_arity_of(t)),
                    func_types_of(s),
                )
        }
}


/// Whether every defined function of a module with sections `s` lifts: see
/// [`lift_ok`].
pub open spec fn lifts(s: ModuleSections) -> bool {
    forall|i: int|
        0 <= i < s.bodies@.len() ==> lift_ok(
            s.types@.map_values(|t: TypeDecl| type_arity_of(t)),
            func_types_of(s),
            imported_func_types(s.imports@).len() as u32,
            s.globals@.len() as u32,
            i as usize,
            #[trigger] s.bodies@[i],
        )
}

/// Lifts a module to its static register form.
///
/// Returns one lifted function per defined (non-imported) function, in
/// code-section order. Because the module is already validated, an error
/// indicates an internal inconsistency or a function outside the allowed
/// subset of WASM instead of a malformed user input. Every lifted function's
/// register file covers each operand-stack register its schedule names.
pub fn lift(module: &Module) -> (r: Result<LiftedProgram, LiftError>)
    ensures
        !info_fits(module.sections_view()) ==> r is Err,
        info_fits(module.sections_view()) ==> (r is Ok <==> lifts(module.sections_view())),
        r matches Ok(p) ==> lifted_from(p, module.sections_view()),
{
    let info = match ModuleInfo::parse(module.sections()) {
        Ok(info) => info,
        Err(e) => {
            return Err(LiftError::Decode(e));
        },
    };
    let functions = lift_functions(&info)?;
    Ok(LiftedProgram { functions })
}

} // verus!
