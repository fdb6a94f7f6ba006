//! Running a module's entry function under its register schedule.

use vstd::prelude::*;
use crate::decoder::image::{Image, fn_type_matches, image_of, image_supported, func_image_of, params_of, results_of};
use crate::decoder::module::{imported_func_types, func_types_of};
use crate::decoder::opcode::opcode_of;
use crate::decoder::sections::{ModuleSections, TypeDecl};
use crate::decoder::module::type_arity_of;
use crate::lift::analysis::{follows_effect, value_effect, value_reads, value_writes};
use crate::executor::interpreter::{
    accessed_registers, record_computes, record_computes_at, record_follows_schedule, records_compute,
    records_follow_schedule, schedule_names_effect,
};
use crate::executor::interpreter::data::{computes, values_of};
use crate::decoder::instruction::Instruction;
use crate::lift::program::LiftedProgram;
use crate::executor::record::StepRecord;
use crate::decoder::module::{Module, info_fits};
use crate::decoder::types::Word;
use crate::executor::entry::{Entry, entry_target, lemma_resolved_entry_of_image, validate_args};
use crate::executor::error::ExecuteError;
use crate::executor::host::Host;
use crate::executor::interpreter::{Completion, Interpreter};
use crate::executor::record::StepObserver;
use crate::executor::runtime::ExecutionResult;
use crate::executor::runtime::memory::Memory;
use crate::lift::{lift, lifted_from, lifts};
use crate::decoder::types::{WordType, zero_of};
use crate::executor::interpreter::run::{EvalEnd, RunOutcome, eval_run, run_agrees};

verus! {

/// Whether a record follows the schedule `p` lifts from sections `s`: it names
/// a defined function's body, a program point in it and the opcode of the
/// instruction there, and the registers it read and wrote are the ones the
/// schedule names at that point (a run that exits there writes none).
pub open spec fn record_follows_body_schedule(r: StepRecord, s: ModuleSections, p: LiftedProgram) -> bool {
    exists|i: int, k: int|
        0 <= i < s.bodies@.len() && 0 <= k < s.bodies@[i].instructions@.len() && r.func_index == imported_func_types(
            s.imports@,
        ).len() + i && r.pc == k as u32 && #[trigger] opcode_of(s.bodies@[i].instructions@[k]) == Some(r.opcode) && i
            < p.functions@.len() && k < p.functions@[i].schedules@.len() && #[trigger] accessed_registers(r.reads@)
            == p.functions@[i].schedules@[k].reads@ && (accessed_registers(r.writes@)
            == p.functions@[i].schedules@[k].writes@ || (r.transition is Exit && r.writes@.len() == 0))
}

/// Whether a record, read as one of body `i` at program point `k`, carries
/// the values its instruction computes, should the schedule `p` lifts from
/// sections `s` name that instruction's value effect there.
pub open spec fn record_computes_in_at(r: StepRecord, s: ModuleSections, p: LiftedProgram, i: int, k: int) -> bool {
    &&& 0 <= i < s.bodies@.len()
    &&& 0 <= k < s.bodies@[i].instructions@.len()
    &&& r.func_index == imported_func_types(s.imports@).len() + i
    &&& r.pc == k as u32
    &&& i < p.functions@.len()
    &&& k < p.functions@[i].schedules@.len()
    &&& schedule_names_effect(p.functions@[i].schedules@[k], s.bodies@[i].instructions@[k]) ==> computes(
        s.bodies@[i].instructions@[k],
        values_of(r.reads@),
        values_of(r.writes@),
        r.memory@,
    )
}

/// Whether a record carries the values its instruction computes, wherever
/// the schedule `p` lifts from sections `s` names that instruction's value
/// effect at the record's program point.
pub open spec fn record_computes_in(r: StepRecord, s: ModuleSections, p: LiftedProgram) -> bool {
    exists|i: int, k: int| #[trigger] record_computes_in_at(r, s, p, i, k)
}

proof fn lemma_records_compute_in_sections(recs: Seq<StepRecord>, from: int, img: Image, program: LiftedProgram, s: ModuleSections)
    requires
        image_supported(s),
        image_of(img, s),
        records_compute(recs, from, img, program),
    ensures
        forall|j: int| from <= j < recs.len() ==> record_computes_in(#[trigger] recs[j], s, program),
{
    assert forall|j: int| from <= j < recs.len() implies record_computes_in(#[trigger] recs[j], s, program) by {
        assert(record_computes(recs[j], img, program));
        let (i, k) = choose|i: int, k: int| #[trigger] record_computes_at(recs[j], img, program, i, k);
        assert(func_image_of(img.funcs@[i], (imported_func_types(s.imports@).len() + i) as u32, func_types_of(s), s.bodies@[i]));
        assert(record_computes_in_at(recs[j], s, program, i, k));
    }
}

/// For an instruction other than a call, the value effect the lift reads off
/// the module's types is the one it has on its own.
proof fn lemma_value_effect_without_tables(instr: Instruction, arities: Seq<(u32, u32)>, func_types: Seq<u32>)
    requires
        !(instr is Call),
        !(instr is CallIndirect),
    ensures
        value_effect(instr, arities, func_types) == value_effect(instr, Seq::empty(), Seq::empty()),
{
}

/// Every step of a run whose schedule follows a lift of the module, at a
/// program point whose instruction is not a call, that touches registers
/// carries the values WebAssembly computes for that instruction: the result of
/// its arithmetic, comparison, test or conversion on the operands it read, the
/// constant it pushes, the value it moves, or the one it selects.
pub proof fn law_records_compute_their_values(r: StepRecord, s: ModuleSections, p: LiftedProgram)
    requires
        lifted_from(p, s),
        record_follows_body_schedule(r, s, p),
        record_computes_in(r, s, p),
    ensures
        exists|i: int, k: int|
            0 <= i < s.bodies@.len() && 0 <= k < s.bodies@[i].instructions@.len() && r.func_index == imported_func_types(
                s.imports@,
            ).len() + i && r.pc == k && #[trigger] opcode_of(s.bodies@[i].instructions@[k]) == Some(r.opcode) && (
            !(s.bodies@[i].instructions@[k] is Call) && !(s.bodies@[i].instructions@[k] is CallIndirect) && (
            r.reads@.len() > 0 || r.writes@.len() > 0) && !(r.transition is Exit) ==> computes(
                s.bodies@[i].instructions@[k],
                values_of(r.reads@),
                values_of(r.writes@),
                r.memory@,
            )),
{
    let n = imported_func_types(s.imports@).len();
    let (i, k) = choose|i: int, k: int|
        0 <= i < s.bodies@.len() && 0 <= k < s.bodies@[i].instructions@.len() && r.func_index == n + i && r.pc == k as u32
            && #[trigger] opcode_of(s.bodies@[i].instructions@[k]) == Some(r.opcode) && i < p.functions@.len() && k
            < p.functions@[i].schedules@.len() && #[trigger] accessed_registers(r.reads@) == p.functions@[i].schedules@[k].reads@
            && (accessed_registers(r.writes@) == p.functions@[i].schedules@[k].writes@ || (r.transition is Exit
            && r.writes@.len() == 0));
    let (i2, k2) = choose|i: int, k: int| #[trigger] record_computes_in_at(r, s, p, i, k);
    assert(i2 == i && k2 == k);
    let instr = s.bodies@[i].instructions@[k];
    let sched = p.functions@[i].schedules@[k];
    if !(instr is Call) && !(instr is CallIndirect) && (r.reads@.len() > 0 || r.writes@.len() > 0) && !(r.transition is Exit) {
        let arities = s.types@.map_values(|t: TypeDecl| type_arity_of(t));
        assert(follows_effect(sched, instr, arities, func_types_of(s)));
        lemma_value_effect_without_tables(instr, arities, func_types_of(s));
        assert(accessed_registers(r.reads@).len() == r.reads@.len());
        assert(accessed_registers(r.writes@).len() == r.writes@.len());
        if value_effect(instr, Seq::empty(), Seq::empty()) is Some {
            assert(schedule_names_effect(sched, instr));
        } else {
            assert(computes(instr, values_of(r.reads@), values_of(r.writes@), r.memory@));
        }
    }
}

/// A record of a run that follows a lift of the module's schedule carries,
/// for a value operator, exactly the registers that operator's value effect
/// names at the program point's entry height, unless the point is unreachable
/// in the lift (it then names none) or the run exited there (it then wrote
/// none).
pub proof fn law_records_follow_value_effects(r: StepRecord, s: ModuleSections, p: LiftedProgram)
    requires
        lifted_from(p, s),
        record_follows_body_schedule(r, s, p),
    ensures
        exists|i: int, k: int|
            0 <= i < s.bodies@.len() && 0 <= k < s.bodies@[i].instructions@.len() && #[trigger] opcode_of(
                s.bodies@[i].instructions@[k],
            ) == Some(r.opcode) && r.pc == k && match value_effect(
                s.bodies@[i].instructions@[k],
                s.types@.map_values(|t: TypeDecl| type_arity_of(t)),
                func_types_of(s),
            ) {
                Some(e) => {
                    let h = p.functions@[i].schedules@[k].height_in as int;
                    ||| accessed_registers(r.reads@).len() == 0
                    ||| (accessed_registers(r.reads@) == value_reads(e, h) && (accessed_registers(r.writes@)
                        == value_writes(e, h) || (r.transition is Exit && r.writes@.len() == 0)))
                },
                None => true,
            },
{
    let (i, k) = choose|i: int, k: int|
        0 <= i < s.bodies@.len() && 0 <= k < s.bodies@[i].instructions@.len() && r.func_index == imported_func_types(
            s.imports@,
        ).len() + i && r.pc == k as u32 && #[trigger] opcode_of(s.bodies@[i].instructions@[k]) == Some(r.opcode) && i
            < p.functions@.len() && k < p.functions@[i].schedules@.len() && #[trigger] accessed_registers(r.reads@)
            == p.functions@[i].schedules@[k].reads@ && (accessed_registers(r.writes@)
            == p.functions@[i].schedules@[k].writes@ || (r.transition is Exit && r.writes@.len() == 0));
    assert(follows_effect(
        p.functions@[i].schedules@[k],
        s.bodies@[i].instructions@[k],
        s.types@.map_values(|t: TypeDecl| type_arity_of(t)),
        func_types_of(s),
    ));
}

proof fn lemma_records_in_sections(recs: Seq<StepRecord>, from: int, img: Image, program: LiftedProgram, s: ModuleSections)
    requires
        image_supported(s),
        image_of(img, s),
        records_follow_schedule(recs, from, img, program),
    ensures
        forall|j: int| from <= j < recs.len() ==> record_follows_body_schedule(#[trigger] recs[j], s, program),
{
    assert forall|j: int| from <= j < recs.len() implies record_follows_body_schedule(#[trigger] recs[j], s, program) by {
        assert(record_follows_schedule(recs[j], img, program));
        let (i, k) = choose|i: int, k: int|
            0 <= i < img.funcs@.len() && 0 <= k < img.funcs@[i].instructions@.len() && #[trigger] img.funcs@[i].func_index
                == recs[j].func_index && recs[j].pc == k as u32 && #[trigger] opcode_of(img.funcs@[i].instructions@[k])
                == Some(recs[j].opcode) && i < program.functions@.len() && k < program.functions@[i].schedules@.len()
                && accessed_registers(recs[j].reads@) == program.functions@[i].schedules@[k].reads@ && (accessed_registers(
                recs[j].writes@,
            ) == program.functions@[i].schedules@[k].writes@ || (recs[j].transition is Exit && recs[j].writes@.len() == 0));
        assert(func_image_of(img.funcs@[i], (imported_func_types(s.imports@).len() + i) as u32, func_types_of(s), s.bodies@[i]));
        assert(opcode_of(s.bodies@[i].instructions@[k]) == Some(recs[j].opcode));
    }
}

/// The declared type of function `idx` of a module with sections `s`.
pub open spec fn entry_type(s: ModuleSections, idx: u32) -> TypeDecl {
    s.types@[func_types_of(s)[idx as int] as int]
}

/// What a successful run of `entry` on `args` in a module with sections `s`
/// has: an entry that resolved to a defined function whose type exists, called
/// with no arguments or with one per parameter, returning one value per result
/// unless it exited; or an entry that resolved to nothing, which ran no step.
pub open spec fn run_fits_entry(res: ExecutionResult, entry: Entry, args: Seq<Word>, s: ModuleSections) -> bool {
    let n = imported_func_types(s.imports@).len();
    match entry_target(entry, s) {
        Ok(Some(idx)) => {
            &&& n <= idx < n + s.bodies@.len()
            &&& (idx as int) < func_types_of(s).len() && func_types_of(s)[idx as int] < s.types@.len()
            &&& (args.len() == 0 || args.len() == params_of(entry_type(s, idx)).len())
            &&& (res.exit is None ==> res.returns@.len() == results_of(entry_type(s, idx)))
        },
        Ok(None) => res.returns@.len() == 0 && res.exit is None && res.steps == 0,
        Err(()) => false,
    }
}

/// The arguments a defined function `idx` of `img` is called on: `args`, or
/// the zero of each parameter type when `args` is empty.
pub open spec fn entry_args(img: Image, idx: u32, args: Seq<Word>) -> Seq<Word> {
    if args.len() == 0 {
        img.types@[img.func_types@[idx as int] as int].params@.map_values(|t: WordType| zero_of(t))
    } else {
        args
    }
}

/// Whether `r` agrees with how the description `o` of the entry's activation
/// ends, where it says so: the values returned, the step count and the host
/// state `h1` left, the exit status, the step count and host state of a halt,
/// or the error.
pub open spec fn execution_agrees<V>(r: Result<ExecutionResult, ExecuteError>, o: Option<RunOutcome<V>>, h1: V) -> bool {
    match o {
        Some(o) => o.trace.len() <= u64::MAX ==> match o.end {
            EvalEnd::Returned(v) => r matches Ok(res) && res.returns@ == v && res.exit is None && res.steps == o.trace.len()
                && h1 == o.host,
            EvalEnd::Exited(c) => r matches Ok(res) && res.returns@.len() == 0 && res.exit == Some(c) && res.steps
                == o.trace.len() && h1 == o.host,
            EvalEnd::Error(x) => r == Err::<ExecutionResult, ExecuteError>(x),
            EvalEnd::Failed => r is Err,
            EvalEnd::Open => true,
        },
        None => true,
    }
}

/// Whether a module with sections `s` lifts and images, so that running it
/// comes down to its entry.
pub open spec fn runnable(s: ModuleSections) -> bool {
    info_fits(s) && image_supported(s) && lifts(s)
}

/// What running `entry` on `args` in a runnable module with sections `s0`
/// gives: an entry that does not resolve, or resolves to an imported or
/// missing function, is undefined; an entry that resolves to nothing runs no
/// step; a wrong argument count is reported with the expected and actual
/// counts; otherwise the result is how the entry's activation, described by
/// [`eval_run`] over the module's image and lift, ends wherever that
/// description settles.
pub open spec fn entry_outcome<H: Host>(
    r: Result<ExecutionResult, ExecuteError>,
    entry: Entry,
    args: Seq<Word>,
    s: ModuleSections,
    h0: H::V,
    h1: H::V,
) -> bool {
    let n = imported_func_types(s.imports@).len();
    runnable(s) ==> match entry_target(entry, s) {
        Err(()) => r == Err::<ExecutionResult, ExecuteError>(ExecuteError::UndefinedEntry),
        Ok(None) => r matches Ok(res) && res.returns@.len() == 0 && res.exit is None && res.steps == 0 && h1 == h0,
        Ok(Some(idx)) => {
            let defined = idx - n;
            let typed = (idx as int) < func_types_of(s).len() && func_types_of(s)[idx as int] < s.types@.len();
            let p = params_of(entry_type(s, idx)).len();
            &&& !(n <= idx < n + s.bodies@.len()) ==> r == Err::<ExecutionResult, ExecuteError>(ExecuteError::UndefinedEntry)
            &&& n <= idx < n + s.bodies@.len() && typed && args.len() != 0 && args.len() != p ==> r == Err::<
                ExecutionResult,
                ExecuteError,
            >(ExecuteError::ArgumentCountMismatch { expected: p as usize, actual: args.len() as usize })
            &&& n <= idx < n + s.bodies@.len() && typed && (args.len() == 0 || args.len() == p) ==> exists|img: Image, prog: LiftedProgram|
                #[trigger] image_of(img, s) && #[trigger] lifted_from(prog, s) && forall|fuel: nat|
                    execution_agrees(
                        r,
                        #[trigger] eval_run::<H>(
                            img,
                            prog,
                            defined,
                            img.max_pages,
                            entry_args(img, idx, args),
                            img.globals@,
                            img.memory@,
                            h0,
                            0,
                            fuel,
                        ),
                        h1,
                    )
        },
    }
}

/// Whether running `entry` on `args` in a runnable module with sections `s`
/// is refused for its argument count: the entry resolves to a typed defined
/// function and `args` is neither empty nor as long as its parameter list.
pub open spec fn count_mismatch(entry: Entry, args: Seq<Word>, s: ModuleSections) -> bool {
    let n = imported_func_types(s.imports@).len();
    runnable(s) && match entry_target(entry, s) {
        Ok(Some(idx)) => n <= idx < n + s.bodies@.len() && (idx as int) < func_types_of(s).len() && func_types_of(s)[idx as int]
            < s.types@.len() && args.len() != 0 && args.len() != params_of(entry_type(s, idx)).len(),
        _ => false,
    }
}

/// Executes a validated module under its static register schedule.
///
/// The module is lifted to its register schedule and imaged, then
/// interpreted: every instruction's register touches are resolved against the
/// live operand stack, locals, and globals and emitted as a record. At each
/// program point the operand-stack height execution reaches is checked against
/// the height the schedule predicts; a disagreement is reported as
/// [`ExecuteError::ScheduleMismatch`].
///
/// A run that halts through `proc_exit` returns no values; an entry that
/// resolves to nothing runs no step; a wrong argument count is refused before
/// any record is emitted or the host is called.
pub fn execute<O: StepObserver, H: Host>(
    module: &Module,
    entry: &Entry,
    args: &[Word],
    host: &mut H,
    observer: &mut O,
) -> (r: Result<ExecutionResult, ExecuteError>)
    ensures
        !info_fits(module.sections_view()) || !image_supported(module.sections_view()) ==> r is Err,
        entry_target(*entry, module.sections_view()) is Err ==> (r matches Err(e) && (e is Lift || e is Decode
            || e is UndefinedEntry)),
        r matches Ok(res) ==> run_fits_entry(res, *entry, args@, module.sections_view()),
        entry_outcome::<H>(r, *entry, args@, module.sections_view(), old(host)@, final(host)@),
        count_mismatch(*entry, args@, module.sections_view()) ==> final(observer).records() == old(observer).records()
            && *final(host) == *old(host),
        r matches Ok(res) ==> (res.exit is Some ==> res.returns@.len() == 0),
        O::keeps_records() ==> (r matches Ok(res) ==> final(observer).records().len() == old(observer).records().len()
            + res.steps),
        O::keeps_records() ==> final(observer).records().len() >= old(observer).records().len()
            && final(observer).records().subrange(0, old(observer).records().len() as int) == old(observer).records()
            && (final(observer).records().len() == old(observer).records().len() || exists|p: LiftedProgram|
                #[trigger] lifted_from(p, module.sections_view()) && forall|j: int|
                    old(observer).records().len() <= j < final(observer).records().len() ==> record_follows_body_schedule(
                        #[trigger] final(observer).records()[j],
                        module.sections_view(),
                        p,
                    ) && record_computes_in(final(observer).records()[j], module.sections_view(), p)),
{
    let program = match lift(module) {
        Ok(p) => p,
        Err(e) => {
            return Err(ExecuteError::Lift(e));
        },
    };
    let image = match Image::parse(module.sections()) {
        Ok(i) => i,
        Err(e) => {
            return Err(ExecuteError::Decode(e));
        },
    };
    proof {
        lemma_resolved_entry_of_image(*entry, image, module.sections_view());
    }
    let func_index = match entry.resolve(&image)? {
        Some(f) => f,
        None => {
            return Ok(ExecutionResult { returns: Vec::new(), exit: None, steps: 0 });
        },
    };
    if func_index < image.num_imported || (func_index - image.num_imported) as usize >= image.funcs.len() {
        return Err(ExecuteError::UndefinedEntry);
    }
    let defined = (func_index - image.num_imported) as usize;
    let params = match image.func_arity(func_index) {
        Some((p, _)) => p,
        None => {
            return Err(ExecuteError::UndefinedEntry);
        },
    };
    let call_args = validate_args(&image, func_index, params, args)?;
    let mut interpreter = Interpreter {
        globals: copy_words(&image.globals),
        memory: Memory::new(crate::decoder::module::copy_bytes(image.memory.as_slice()), image.max_pages),
        steps: 0,
    };
    let ghost before = observer.records();
    let ghost ca = call_args@;
    let ghost g0 = interpreter.globals@;
    let ghost m0 = interpreter.memory.bytes_view();
    let ghost h0 = host@;
    proof {
        if args@.len() == 0 {
            assert(ca =~= entry_args(image, func_index, args@));
        }
    }
    let flow = interpreter.eval(&image, &program, defined, call_args, 0, observer, host);
    proof {
        let sv = module.sections_view();
        let d = func_index - imported_func_types(sv.imports@).len();
        assert(d == defined as int);
        assert forall|fuel: nat|
            run_agrees(
                flow,
                #[trigger] eval_run::<H>(image, program, d, image.max_pages, entry_args(image, func_index, args@), image.globals@, image.memory@, h0, 0, fuel),
                0,
                interpreter.steps,
                interpreter.globals@,
                interpreter.memory.bytes_view(),
                host@,
            ) by {
            assert(run_agrees(
                flow,
                eval_run::<H>(image, program, defined as int, image.max_pages, ca, g0, m0, h0, 0usize as nat, fuel),
                0,
                interpreter.steps,
                interpreter.globals@,
                interpreter.memory.bytes_view(),
                host@,
            ));
        }
    }
    proof {
        if O::keeps_records() {
            lemma_records_in_sections(observer.records(), before.len() as int, image, program, module.sections_view());
            lemma_records_compute_in_sections(observer.records(), before.len() as int, image, program, module.sections_view());
        }
    }
    let flow = flow?;
    proof {
        let sv = module.sections_view();
        assert(func_image_of(image.funcs@[defined as int], (imported_func_types(sv.imports@).len() + defined) as u32, func_types_of(sv), sv.bodies@[defined as int]));
        assert(fn_type_matches(image.types@[func_types_of(sv)[func_index as int] as int], sv.types@[func_types_of(sv)[func_index as int] as int]));
    }
    match flow {
        Completion::Return(values) => Ok(ExecutionResult { returns: values, exit: None, steps: interpreter.steps }),
        Completion::Exit(code) => Ok(ExecutionResult { returns: Vec::new(), exit: Some(code), steps: interpreter.steps }),
    }
}

/// A copy of `words`.
pub fn copy_words(words: &Vec<Word>) -> (r: Vec<Word>)
    ensures
        r@ == words@,
{
    let mut out: Vec<Word> = Vec::new();
    let mut i: usize = 0;
    while i < words.len()
        invariant
            i <= words@.len(),
            out@ == words@.subrange(0, i as int),
        decreases words.len() - i,
    {
        out.push(words[i]);
        i = i + 1;
        assert(out@ =~= words@.subrange(0, i as int));
    }
    assert(words@.subrange(0, i as int) =~= words@);
    out
}

} // verus!
