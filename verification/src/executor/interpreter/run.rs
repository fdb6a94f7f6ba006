//! One activation of a defined function as a sequence of states: what each
//! executed instruction does to the program point, operand stack, labels,
//! locals, globals and memory, and how the activation ends.

use vstd::prelude::*;
use crate::decoder::image::Image;
use crate::decoder::instruction::Instruction;
use crate::decoder::types::{Word, WordType, zero_of};
use crate::executor::error::{ExecuteError, Trap};
use crate::executor::host::{Host, HostAnswer};
use crate::executor::record::{StepRecord, Transition as StepTransition};
use crate::decoder::types::ImportEntry;
use crate::executor::memory::registers_in_range;
use crate::executor::runtime::label::Label;
use crate::lift::program::{LiftedProgram, Schedule};
use super::control::{CtrlNext, control_next};
use super::data::{DataStep, data_step};
use super::{MAX_CALL_DEPTH, result_arity_of};

verus! {

/// The state of an activation before the instruction at `pc`.
pub struct EvalState<V> {
    pub pc: int,
    pub stack: Seq<Word>,
    pub labels: Seq<Label>,
    pub locals: Seq<Word>,
    pub globals: Seq<Word>,
    pub mem: Seq<u8>,
    pub host: V,
}

/// How an activation ends: returning values, halting through the host with
/// an exit status, with a given error, with some error, or in a way this
/// description leaves open (a malformed call).
pub enum EvalEnd {
    Returned(Seq<Word>),
    Exited(i32),
    Error(ExecuteError),
    Failed,
    Open,
}

/// Whether the defined function `defined` has an image, a lifted body and a
/// declared type.
pub open spec fn activation_ok(image: Image, program: LiftedProgram, defined: int) -> bool {
    &&& 0 <= defined < image.funcs@.len()
    &&& defined < program.functions@.len()
    &&& image.funcs@[defined].type_idx < image.types@.len()
}

/// The state at the entry of the defined function `defined` called on `args`:
/// its declared locals zero after the arguments, nothing on the operand stack.
pub open spec fn entry_state<V>(image: Image, defined: int, args: Seq<Word>, globals: Seq<Word>, mem: Seq<u8>, host: V) -> EvalState<V> {
    EvalState {
        pc: 0,
        stack: Seq::empty(),
        labels: Seq::empty(),
        locals: args + image.funcs@[defined].declared@.map_values(|t: WordType| zero_of(t)),
        globals,
        mem,
        host,
    }
}

/// `st` when the registers `sched` writes can be read in it, failing otherwise.
pub open spec fn after_writes<V>(sched: Schedule, st: EvalState<V>) -> Result<EvalState<V>, EvalEnd> {
    if registers_in_range(sched.writes@, st.stack, st.locals, st.globals) {
        Ok(st)
    } else {
        Err(EvalEnd::Failed)
    }
}

/// One instruction of the defined function `defined` from state `st`, the
/// memory's page limit being `max_pages`: the program point must be in range,
/// the operand stack must have the height the schedule names, and the
/// registers the schedule names must be readable before and after.
#[verifier::opaque]
pub open spec fn eval_step<V>(image: Image, program: LiftedProgram, defined: int, max_pages: Option<u64>, st: EvalState<V>) -> Result<EvalState<V>, EvalEnd> {
    let f = image.funcs@[defined];
    let body = program.functions@[defined].schedules@;
    let pc = st.pc;
    if !(0 <= pc < f.instructions@.len() && pc < body.len() && pc < f.ends@.len()) {
        Err(EvalEnd::Failed)
    } else {
        let instr = f.instructions@[pc];
        let sched = body[pc];
        if st.stack.len() != sched.height_in {
            Err(
                EvalEnd::Error(
                    ExecuteError::ScheduleMismatch {
                        func_index: f.func_index,
                        pc: pc as u32,
                        schedule: sched.height_in,
                        actual: st.stack.len() as u32,
                    },
                ),
            )
        } else if !registers_in_range(sched.reads@, st.stack, st.locals, st.globals) {
            Err(EvalEnd::Failed)
        } else {
            match data_step(instr, st.stack, st.locals, st.globals, st.mem, max_pages) {
                Some(DataStep::Next { stack, locals, globals, mem, .. }) => after_writes(
                    sched,
                    EvalState { pc: pc + 1, stack, labels: st.labels, locals, globals, mem, host: st.host },
                ),
                Some(DataStep::Trap(t)) => Err(EvalEnd::Error(ExecuteError::Trap(t))),
                Some(DataStep::Malformed) => Err(EvalEnd::Failed),
                None => match control_next(instr, sched, image, f.ends@, body, result_arity_of(image, defined), pc, st.stack, st.labels) {
                    CtrlNext::Go { next, stack, labels } => after_writes(sched, EvalState { pc: next, stack, labels, ..st }),
                    CtrlNext::Ret { values, rest } => if registers_in_range(sched.writes@, rest, st.locals, st.globals) {
                        Err(EvalEnd::Returned(values))
                    } else {
                        Err(EvalEnd::Failed)
                    },
                    CtrlNext::Trapped(t) => Err(EvalEnd::Error(ExecuteError::Trap(t))),
                    CtrlNext::Fail => Err(EvalEnd::Failed),
                    CtrlNext::Open => Err(EvalEnd::Open),
                },
            }
        }
    }
}

/// How a run ends: its end, the program points `(function index, pc)` of the
/// records it emits, in order, and the globals, memory and host state it
/// leaves when it returns or exits.
#[verifier::ext_equal]
pub struct RunOutcome<V> {
    pub end: EvalEnd,
    pub trace: Seq<(u32, u32)>,
    pub globals: Seq<Word>,
    pub mem: Seq<u8>,
    pub host: V,
}

/// The imported function, as a function index, and the parameter count of
/// `instr` when it calls an import whose type exists and whose arguments are
/// on the operand stack `stack`.
pub open spec fn import_site(image: Image, instr: Instruction, stack: Seq<Word>) -> Option<(int, nat)> {
    match instr {
        Instruction::Call { function_index } => {
            let t = image.func_types@[function_index as int];
            if function_index < image.num_imported && function_index < image.imports@.len() && function_index
                < image.func_types@.len() && t < image.types@.len() && image.types@[t as int].params@.len() <= u32::MAX
                && image.types@[t as int].params@.len() <= stack.len() {
                Some((function_index as int, image.types@[t as int].params@.len()))
            } else {
                None
            }
        },
        _ => None,
    }
}

/// The callee, as a defined-function index, and the parameter count of
/// `instr` when it calls a defined function whose type exists and whose
/// arguments are on the operand stack `stack`.
pub open spec fn call_site(image: Image, instr: Instruction, stack: Seq<Word>) -> Option<(int, nat)> {
    match instr {
        Instruction::Call { function_index } => {
            let t = image.func_types@[function_index as int];
            if function_index >= image.num_imported && function_index < image.func_types@.len() && t < image.types@.len()
                && image.types@[t as int].params@.len() <= u32::MAX && image.types@[t as int].params@.len() <= stack.len() {
                Some(((function_index - image.num_imported) as int, image.types@[t as int].params@.len()))
            } else {
                None
            }
        },
        _ => None,
    }
}

/// The call site at `st.pc` of the defined function `defined`, once the point
/// is in range, the operand stack has the scheduled height and the scheduled
/// reads resolve.
pub open spec fn defined_call<V>(image: Image, program: LiftedProgram, defined: int, st: EvalState<V>) -> Option<(int, nat)> {
    let f = image.funcs@[defined];
    let body = program.functions@[defined].schedules@;
    let pc = st.pc;
    if 0 <= pc < f.instructions@.len() && pc < body.len() && pc < f.ends@.len() && st.stack.len() == body[pc].height_in
        && registers_in_range(body[pc].reads@, st.stack, st.locals, st.globals) {
        call_site(image, f.instructions@[pc], st.stack)
    } else {
        None
    }
}

/// The import call site at `st.pc` of the defined function `defined`, once the
/// point is in range, the operand stack has the scheduled height and the
/// scheduled reads resolve.
pub open spec fn import_call<V>(image: Image, program: LiftedProgram, defined: int, st: EvalState<V>) -> Option<(int, nat)> {
    let f = image.funcs@[defined];
    let body = program.functions@[defined].schedules@;
    let pc = st.pc;
    if 0 <= pc < f.instructions@.len() && pc < body.len() && pc < f.ends@.len() && st.stack.len() == body[pc].height_in
        && registers_in_range(body[pc].reads@, st.stack, st.locals, st.globals) {
        import_site(image, f.instructions@[pc], st.stack)
    } else {
        None
    }
}

/// The arguments of a call taking `p` values from the operand stack `stack`.
pub open spec fn call_args(stack: Seq<Word>, p: nat) -> Seq<Word> {
    stack.subrange(stack.len() - p, stack.len() as int)
}

/// Whether `r`, the outcome of a call at program point `pc` that took its `p`
/// arguments from `stack0`, agrees with the description `o` of the callee's
/// run, where it settles from the step counter `s0`: after a return the
/// results replace the arguments, the globals, memory and host state are the
/// callee's and the counter `s1` counts the callee's records; a halt is the
/// callee's, with its host state; an error is the callee's.
pub open spec fn call_agrees<V>(
    r: Result<super::signal::StepOutcome, ExecuteError>,
    o: Option<RunOutcome<V>>,
    s0: u64,
    pc: int,
    stack0: Seq<Word>,
    p: nat,
    stack1: Seq<Word>,
    g1: Seq<Word>,
    m1: Seq<u8>,
    h1: V,
    s1: u64,
) -> bool {
    settles(o, s0) ==> match o->0.end {
        EvalEnd::Returned(v) => {
            &&& r matches Ok(out) && out.control == super::signal::Signal::Advance((pc + 1) as usize)
            &&& stack1 == stack0.subrange(0, stack0.len() - p) + v
            &&& g1 == o->0.globals
            &&& m1 == o->0.mem
            &&& h1 == o->0.host
            &&& s1 == s0 + o->0.trace.len()
        },
        EvalEnd::Exited(c) => {
            &&& r matches Ok(out) && out.control == super::signal::Signal::Exit(c)
            &&& h1 == o->0.host
            &&& s1 == s0 + o->0.trace.len()
        },
        EvalEnd::Error(x) => r == Err::<super::signal::StepOutcome, ExecuteError>(x) && s1 == s0 + o->0.trace.len(),
        EvalEnd::Failed => r is Err && s1 == s0 + o->0.trace.len(),
        EvalEnd::Open => true,
    }
}

/// The state a call of import `f`, taking `p` values from the operand stack,
/// goes on in when the host returns values: those values replace the
/// arguments, and the host's state and memory are those after the call.
pub open spec fn import_next<H: Host>(image: Image, st: EvalState<H::V>, f: int, p: nat) -> EvalState<H::V> {
    let import = image.imports@[f];
    let args = call_args(st.stack, p);
    EvalState {
        pc: st.pc + 1,
        stack: st.stack.subrange(0, st.stack.len() - p) + H::answer(st.host, import, args, st.mem)->Return_0,
        mem: H::memory_after(st.host, import, args, st.mem),
        host: H::state_after(st.host, import, args, st.mem),
        ..st
    }
}

/// Whether the instruction at `cur`, which is no call to a defined function,
/// goes on to `next` without ending the activation: a step that goes on, or
/// an import call whose host returns values to a state whose scheduled
/// writes resolve.
pub open spec fn steps_to<H: Host>(
    image: Image,
    program: LiftedProgram,
    defined: int,
    max_pages: Option<u64>,
    cur: EvalState<H::V>,
    next: EvalState<H::V>,
) -> bool {
    &&& defined_call(image, program, defined, cur) is None
    &&& match import_call(image, program, defined, cur) {
        None => eval_step(image, program, defined, max_pages, cur) == Ok::<EvalState<H::V>, EvalEnd>(next),
        Some((f, p)) => {
            &&& H::answer(cur.host, image.imports@[f], call_args(cur.stack, p), cur.mem) is Return
            &&& next == import_next::<H>(image, cur, f, p)
            &&& registers_in_range(program.functions@[defined].schedules@[cur.pc].writes@, next.stack, next.locals, next.globals)
        },
    }
}

/// Whether `r`, the outcome of a call of `import` at program point `pc` that
/// took its `p` arguments `args` from `stack0`, is what the host answers in
/// state `host0` with memory `mem0`: the host's values replace the arguments
/// and control goes on at `pc + 1`, or the run halts, or it fails; the host's
/// state and the memory are those the call leaves.
pub open spec fn import_agrees<H: Host>(
    r: Result<super::signal::StepOutcome, ExecuteError>,
    host0: H::V,
    import: ImportEntry,
    args: Seq<Word>,
    mem0: Seq<u8>,
    pc: int,
    stack0: Seq<Word>,
    p: nat,
    stack1: Seq<Word>,
    host1: H::V,
    mem1: Seq<u8>,
) -> bool {
    &&& host1 == H::state_after(host0, import, args, mem0)
    &&& mem1 == H::memory_after(host0, import, args, mem0)
    &&& match H::answer(host0, import, args, mem0) {
        HostAnswer::Return(v) => {
            &&& r matches Ok(o) && o.control == super::signal::Signal::Advance((pc + 1) as usize) && o.transition
                == StepTransition::Next((pc + 1) as u32)
            &&& stack1 == stack0.subrange(0, stack0.len() - p) + v
        },
        HostAnswer::Exit(c) => r matches Ok(o) && o.control == super::signal::Signal::Exit(c) && o.transition
            == StepTransition::Exit(c),
        HostAnswer::Fail => r is Err,
    }
}

/// `o` with the records `pre` emitted before it.
pub open spec fn prefixed<V>(pre: Seq<(u32, u32)>, o: Option<RunOutcome<V>>) -> Option<RunOutcome<V>> {
    match o {
        Some(o) => Some(RunOutcome { trace: pre + o.trace, ..o }),
        None => None,
    }
}

/// How an activation of the defined function `defined` at call depth `depth`
/// goes on from `st` within `fuel` instructions of its own; `None` when it, or
/// an activation it calls, runs longer. A call to a defined function runs the
/// callee on the top values of the operand stack, then pushes its results and
/// emits the call's record after the callee's. A call to an import hands the
/// host the import, the top values of the operand stack and the memory, and
/// goes on as the host answers: its values pushed, or a halt, or a failure,
/// with the host's state and memory after the call.
pub open spec fn run_spec<H: Host>(
    image: Image,
    program: LiftedProgram,
    defined: int,
    max_pages: Option<u64>,
    st: EvalState<H::V>,
    depth: nat,
    fuel: nat,
) -> Option<RunOutcome<H::V>>
    decreases fuel, 1nat,
{
    if fuel == 0 {
        None
    } else {
        let pos = (image.funcs@[defined].func_index, st.pc as u32);
        match defined_call(image, program, defined, st) {
            Some((callee, p)) => {
                match eval_run::<H>(image, program, callee, max_pages, call_args(st.stack, p), st.globals, st.mem, st.host, depth + 1, (fuel - 1) as nat) {
                    Some(o) => match o.end {
                        EvalEnd::Returned(v) => {
                            let next = returned_to(st, p, o);
                            if registers_in_range(program.functions@[defined].schedules@[st.pc].writes@, next.stack, next.locals, next.globals) {
                                prefixed(o.trace.push(pos), run_spec::<H>(image, program, defined, max_pages, next, depth, (fuel - 1) as nat))
                            } else {
                                Some(RunOutcome { end: EvalEnd::Failed, ..o })
                            }
                        },
                        EvalEnd::Exited(c) => Some(RunOutcome { trace: o.trace.push(pos), ..o }),
                        _ => Some(o),
                    },
                    None => None,
                }
            },
            None => match import_call(image, program, defined, st) {
                Some((f, p)) => {
                    let import = image.imports@[f];
                    let args = call_args(st.stack, p);
                    let host = H::state_after(st.host, import, args, st.mem);
                    let mem = H::memory_after(st.host, import, args, st.mem);
                    match H::answer(st.host, import, args, st.mem) {
                        HostAnswer::Return(v) => {
                            let next = import_next::<H>(image, st, f, p);
                            if registers_in_range(program.functions@[defined].schedules@[st.pc].writes@, next.stack, next.locals, next.globals) {
                                prefixed(seq![pos], run_spec::<H>(image, program, defined, max_pages, next, depth, (fuel - 1) as nat))
                            } else {
                                Some(RunOutcome { end: EvalEnd::Failed, trace: Seq::empty(), globals: st.globals, mem, host })
                            }
                        },
                        HostAnswer::Exit(c) => Some(RunOutcome { end: EvalEnd::Exited(c), trace: seq![pos], globals: st.globals, mem, host }),
                        HostAnswer::Fail => Some(RunOutcome { end: EvalEnd::Failed, trace: Seq::empty(), globals: st.globals, mem, host }),
                    }
                },
                None => match eval_step(image, program, defined, max_pages, st) {
                    Ok(next) => prefixed(seq![pos], run_spec::<H>(image, program, defined, max_pages, next, depth, (fuel - 1) as nat)),
                    Err(e) => Some(
                        RunOutcome {
                            end: e,
                            trace: if e is Returned {
                                seq![pos]
                            } else {
                                Seq::empty()
                            },
                            globals: st.globals,
                            mem: st.mem,
                            host: st.host,
                        },
                    ),
                },
            },
        }
    }
}

/// How an activation of the defined function `defined` on `args`, at call
/// depth `depth`, from the globals and memory given, ends within `fuel`
/// instructions of each activation: past the call-depth limit it traps, and a
/// function with no image, lifted body or type fails; the host starts in
/// state `host`.
pub open spec fn eval_run<H: Host>(
    image: Image,
    program: LiftedProgram,
    defined: int,
    max_pages: Option<u64>,
    args: Seq<Word>,
    globals: Seq<Word>,
    mem: Seq<u8>,
    host: H::V,
    depth: nat,
    fuel: nat,
) -> Option<RunOutcome<H::V>>
    decreases fuel, 2nat,
{
    if depth > MAX_CALL_DEPTH {
        Some(RunOutcome { end: EvalEnd::Error(ExecuteError::Trap(Trap::CallStackExhausted)), trace: Seq::empty(), globals, mem, host })
    } else if !activation_ok(image, program, defined) {
        Some(RunOutcome { end: EvalEnd::Failed, trace: Seq::empty(), globals, mem, host })
    } else {
        run_spec::<H>(image, program, defined, max_pages, entry_state(image, defined, args, globals, mem, host), depth, fuel)
    }
}

/// A run that ends within `f` instructions ends the same way with more.
pub proof fn lemma_run_mono<H: Host>(
    image: Image,
    program: LiftedProgram,
    defined: int,
    max_pages: Option<u64>,
    st: EvalState<H::V>,
    depth: nat,
    f: nat,
    g: nat,
)
    requires
        f <= g,
        run_spec::<H>(image, program, defined, max_pages, st, depth, f) is Some,
    ensures
        run_spec::<H>(image, program, defined, max_pages, st, depth, g) == run_spec::<H>(image, program, defined, max_pages, st, depth, f),
    decreases f, 1nat,
{
    match defined_call(image, program, defined, st) {
        Some((callee, p)) => {
            let args = call_args(st.stack, p);
            lemma_eval_mono::<H>(image, program, callee, max_pages, args, st.globals, st.mem, st.host, depth + 1, (f - 1) as nat, (g - 1) as nat);
            let o = eval_run::<H>(image, program, callee, max_pages, args, st.globals, st.mem, st.host, depth + 1, (f - 1) as nat)->0;
            if o.end is Returned {
                let next = returned_to(st, p, o);
                if registers_in_range(program.functions@[defined].schedules@[st.pc].writes@, next.stack, next.locals, next.globals) {
                    lemma_run_mono::<H>(image, program, defined, max_pages, next, depth, (f - 1) as nat, (g - 1) as nat);
                }
            }
        },
        None => match import_call(image, program, defined, st) {
            Some((fi, p)) => {
                let import = image.imports@[fi];
                let args = call_args(st.stack, p);
                if H::answer(st.host, import, args, st.mem) is Return {
                    let next = import_next::<H>(image, st, fi, p);
                    if registers_in_range(program.functions@[defined].schedules@[st.pc].writes@, next.stack, next.locals, next.globals) {
                        lemma_run_mono::<H>(image, program, defined, max_pages, next, depth, (f - 1) as nat, (g - 1) as nat);
                    }
                }
            },
            None => {
                if eval_step(image, program, defined, max_pages, st) is Ok {
                    let next = eval_step(image, program, defined, max_pages, st)->Ok_0;
                    lemma_run_mono::<H>(image, program, defined, max_pages, next, depth, (f - 1) as nat, (g - 1) as nat);
                }
            },
        },
    }
}

/// An activation that ends within `f` instructions ends the same way with more.
pub proof fn lemma_eval_mono<H: Host>(
    image: Image,
    program: LiftedProgram,
    defined: int,
    max_pages: Option<u64>,
    args: Seq<Word>,
    globals: Seq<Word>,
    mem: Seq<u8>,
    host: H::V,
    depth: nat,
    f: nat,
    g: nat,
)
    requires
        f <= g,
        eval_run::<H>(image, program, defined, max_pages, args, globals, mem, host, depth, f) is Some,
    ensures
        eval_run::<H>(image, program, defined, max_pages, args, globals, mem, host, depth, g) == eval_run::<H>(
            image,
            program,
            defined,
            max_pages,
            args,
            globals,
            mem,
            host,
            depth,
            f,
        ),
    decreases f, 2nat,
{
    if depth <= MAX_CALL_DEPTH && activation_ok(image, program, defined) {
        lemma_run_mono::<H>(image, program, defined, max_pages, entry_state(image, defined, args, globals, mem, host), depth, f, g);
    }
}

/// Whether `r`, the result of running an activation, agrees with the end `e`
/// its description gives.
pub open spec fn eval_agrees(r: Result<super::signal::Completion, ExecuteError>, e: EvalEnd) -> bool {
    match e {
        EvalEnd::Returned(v) => r matches Ok(super::signal::Completion::Return(w)) && w@ == v,
        EvalEnd::Exited(c) => r == Ok::<super::signal::Completion, ExecuteError>(super::signal::Completion::Exit(c)),
        EvalEnd::Error(x) => r == Err::<super::signal::Completion, ExecuteError>(x),
        EvalEnd::Failed => r is Err,
        EvalEnd::Open => true,
    }
}

/// Whether the description `o` says how a run ends, and the records it emits
/// fit a step counter that starts at `s0`.
pub open spec fn settles<V>(o: Option<RunOutcome<V>>, s0: u64) -> bool {
    o is Some && !(o->0.end is Open) && s0 + o->0.trace.len() <= u64::MAX
}

/// Whether `r`, with the step counter going from `s0` to `s1` and the globals,
/// memory and host state left as `g1`, `m1` and `h1`, agrees with the
/// description `o`, where it settles: the end, the number of records, after a
/// return the globals and memory, and after a return or a halt the host
/// state.
pub open spec fn run_agrees<V>(
    r: Result<super::signal::Completion, ExecuteError>,
    o: Option<RunOutcome<V>>,
    s0: u64,
    s1: u64,
    g1: Seq<Word>,
    m1: Seq<u8>,
    h1: V,
) -> bool {
    settles(o, s0) ==> {
        &&& eval_agrees(r, o->0.end)
        &&& s1 == s0 + o->0.trace.len()
        &&& o->0.end is Returned ==> g1 == o->0.globals && m1 == o->0.mem
        &&& (o->0.end is Returned || o->0.end is Exited) ==> h1 == o->0.host
    }
}

/// The program points of `recs`.
pub open spec fn positions(recs: Seq<StepRecord>) -> Seq<(u32, u32)> {
    recs.map_values(|r: StepRecord| (r.func_index, r.pc))
}

/// Whether the records `recs` a run emitted are at the program points the
/// description `o` gives, in order, where it settles.
pub open spec fn trace_agrees<V>(recs: Seq<StepRecord>, o: Option<RunOutcome<V>>, s0: u64) -> bool {
    settles(o, s0) ==> positions(recs) == o->0.trace
}

/// Whether, after `j` instructions of an activation from `init` reached `cur`
/// emitting the records at `pre`, every settled run from `init` goes on as
/// the run from `cur` does.
#[verifier::opaque]
pub open spec fn tracks<H: Host>(
    image: Image,
    program: LiftedProgram,
    defined: int,
    max_pages: Option<u64>,
    init: EvalState<H::V>,
    depth: nat,
    s0: u64,
    cur: EvalState<H::V>,
    j: nat,
    pre: Seq<(u32, u32)>,
) -> bool {
    forall|fuel: nat|
        #[trigger] settles(run_spec::<H>(image, program, defined, max_pages, init, depth, fuel), s0) ==> fuel > j && run_spec::<H>(
            image,
            program,
            defined,
            max_pages,
            init,
            depth,
            fuel,
        ) == prefixed(pre, run_spec::<H>(image, program, defined, max_pages, cur, depth, (fuel - j) as nat))
}

/// Whether no run from `init` settles.
#[verifier::opaque]
pub open spec fn unsettled<H: Host>(
    image: Image,
    program: LiftedProgram,
    defined: int,
    max_pages: Option<u64>,
    init: EvalState<H::V>,
    depth: nat,
    s0: u64,
) -> bool {
    forall|fuel: nat| !#[trigger] settles(run_spec::<H>(image, program, defined, max_pages, init, depth, fuel), s0)
}

/// A run with no settled description agrees with it at every fuel.
pub proof fn lemma_unsettled_agrees<H: Host>(
    image: Image,
    program: LiftedProgram,
    defined: int,
    max_pages: Option<u64>,
    init: EvalState<H::V>,
    depth: nat,
    s0: u64,
    r: Result<super::signal::Completion, ExecuteError>,
    s1: u64,
    g1: Seq<Word>,
    m1: Seq<u8>,
    h1: H::V,
    recs: Seq<StepRecord>,
)
    requires
        unsettled::<H>(image, program, defined, max_pages, init, depth, s0),
    ensures
        forall|fuel: nat| run_agrees(r, #[trigger] run_spec::<H>(image, program, defined, max_pages, init, depth, fuel), s0, s1, g1, m1, h1),
        forall|fuel: nat| trace_agrees(recs, #[trigger] run_spec::<H>(image, program, defined, max_pages, init, depth, fuel), s0),
{
    reveal(unsettled);
    assert forall|fuel: nat| run_agrees(r, #[trigger] run_spec::<H>(image, program, defined, max_pages, init, depth, fuel), s0, s1, g1, m1, h1) by {
        assert(!settles(run_spec::<H>(image, program, defined, max_pages, init, depth, fuel), s0));
    }
    assert forall|fuel: nat| trace_agrees(recs, #[trigger] run_spec::<H>(image, program, defined, max_pages, init, depth, fuel), s0) by {
        assert(!settles(run_spec::<H>(image, program, defined, max_pages, init, depth, fuel), s0));
    }
}

/// An activation is tracked to its own start.
pub proof fn lemma_run_start<H: Host>(
    image: Image,
    program: LiftedProgram,
    defined: int,
    max_pages: Option<u64>,
    init: EvalState<H::V>,
    depth: nat,
    s0: u64,
)
    ensures
        tracks::<H>(image, program, defined, max_pages, init, depth, s0, init, 0, Seq::empty()),
{
    reveal(tracks);
    assert forall|fuel: nat| #[trigger] settles(run_spec::<H>(image, program, defined, max_pages, init, depth, fuel), s0) implies fuel > 0
        && run_spec::<H>(image, program, defined, max_pages, init, depth, fuel) == prefixed(
        Seq::empty(),
        run_spec::<H>(image, program, defined, max_pages, init, depth, (fuel - 0) as nat),
    ) by {
        let o = run_spec::<H>(image, program, defined, max_pages, init, depth, fuel)->0;
        assert((fuel - 0) as nat == fuel);
        assert(Seq::<(u32, u32)>::empty() + o.trace =~= o.trace);
        assert(prefixed(Seq::empty(), Some(o)) == Some(o));
    }
}

/// An instruction that is no call to a defined function and goes on keeps
/// the activation tracked, with its record.
pub proof fn lemma_run_advance<H: Host>(
    image: Image,
    program: LiftedProgram,
    defined: int,
    max_pages: Option<u64>,
    init: EvalState<H::V>,
    depth: nat,
    s0: u64,
    cur: EvalState<H::V>,
    next: EvalState<H::V>,
    j: nat,
    pre: Seq<(u32, u32)>,
)
    requires
        tracks::<H>(image, program, defined, max_pages, init, depth, s0, cur, j, pre),
        steps_to::<H>(image, program, defined, max_pages, cur, next),
    ensures
        tracks::<H>(
            image,
            program,
            defined,
            max_pages,
            init,
            depth,
            s0,
            next,
            j + 1,
            pre.push((image.funcs@[defined].func_index, cur.pc as u32)),
        ),
{
    reveal(tracks);
    let pos = (image.funcs@[defined].func_index, cur.pc as u32);
    assert forall|fuel: nat| #[trigger] settles(run_spec::<H>(image, program, defined, max_pages, init, depth, fuel), s0) implies fuel > j
        + 1 && run_spec::<H>(image, program, defined, max_pages, init, depth, fuel) == prefixed(
        pre.push(pos),
        run_spec::<H>(image, program, defined, max_pages, next, depth, (fuel - (j + 1)) as nat),
    ) by {
        let k = (fuel - j) as nat;
        let rest = run_spec::<H>(image, program, defined, max_pages, next, depth, (k - 1) as nat);
        assert(run_spec::<H>(image, program, defined, max_pages, cur, depth, k) == prefixed(seq![pos], rest));
        assert((k - 1) as nat == (fuel - (j + 1)) as nat);
        if k == 1 {
            assert(rest is None);
        }
        let o = rest->0;
        assert(pre + (seq![pos] + o.trace) =~= pre.push(pos) + o.trace);
    }
}

/// An activation tracked to `cur`, whose run from `cur` ends as `out` at every
/// fuel it ends at, agrees with its description when `r`, the counter, the
/// globals, the memory and the records agree with `out`.
pub proof fn lemma_run_settle<H: Host>(
    image: Image,
    program: LiftedProgram,
    defined: int,
    max_pages: Option<u64>,
    init: EvalState<H::V>,
    depth: nat,
    s0: u64,
    cur: EvalState<H::V>,
    j: nat,
    pre: Seq<(u32, u32)>,
    out: RunOutcome<H::V>,
    r: Result<super::signal::Completion, ExecuteError>,
    s1: u64,
    g1: Seq<Word>,
    m1: Seq<u8>,
    h1: H::V,
    kept: bool,
    recs: Seq<StepRecord>,
)
    requires
        tracks::<H>(image, program, defined, max_pages, init, depth, s0, cur, j, pre),
        forall|k: nat|
            (#[trigger] run_spec::<H>(image, program, defined, max_pages, cur, depth, k)) is Some ==> run_spec::<H>(
                image,
                program,
                defined,
                max_pages,
                cur,
                depth,
                k,
            ) == Some(out),
        !(out.end is Open) && s0 + pre.len() + out.trace.len() <= u64::MAX ==> {
            &&& eval_agrees(r, out.end)
            &&& s1 == s0 + pre.len() + out.trace.len()
            &&& out.end is Returned ==> g1 == out.globals && m1 == out.mem
            &&& (out.end is Returned || out.end is Exited) ==> h1 == out.host
            &&& kept ==> positions(recs) == pre + out.trace
        },
    ensures
        forall|fuel: nat| run_agrees(r, #[trigger] run_spec::<H>(image, program, defined, max_pages, init, depth, fuel), s0, s1, g1, m1, h1),
        kept ==> forall|fuel: nat| trace_agrees(recs, #[trigger] run_spec::<H>(image, program, defined, max_pages, init, depth, fuel), s0),
{
    reveal(tracks);
    assert forall|fuel: nat| run_agrees(r, #[trigger] run_spec::<H>(image, program, defined, max_pages, init, depth, fuel), s0, s1, g1, m1, h1)
        && (kept ==> trace_agrees(recs, run_spec::<H>(image, program, defined, max_pages, init, depth, fuel), s0)) by {
        if settles(run_spec::<H>(image, program, defined, max_pages, init, depth, fuel), s0) {
            let k = (fuel - j) as nat;
            assert(run_spec::<H>(image, program, defined, max_pages, cur, depth, k) is Some);
            assert(run_spec::<H>(image, program, defined, max_pages, init, depth, fuel) == prefixed(pre, Some(out)));
        }
    }
}

/// An activation whose instruction at `cur` hands control to the host, or to
/// a callee whose run never settles, never settles.
pub proof fn lemma_run_unsettled<H: Host>(
    image: Image,
    program: LiftedProgram,
    defined: int,
    max_pages: Option<u64>,
    init: EvalState<H::V>,
    depth: nat,
    s0: u64,
    cur: EvalState<H::V>,
    j: nat,
    pre: Seq<(u32, u32)>,
)
    requires
        tracks::<H>(image, program, defined, max_pages, init, depth, s0, cur, j, pre),
        forall|k: nat| !#[trigger] settles(prefixed(pre, run_spec::<H>(image, program, defined, max_pages, cur, depth, k)), s0),
    ensures
        unsettled::<H>(image, program, defined, max_pages, init, depth, s0),
{
    reveal(tracks);
    reveal(unsettled);
    assert forall|fuel: nat| !#[trigger] settles(run_spec::<H>(image, program, defined, max_pages, init, depth, fuel), s0) by {
        if settles(run_spec::<H>(image, program, defined, max_pages, init, depth, fuel), s0) {
            let k = (fuel - j) as nat;
            assert(!settles(prefixed(pre, run_spec::<H>(image, program, defined, max_pages, cur, depth, k)), s0));
        }
    }
}

/// Every fuel at which an activation ends gives the same description.
pub proof fn lemma_eval_stable<H: Host>(
    image: Image,
    program: LiftedProgram,
    defined: int,
    max_pages: Option<u64>,
    args: Seq<Word>,
    globals: Seq<Word>,
    mem: Seq<u8>,
    host: H::V,
    depth: nat,
    f0: nat,
)
    requires
        eval_run::<H>(image, program, defined, max_pages, args, globals, mem, host, depth, f0) is Some,
    ensures
        forall|f: nat|
            (#[trigger] eval_run::<H>(image, program, defined, max_pages, args, globals, mem, host, depth, f)) is Some ==> eval_run::<H>(
                image,
                program,
                defined,
                max_pages,
                args,
                globals,
                mem,
                host,
                depth,
                f,
            ) == eval_run::<H>(image, program, defined, max_pages, args, globals, mem, host, depth, f0),
{
    assert forall|f: nat| (#[trigger] eval_run::<H>(image, program, defined, max_pages, args, globals, mem, host, depth, f)) is Some implies eval_run::<H>(
        image,
        program,
        defined,
        max_pages,
        args,
        globals,
        mem,
        host,
        depth,
        f,
    ) == eval_run::<H>(image, program, defined, max_pages, args, globals, mem, host, depth, f0) by {
        if f <= f0 {
            lemma_eval_mono::<H>(image, program, defined, max_pages, args, globals, mem, host, depth, f, f0);
        } else {
            lemma_eval_mono::<H>(image, program, defined, max_pages, args, globals, mem, host, depth, f0, f);
        }
    }
}

/// The state a call to a defined function returns to when its callee's run
/// `o` returns.
pub open spec fn returned_to<V>(cur: EvalState<V>, p: nat, o: RunOutcome<V>) -> EvalState<V> {
    EvalState {
        pc: cur.pc + 1,
        stack: cur.stack.subrange(0, cur.stack.len() - p) + o.end->Returned_0,
        globals: o.globals,
        mem: o.mem,
        host: o.host,
        ..cur
    }
}

/// How a call at program point `pos` ends the caller's run when the callee's
/// run `o` does not return, or returns to a state whose scheduled writes do
/// not resolve: a halt emits the call's record after the callee's.
pub open spec fn call_end<V>(o: RunOutcome<V>, pos: (u32, u32)) -> RunOutcome<V> {
    if o.end is Returned {
        RunOutcome { end: EvalEnd::Failed, ..o }
    } else if o.end is Exited {
        RunOutcome { trace: o.trace.push(pos), ..o }
    } else {
        o
    }
}

/// A call to a defined function whose callee's run `o` does not return, or
/// returns to a state whose scheduled writes do not resolve, ends the
/// caller's run as [`call_end`] says at every fuel it ends at.
pub proof fn lemma_call_ends<H: Host>(
    image: Image,
    program: LiftedProgram,
    defined: int,
    max_pages: Option<u64>,
    cur: EvalState<H::V>,
    depth: nat,
    callee: int,
    p: nat,
    f0: nat,
    o: RunOutcome<H::V>,
)
    requires
        defined_call(image, program, defined, cur) == Some((callee, p)),
        eval_run::<H>(image, program, callee, max_pages, call_args(cur.stack, p), cur.globals, cur.mem, cur.host, depth + 1, f0) == Some(o),
        o.end is Returned ==> !registers_in_range(
            program.functions@[defined].schedules@[cur.pc].writes@,
            returned_to(cur, p, o).stack,
            returned_to(cur, p, o).locals,
            returned_to(cur, p, o).globals,
        ),
    ensures
        forall|k: nat|
            (#[trigger] run_spec::<H>(image, program, defined, max_pages, cur, depth, k)) is Some ==> run_spec::<H>(
                image,
                program,
                defined,
                max_pages,
                cur,
                depth,
                k,
            ) == Some(call_end(o, (image.funcs@[defined].func_index, cur.pc as u32))),
{
    lemma_eval_stable::<H>(image, program, callee, max_pages, call_args(cur.stack, p), cur.globals, cur.mem, cur.host, depth + 1, f0);
    assert forall|k: nat| (#[trigger] run_spec::<H>(image, program, defined, max_pages, cur, depth, k)) is Some implies run_spec::<H>(
        image,
        program,
        defined,
        max_pages,
        cur,
        depth,
        k,
    ) == Some(call_end(o, (image.funcs@[defined].func_index, cur.pc as u32))) by {
        assert(eval_run::<H>(image, program, callee, max_pages, call_args(cur.stack, p), cur.globals, cur.mem, cur.host, depth + 1, (k - 1) as nat) is Some);
    }
}

/// A call to a defined function whose callee's run `o` returns to a state
/// whose scheduled writes resolve keeps the caller's run tracked, with the
/// callee's records and then the call's.
pub proof fn lemma_call_advance<H: Host>(
    image: Image,
    program: LiftedProgram,
    defined: int,
    max_pages: Option<u64>,
    init: EvalState<H::V>,
    depth: nat,
    s0: u64,
    cur: EvalState<H::V>,
    j: nat,
    pre: Seq<(u32, u32)>,
    callee: int,
    p: nat,
    f0: nat,
    o: RunOutcome<H::V>,
)
    requires
        tracks::<H>(image, program, defined, max_pages, init, depth, s0, cur, j, pre),
        defined_call(image, program, defined, cur) == Some((callee, p)),
        eval_run::<H>(image, program, callee, max_pages, call_args(cur.stack, p), cur.globals, cur.mem, cur.host, depth + 1, f0) == Some(o),
        o.end is Returned,
        registers_in_range(
            program.functions@[defined].schedules@[cur.pc].writes@,
            returned_to(cur, p, o).stack,
            returned_to(cur, p, o).locals,
            returned_to(cur, p, o).globals,
        ),
    ensures
        tracks::<H>(
            image,
            program,
            defined,
            max_pages,
            init,
            depth,
            s0,
            returned_to(cur, p, o),
            j + 1,
            pre + o.trace.push((image.funcs@[defined].func_index, cur.pc as u32)),
        ),
{
    reveal(tracks);
    lemma_eval_stable::<H>(image, program, callee, max_pages, call_args(cur.stack, p), cur.globals, cur.mem, cur.host, depth + 1, f0);
    let pos = (image.funcs@[defined].func_index, cur.pc as u32);
    let next = returned_to(cur, p, o);
    assert forall|fuel: nat| #[trigger] settles(run_spec::<H>(image, program, defined, max_pages, init, depth, fuel), s0) implies fuel > j
        + 1 && run_spec::<H>(image, program, defined, max_pages, init, depth, fuel) == prefixed(
        pre + o.trace.push(pos),
        run_spec::<H>(image, program, defined, max_pages, next, depth, (fuel - (j + 1)) as nat),
    ) by {
        let k = (fuel - j) as nat;
        assert(run_spec::<H>(image, program, defined, max_pages, cur, depth, k) is Some);
        assert(eval_run::<H>(image, program, callee, max_pages, call_args(cur.stack, p), cur.globals, cur.mem, cur.host, depth + 1, (k - 1) as nat) is Some);
        let rest = run_spec::<H>(image, program, defined, max_pages, next, depth, (k - 1) as nat);
        assert(run_spec::<H>(image, program, defined, max_pages, cur, depth, k) == prefixed(o.trace.push(pos), rest));
        assert((k - 1) as nat == (fuel - (j + 1)) as nat);
        if k == 1 {
            assert(rest is None);
        }
        let r = rest->0;
        assert(pre + (o.trace.push(pos) + r.trace) =~= (pre + o.trace.push(pos)) + r.trace);
    }
}

/// A call to a defined function whose callee's run never settles from the
/// counter `st0` the caller reached leaves the caller's run unsettled.
pub proof fn lemma_call_unsettled<H: Host>(
    image: Image,
    program: LiftedProgram,
    defined: int,
    max_pages: Option<u64>,
    init: EvalState<H::V>,
    depth: nat,
    s0: u64,
    cur: EvalState<H::V>,
    j: nat,
    pre: Seq<(u32, u32)>,
    callee: int,
    p: nat,
    st0: u64,
)
    requires
        tracks::<H>(image, program, defined, max_pages, init, depth, s0, cur, j, pre),
        defined_call(image, program, defined, cur) == Some((callee, p)),
        st0 == s0 + pre.len(),
        forall|f: nat|
            !#[trigger] settles(
                eval_run::<H>(image, program, callee, max_pages, call_args(cur.stack, p), cur.globals, cur.mem, cur.host, depth + 1, f),
                st0,
            ),
    ensures
        unsettled::<H>(image, program, defined, max_pages, init, depth, s0),
{
    let pos = (image.funcs@[defined].func_index, cur.pc as u32);
    assert forall|k: nat| !#[trigger] settles(prefixed(pre, run_spec::<H>(image, program, defined, max_pages, cur, depth, k)), s0) by {
        if settles(prefixed(pre, run_spec::<H>(image, program, defined, max_pages, cur, depth, k)), s0) {
            let oc = eval_run::<H>(image, program, callee, max_pages, call_args(cur.stack, p), cur.globals, cur.mem, cur.host, depth + 1, (k - 1) as nat);
            assert(oc is Some);
            let o = oc->0;
            if o.end is Returned {
                let next = returned_to(cur, p, o);
                if registers_in_range(program.functions@[defined].schedules@[cur.pc].writes@, next.stack, next.locals, next.globals) {
                    let rest = run_spec::<H>(image, program, defined, max_pages, next, depth, (k - 1) as nat);
                    assert(run_spec::<H>(image, program, defined, max_pages, cur, depth, k) == prefixed(o.trace.push(pos), rest));
                    assert(rest is Some);
                    assert((pre + (o.trace.push(pos) + rest->0.trace)).len() >= pre.len() + o.trace.len());
                }
            }
            assert(settles(oc, st0));
        }
    }
    lemma_run_unsettled::<H>(image, program, defined, max_pages, init, depth, s0, cur, j, pre);
}

/// An instruction whose step hands control elsewhere leaves the run unsettled.
pub proof fn lemma_open_unsettled<H: Host>(
    image: Image,
    program: LiftedProgram,
    defined: int,
    max_pages: Option<u64>,
    init: EvalState<H::V>,
    depth: nat,
    s0: u64,
    cur: EvalState<H::V>,
    j: nat,
    pre: Seq<(u32, u32)>,
)
    requires
        tracks::<H>(image, program, defined, max_pages, init, depth, s0, cur, j, pre),
        defined_call(image, program, defined, cur) is None,
        import_call(image, program, defined, cur) is None,
        eval_step(image, program, defined, max_pages, cur) == Err::<EvalState<H::V>, EvalEnd>(EvalEnd::Open),
    ensures
        unsettled::<H>(image, program, defined, max_pages, init, depth, s0),
{
    assert forall|k: nat| !#[trigger] settles(prefixed(pre, run_spec::<H>(image, program, defined, max_pages, cur, depth, k)), s0) by {
    }
    lemma_run_unsettled::<H>(image, program, defined, max_pages, init, depth, s0, cur, j, pre);
}

/// An instruction that is no call to a defined function and ends the
/// activation with `e` ends every run from it the same way.
pub proof fn lemma_step_ends<H: Host>(
    image: Image,
    program: LiftedProgram,
    defined: int,
    max_pages: Option<u64>,
    cur: EvalState<H::V>,
    depth: nat,
    e: EvalEnd,
)
    requires
        defined_call(image, program, defined, cur) is None,
        import_call(image, program, defined, cur) is None,
        eval_step(image, program, defined, max_pages, cur) == Err::<EvalState<H::V>, EvalEnd>(e),
    ensures
        forall|k: nat|
            (#[trigger] run_spec::<H>(image, program, defined, max_pages, cur, depth, k)) is Some ==> run_spec::<H>(
                image,
                program,
                defined,
                max_pages,
                cur,
                depth,
                k,
            ) == Some(
                RunOutcome {
                    end: e,
                    trace: if e is Returned {
                        seq![(image.funcs@[defined].func_index, cur.pc as u32)]
                    } else {
                        Seq::empty()
                    },
                    globals: cur.globals,
                    mem: cur.mem,
                    host: cur.host,
                },
            ),
{
}

/// A call of an import whose host does not return values, or returns them to
/// a state whose scheduled writes do not resolve, ends every run from it as
/// the shortest one does.
pub proof fn lemma_import_ends<H: Host>(
    image: Image,
    program: LiftedProgram,
    defined: int,
    max_pages: Option<u64>,
    cur: EvalState<H::V>,
    depth: nat,
    f: int,
    p: nat,
)
    requires
        defined_call(image, program, defined, cur) is None,
        import_call(image, program, defined, cur) == Some((f, p)),
        H::answer(cur.host, image.imports@[f], call_args(cur.stack, p), cur.mem) is Return ==> !registers_in_range(
            program.functions@[defined].schedules@[cur.pc].writes@,
            import_next::<H>(image, cur, f, p).stack,
            import_next::<H>(image, cur, f, p).locals,
            import_next::<H>(image, cur, f, p).globals,
        ),
    ensures
        run_spec::<H>(image, program, defined, max_pages, cur, depth, 1) is Some,
        forall|k: nat|
            (#[trigger] run_spec::<H>(image, program, defined, max_pages, cur, depth, k)) is Some ==> run_spec::<H>(
                image,
                program,
                defined,
                max_pages,
                cur,
                depth,
                k,
            ) == run_spec::<H>(image, program, defined, max_pages, cur, depth, 1),
{
    assert(run_spec::<H>(image, program, defined, max_pages, cur, depth, 1) is Some);
}

/// A tracked run whose records from `cur` on, with those already emitted,
/// cannot fit the step counter never settles.
pub proof fn lemma_run_overflow<H: Host>(
    image: Image,
    program: LiftedProgram,
    defined: int,
    max_pages: Option<u64>,
    init: EvalState<H::V>,
    depth: nat,
    s0: u64,
    cur: EvalState<H::V>,
    j: nat,
    pre: Seq<(u32, u32)>,
    m: nat,
)
    requires
        tracks::<H>(image, program, defined, max_pages, init, depth, s0, cur, j, pre),
        s0 + pre.len() + m > u64::MAX,
        forall|k: nat|
            (#[trigger] run_spec::<H>(image, program, defined, max_pages, cur, depth, k)) is Some ==> run_spec::<H>(
                image,
                program,
                defined,
                max_pages,
                cur,
                depth,
                k,
            )->0.trace.len() >= m,
    ensures
        unsettled::<H>(image, program, defined, max_pages, init, depth, s0),
{
    assert forall|k: nat| !#[trigger] settles(prefixed(pre, run_spec::<H>(image, program, defined, max_pages, cur, depth, k)), s0) by {
        if run_spec::<H>(image, program, defined, max_pages, cur, depth, k) is Some {
            assert((pre + run_spec::<H>(image, program, defined, max_pages, cur, depth, k)->0.trace).len() >= pre.len() + m);
        }
    }
    lemma_run_unsettled::<H>(image, program, defined, max_pages, init, depth, s0, cur, j, pre);
}

/// What every run from `init` settles to, as the activation of `defined` on
/// `args` at depth `depth` describes it.
pub proof fn lemma_eval_of_run<H: Host>(
    image: Image,
    program: LiftedProgram,
    defined: int,
    max_pages: Option<u64>,
    args: Seq<Word>,
    globals: Seq<Word>,
    mem: Seq<u8>,
    host: H::V,
    depth: nat,
    s0: u64,
    r: Result<super::signal::Completion, ExecuteError>,
    s1: u64,
    g1: Seq<Word>,
    m1: Seq<u8>,
    h1: H::V,
    kept: bool,
    recs: Seq<StepRecord>,
)
    requires
        depth <= MAX_CALL_DEPTH,
        activation_ok(image, program, defined),
        forall|fuel: nat|
            run_agrees(
                r,
                #[trigger] run_spec::<H>(image, program, defined, max_pages, entry_state(image, defined, args, globals, mem, host), depth, fuel),
                s0,
                s1,
                g1,
                m1,
                h1,
            ),
        kept ==> forall|fuel: nat|
            trace_agrees(
                recs,
                #[trigger] run_spec::<H>(image, program, defined, max_pages, entry_state(image, defined, args, globals, mem, host), depth, fuel),
                s0,
            ),
    ensures
        forall|fuel: nat| run_agrees(r, #[trigger] eval_run::<H>(image, program, defined, max_pages, args, globals, mem, host, depth, fuel), s0, s1, g1, m1, h1),
        kept ==> forall|fuel: nat| trace_agrees(recs, #[trigger] eval_run::<H>(image, program, defined, max_pages, args, globals, mem, host, depth, fuel), s0),
{
    let init = entry_state(image, defined, args, globals, mem, host);
    assert forall|fuel: nat| run_agrees(r, #[trigger] eval_run::<H>(image, program, defined, max_pages, args, globals, mem, host, depth, fuel), s0, s1, g1, m1, h1)
        && (kept ==> trace_agrees(recs, eval_run::<H>(image, program, defined, max_pages, args, globals, mem, host, depth, fuel), s0)) by {
        assert(eval_run::<H>(image, program, defined, max_pages, args, globals, mem, host, depth, fuel) == run_spec::<H>(image, program, defined, max_pages, init, depth, fuel));
    }
}

/// The program points of records split at `b` are those before it followed
/// by those after it.
pub proof fn lemma_positions_split(recs: Seq<StepRecord>, a: int, b: int, c: int)
    requires
        0 <= a <= b <= c <= recs.len(),
    ensures
        positions(recs.subrange(a, c)) == positions(recs.subrange(a, b)) + positions(recs.subrange(b, c)),
{
    assert(recs.subrange(a, c) =~= recs.subrange(a, b) + recs.subrange(b, c));
    assert(positions(recs.subrange(a, c)) =~= positions(recs.subrange(a, b)) + positions(recs.subrange(b, c)));
}

/// Two runs of one activation, on the same arguments from the same globals,
/// memory and host state, that agree with its description where it settles
/// at `fuel` without a bare failure, agree with each other: the same step
/// count and program points of their records, the same values, globals,
/// memory and host state returned, the same halt and host state, or the same
/// error.
pub proof fn law_runs_agree<H: Host>(
    image: Image,
    program: LiftedProgram,
    defined: int,
    max_pages: Option<u64>,
    args: Seq<Word>,
    globals: Seq<Word>,
    mem: Seq<u8>,
    host: H::V,
    depth: nat,
    s0: u64,
    fuel: nat,
    r1: Result<super::signal::Completion, ExecuteError>,
    s1: u64,
    g1: Seq<Word>,
    m1: Seq<u8>,
    h1: H::V,
    recs1: Seq<StepRecord>,
    r2: Result<super::signal::Completion, ExecuteError>,
    s2: u64,
    g2: Seq<Word>,
    m2: Seq<u8>,
    h2: H::V,
    recs2: Seq<StepRecord>,
)
    requires
        forall|f: nat| run_agrees(r1, #[trigger] eval_run::<H>(image, program, defined, max_pages, args, globals, mem, host, depth, f), s0, s1, g1, m1, h1),
        forall|f: nat| trace_agrees(recs1, #[trigger] eval_run::<H>(image, program, defined, max_pages, args, globals, mem, host, depth, f), s0),
        forall|f: nat| run_agrees(r2, #[trigger] eval_run::<H>(image, program, defined, max_pages, args, globals, mem, host, depth, f), s0, s2, g2, m2, h2),
        forall|f: nat| trace_agrees(recs2, #[trigger] eval_run::<H>(image, program, defined, max_pages, args, globals, mem, host, depth, f), s0),
        settles(eval_run::<H>(image, program, defined, max_pages, args, globals, mem, host, depth, fuel), s0),
        !(eval_run::<H>(image, program, defined, max_pages, args, globals, mem, host, depth, fuel)->0.end is Failed),
    ensures
        s1 == s2,
        positions(recs1) == positions(recs2),
        r1 is Ok <==> r2 is Ok,
        r1 is Err ==> r1 == r2,
        r1 matches Ok(super::signal::Completion::Return(w1)) ==> (r2 matches Ok(super::signal::Completion::Return(w2)) && w1@
            == w2@ && g1 == g2 && m1 == m2 && h1 == h2),
        r1 matches Ok(super::signal::Completion::Exit(c)) ==> r2 == r1 && h1 == h2,
{
    let o = eval_run::<H>(image, program, defined, max_pages, args, globals, mem, host, depth, fuel);
    assert(run_agrees(r1, o, s0, s1, g1, m1, h1));
    assert(run_agrees(r2, o, s0, s2, g2, m2, h2));
    assert(trace_agrees(recs1, o, s0));
    assert(trace_agrees(recs2, o, s0));
}

} // verus!
