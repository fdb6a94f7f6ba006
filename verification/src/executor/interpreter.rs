//! The schedule-driven interpreter: runs a defined function against its static
//! register schedule and emits one record per executed instruction.

pub mod control;
pub mod data;
pub mod run;
pub mod signal;

use vstd::prelude::*;
use crate::decoder::image::{FuncImage, Image};
use crate::decoder::instruction::Instruction;
use crate::decoder::opcode::{OpCode, load_shape_spec, opcode_of};
use crate::decoder::types::{Word, WordType, word_bits, zero_of};
use crate::executor::error::{ExecuteError, Trap};
use crate::executor::host::{Host, HostAction};
use crate::executor::memory::{registers_in_range, resolves};
use crate::executor::runtime::registers::{Registers, register_value};
use crate::executor::record::{MemAccess, RegAccess, StepObserver, StepRecord, Transition};
use crate::executor::runtime::label::{Label, Labels, branch_resolution};
use crate::decoder::WASM32_PAGE_SIZE;
use crate::executor::runtime::memory::{Memory, in_bounds, le_value, le_bytes, overwrite, pow256, lemma_le_value_bound, lemma_pow256_8, resized};
use crate::executor::runtime::stack::{OperandStack, unwind_defined, unwound};
use crate::executor::value::{Arithmetic, Compare, Unary, arithmetic, arithmetic_defined, compare, spec_arithmetic, spec_compare, spec_unary, unary};
use crate::lift::analysis::{value_effect, value_reads, value_writes};
use crate::lift::program::{LiftedFunction, LiftedProgram, Register, Schedule, Successors};
pub use signal::{Completion, Signal, StepOutcome};
use control::control_outcome;
use run::{
    EvalEnd, EvalState, RunOutcome, activation_ok, call_agrees, call_args, call_end, call_site, defined_call, entry_state, eval_run,
    eval_step, lemma_call_advance, lemma_call_ends, lemma_call_unsettled, lemma_eval_of_run, lemma_open_unsettled,
    lemma_positions_split, lemma_run_advance, lemma_run_overflow, lemma_run_settle, lemma_run_start, lemma_step_ends,
    lemma_unsettled_agrees, positions, returned_to, run_agrees, run_spec, settles, trace_agrees, tracks, unsettled,
    eval_agrees, import_agrees, import_call, import_next, import_site, lemma_import_ends, steps_to,
};
use data::{DataStep, computes, data_outcome, data_step, lemma_computes_outside_data, lemma_record_computes, values_of};

verus! {

/// Maximum direct-call nesting before the executor reports
/// [`Trap::CallStackExhausted`], bounding host stack use.
pub const MAX_CALL_DEPTH: usize = 1024;

/// `raw`, the zero-extended value of `bytes` bytes, sign-extended from its top
/// bit to 64 bits.
pub open spec fn sign_extended(raw: u64, bytes: nat) -> u64 {
    if bytes < 8 && raw >= pow256(bytes) / 2 {
        (raw + 0x1_0000_0000_0000_0000 - pow256(bytes)) as u64
    } else {
        raw
    }
}

/// The word a load of `bytes` bytes leaves on the stack for the raw value
/// `raw`.
pub open spec fn loaded_word(raw: u64, bytes: nat, signed: bool, result64: bool) -> Word {
    let value = if signed { sign_extended(raw, bytes) } else { raw };
    if result64 {
        Word::I64(value)
    } else {
        Word::I32(value as u32)
    }
}

/// An unsigned load of the width a store just wrote, at the same address, gives
/// back the stored value's low bytes, zero-extended: the store writes
/// `stored_raw(bits, width)` as little-endian bytes, and reading those bytes
/// yields that same number.
pub proof fn law_unsigned_load_after_store(bytes: Seq<u8>, at: int, bits: u64, width: nat)
    requires
        0 <= at,
        at + width <= bytes.len(),
        width == 1 || width == 2 || width == 4 || width == 8,
    ensures
        le_value(overwrite(bytes, at, le_bytes(stored_raw(bits, width) as nat, width)).subrange(at, at + width))
            == stored_raw(bits, width) as nat,
        loaded_word(stored_raw(bits, width), width, false, true) == Word::I64(stored_raw(bits, width)),
{
    crate::executor::runtime::memory::law_load_after_store(bytes, at, stored_raw(bits, width), width);
    reveal_with_fuel(pow256, 9);
    let x = stored_raw(bits, width) as nat;
    let p = pow256(width);
    assert(x < p) by {
        if width < 8 {
            assert(x == bits as nat % p);
        } else {
            crate::executor::runtime::memory::lemma_pow256_8();
        }
    }
    vstd::arithmetic::div_mod::lemma_small_mod(x, p);
}

/// The byte width of an unsigned narrow load, zero for other opcodes.
pub open spec fn unsigned_load_bytes(op: OpCode) -> nat {
    match op {
        OpCode::I32Load8U => 1,
        OpCode::I32Load16U => 2,
        OpCode::I64Load8U => 1,
        OpCode::I64Load16U => 2,
        OpCode::I64Load32U => 4,
        _ => 0,
    }
}

/// An unsigned narrow load reads as many bytes as its name says and leaves
/// the value of those bytes on the stack zero-extended: whatever value `raw`
/// below `256^width` the bytes hold, the word it pushes carries `raw` itself.
pub proof fn law_unsigned_loads_zero_extend(op: OpCode, raw: u64)
    requires
        unsigned_load_bytes(op) > 0,
        raw < pow256(unsigned_load_bytes(op)),
    ensures
        load_shape_spec(op).0 == unsigned_load_bytes(op),
        word_bits(loaded_word(raw, load_shape_spec(op).0 as nat, load_shape_spec(op).1, load_shape_spec(op).2)) == raw,
{
    reveal_with_fuel(pow256, 5);
    assert(pow256(4) == 0x1_0000_0000);
    assert(raw < 0x1_0000_0000);
}

/// The byte width of a signed narrow load, zero for other opcodes.
pub open spec fn signed_load_bytes(op: OpCode) -> nat {
    match op {
        OpCode::I32Load8S => 1,
        OpCode::I32Load16S => 2,
        OpCode::I64Load8S => 1,
        OpCode::I64Load16S => 2,
        OpCode::I64Load32S => 4,
        _ => 0,
    }
}

/// Whether a load pushes a 64-bit word.
pub open spec fn loads_i64(op: OpCode) -> bool {
    op == OpCode::I64Load || op == OpCode::I64Load8S || op == OpCode::I64Load8U || op == OpCode::I64Load16S || op
        == OpCode::I64Load16U || op == OpCode::I64Load32S || op == OpCode::I64Load32U
}

/// A signed narrow load reads as many bytes as its name says and sign-extends
/// them into the word its name says: a value `raw` whose top bit is clear is
/// pushed as it is, one whose top bit is set is pushed as the negative number
/// `raw - 256^width` in the word's two's complement.
pub proof fn law_signed_loads_sign_extend(op: OpCode, raw: u64)
    requires
        signed_load_bytes(op) > 0,
        raw < pow256(signed_load_bytes(op)),
    ensures
        load_shape_spec(op).0 == signed_load_bytes(op),
        load_shape_spec(op).2 == loads_i64(op),
        raw < pow256(signed_load_bytes(op)) / 2 ==> word_bits(
            loaded_word(raw, load_shape_spec(op).0 as nat, load_shape_spec(op).1, load_shape_spec(op).2),
        ) == raw,
        raw >= pow256(signed_load_bytes(op)) / 2 ==> word_bits(
            loaded_word(raw, load_shape_spec(op).0 as nat, load_shape_spec(op).1, load_shape_spec(op).2),
        ) == raw + (if loads_i64(op) {
            0x1_0000_0000_0000_0000int
        } else {
            0x1_0000_0000int
        }) - pow256(signed_load_bytes(op)),
{
    reveal_with_fuel(pow256, 5);
    let w = signed_load_bytes(op);
    let p = pow256(w);
    assert(p <= 0x1_0000_0000);
    if raw >= p / 2 && !loads_i64(op) {
        let v = (raw + 0x1_0000_0000_0000_0000 - p) as u64;
        assert(v >= 0xFFFF_FFFF_0000_0000);
        assert((v as u32) as u64 == v - 0xFFFF_FFFF_0000_0000) by (bit_vector)
            requires
                v >= 0xFFFF_FFFF_0000_0000u64,
        ;
    }
}

/// Widens a loaded value to its result word, sign-extending when asked.
fn extend(raw: u64, bytes: usize, signed: bool, result64: bool) -> (r: Word)
    requires
        bytes == 1 || bytes == 2 || bytes == 4 || bytes == 8,
        raw < pow256(bytes as nat),
    ensures
        r == loaded_word(raw, bytes as nat, signed, result64),
{
    proof {
        reveal_with_fuel(pow256, 9);
    }
    let value: u64 = if signed && bytes < 8 {
        let full: u64 = if bytes == 1 {
            0x100
        } else if bytes == 2 {
            0x1_0000
        } else {
            0x1_0000_0000
        };
        if raw >= full / 2 {
            raw + (0xFFFF_FFFF_FFFF_FFFF - full + 1)
        } else {
            raw
        }
    } else {
        raw
    };
    if result64 {
        Word::I64(value)
    } else {
        Word::I32(value as u32)
    }
}

/// The low `bytes` bytes of `bits`, as a store writes them.
pub open spec fn stored_raw(bits: u64, bytes: nat) -> u64 {
    if bytes >= 8 {
        bits
    } else {
        (bits as nat % pow256(bytes)) as u64
    }
}

/// Pops two operands and pushes the operator's result.
fn binop(stack: &mut OperandStack, kind: Arithmetic, opcode: OpCode, pc: usize) -> (r: Result<StepOutcome, ExecuteError>)
    requires
        pc < usize::MAX,
    ensures
        old(stack)@.len() >= 2 && arithmetic_defined(kind, old(stack)@[old(stack)@.len() - 2], old(stack)@.last())
            && spec_arithmetic(kind, old(stack)@[old(stack)@.len() - 2], old(stack)@.last()) is Ok ==> (r matches Ok(o)
            && o.control == Signal::Advance((pc + 1) as usize) && o.transition == Transition::Next((pc + 1) as u32)
            && o.opcode == opcode && o.mem@.len() == 0 && final(stack)@
            == old(stack)@.subrange(0, old(stack)@.len() - 2).push(
            spec_arithmetic(kind, old(stack)@[old(stack)@.len() - 2], old(stack)@.last())->Ok_0,
        )),
        old(stack)@.len() >= 2 && arithmetic_defined(kind, old(stack)@[old(stack)@.len() - 2], old(stack)@.last())
            && spec_arithmetic(kind, old(stack)@[old(stack)@.len() - 2], old(stack)@.last()) is Err ==> r
            == Err::<StepOutcome, ExecuteError>(ExecuteError::Trap(
            spec_arithmetic(kind, old(stack)@[old(stack)@.len() - 2], old(stack)@.last())->Err_0,
        )),
        !(old(stack)@.len() >= 2 && arithmetic_defined(kind, old(stack)@[old(stack)@.len() - 2], old(stack)@.last()))
            ==> r is Err,
{
    let rhs = stack.pop()?;
    let lhs = stack.pop()?;
    if !operands_defined(kind, lhs, rhs) {
        return Err(ExecuteError::invalid_binary("operand widths disagree"));
    }
    match arithmetic(kind, lhs, rhs) {
        Ok(w) => {
            stack.push(w);
            Ok(StepOutcome::advance(opcode, pc + 1))
        },
        Err(t) => Err(ExecuteError::Trap(t)),
    }
}

fn operands_defined(kind: Arithmetic, lhs: Word, rhs: Word) -> (r: bool)
    ensures
        r == arithmetic_defined(kind, lhs, rhs),
{
    let (_, w) = lhs.raw();
    let (y, _) = rhs.raw();
    if (kind == Arithmetic::DivS || kind == Arithmetic::RemS) && w == 32 {
        y == 0 || y % 0x1_0000_0000 != 0
    } else {
        true
    }
}

/// Pops two operands and pushes the comparison's `i32` result.
fn relop(stack: &mut OperandStack, kind: Compare, opcode: OpCode, pc: usize) -> (r: Result<StepOutcome, ExecuteError>)
    requires
        pc < usize::MAX,
    ensures
        old(stack)@.len() >= 2 ==> (r matches Ok(o) && o.control == Signal::Advance((pc + 1) as usize)
            && o.transition == Transition::Next((pc + 1) as u32) && o.opcode
            == opcode && o.mem@.len() == 0 && final(stack)@ == old(stack)@.subrange(0, old(stack)@.len() - 2).push(
            spec_compare(kind, old(stack)@[old(stack)@.len() - 2], old(stack)@.last()),
        )),
        old(stack)@.len() < 2 ==> r is Err,
{
    let rhs = stack.pop()?;
    let lhs = stack.pop()?;
    stack.push(compare(kind, lhs, rhs));
    Ok(StepOutcome::advance(opcode, pc + 1))
}

/// Pops one operand and pushes the operator's result.
fn unop(stack: &mut OperandStack, kind: Unary, opcode: OpCode, pc: usize) -> (r: Result<StepOutcome, ExecuteError>)
    requires
        pc < usize::MAX,
    ensures
        old(stack)@.len() >= 1 ==> (r matches Ok(o) && o.control == Signal::Advance((pc + 1) as usize)
            && o.transition == Transition::Next((pc + 1) as u32) && o.opcode
            == opcode && o.mem@.len() == 0 && final(stack)@ == old(stack)@.drop_last().push(
            spec_unary(kind, old(stack)@.last()),
        )),
        old(stack)@.len() < 1 ==> r is Err,
{
    let operand = stack.pop()?;
    stack.push(unary(kind, operand));
    Ok(StepOutcome::advance(opcode, pc + 1))
}

/// Resolves a taken branch to `relative_depth`, unwinding the operand stack and
/// runtime control labels so execution can continue at `target`. A branch to
/// the end of the body returns from the function.
fn branch_to(
    stack: &mut OperandStack,
    labels: &mut Labels,
    relative_depth: u32,
    target: u32,
    lifted_func: &LiftedFunction,
    result_arity: u32,
) -> (r: Result<Signal, ExecuteError>)
    ensures
        target == lifted_func.schedules@.len() ==> (if result_arity <= old(stack)@.len() {
            r matches Ok(Signal::Return(v)) && v@ == old(stack)@.subrange(old(stack)@.len() - result_arity, old(stack)@.len() as int)
        } else {
            r is Err
        }),
        target != lifted_func.schedules@.len() && relative_depth < old(labels)@.len() && target < lifted_func.schedules@.len()
            && unwind_defined(
            old(stack)@,
            lifted_func.schedules@[target as int].height_in as int,
            branch_resolution(old(labels)@, relative_depth as int).0.branch_arity as int,
        ) ==> r == Ok::<Signal, ExecuteError>(Signal::Advance(target as usize)) && final(stack)@ == unwound(
            old(stack)@,
            lifted_func.schedules@[target as int].height_in as int,
            branch_resolution(old(labels)@, relative_depth as int).0.branch_arity as int,
        ) && final(labels)@ == old(labels)@.subrange(0, branch_resolution(old(labels)@, relative_depth as int).1),
        target != lifted_func.schedules@.len() && !(relative_depth < old(labels)@.len() && target < lifted_func.schedules@.len()
            && unwind_defined(
            old(stack)@,
            lifted_func.schedules@[target as int].height_in as int,
            branch_resolution(old(labels)@, relative_depth as int).0.branch_arity as int,
        )) ==> r is Err,
        r matches Ok(Signal::Return(v)) ==> v@.len() == result_arity,
        target == lifted_func.schedules@.len() && result_arity <= old(stack)@.len() ==> final(stack)@ == old(stack)@.subrange(
            0,
            old(stack)@.len() - result_arity,
        ),
        r matches Ok(Signal::Advance(next)) ==> next == target,
{
    if target as usize == lifted_func.schedules.len() {
        let results = stack.take_top(result_arity)?;
        return Ok(Signal::Return(results));
    }
    let (label, truncate_to) = labels.resolve_branch(relative_depth)?;
    let arity = label.branch_arity as usize;
    if target as usize >= lifted_func.schedules.len() {
        return Err(ExecuteError::invalid_binary("branch target out of range"));
    }
    let target_height = lifted_func.schedules[target as usize].height_in as usize;
    stack.unwind(target_height, arity)?;
    proof {
        let (l, t) = branch_resolution(old(labels)@, relative_depth as int);
        assert(0 <= t <= old(labels)@.len());
    }
    labels.truncate(truncate_to);
    Ok(Signal::Advance(target as usize))
}

/// The mutable execution state: module-wide globals and linear memory, and the
/// number of instructions executed so far.
pub struct Interpreter {
    /// The module's globals.
    pub globals: Vec<Word>,
    /// The linear memory.
    pub memory: Memory,
    /// Instructions executed (records emitted) so far.
    pub steps: u64,
}

impl Interpreter {
    /// Executes a load: pops the base address, reads the access's bytes, and
    /// pushes them widened to the result type.
    fn load(&mut self, stack: &mut OperandStack, offset: u64, opcode: OpCode, pc: usize) -> (r: Result<StepOutcome, ExecuteError>)
        requires
            pc < usize::MAX,
            load_shape_spec(opcode).0 == 1 || load_shape_spec(opcode).0 == 2 || load_shape_spec(opcode).0 == 4
                || load_shape_spec(opcode).0 == 8,
        ensures
            final(self).globals@ == old(self).globals@,
            final(self).memory == old(self).memory,
            final(self).steps == old(self).steps,
            ({
                let (bytes, signed, result64) = load_shape_spec(opcode);
                let s = old(stack)@;
                let mem = old(self).memory.bytes_view();
                if s.len() == 0 {
                    r is Err
                } else {
                    let base = word_bits(s.last()) as u32;
                    if !in_bounds(base, offset, bytes as nat, mem.len()) {
                        r == Err::<StepOutcome, ExecuteError>(ExecuteError::Trap(Trap::MemoryOutOfBounds))
                    } else {
                        let address = base + offset;
                        let raw = le_value(mem.subrange(address, address + bytes)) as u64;
                        r matches Ok(o) && o.opcode == opcode && o.control == Signal::Advance((pc + 1) as usize)
                            && o.transition == Transition::Next((pc + 1) as u32)
                            && o.mem@ == seq![MemAccess { address: address as u64, width: bytes as u8, value: raw, store: false }]
                            && final(stack)@ == s.drop_last().push(loaded_word(raw, bytes as nat, signed, result64))
                    }
                }
            }),
    {
        let (bytes, signed, result64) = opcode.load_shape();
        let base = stack.pop_u32()?;
        let (address, raw) = self.memory.read(base, offset, bytes)?;
        proof {
            lemma_le_value_bound(self.memory.bytes_view().subrange(address as int, address + bytes));
        }
        stack.push(extend(raw, bytes, signed, result64));
        let mut mem: Vec<MemAccess> = Vec::new();
        mem.push(MemAccess { address, width: bytes as u8, value: raw, store: false });
        Ok(StepOutcome { opcode, transition: Transition::Next((pc + 1) as u32), mem, control: Signal::Advance(pc + 1) })
    }

    /// Executes a store: pops the value and the base address and writes the
    /// value's low `bytes` bytes.
    fn store(&mut self, stack: &mut OperandStack, offset: u64, bytes: usize, opcode: OpCode, pc: usize) -> (r: Result<StepOutcome, ExecuteError>)
        requires
            pc < usize::MAX,
            bytes == 1 || bytes == 2 || bytes == 4 || bytes == 8,
        ensures
            final(self).globals@ == old(self).globals@,
            final(self).memory.max_pages_view() == old(self).memory.max_pages_view(),
            final(self).steps == old(self).steps,
            ({
                let s = old(stack)@;
                let mem = old(self).memory.bytes_view();
                if s.len() < 2 {
                    r is Err
                } else {
                    let raw = stored_raw(word_bits(s.last()), bytes as nat);
                    let base = word_bits(s[s.len() - 2]) as u32;
                    if !in_bounds(base, offset, bytes as nat, mem.len()) {
                        r == Err::<StepOutcome, ExecuteError>(ExecuteError::Trap(Trap::MemoryOutOfBounds))
                            && final(self).memory.bytes_view() == mem
                    } else {
                        let address = base + offset;
                        r matches Ok(o) && o.opcode == opcode && o.control == Signal::Advance((pc + 1) as usize)
                            && o.transition == Transition::Next((pc + 1) as u32)
                            && o.mem@ == seq![MemAccess { address: address as u64, width: bytes as u8, value: raw, store: true }]
                            && final(stack)@ == s.subrange(0, s.len() - 2)
                            && final(self).memory.bytes_view() == overwrite(mem, address, le_bytes(raw as nat, bytes as nat))
                    }
                }
            }),
    {
        let value = stack.pop()?;
        let base = stack.pop_u32()?;
        let (bits, _) = value.raw();
        proof {
            reveal_with_fuel(pow256, 9);
        }
        let raw: u64 = if bytes == 1 {
            bits % 0x100
        } else if bytes == 2 {
            bits % 0x1_0000
        } else if bytes == 4 {
            bits % 0x1_0000_0000
        } else {
            bits
        };
        let address = self.memory.write(base, offset, bytes, raw)?;
        let mut mem: Vec<MemAccess> = Vec::new();
        mem.push(MemAccess { address, width: bytes as u8, value: raw, store: true });
        Ok(StepOutcome { opcode, transition: Transition::Next((pc + 1) as u32), mem, control: Signal::Advance(pc + 1) })
    }

    /// Pushes the memory's size in pages.
    fn size(&self, stack: &mut OperandStack, pc: usize) -> (r: StepOutcome)
        requires
            pc < usize::MAX,
        ensures
            final(stack)@ == old(stack)@.push(Word::I32((self.memory.bytes_view().len() / 65536) as u32)),
            r.opcode == OpCode::MemorySize,
            r.control == Signal::Advance((pc + 1) as usize),
            r.transition == Transition::Next((pc + 1) as u32),
            r.mem@.len() == 0,
    {
        stack.push(Word::I32(self.memory.size_pages()));
        StepOutcome::advance(OpCode::MemorySize, pc + 1)
    }

    /// Pops a page delta, grows the memory by it, and pushes the previous page
    /// count, or `u32::MAX` when the memory cannot grow that far.
    fn grow(&mut self, stack: &mut OperandStack, pc: usize) -> (r: Result<StepOutcome, ExecuteError>)
        requires
            pc < usize::MAX,
        ensures
            final(self).globals@ == old(self).globals@,
            final(self).memory.max_pages_view() == old(self).memory.max_pages_view(),
            final(self).steps == old(self).steps,
            old(stack)@.len() == 0 ==> r is Err,
            old(stack)@.len() > 0 ==> ({
                let delta = word_bits(old(stack)@.last()) as u32;
                let mem = old(self).memory.bytes_view();
                let old_pages = mem.len() / (WASM32_PAGE_SIZE as nat);
                let n = old_pages + delta;
                &&& r matches Ok(o) && o.opcode == OpCode::MemoryGrow && o.control == Signal::Advance((pc + 1) as usize)
                    && o.transition == Transition::Next((pc + 1) as u32) && o.mem@.len() == 0
                &&& if n <= WASM32_PAGE_SIZE && (old(self).memory.max_pages_view() matches Some(m) ==> n <= m) && n
                    * WASM32_PAGE_SIZE <= usize::MAX {
                    &&& final(stack)@ == old(stack)@.drop_last().push(Word::I32(old_pages as u32))
                    &&& final(self).memory.bytes_view() == resized(mem, (n * WASM32_PAGE_SIZE) as nat)
                } else {
                    &&& final(stack)@ == old(stack)@.drop_last().push(Word::I32(u32::MAX))
                    &&& final(self).memory.bytes_view() == mem
                }
            }),
    {
        let delta = stack.pop_u32()?;
        let result = self.memory.grow(delta as usize);
        stack.push(Word::I32(result));
        Ok(StepOutcome::advance(OpCode::MemoryGrow, pc + 1))
    }
}


/// The registers a sequence of resolved accesses names, in order.
pub open spec fn accessed_registers(accesses: Seq<RegAccess>) -> Seq<Register> {
    accesses.map_values(|a: RegAccess| a.reg)
}

/// Whether a record follows the static schedule: its function is a defined
/// function of `image`, its program point lies in that function's body, its
/// opcode is that of the instruction there, and the registers it read and
/// wrote are the ones the lifted schedule names at that point (a run that
/// exits there writes none).
pub open spec fn record_follows_schedule(r: StepRecord, image: Image, program: LiftedProgram) -> bool {
    exists|i: int, k: int|
        0 <= i < image.funcs@.len() && 0 <= k < image.funcs@[i].instructions@.len() && #[trigger] image.funcs@[i].func_index
            == r.func_index && r.pc == k as u32 && #[trigger] opcode_of(image.funcs@[i].instructions@[k]) == Some(r.opcode)
            && i < program.functions@.len() && k < program.functions@[i].schedules@.len() && accessed_registers(r.reads@)
            == program.functions@[i].schedules@[k].reads@ && (accessed_registers(r.writes@)
            == program.functions@[i].schedules@[k].writes@ || (r.transition is Exit && r.writes@.len() == 0))
}

/// Whether the records after the first `from` each follow the schedule.
pub open spec fn records_follow_schedule(records: Seq<StepRecord>, from: int, image: Image, program: LiftedProgram) -> bool {
    forall|j: int| from <= j < records.len() ==> record_follows_schedule(#[trigger] records[j], image, program)
}

/// Records kept across two stretches of a run: what the first stretch kept
/// stays, and every record after it follows the schedule.
/// Whether `sched` names, at its entry height, the registers the value effect
/// of `instr` names.
pub open spec fn schedule_names_effect(sched: Schedule, instr: Instruction) -> bool {
    value_effect(instr, Seq::empty(), Seq::empty()) matches Some(e) && sched.reads@ == value_reads(e, sched.height_in as int)
        && sched.writes@ == value_writes(e, sched.height_in as int)
}

/// Whether a record, read as one of defined function `i` at program point
/// `k`, carries the values its instruction computes, should the schedule
/// there name that instruction's value effect.
pub open spec fn record_computes_at(r: StepRecord, image: Image, program: LiftedProgram, i: int, k: int) -> bool {
    &&& 0 <= i < image.funcs@.len()
    &&& 0 <= k < image.funcs@[i].instructions@.len()
    &&& image.funcs@[i].func_index == r.func_index
    &&& r.pc == k as u32
    &&& i < program.functions@.len()
    &&& k < program.functions@[i].schedules@.len()
    &&& schedule_names_effect(program.functions@[i].schedules@[k], image.funcs@[i].instructions@[k]) ==> computes(
        image.funcs@[i].instructions@[k],
        values_of(r.reads@),
        values_of(r.writes@),
        r.memory@,
    )
}

/// Whether a record carries the values its instruction computes, wherever
/// the schedule at its program point names that instruction's value effect.
pub open spec fn record_computes(r: StepRecord, image: Image, program: LiftedProgram) -> bool {
    exists|i: int, k: int| #[trigger] record_computes_at(r, image, program, i, k)
}

/// Whether every record from `from` on carries the values its instruction
/// computes.
pub open spec fn records_compute(records: Seq<StepRecord>, from: int, image: Image, program: LiftedProgram) -> bool {
    forall|j: int| from <= j < records.len() ==> record_computes(#[trigger] records[j], image, program)
}

proof fn lemma_records_compute_chain(
    a: Seq<StepRecord>,
    b: Seq<StepRecord>,
    c: Seq<StepRecord>,
    image: Image,
    program: LiftedProgram,
)
    requires
        b.len() >= a.len(),
        records_compute(b, a.len() as int, image, program),
        c.len() >= b.len(),
        c.subrange(0, b.len() as int) == b,
        records_compute(c, b.len() as int, image, program),
    ensures
        records_compute(c, a.len() as int, image, program),
{
    assert forall|j: int| a.len() <= j < c.len() implies record_computes(#[trigger] c[j], image, program) by {
        if j < b.len() {
            assert(c[j] == c.subrange(0, b.len() as int)[j]);
        }
    }
}

proof fn lemma_records_chain(
    a: Seq<StepRecord>,
    b: Seq<StepRecord>,
    c: Seq<StepRecord>,
    image: Image,
    program: LiftedProgram,
)
    requires
        b.len() >= a.len(),
        b.subrange(0, a.len() as int) == a,
        records_follow_schedule(b, a.len() as int, image, program),
        c.len() >= b.len(),
        c.subrange(0, b.len() as int) == b,
        records_follow_schedule(c, b.len() as int, image, program),
    ensures
        c.len() >= a.len(),
        c.subrange(0, a.len() as int) == a,
        records_follow_schedule(c, a.len() as int, image, program),
{
    assert(c.subrange(0, a.len() as int) =~= b.subrange(0, a.len() as int));
    assert forall|j: int| a.len() <= j < c.len() implies record_follows_schedule(#[trigger] c[j], image, program) by {
        if j < b.len() {
            assert(c[j] == c.subrange(0, b.len() as int)[j]);
        }
    }
}

/// The result arity of the defined function `defined`, when its type exists.
pub open spec fn result_arity_of(image: Image, defined: int) -> u32 {
    image.types@[image.funcs@[defined].type_idx as int].results
}

/// The record of a step at program point `pc` of the defined function
/// `defined` carries the values its instruction computes, given the states
/// before and after it and the registers its schedule names.
proof fn lemma_step_record_computes(
    image: Image,
    program: LiftedProgram,
    defined: int,
    pc: int,
    rec: StepRecord,
    s0: Seq<Word>,
    l0: Seq<Word>,
    g0: Seq<Word>,
    m0: Seq<u8>,
    max_pages: Option<u64>,
    s1: Seq<Word>,
    l1: Seq<Word>,
    g1: Seq<Word>,
    m1: Seq<u8>,
    r: Result<StepOutcome, ExecuteError>,
)
    requires
        0 <= defined < image.funcs@.len(),
        defined < program.functions@.len(),
        0 <= pc < image.funcs@[defined].instructions@.len(),
        pc < program.functions@[defined].schedules@.len(),
        rec.func_index == image.funcs@[defined].func_index,
        rec.pc == pc as u32,
        s0.len() == program.functions@[defined].schedules@[pc].height_in,
        resolves(rec.reads@, program.functions@[defined].schedules@[pc].reads@, s0, l0, g0),
        r matches Ok(o) && rec.memory == o.mem && !(o.control is Exit) ==> resolves(
            rec.writes@,
            program.functions@[defined].schedules@[pc].writes@,
            s1,
            l1,
            g1,
        ),
        r is Ok,
        data_step(image.funcs@[defined].instructions@[pc], s0, l0, g0, m0, max_pages) matches Some(step) ==> data_outcome(
            step,
            pc,
            r,
            s1,
            l1,
            g1,
            m1,
        ),
        rec.memory == r->Ok_0.mem,
    ensures
        record_computes(rec, image, program),
{
    let instr = image.funcs@[defined].instructions@[pc];
    let sched = program.functions@[defined].schedules@[pc];
    if schedule_names_effect(sched, instr) {
        if data_step(instr, s0, l0, g0, m0, max_pages) is Some {
            lemma_record_computes(instr, sched.height_in as int, s0, l0, g0, m0, max_pages, s1, l1, g1, m1, pc, r, rec.reads@, rec.writes@);
        } else {
            lemma_computes_outside_data(instr, values_of(rec.reads@), values_of(rec.writes@), rec.memory@, s0, l0, g0, m0, max_pages);
        }
    }
    assert(record_computes_at(rec, image, program, defined, pc));
}

/// What running the instruction at `st.pc` did, as `exec_instr` reports it,
/// is what [`eval_step`] says it does from `st`.
proof fn lemma_step_agrees<V>(
    image: Image,
    program: LiftedProgram,
    defined: int,
    max_pages: Option<u64>,
    st: EvalState<V>,
    r: Result<StepOutcome, ExecuteError>,
    s1: Seq<Word>,
    lb1: Seq<Label>,
    l1: Seq<Word>,
    g1: Seq<Word>,
    m1: Seq<u8>,
)
    requires
        activation_ok(image, program, defined),
        0 <= st.pc < image.funcs@[defined].instructions@.len(),
        st.pc < usize::MAX,
        st.pc < program.functions@[defined].schedules@.len(),
        st.pc < image.funcs@[defined].ends@.len(),
        st.stack.len() == program.functions@[defined].schedules@[st.pc].height_in,
        registers_in_range(program.functions@[defined].schedules@[st.pc].reads@, st.stack, st.locals, st.globals),
        !(image.funcs@[defined].instructions@[st.pc] is Call),
        data_step(image.funcs@[defined].instructions@[st.pc], st.stack, st.locals, st.globals, st.mem, max_pages) matches Some(
            step,
        ) ==> data_outcome(step, st.pc, r, s1, l1, g1, m1),
        data_step(image.funcs@[defined].instructions@[st.pc], st.stack, st.locals, st.globals, st.mem, max_pages) is Some
            ==> lb1 == st.labels,
        data_step(image.funcs@[defined].instructions@[st.pc], st.stack, st.locals, st.globals, st.mem, max_pages) is None
            ==> l1 == st.locals && g1 == st.globals && m1 == st.mem,
        control_outcome(
            image.funcs@[defined].instructions@[st.pc],
            program.functions@[defined].schedules@[st.pc],
            image,
            image.funcs@[defined].ends@,
            program.functions@[defined].schedules@,
            result_arity_of(image, defined),
            st.pc,
            st.stack,
            st.labels,
            r,
            s1,
            lb1,
        ),
    ensures
        r is Err ==> ({
            let es = eval_step(image, program, defined, max_pages, st);
            &&& es is Err
            &&& !(es->Err_0 is Returned)
            &&& !(es->Err_0 is Exited)
            &&& es->Err_0 is Error ==> r == Err::<StepOutcome, ExecuteError>(es->Err_0->Error_0)
        }),
        r matches Ok(o) ==> !(o.control is Exit),
        r is Ok && r->Ok_0.control is Advance ==> ({
            let writes = program.functions@[defined].schedules@[st.pc].writes@;
            let next = EvalState { pc: r->Ok_0.control->Advance_0 as int, stack: s1, labels: lb1, locals: l1, globals: g1, mem: m1, host: st.host };
            eval_step(image, program, defined, max_pages, st) == if registers_in_range(writes, s1, l1, g1) {
                Ok::<EvalState<V>, EvalEnd>(next)
            } else {
                Err::<EvalState<V>, EvalEnd>(EvalEnd::Failed)
            }
        }),
        r is Ok && r->Ok_0.control is Return ==> eval_step(image, program, defined, max_pages, st) == if registers_in_range(
            program.functions@[defined].schedules@[st.pc].writes@,
            s1,
            l1,
            g1,
        ) {
            Err::<EvalState<V>, EvalEnd>(EvalEnd::Returned(r->Ok_0.control->Return_0@))
        } else {
            Err::<EvalState<V>, EvalEnd>(EvalEnd::Failed)
        },
{
    reveal(eval_step);
    let f = image.funcs@[defined];
    let body = program.functions@[defined].schedules@;
    let instr = f.instructions@[st.pc];
    let sched = body[st.pc];
    match data_step(instr, st.stack, st.locals, st.globals, st.mem, max_pages) {
        Some(step) => {
            assert(data_outcome(step, st.pc, r, s1, l1, g1, m1));
            match step {
                DataStep::Next { stack, locals, globals, mem, .. } => {
                    assert(eval_step(image, program, defined, max_pages, st) == run::after_writes(
                        sched,
                        EvalState { pc: st.pc + 1, stack, labels: st.labels, locals, globals, mem, host: st.host },
                    ));
                },
                DataStep::Trap(t) => {
                    assert(eval_step(image, program, defined, max_pages, st) == Err::<EvalState<V>, EvalEnd>(
                        EvalEnd::Error(ExecuteError::Trap(t)),
                    ));
                },
                DataStep::Malformed => {
                    assert(eval_step(image, program, defined, max_pages, st) == Err::<EvalState<V>, EvalEnd>(EvalEnd::Failed));
                },
            }
        },
        None => {
            let cn = control::control_next(
                instr,
                sched,
                image,
                f.ends@,
                body,
                result_arity_of(image, defined),
                st.pc,
                st.stack,
                st.labels,
            );
            match cn {
                control::CtrlNext::Go { next, stack, labels } => {
                    assert(eval_step(image, program, defined, max_pages, st) == run::after_writes(
                        sched,
                        EvalState { pc: next, stack, labels, ..st },
                    ));
                },
                control::CtrlNext::Ret { values, rest } => {
                    assert(eval_step(image, program, defined, max_pages, st) == if registers_in_range(sched.writes@, rest, st.locals, st.globals) {
                        Err::<EvalState<V>, EvalEnd>(EvalEnd::Returned(values))
                    } else {
                        Err::<EvalState<V>, EvalEnd>(EvalEnd::Failed)
                    });
                },
                control::CtrlNext::Trapped(t) => {
                    assert(eval_step(image, program, defined, max_pages, st) == Err::<EvalState<V>, EvalEnd>(
                        EvalEnd::Error(ExecuteError::Trap(t)),
                    ));
                },
                control::CtrlNext::Fail => {
                    assert(eval_step(image, program, defined, max_pages, st) == Err::<EvalState<V>, EvalEnd>(EvalEnd::Failed));
                },
                control::CtrlNext::Open => {
                    assert(eval_step(image, program, defined, max_pages, st) == Err::<EvalState<V>, EvalEnd>(EvalEnd::Open));
                },
            }
        },
    }
}

impl Interpreter {
    /// Executes the instruction `instr` at program point `pc` of the defined
    /// function `defined`, whose schedule there is `sched`.
    #[verifier::rlimit(80)]
    fn exec_instr<O: StepObserver, H: Host>(
        &mut self,
        image: &Image,
        program: &LiftedProgram,
        defined: usize,
        depth: usize,
        instr: &Instruction,
        sched: &Schedule,
        func_image: &FuncImage,
        lifted_func: &LiftedFunction,
        result_arity: u32,
        stack: &mut OperandStack,
        labels: &mut Labels,
        locals: &mut Vec<Word>,
        pc: usize,
        observer: &mut O,
        host: &mut H,
    ) -> (r: Result<StepOutcome, ExecuteError>)
        requires
            depth <= MAX_CALL_DEPTH,
            pc < usize::MAX,
            pc < func_image.ends@.len(),
            pc < func_image.instructions@.len(),
        ensures
            final(self).globals@.len() == old(self).globals@.len(),
            final(self).memory.max_pages_view() == old(self).memory.max_pages_view(),
            final(self).steps >= old(self).steps,
            O::keeps_records() ==> final(observer).records().len() - old(observer).records().len() == final(self).steps
                - old(self).steps,
            O::keeps_records() ==> final(observer).records().len() >= old(observer).records().len()
                && final(observer).records().subrange(0, old(observer).records().len() as int) == old(observer).records()
                && records_follow_schedule(final(observer).records(), old(observer).records().len() as int, *image, *program),
            O::keeps_records() ==> records_compute(final(observer).records(), old(observer).records().len() as int, *image, *program),
            r matches Ok(o) ==> opcode_of(*instr) == Some(o.opcode),
            r matches Ok(o) ==> (o.control matches Signal::Return(v) ==> v@.len() == result_arity),
            r matches Ok(o) ==> (o.control is Exit ==> o.transition is Exit),
            data_step(
                *instr,
                old(stack)@,
                old(locals)@,
                old(self).globals@,
                old(self).memory.bytes_view(),
                old(self).memory.max_pages_view(),
            ) matches Some(step) ==> data_outcome(
                step,
                pc as int,
                r,
                final(stack)@,
                final(locals)@,
                final(self).globals@,
                final(self).memory.bytes_view(),
            ),
            control_outcome(
                *instr,
                *sched,
                *image,
                func_image.ends@,
                lifted_func.schedules@,
                result_arity,
                pc as int,
                old(stack)@,
                old(labels)@,
                r,
                final(stack)@,
                final(labels)@,
            ),
            data_step(
                *instr,
                old(stack)@,
                old(locals)@,
                old(self).globals@,
                old(self).memory.bytes_view(),
                old(self).memory.max_pages_view(),
            ) is Some ==> final(labels)@ == old(labels)@,
            data_step(
                *instr,
                old(stack)@,
                old(locals)@,
                old(self).globals@,
                old(self).memory.bytes_view(),
                old(self).memory.max_pages_view(),
            ) is None && !(*instr is Call) ==> final(locals)@ == old(locals)@ && final(self).globals@ == old(self).globals@
                && final(self).memory.bytes_view() == old(self).memory.bytes_view(),
            !(*instr is Call) ==> final(self).steps == old(self).steps,
            *instr is Call ==> final(labels)@ == old(labels)@ && final(locals)@ == old(locals)@,
            (match call_site(*image, *instr, old(stack)@) {
                Some((callee, p)) => forall|fuel: nat|
                    call_agrees(
                        r,
                        #[trigger] eval_run::<H>(
                            *image,
                            *program,
                            callee,
                            old(self).memory.max_pages_view(),
                            call_args(old(stack)@, p),
                            old(self).globals@,
                            old(self).memory.bytes_view(),
                            old(host)@,
                            depth as nat + 1,
                            fuel,
                        ),
                        old(self).steps,
                        pc as int,
                        old(stack)@,
                        p,
                        final(stack)@,
                        final(self).globals@,
                        final(self).memory.bytes_view(),
                        final(host)@,
                        final(self).steps,
                    ),
                None => true,
            }),
            O::keeps_records() ==> (match call_site(*image, *instr, old(stack)@) {
                Some((callee, p)) => forall|fuel: nat|
                    trace_agrees(
                        final(observer).records().subrange(old(observer).records().len() as int, final(observer).records().len() as int),
                        #[trigger] eval_run::<H>(
                            *image,
                            *program,
                            callee,
                            old(self).memory.max_pages_view(),
                            call_args(old(stack)@, p),
                            old(self).globals@,
                            old(self).memory.bytes_view(),
                            old(host)@,
                            depth as nat + 1,
                            fuel,
                        ),
                        old(self).steps,
                    ),
                None => true,
            }),
            !(*instr is Call) ==> *final(host) == *old(host),
            (match import_site(*image, *instr, old(stack)@) {
                Some((f, p)) => {
                    &&& import_agrees::<H>(
                        r,
                        old(host)@,
                        image.imports@[f],
                        call_args(old(stack)@, p),
                        old(self).memory.bytes_view(),
                        pc as int,
                        old(stack)@,
                        p,
                        final(stack)@,
                        final(host)@,
                        final(self).memory.bytes_view(),
                    )
                    &&& final(self).globals@ == old(self).globals@
                    &&& final(self).steps == old(self).steps
                },
                None => true,
            }),
            call_site(*image, *instr, old(stack)@) is Some ==> (r matches Ok(o) ==> (o.control is Advance ==> o.transition
                == (Transition::Call { callee: instr->function_index, return_pc: (pc + 1) as u32 }))),
            *instr is Call && instr->function_index < image.num_imported && r is Ok ==> ({
                let f = instr->function_index;
                let p = image.types@[image.func_types@[f as int] as int].params@.len();
                let o = r->Ok_0;
                &&& f < image.func_types@.len() && image.func_types@[f as int] < image.types@.len()
                &&& p <= old(stack)@.len()
                &&& o.opcode == OpCode::Call
                &&& o.mem@.len() == 0
                &&& final(labels)@ == old(labels)@
                &&& final(locals)@ == old(locals)@
                &&& final(self).globals@ == old(self).globals@
                &&& final(self).steps == old(self).steps
                &&& (o.control == Signal::Advance((pc + 1) as usize) && o.transition == Transition::Next((pc + 1) as u32)
                    && final(stack)@.len() >= old(stack)@.len() - p && final(stack)@.subrange(0, old(stack)@.len() - p)
                    == old(stack)@.subrange(0, old(stack)@.len() - p)) || (o.control is Exit && o.transition
                    == Transition::Exit(o.control->Exit_0))
            }),
            r matches Ok(o) ==> (o.control is Return ==> o.transition == Transition::Return),
            r matches Ok(o) ==> (o.control matches Signal::Exit(x) ==> o.transition == Transition::Exit(x)),
        decreases MAX_CALL_DEPTH + 1 - depth, 0nat,
    {
        Ok(match instr {

        Instruction::Unreachable => {
            return Err(ExecuteError::Trap(Trap::Unreachable));
        },
        Instruction::Block { blockty } => {
            let (_, out) = match image.block_arity(blockty) {
                Ok(a) => a,
                Err(e) => {
                    return Err(ExecuteError::Decode(e));
                },
            };
            labels.push(Label { is_loop: false, branch_arity: out, end_pc: func_image.ends[pc] });
            StepOutcome::advance(OpCode::Block, pc + 1)
        },
        Instruction::Loop { blockty } => {
            let (input, _) = match image.block_arity(blockty) {
                Ok(a) => a,
                Err(e) => {
                    return Err(ExecuteError::Decode(e));
                },
            };
            labels.push(Label { is_loop: true, branch_arity: input, end_pc: func_image.ends[pc] });
            StepOutcome::advance(OpCode::Loop, pc + 1)
        },
        Instruction::If { blockty } => {
            let (_, out) = match image.block_arity(blockty) {
                Ok(a) => a,
                Err(e) => {
                    return Err(ExecuteError::Decode(e));
                },
            };
            let cond = stack.pop()?;
            labels.push(Label { is_loop: false, branch_arity: out, end_pc: func_image.ends[pc] });
            let (taken, not_taken) = match &sched.successors {
                Successors::Branch { taken, not_taken } => (*taken, *not_taken),
                _ => {
                    return Err(ExecuteError::invalid_binary("`if` without a branch successor"));
                },
            };
            let next = if cond.is_true() {
                taken
            } else {
                not_taken
            } as usize;
            labels.pop_past(next);
            StepOutcome::advance(OpCode::If, next)
        },
        Instruction::Else => {
            let target = match &sched.successors {
                Successors::Jump(t) => *t,
                _ => {
                    return Err(ExecuteError::invalid_binary("`else` without a jump successor"));
                },
            };
            labels.pop_past(target as usize);
            StepOutcome::advance(OpCode::Else, target as usize)
        },
        Instruction::End => match &sched.successors {
            Successors::Return => {
                let results = stack.take_top(result_arity)?;
                StepOutcome { opcode: OpCode::End, transition: Transition::Return, mem: Vec::new(), control: Signal::Return(results) }
            },
            _ => {
                labels.pop_past(pc + 1);
                StepOutcome::advance(OpCode::End, pc + 1)
            },
        },
        Instruction::Br { relative_depth } => {
            let target = match &sched.successors {
                Successors::Jump(t) => *t,
                _ => {
                    return Err(ExecuteError::invalid_binary("`br` without a jump successor"));
                },
            };
            let control = branch_to(stack, labels, *relative_depth, target, lifted_func, result_arity)?;
            StepOutcome { opcode: OpCode::Br, transition: control.transition(), mem: Vec::new(), control }
        },
        Instruction::BrIf { relative_depth } => {
            let cond = stack.pop()?;
            let (taken, not_taken) = match &sched.successors {
                Successors::Branch { taken, not_taken } => (*taken, *not_taken),
                _ => {
                    return Err(ExecuteError::invalid_binary("`br_if` without a branch successor"));
                },
            };
            if cond.is_true() {
                let control = branch_to(stack, labels, *relative_depth, taken, lifted_func, result_arity)?;
                StepOutcome { opcode: OpCode::BrIf, transition: control.transition(), mem: Vec::new(), control }
            } else {
                labels.pop_past(not_taken as usize);
                StepOutcome::advance(OpCode::BrIf, not_taken as usize)
            }
        },
        Instruction::BrTable { targets, default } => {
            let selector = stack.pop_u32()? as usize;
            let (target_pcs, default_pc) = match &sched.successors {
                Successors::Table { targets, default } => (targets, *default),
                _ => {
                    return Err(ExecuteError::invalid_binary("`br_table` without a table successor"));
                },
            };
            let (depth_to, target) = if selector < targets.len() {
                if selector >= target_pcs.len() {
                    return Err(ExecuteError::invalid_binary("branch table disagrees with its schedule"));
                }
                (targets[selector], target_pcs[selector])
            } else {
                (*default, default_pc)
            };
            let control = branch_to(stack, labels, depth_to, target, lifted_func, result_arity)?;
            StepOutcome { opcode: OpCode::BrTable, transition: control.transition(), mem: Vec::new(), control }
        },
        Instruction::Return => {
            let results = stack.take_top(result_arity)?;
            StepOutcome { opcode: OpCode::Return, transition: Transition::Return, mem: Vec::new(), control: Signal::Return(results) }
        },
        Instruction::Call { function_index } => {
            let f = *function_index;
            let params = match image.func_arity(f) {
                Some((p, _)) => p,
                None => {
                    return Err(ExecuteError::invalid_binary("call to an undeclared function"));
                },
            };
            let call_args = stack.take_top(params)?;
            if f < image.num_imported {
                if f as usize >= image.imports.len() {
                    return Err(ExecuteError::invalid_binary("call to an undeclared import"));
                }
                let import = &image.imports[f as usize];
                let action = host.call(import, call_args.as_slice(), self.memory.as_mut_slice())?;
                match action {
                    HostAction::Return(results) => {
                        stack.extend(results);
                        StepOutcome::advance(OpCode::Call, pc + 1)
                    },
                    HostAction::Exit(code) => StepOutcome {
                        opcode: OpCode::Call,
                        transition: Transition::Exit(code),
                        mem: Vec::new(),
                        control: Signal::Exit(code),
                    },
                }
            } else {
                let callee = (f - image.num_imported) as usize;
                match self.eval(image, program, callee, call_args, depth + 1, observer, host) {
                    Err(e) => {
                        return Err(e);
                    },
                    Ok(Completion::Return(results)) => {
                        stack.extend(results);
                        StepOutcome {
                            opcode: OpCode::Call,
                            transition: Transition::Call { callee: f, return_pc: (pc + 1) as u32 },
                            mem: Vec::new(),
                            control: Signal::Advance(pc + 1),
                        }
                    },
                    Ok(Completion::Exit(code)) => StepOutcome {
                        opcode: OpCode::Call,
                        transition: Transition::Exit(code),
                        mem: Vec::new(),
                        control: Signal::Exit(code),
                    },
                }
            }
        },
        Instruction::CallIndirect { .. } => {
            return Err(ExecuteError::UnsupportedOperator { offset: 0, message: "call_indirect".to_owned() });
        },
        Instruction::Other { name } => {
            return Err(ExecuteError::UnsupportedOperator { offset: 0, message: name.clone() });
        },
        _ => match self.exec_data(instr, stack, locals, pc) {
            Some(Ok(o)) => o,
            Some(Err(e)) => {
                return Err(e);
            },
            None => {
                return Err(ExecuteError::invalid_binary("not a data instruction"));
            },
        },
    
        })
    }

    /// Evaluates the defined function `defined` on `args` at call depth
    /// `depth`, feeding one record per executed instruction to `observer` and
    /// dispatching imported calls to `host`.
    ///
    /// At each program point the operand-stack height execution reaches is
    /// checked against the height the schedule predicts. A function returns
    /// exactly its type's result count of values. Globals keep their count and
    /// the memory its page limit. Wherever [`eval_run`] settles, the result,
    /// the program points of the records, the number of steps and the globals
    /// and memory left are the ones it describes: a call to a defined function
    /// runs the callee on the top values of the operand stack, pushes its
    /// results, and emits the call's record after the callee's; a call to an
    /// import hands `host` the import, the top values of the operand stack and
    /// the memory, and goes on as the host answers.
    #[verifier::rlimit(100)]
    pub fn eval<O: StepObserver, H: Host>(
        &mut self,
        image: &Image,
        program: &LiftedProgram,
        defined: usize,
        args: Vec<Word>,
        depth: usize,
        observer: &mut O,
        host: &mut H,
    ) -> (r: Result<Completion, ExecuteError>)
        ensures
            final(self).globals@.len() == old(self).globals@.len(),
            final(self).memory.max_pages_view() == old(self).memory.max_pages_view(),
            final(self).steps >= old(self).steps,
            O::keeps_records() ==> final(observer).records().len() - old(observer).records().len() == final(self).steps
                - old(self).steps,
            O::keeps_records() ==> final(observer).records().len() >= old(observer).records().len()
                && final(observer).records().subrange(0, old(observer).records().len() as int) == old(observer).records()
                && records_follow_schedule(final(observer).records(), old(observer).records().len() as int, *image, *program),
            O::keeps_records() ==> records_compute(final(observer).records(), old(observer).records().len() as int, *image, *program),
            depth > MAX_CALL_DEPTH ==> r == Err::<Completion, ExecuteError>(ExecuteError::Trap(Trap::CallStackExhausted)),
            depth > MAX_CALL_DEPTH ==> *final(self) == *old(self) && *final(observer) == *old(observer) && *final(host)
                == *old(host),
            r matches Ok(Completion::Return(v)) ==> defined < image.funcs@.len() && v@.len() == result_arity_of(*image, defined as int),
            O::keeps_records() && r is Ok ==> ({
                let recs = final(observer).records();
                &&& recs.len() > old(observer).records().len()
                &&& r->Ok_0 is Return ==> recs.last().transition == Transition::Return
                &&& r->Ok_0 is Exit ==> recs.last().transition == Transition::Exit(r->Ok_0->Exit_0) && recs.last().writes@.len() == 0
            }),
            forall|fuel: nat|
                run_agrees(
                    r,
                    #[trigger] eval_run::<H>(
                        *image,
                        *program,
                        defined as int,
                        old(self).memory.max_pages_view(),
                        args@,
                        old(self).globals@,
                        old(self).memory.bytes_view(),
                        old(host)@,
                        depth as nat,
                        fuel,
                    ),
                    old(self).steps,
                    final(self).steps,
                    final(self).globals@,
                    final(self).memory.bytes_view(),
                    final(host)@,
                ),
            O::keeps_records() ==> forall|fuel: nat|
                trace_agrees(
                    final(observer).records().subrange(old(observer).records().len() as int, final(observer).records().len() as int),
                    #[trigger] eval_run::<H>(
                        *image,
                        *program,
                        defined as int,
                        old(self).memory.max_pages_view(),
                        args@,
                        old(self).globals@,
                        old(self).memory.bytes_view(),
                        old(host)@,
                        depth as nat,
                        fuel,
                    ),
                    old(self).steps,
                ),
        decreases MAX_CALL_DEPTH + 1 - depth, 1nat,
    {
        let ghost n0: int = observer.records().len() as int;
        proof {
            assert(positions(observer.records().subrange(n0, n0)) =~= Seq::<(u32, u32)>::empty());
        }
        if depth > MAX_CALL_DEPTH {
            return Err(ExecuteError::Trap(Trap::CallStackExhausted));
        }
        if defined >= image.funcs.len() || defined >= program.functions.len() {
            return Err(ExecuteError::invalid_binary("no defined function at this index"));
        }
        let func_image = &image.funcs[defined];
        let lifted_func = &program.functions[defined];
        let func_index = func_image.func_index;
        if func_image.type_idx as usize >= image.types.len() {
            return Err(ExecuteError::invalid_binary("function references an undeclared type"));
        }
        let result_arity = image.types[func_image.type_idx as usize].results;
        let ghost a0 = args@;
        let ghost maxp = self.memory.max_pages_view();
        let ghost init = entry_state(*image, defined as int, args@, self.globals@, self.memory.bytes_view(), host@);
        let ghost kept = O::keeps_records();
        let mut locals = args;
        let mut d: usize = 0;
        while d < func_image.declared.len()
            invariant
                d <= func_image.declared@.len(),
                locals@ == a0 + func_image.declared@.subrange(0, d as int).map_values(|t: WordType| zero_of(t)),
            decreases func_image.declared.len() - d,
        {
            locals.push(func_image.declared[d].zero());
            d = d + 1;
            assert(locals@ =~= a0 + func_image.declared@.subrange(0, d as int).map_values(|t: WordType| zero_of(t)));
        }
        assert(func_image.declared@.subrange(0, d as int) =~= func_image.declared@);
        let mut stack = OperandStack::new();
        let mut labels = Labels::new();
        let mut pc: usize = 0;
        let ghost mut j: nat = 0;
        let ghost mut pre: Seq<(u32, u32)> = Seq::empty();
        let ghost mut gone: bool = false;
        let ghost mut cur = EvalState {
            pc: 0,
            stack: stack@,
            labels: labels@,
            locals: locals@,
            globals: self.globals@,
            mem: self.memory.bytes_view(),
            host: host@,
        };
        proof {
            assert(cur == init);
            lemma_run_start::<H>(*image, *program, defined as int, maxp, init, depth as nat, old(self).steps);
        }
        loop
            invariant
                self.globals@.len() == old(self).globals@.len(),
                self.memory.max_pages_view() == old(self).memory.max_pages_view(),
                self.steps >= old(self).steps,
                O::keeps_records() ==> observer.records().len() - old(observer).records().len() == self.steps
                    - old(self).steps,
                O::keeps_records() ==> observer.records().len() >= old(observer).records().len()
                    && observer.records().subrange(0, old(observer).records().len() as int) == old(observer).records()
                    && records_follow_schedule(observer.records(), old(observer).records().len() as int, *image, *program),
                O::keeps_records() ==> records_compute(observer.records(), old(observer).records().len() as int, *image, *program),
                depth <= MAX_CALL_DEPTH,
                defined < image.funcs@.len(),
                defined < program.functions@.len(),
                *func_image == image.funcs@[defined as int],
                *lifted_func == program.functions@[defined as int],
                func_index == func_image.func_index,
                result_arity == result_arity_of(*image, defined as int),
                activation_ok(*image, *program, defined as int),
                maxp == old(self).memory.max_pages_view(),
                init == entry_state(*image, defined as int, a0, old(self).globals@, old(self).memory.bytes_view(), old(host)@),
                a0 == args@,
                n0 == old(observer).records().len(),
                kept == O::keeps_records(),
                cur == (EvalState {
                    pc: pc as int,
                    stack: stack@,
                    labels: labels@,
                    locals: locals@,
                    globals: self.globals@,
                    mem: self.memory.bytes_view(),
                    host: host@,
                }),
                !gone ==> tracks::<H>(*image, *program, defined as int, maxp, init, depth as nat, old(self).steps, cur, j, pre),
                !gone ==> self.steps == old(self).steps + pre.len(),
                !gone && kept ==> positions(observer.records().subrange(n0, observer.records().len() as int)) == pre,
                gone ==> unsettled::<H>(*image, *program, defined as int, maxp, init, depth as nat, old(self).steps),
            decreases u64::MAX - self.steps,
        {
            if pc >= func_image.instructions.len() || pc >= lifted_func.schedules.len() || pc >= func_image.ends.len() {
                let res = Err(ExecuteError::invalid_binary("program point out of range"));
                proof {
                    let out = RunOutcome { end: EvalEnd::Failed, trace: Seq::empty(), globals: cur.globals, mem: cur.mem, host: cur.host };
                    if !gone {
                        assert(eval_step(*image, *program, defined as int, maxp, cur) == Err::<EvalState<H::V>, EvalEnd>(EvalEnd::Failed)) by {
                            reveal(eval_step);
                        }
                        lemma_step_ends::<H>(*image, *program, defined as int, maxp, cur, depth as nat, EvalEnd::Failed);
                        assert(pre + out.trace =~= pre);
                    }
                    lemma_finish::<H>(*image, *program, defined as int, maxp, a0, old(self).globals@, old(self).memory.bytes_view(), depth as nat,
                        old(host)@, old(self).steps, gone, cur, j, pre, out, res, self.steps, self.globals@, self.memory.bytes_view(), host@, kept,
                        observer.records().subrange(n0, observer.records().len() as int));
                }
                return res;
            }
            let instr = &func_image.instructions[pc];
            let sched = &lifted_func.schedules[pc];
            let checked = stack.expect_height(sched.height_in, func_index, pc as u32);
            if checked.is_err() {
                let res = Err(checked.unwrap_err());
                proof {
                    let e = EvalEnd::Error(
                        ExecuteError::ScheduleMismatch {
                            func_index,
                            pc: pc as u32,
                            schedule: sched.height_in,
                            actual: stack@.len() as u32,
                        },
                    );
                    let out = RunOutcome { end: e, trace: Seq::empty(), globals: cur.globals, mem: cur.mem, host: cur.host };
                    if !gone {
                        assert(eval_step(*image, *program, defined as int, maxp, cur) == Err::<EvalState<H::V>, EvalEnd>(e)) by {
                            reveal(eval_step);
                        }
                        lemma_step_ends::<H>(*image, *program, defined as int, maxp, cur, depth as nat, e);
                        assert(pre + out.trace =~= pre);
                    }
                    lemma_finish::<H>(*image, *program, defined as int, maxp, a0, old(self).globals@, old(self).memory.bytes_view(), depth as nat,
                        old(host)@, old(self).steps, gone, cur, j, pre, out, res, self.steps, self.globals@, self.memory.bytes_view(), host@, kept,
                        observer.records().subrange(n0, observer.records().len() as int));
                }
                return res;
            }
            let resolved = resolve_reads(
                &Registers { stack: stack.as_slice(), locals: locals.as_slice(), globals: self.globals.as_slice() },
                sched.reads.as_slice(),
            );
            let reads = match resolved {
                Ok(v) => v,
                Err(e) => {
                    let res = Err(e);
                    proof {
                        let out = RunOutcome { end: EvalEnd::Failed, trace: Seq::empty(), globals: cur.globals, mem: cur.mem, host: cur.host };
                        if !gone {
                            assert(eval_step(*image, *program, defined as int, maxp, cur) == Err::<EvalState<H::V>, EvalEnd>(EvalEnd::Failed)) by {
                                reveal(eval_step);
                            }
                            lemma_step_ends::<H>(*image, *program, defined as int, maxp, cur, depth as nat, EvalEnd::Failed);
                            assert(pre + out.trace =~= pre);
                        }
                        lemma_finish::<H>(*image, *program, defined as int, maxp, a0, old(self).globals@, old(self).memory.bytes_view(), depth as nat,
                            old(host)@, old(self).steps, gone, cur, j, pre, out, res, self.steps, self.globals@, self.memory.bytes_view(), host@, kept,
                            observer.records().subrange(n0, observer.records().len() as int));
                    }
                    return res;
                },
            };
            let ghost mid = observer.records();
            let ghost pre_stack = stack@;
            let ghost pre_locals = locals@;
            let ghost pre_globals = self.globals@;
            let ghost pre_mem = self.memory.bytes_view();
            let ghost pre_max = self.memory.max_pages_view();
            let ghost pre_labels = labels@;
            let ghost st_before = self.steps;
            let ghost dc = defined_call(*image, *program, defined as int, cur);
            let ghost ic = import_call(*image, *program, defined as int, cur);
            let step = self.exec_instr(
                image,
                program,
                defined,
                depth,
                instr,
                sched,
                func_image,
                lifted_func,
                result_arity,
                &mut stack,
                &mut labels,
                &mut locals,
                pc,
                observer,
                host,
            );
            let ghost mut f0: nat = 0;
            let ghost mut co = RunOutcome { end: EvalEnd::Open, trace: Seq::empty(), globals: Seq::empty(), mem: Seq::empty(), host: host@ };
            let ghost mut callee: int = 0;
            let ghost mut imp_f: int = 0;
            let ghost mut p: nat = 0;
            proof {
                if O::keeps_records() {
                    lemma_records_chain(old(observer).records(), mid, observer.records(), *image, *program);
                    lemma_records_compute_chain(old(observer).records(), mid, observer.records(), *image, *program);
                }
                if !gone {
                    if dc is Some {
                        let (c, q) = dc->0;
                        callee = c;
                        p = q;
                        assert(call_site(*image, *instr, pre_stack) == dc);
                        if exists|f: nat|
                            #[trigger] settles(
                                eval_run::<H>(*image, *program, callee, maxp, call_args(cur.stack, p), cur.globals, cur.mem, cur.host, depth as nat + 1, f),
                                st_before,
                            ) {
                            f0 = choose|f: nat|
                                #[trigger] settles(
                                    eval_run::<H>(*image, *program, callee, maxp, call_args(cur.stack, p), cur.globals, cur.mem, cur.host, depth as nat + 1, f),
                                    st_before,
                                );
                            co = eval_run::<H>(*image, *program, callee, maxp, call_args(cur.stack, p), cur.globals, cur.mem, cur.host, depth as nat + 1, f0)->0;
                            assert(call_agrees(
                                step,
                                eval_run::<H>(*image, *program, callee, maxp, call_args(cur.stack, p), cur.globals, cur.mem, cur.host, depth as nat + 1, f0),
                                st_before,
                                pc as int,
                                pre_stack,
                                p,
                                stack@,
                                self.globals@,
                                self.memory.bytes_view(),
                                host@,
                                self.steps,
                            ));
                            assert(kept ==> trace_agrees(
                                observer.records().subrange(mid.len() as int, observer.records().len() as int),
                                eval_run::<H>(*image, *program, callee, maxp, call_args(cur.stack, p), cur.globals, cur.mem, cur.host, depth as nat + 1, f0),
                                st_before,
                            ));
                            if kept {
                                lemma_positions_split(observer.records(), n0, mid.len() as int, observer.records().len() as int);
                                assert(observer.records().subrange(n0, mid.len() as int) =~= mid.subrange(n0, mid.len() as int));
                            }
                        } else {
                            lemma_call_unsettled::<H>(*image, *program, defined as int, maxp, init, depth as nat, old(self).steps, cur, j, pre, callee, p, st_before);
                            gone = true;
                        }
                    } else if ic is Some {
                        let (fi, q) = ic->0;
                        imp_f = fi;
                        p = q;
                        assert(import_site(*image, *instr, pre_stack) == ic);
                        if kept {
                            assert(observer.records() == mid);
                        }
                    } else if *instr is Call {
                        assert(eval_step(*image, *program, defined as int, maxp, cur) == Err::<EvalState<H::V>, EvalEnd>(EvalEnd::Open)) by {
                            reveal(eval_step);
                        }
                        lemma_open_unsettled::<H>(*image, *program, defined as int, maxp, init, depth as nat, old(self).steps, cur, j, pre);
                        gone = true;
                    } else {
                        lemma_step_agrees(
                            *image,
                            *program,
                            defined as int,
                            maxp,
                            cur,
                            step,
                            stack@,
                            labels@,
                            locals@,
                            self.globals@,
                            self.memory.bytes_view(),
                        );
                        if kept {
                            assert(observer.records() == mid);
                        }
                    }
                }
            }
            let ghost step_result = step;
            let outcome = match step {
                Ok(o) => o,
                Err(e) => {
                    let res = Err(e);
                    proof {
                        let mut out = RunOutcome { end: EvalEnd::Open, trace: Seq::empty(), globals: cur.globals, mem: cur.mem, host: cur.host };
                        if !gone {
                            if dc is Some {
                                lemma_call_ends::<H>(*image, *program, defined as int, maxp, cur, depth as nat, callee, p, f0, co);
                                out = call_end(co, (func_index, pc as u32));
                            } else if ic is Some {
                                let args = call_args(cur.stack, p);
                                let import = image.imports@[imp_f];
                                assert(H::answer(cur.host, import, args, cur.mem) is Fail);
                                lemma_import_ends::<H>(*image, *program, defined as int, maxp, cur, depth as nat, imp_f, p);
                                out = RunOutcome {
                                    end: EvalEnd::Failed,
                                    trace: Seq::empty(),
                                    globals: cur.globals,
                                    mem: H::memory_after(cur.host, import, args, cur.mem),
                                    host: H::state_after(cur.host, import, args, cur.mem),
                                };
                                assert(run_spec::<H>(*image, *program, defined as int, maxp, cur, depth as nat, 1) == Some(out));
                                assert(pre + out.trace =~= pre);
                            } else {
                                out = RunOutcome {
                                    end: eval_step(*image, *program, defined as int, maxp, cur)->Err_0,
                                    trace: Seq::empty(),
                                    globals: cur.globals,
                                    mem: cur.mem,
                                    host: cur.host,
                                };
                                lemma_step_ends::<H>(*image, *program, defined as int, maxp, cur, depth as nat, out.end);
                                assert(pre + out.trace =~= pre);
                            }
                        }
                        lemma_finish::<H>(*image, *program, defined as int, maxp, a0, old(self).globals@, old(self).memory.bytes_view(), depth as nat,
                            old(host)@, old(self).steps, gone, cur, j, pre, out, res, self.steps, self.globals@, self.memory.bytes_view(), host@, kept,
                            observer.records().subrange(n0, observer.records().len() as int));
                    }
                    return res;
                },
            };
            let writes = match &outcome.control {
                Signal::Exit(_) => Vec::new(),
                _ => match resolve_reads(
                    &Registers { stack: stack.as_slice(), locals: locals.as_slice(), globals: self.globals.as_slice() },
                    sched.writes.as_slice(),
                ) {
                    Ok(w) => w,
                    Err(e) => {
                        let res = Err(e);
                        proof {
                            let mut out = RunOutcome { end: EvalEnd::Failed, trace: Seq::empty(), globals: cur.globals, mem: cur.mem, host: cur.host };
                            if !gone {
                                if dc is Some {
                                    lemma_call_ends::<H>(*image, *program, defined as int, maxp, cur, depth as nat, callee, p, f0, co);
                                    out = call_end(co, (func_index, pc as u32));
                                } else if ic is Some {
                                    lemma_import_ends::<H>(*image, *program, defined as int, maxp, cur, depth as nat, imp_f, p);
                                    out = run_spec::<H>(*image, *program, defined as int, maxp, cur, depth as nat, 1)->0;
                                    assert(pre + out.trace =~= pre);
                                } else {
                                    lemma_step_ends::<H>(*image, *program, defined as int, maxp, cur, depth as nat, EvalEnd::Failed);
                                    assert(pre + out.trace =~= pre);
                                }
                            }
                            lemma_finish::<H>(*image, *program, defined as int, maxp, a0, old(self).globals@, old(self).memory.bytes_view(), depth as nat,
                                old(host)@, old(self).steps, gone, cur, j, pre, out, res, self.steps, self.globals@, self.memory.bytes_view(), host@, kept,
                                observer.records().subrange(n0, observer.records().len() as int));
                        }
                        return res;
                    },
                },
            };
            if self.steps == u64::MAX {
                let res = Err(ExecuteError::invalid_binary("the step counter is exhausted"));
                proof {
                    let pos = (func_index, pc as u32);
                    if !gone {
                        if dc is Some {
                            if outcome.control is Advance {
                                lemma_call_advance::<H>(*image, *program, defined as int, maxp, init, depth as nat, old(self).steps, cur, j, pre, callee, p, f0, co);
                                lemma_run_overflow::<H>(*image, *program, defined as int, maxp, init, depth as nat, old(self).steps,
                                    returned_to(cur, p, co), j + 1, pre + co.trace.push(pos), 0);
                            } else {
                                lemma_call_ends::<H>(*image, *program, defined as int, maxp, cur, depth as nat, callee, p, f0, co);
                                lemma_run_overflow::<H>(*image, *program, defined as int, maxp, init, depth as nat, old(self).steps, cur, j, pre,
                                    co.trace.len() + 1);
                            }
                        } else if ic is Some {
                            if outcome.control is Advance {
                                let nxt = import_next::<H>(*image, cur, imp_f, p);
                                lemma_run_advance::<H>(*image, *program, defined as int, maxp, init, depth as nat, old(self).steps, cur, nxt, j, pre);
                                lemma_run_overflow::<H>(*image, *program, defined as int, maxp, init, depth as nat, old(self).steps, nxt, j + 1, pre.push(pos), 0);
                            } else {
                                lemma_import_ends::<H>(*image, *program, defined as int, maxp, cur, depth as nat, imp_f, p);
                                lemma_run_overflow::<H>(*image, *program, defined as int, maxp, init, depth as nat, old(self).steps, cur, j, pre, 1);
                            }
                        } else if outcome.control is Advance {
                            let nxt = eval_step(*image, *program, defined as int, maxp, cur)->Ok_0;
                            lemma_run_advance::<H>(*image, *program, defined as int, maxp, init, depth as nat, old(self).steps, cur, nxt, j, pre);
                            lemma_run_overflow::<H>(*image, *program, defined as int, maxp, init, depth as nat, old(self).steps, nxt, j + 1, pre.push(pos), 0);
                        } else {
                            let e = eval_step(*image, *program, defined as int, maxp, cur)->Err_0;
                            lemma_step_ends::<H>(*image, *program, defined as int, maxp, cur, depth as nat, e);
                            lemma_run_overflow::<H>(*image, *program, defined as int, maxp, init, depth as nat, old(self).steps, cur, j, pre, 1);
                        }
                    }
                    let out = RunOutcome { end: EvalEnd::Open, trace: Seq::empty(), globals: cur.globals, mem: cur.mem, host: cur.host };
                    lemma_finish::<H>(*image, *program, defined as int, maxp, a0, old(self).globals@, old(self).memory.bytes_view(), depth as nat,
                        old(host)@, old(self).steps, true, cur, j, pre, out, res, self.steps, self.globals@, self.memory.bytes_view(), host@, kept,
                        observer.records().subrange(n0, observer.records().len() as int));
                }
                return res;
            }
            self.steps = self.steps + 1;
            let ghost before = observer.records();
            observer.observe(
                StepRecord {
                    func_index,
                    pc: pc as u32,
                    opcode: outcome.opcode,
                    reads,
                    writes,
                    memory: outcome.mem,
                    transition: outcome.transition,
                },
            );
            proof {
                if O::keeps_records() {
                    let recs = observer.records();
                    let n0 = old(observer).records().len() as int;
                    assert(recs.subrange(0, n0) =~= before.subrange(0, n0));
                    let last = recs[recs.len() - 1];
                    assert(image.funcs@[defined as int].func_index == last.func_index);
                    assert(opcode_of(image.funcs@[defined as int].instructions@[pc as int]) == Some(last.opcode));
                    assert(accessed_registers(last.reads@) =~= sched.reads@);
                    assert(last.transition is Exit || accessed_registers(last.writes@) =~= sched.writes@);
                    assert(record_follows_schedule(last, *image, *program));
                    lemma_step_record_computes(
                        *image,
                        *program,
                        defined as int,
                        pc as int,
                        last,
                        pre_stack,
                        pre_locals,
                        pre_globals,
                        pre_mem,
                        pre_max,
                        stack@,
                        locals@,
                        self.globals@,
                        self.memory.bytes_view(),
                        step_result,
                    );
                    assert forall|j: int| n0 <= j < recs.len() implies record_computes(#[trigger] recs[j], *image, *program) by {
                        if j < recs.len() - 1 {
                            assert(recs[j] == before[j]);
                        }
                    }
                    assert forall|j: int| n0 <= j < recs.len() implies record_follows_schedule(#[trigger] recs[j], *image, *program) by {
                        if j < recs.len() - 1 {
                            assert(recs[j] == before[j]);
                        }
                    }
                    assert(recs.subrange(n0, recs.len() as int) =~= before.subrange(n0, before.len() as int).push(last));
                    assert(positions(before.subrange(n0, before.len() as int).push(last)) =~= positions(
                        before.subrange(n0, before.len() as int),
                    ).push((last.func_index, last.pc)));
                }
            }
            match outcome.control {
                Signal::Advance(next) => {
                    proof {
                        let pos = (func_index, pc as u32);
                        let nxt = EvalState {
                            pc: next as int,
                            stack: stack@,
                            labels: labels@,
                            locals: locals@,
                            globals: self.globals@,
                            mem: self.memory.bytes_view(),
                            host: host@,
                        };
                        if !gone {
                            if dc is Some {
                                lemma_call_advance::<H>(*image, *program, defined as int, maxp, init, depth as nat, old(self).steps, cur, j, pre, callee, p, f0, co);
                                assert(returned_to(cur, p, co) == nxt);
                                pre = pre + co.trace.push(pos);
                            } else if ic is Some {
                                assert(import_next::<H>(*image, cur, imp_f, p) == nxt);
                                lemma_run_advance::<H>(*image, *program, defined as int, maxp, init, depth as nat, old(self).steps, cur, nxt, j, pre);
                                pre = pre.push(pos);
                            } else {
                                lemma_run_advance::<H>(*image, *program, defined as int, maxp, init, depth as nat, old(self).steps, cur, nxt, j, pre);
                                pre = pre.push(pos);
                            }
                        }
                        cur = nxt;
                        j = j + 1;
                    }
                    pc = next;
                },
                Signal::Return(results) => {
                    let res = Ok(Completion::Return(results));
                    proof {
                        let out = RunOutcome {
                            end: EvalEnd::Returned(results@),
                            trace: seq![(func_index, pc as u32)],
                            globals: cur.globals,
                            mem: cur.mem,
                            host: cur.host,
                        };
                        if !gone {
                            lemma_step_ends::<H>(*image, *program, defined as int, maxp, cur, depth as nat, EvalEnd::Returned(results@));
                            assert(pre.push((func_index, pc as u32)) =~= pre + out.trace);
                            assert(self.steps == old(self).steps + pre.len() + 1);
                            assert(self.globals@ == cur.globals);
                            assert(self.memory.bytes_view() == cur.mem);
                            assert(kept ==> positions(observer.records().subrange(n0, observer.records().len() as int)) == pre + out.trace);
                        }
                        lemma_finish::<H>(*image, *program, defined as int, maxp, a0, old(self).globals@, old(self).memory.bytes_view(), depth as nat,
                            old(host)@, old(self).steps, gone, cur, j, pre, out, res, self.steps, self.globals@, self.memory.bytes_view(), host@, kept,
                            observer.records().subrange(n0, observer.records().len() as int));
                    }
                    return res;
                },
                Signal::Exit(code) => {
                    let res = Ok(Completion::Exit(code));
                    proof {
                        let pos = (func_index, pc as u32);
                        let mut out = RunOutcome { end: EvalEnd::Open, trace: Seq::empty(), globals: cur.globals, mem: cur.mem, host: cur.host };
                        if !gone {
                            if dc is Some {
                                lemma_call_ends::<H>(*image, *program, defined as int, maxp, cur, depth as nat, callee, p, f0, co);
                                out = call_end(co, pos);
                                assert(pre + co.trace.push(pos) =~= pre + out.trace);
                            } else {
                                lemma_import_ends::<H>(*image, *program, defined as int, maxp, cur, depth as nat, imp_f, p);
                                out = run_spec::<H>(*image, *program, defined as int, maxp, cur, depth as nat, 1)->0;
                                assert(pre.push(pos) =~= pre + out.trace);
                            }
                        }
                        lemma_finish::<H>(*image, *program, defined as int, maxp, a0, old(self).globals@, old(self).memory.bytes_view(), depth as nat,
                            old(host)@, old(self).steps, gone, cur, j, pre, out, res, self.steps, self.globals@, self.memory.bytes_view(), host@, kept,
                            observer.records().subrange(n0, observer.records().len() as int));
                    }
                    return res;
                },
            }
        }
    }
}

/// A run of the defined function `defined` that stopped, either never
/// settling or tracked to `cur` where every run from `cur` ends as `out`,
/// agrees with [`eval_run`] when the result, the counter, the globals, the
/// memory, the host state and the records agree with `out`.
proof fn lemma_finish<H: Host>(
    image: Image,
    program: LiftedProgram,
    defined: int,
    maxp: Option<u64>,
    args: Seq<Word>,
    globals0: Seq<Word>,
    mem0: Seq<u8>,
    depth: nat,
    host0: H::V,
    s0: u64,
    gone: bool,
    cur: EvalState<H::V>,
    j: nat,
    pre: Seq<(u32, u32)>,
    out: RunOutcome<H::V>,
    r: Result<Completion, ExecuteError>,
    s1: u64,
    g1: Seq<Word>,
    m1: Seq<u8>,
    h1: H::V,
    kept: bool,
    recs: Seq<StepRecord>,
)
    requires
        depth <= MAX_CALL_DEPTH,
        activation_ok(image, program, defined),
        gone ==> unsettled::<H>(image, program, defined, maxp, entry_state(image, defined, args, globals0, mem0, host0), depth, s0),
        !gone ==> tracks::<H>(image, program, defined, maxp, entry_state(image, defined, args, globals0, mem0, host0), depth, s0, cur, j, pre),
        !gone ==> forall|k: nat|
            (#[trigger] run_spec::<H>(image, program, defined, maxp, cur, depth, k)) is Some ==> run_spec::<H>(image, program, defined, maxp, cur, depth, k)
                == Some(out),
        !gone && !(out.end is Open) && s0 + pre.len() + out.trace.len() <= u64::MAX ==> {
            &&& eval_agrees(r, out.end)
            &&& s1 == s0 + pre.len() + out.trace.len()
            &&& out.end is Returned ==> g1 == out.globals && m1 == out.mem
            &&& (out.end is Returned || out.end is Exited) ==> h1 == out.host
            &&& kept ==> positions(recs) == pre + out.trace
        },
    ensures
        forall|fuel: nat| run_agrees(r, #[trigger] eval_run::<H>(image, program, defined, maxp, args, globals0, mem0, host0, depth, fuel), s0, s1, g1, m1, h1),
        kept ==> forall|fuel: nat| trace_agrees(recs, #[trigger] eval_run::<H>(image, program, defined, maxp, args, globals0, mem0, host0, depth, fuel), s0),
{
    let init = entry_state(image, defined, args, globals0, mem0, host0);
    if gone {
        lemma_unsettled_agrees::<H>(image, program, defined, maxp, init, depth, s0, r, s1, g1, m1, h1, recs);
    } else {
        lemma_run_settle::<H>(image, program, defined, maxp, init, depth, s0, cur, j, pre, out, r, s1, g1, m1, h1, kept, recs);
    }
    lemma_eval_of_run::<H>(image, program, defined, maxp, args, globals0, mem0, host0, depth, s0, r, s1, g1, m1, h1, kept, recs);
}

/// Resolves each register of `wanted`, in order, to the value it holds in
/// `regs`.
fn resolve_reads(regs: &Registers, wanted: &[Register]) -> (r: Result<Vec<RegAccess>, ExecuteError>)
    ensures
        registers_in_range(wanted@, regs.stack@, regs.locals@, regs.globals@) ==> (r matches Ok(v) && resolves(
            v@,
            wanted@,
            regs.stack@,
            regs.locals@,
            regs.globals@,
        )),
        !registers_in_range(wanted@, regs.stack@, regs.locals@, regs.globals@) ==> r is Err,
{
    let mut out: Vec<RegAccess> = Vec::new();
    let mut i: usize = 0;
    while i < wanted.len()
        invariant
            i <= wanted@.len(),
            out@.len() == i,
            forall|j: int| 0 <= j < i ==> #[trigger] register_value(wanted@[j], regs.stack@, regs.locals@, regs.globals@) is Some,
            forall|j: int| 0 <= j < i ==> #[trigger] out@[j] == (RegAccess {
                reg: wanted@[j],
                value: register_value(wanted@[j], regs.stack@, regs.locals@, regs.globals@)->0,
            }),
        decreases wanted.len() - i,
    {
        let reg = wanted[i];
        let value = regs.read(reg)?;
        out.push(RegAccess { reg, value });
        i = i + 1;
    }
    Ok(out)
}

} // verus!
