//! The abstract interpretation that derives each program point's operand-stack
//! height, register touches and control-flow successors.

use vstd::prelude::*;
use crate::decoder::instruction::{BlockType, Instruction};
use crate::decoder::module::ModuleInfo;
use crate::decoder::sections::BodyDecl;
use crate::lift::error::LiftError;
use crate::lift::resolved::{law_lift_last_returns, law_lift_resolves_every_target, targets_within};
use crate::lift::model::{
    branched_m, ended_succs, entry_model, floor_m, frame_model, next_m, opened_m, patch_all_m, patch_m, patch_not_taken_m,
    popped_m, raised_m, run_m, scheduled_m, step_ok_m, succ_model, table_m, target_m, unreachable_m, LiftModel, SuccModel,
};
use crate::lift::program::{CtrlFrame, Fixup, LiftedFunction, Register, Schedule, SuccessorSlot, Successors, ValueEffect};

verus! {

/// Upper bound on a function's register-file width.
pub const MAX_REGISTER_FILE_WIDTH: u32 = 4096;

/// Placeholder target for a forward branch, patched to the real continuation
/// when the enclosing control frame is closed at its `end`.
pub const PENDING_BRANCH_TARGET: u32 = 0xFFFF_FFFF;

/// Whether every operand-stack register among `regs` lies below `bound`.
pub open spec fn stack_regs_below(regs: Seq<Register>, bound: int) -> bool {
    forall|j: int| 0 <= j < regs.len() ==> (#[trigger] regs[j] matches Register::Stack(d) ==> d < bound)
}

/// Whether the schedules are numbered by position and every operand-stack
/// height and stack register they name lies within `max_height`.
pub open spec fn schedules_within(s: Seq<Schedule>, max_height: int) -> bool {
    forall|k: int|
        0 <= k < s.len() ==> {
            &&& (#[trigger] s[k]).pc == k
            &&& s[k].height_in <= max_height
            &&& stack_regs_below(s[k].reads@, max_height)
            &&& stack_regs_below(s[k].writes@, max_height)
        }
}

/// Whether `b` keeps the numbering, heights and register touches of `a`,
/// successors aside.
pub open spec fn same_touches(a: Seq<Schedule>, b: Seq<Schedule>) -> bool {
    &&& a.len() == b.len()
    &&& forall|k: int|
        0 <= k < a.len() ==> {
            &&& (#[trigger] b[k]).pc == a[k].pc
            &&& b[k].height_in == a[k].height_in
            &&& b[k].reads@ == a[k].reads@
            &&& b[k].writes@ == a[k].writes@
        }
}

/// The registers a value instruction reads: its bank read, then the popped
/// stack slots, top first.
pub open spec fn value_reads(eff: ValueEffect, height: int) -> Seq<Register> {
    let pops = Seq::new(eff.pops as nat, |k: int| Register::Stack((height - 1 - k) as u32));
    match eff.bank_read {
        Some(r) => seq![r] + pops,
        None => pops,
    }
}

/// The registers a value instruction writes: the pushed stack slots, bottom
/// first, then its bank write; a tee writes its bank register alone.
pub open spec fn value_writes(eff: ValueEffect, height: int) -> Seq<Register> {
    let bank = match eff.bank_write {
        Some(r) => seq![r],
        None => Seq::empty(),
    };
    if eff.is_tee {
        bank
    } else {
        Seq::new(eff.pushes as nat, |k: int| Register::Stack((height - eff.pops + k) as u32)) + bank
    }
}

/// The stack effect of a value instruction, or `None` for an operator the lift
/// does not support. A call takes its arity from the callee's type.
pub open spec fn value_effect(op: Instruction, type_arities: Seq<(u32, u32)>, func_types: Seq<u32>) -> Option<ValueEffect> {
    match op {
        Instruction::I32Const { .. } | Instruction::I64Const { .. } => Some(ValueEffect::stack_spec(0, 1)),
        Instruction::LocalGet { local_index } => Some(ValueEffect::bank_read_spec(Register::Local(local_index))),
        Instruction::LocalSet { local_index } => Some(ValueEffect::bank_write_spec(Register::Local(local_index))),
        Instruction::LocalTee { local_index } => Some(ValueEffect::tee_spec(Register::Local(local_index))),
        Instruction::GlobalGet { global_index } => Some(ValueEffect::bank_read_spec(Register::Global(global_index))),
        Instruction::GlobalSet { global_index } => Some(ValueEffect::bank_write_spec(Register::Global(global_index))),
        Instruction::I32Eqz | Instruction::I32Clz | Instruction::I32Ctz | Instruction::I32Popcnt
        | Instruction::I32WrapI64 | Instruction::I64Eqz | Instruction::I64Clz | Instruction::I64Ctz
        | Instruction::I64Popcnt | Instruction::I64ExtendI32S | Instruction::I64ExtendI32U => Some(ValueEffect::stack_spec(1, 1)),
        Instruction::I32Add | Instruction::I32Sub | Instruction::I32Mul | Instruction::I32DivS
        | Instruction::I32DivU | Instruction::I32RemS | Instruction::I32RemU | Instruction::I32And
        | Instruction::I32Or | Instruction::I32Xor | Instruction::I32Shl | Instruction::I32ShrS
        | Instruction::I32ShrU | Instruction::I32Rotl | Instruction::I32Rotr | Instruction::I32Eq
        | Instruction::I32Ne | Instruction::I32LtS | Instruction::I32LtU | Instruction::I32GtS
        | Instruction::I32GtU | Instruction::I32LeS | Instruction::I32LeU | Instruction::I32GeS
        | Instruction::I32GeU | Instruction::I64Add | Instruction::I64Sub | Instruction::I64Mul
        | Instruction::I64DivS | Instruction::I64DivU | Instruction::I64RemS | Instruction::I64RemU
        | Instruction::I64And | Instruction::I64Or | Instruction::I64Xor | Instruction::I64Shl
        | Instruction::I64ShrS | Instruction::I64ShrU | Instruction::I64Rotl | Instruction::I64Rotr
        | Instruction::I64Eq | Instruction::I64Ne | Instruction::I64LtS | Instruction::I64LtU
        | Instruction::I64GtS | Instruction::I64GtU | Instruction::I64LeS | Instruction::I64LeU
        | Instruction::I64GeS | Instruction::I64GeU => Some(ValueEffect::stack_spec(2, 1)),
        Instruction::I32Load { .. } | Instruction::I64Load { .. } | Instruction::I32Load8S { .. }
        | Instruction::I32Load8U { .. } | Instruction::I32Load16S { .. } | Instruction::I32Load16U { .. }
        | Instruction::I64Load8S { .. } | Instruction::I64Load8U { .. } | Instruction::I64Load16S { .. }
        | Instruction::I64Load16U { .. } | Instruction::I64Load32S { .. } | Instruction::I64Load32U { .. } => Some(
            ValueEffect::stack_spec(1, 1),
        ),
        Instruction::I32Store { .. } | Instruction::I64Store { .. } | Instruction::I32Store8 { .. }
        | Instruction::I32Store16 { .. } | Instruction::I64Store8 { .. } | Instruction::I64Store16 { .. }
        | Instruction::I64Store32 { .. } => Some(ValueEffect::stack_spec(2, 0)),
        Instruction::MemorySize => Some(ValueEffect::stack_spec(0, 1)),
        Instruction::MemoryGrow => Some(ValueEffect::stack_spec(1, 1)),
        Instruction::Drop => Some(ValueEffect::stack_spec(1, 0)),
        Instruction::Select => Some(ValueEffect::stack_spec(3, 1)),
        Instruction::Call { function_index } => if function_index < func_types.len()
            && func_types[function_index as int] < type_arities.len() {
            let (p, r) = type_arities[func_types[function_index as int] as int];
            Some(ValueEffect::stack_spec(p, r))
        } else {
            None
        },
        Instruction::CallIndirect { type_index, .. } => if type_index < type_arities.len()
            && type_arities[type_index as int].0 < u32::MAX {
            let (p, r) = type_arities[type_index as int];
            Some(ValueEffect::stack_spec((p + 1) as u32, r))
        } else {
            None
        },
        _ => None,
    }
}

/// Classifies a value instruction by its stack effect and register touches.
pub fn classify_value_op(op: &Instruction, info: &ModuleInfo, offset: usize) -> (r: Result<ValueEffect, LiftError>)
    ensures
        match value_effect(*op, info.type_arities@, info.func_type_idx@) {
            Some(e) => r == Ok::<ValueEffect, LiftError>(e),
            None => r == Err::<ValueEffect, LiftError>(LiftError::UnsupportedOperator { offset }),
        },
{
    match op {
        Instruction::I32Const { .. } | Instruction::I64Const { .. } => Ok(ValueEffect::stack(0, 1)),
        Instruction::LocalGet { local_index } => Ok(ValueEffect::bank_read(Register::Local(*local_index))),
        Instruction::LocalSet { local_index } => Ok(ValueEffect::bank_write(Register::Local(*local_index))),
        Instruction::LocalTee { local_index } => Ok(ValueEffect::tee(Register::Local(*local_index))),
        Instruction::GlobalGet { global_index } => Ok(ValueEffect::bank_read(Register::Global(*global_index))),
        Instruction::GlobalSet { global_index } => Ok(ValueEffect::bank_write(Register::Global(*global_index))),
        Instruction::I32Eqz | Instruction::I32Clz | Instruction::I32Ctz | Instruction::I32Popcnt
        | Instruction::I32WrapI64 | Instruction::I64Eqz | Instruction::I64Clz | Instruction::I64Ctz
        | Instruction::I64Popcnt | Instruction::I64ExtendI32S | Instruction::I64ExtendI32U => Ok(ValueEffect::stack(1, 1)),
        Instruction::I32Add | Instruction::I32Sub | Instruction::I32Mul | Instruction::I32DivS
        | Instruction::I32DivU | Instruction::I32RemS | Instruction::I32RemU | Instruction::I32And
        | Instruction::I32Or | Instruction::I32Xor | Instruction::I32Shl | Instruction::I32ShrS
        | Instruction::I32ShrU | Instruction::I32Rotl | Instruction::I32Rotr | Instruction::I32Eq
        | Instruction::I32Ne | Instruction::I32LtS | Instruction::I32LtU | Instruction::I32GtS
        | Instruction::I32GtU | Instruction::I32LeS | Instruction::I32LeU | Instruction::I32GeS
        | Instruction::I32GeU | Instruction::I64Add | Instruction::I64Sub | Instruction::I64Mul
        | Instruction::I64DivS | Instruction::I64DivU | Instruction::I64RemS | Instruction::I64RemU
        | Instruction::I64And | Instruction::I64Or | Instruction::I64Xor | Instruction::I64Shl
        | Instruction::I64ShrS | Instruction::I64ShrU | Instruction::I64Rotl | Instruction::I64Rotr
        | Instruction::I64Eq | Instruction::I64Ne | Instruction::I64LtS | Instruction::I64LtU
        | Instruction::I64GtS | Instruction::I64GtU | Instruction::I64LeS | Instruction::I64LeU
        | Instruction::I64GeS | Instruction::I64GeU => Ok(ValueEffect::stack(2, 1)),
        Instruction::I32Load { .. } | Instruction::I64Load { .. } | Instruction::I32Load8S { .. }
        | Instruction::I32Load8U { .. } | Instruction::I32Load16S { .. } | Instruction::I32Load16U { .. }
        | Instruction::I64Load8S { .. } | Instruction::I64Load8U { .. } | Instruction::I64Load16S { .. }
        | Instruction::I64Load16U { .. } | Instruction::I64Load32S { .. } | Instruction::I64Load32U { .. } => Ok(
            ValueEffect::stack(1, 1),
        ),
        Instruction::I32Store { .. } | Instruction::I64Store { .. } | Instruction::I32Store8 { .. }
        | Instruction::I32Store16 { .. } | Instruction::I64Store8 { .. } | Instruction::I64Store16 { .. }
        | Instruction::I64Store32 { .. } => Ok(ValueEffect::stack(2, 0)),
        Instruction::MemorySize => Ok(ValueEffect::stack(0, 1)),
        Instruction::MemoryGrow => Ok(ValueEffect::stack(1, 1)),
        Instruction::Drop => Ok(ValueEffect::stack(1, 0)),
        Instruction::Select => Ok(ValueEffect::stack(3, 1)),
        Instruction::Call { function_index } => match info.func_arity(*function_index) {
            Some((pops, pushes)) => Ok(ValueEffect::stack(pops, pushes)),
            None => Err(LiftError::UnsupportedOperator { offset }),
        },
        Instruction::CallIndirect { type_index, .. } => match info.type_arity(*type_index) {
            Some((params, results)) => {
                if params == u32::MAX {
                    return Err(LiftError::UnsupportedOperator { offset });
                }
                Ok(ValueEffect::stack(params + 1, results))
            },
            None => Err(LiftError::UnsupportedOperator { offset }),
        },
        _ => Err(LiftError::UnsupportedOperator { offset }),
    }
}


/// Whether successors `s` have the slot `slot`.
pub open spec fn slot_fits(s: Successors, slot: SuccessorSlot) -> bool {
    match (s, slot) {
        (Successors::Jump(_), SuccessorSlot::Jump) => true,
        (Successors::Branch { .. }, SuccessorSlot::BranchTaken) => true,
        (Successors::Table { .. }, SuccessorSlot::TableEntry(_)) => true,
        (Successors::Table { .. }, SuccessorSlot::TableDefault) => true,
        _ => false,
    }
}

/// Whether `b` is `a` with its slot `slot` set to `target`: a table entry past
/// the table leaves the table as it is.
pub open spec fn patched(a: Successors, b: Successors, slot: SuccessorSlot, target: u32) -> bool {
    match (a, slot) {
        (Successors::Jump(_), SuccessorSlot::Jump) => b == Successors::Jump(target),
        (Successors::Branch { not_taken, .. }, SuccessorSlot::BranchTaken) => b == Successors::Branch { taken: target, not_taken },
        (Successors::Table { targets, default }, SuccessorSlot::TableEntry(i)) => b matches Successors::Table {
            targets: t2,
            default: d2,
        } && d2 == default && t2@ == (if i < targets@.len() {
            targets@.update(i as int, target)
        } else {
            targets@
        }),
        (Successors::Table { targets, .. }, SuccessorSlot::TableDefault) => b matches Successors::Table {
            targets: t2,
            default: d2,
        } && d2 == target && t2@ == targets@,
        _ => false,
    }
}

/// Patching keeps which slots successors have.
proof fn lemma_patched_keeps_slots(a: Successors, b: Successors, slot: SuccessorSlot, target: u32, other: SuccessorSlot)
    requires
        patched(a, b, slot, target),
    ensures
        slot_fits(b, other) == slot_fits(a, other),
{
}

/// Whether the slot `slot` of successors `s` holds `target`; a table entry past
/// the table holds nothing to compare and counts as holding it.
pub open spec fn slot_holds(s: Successors, slot: SuccessorSlot, target: u32) -> bool {
    match (s, slot) {
        (Successors::Jump(t), SuccessorSlot::Jump) => t == target,
        (Successors::Branch { taken, .. }, SuccessorSlot::BranchTaken) => taken == target,
        (Successors::Table { targets, .. }, SuccessorSlot::TableEntry(i)) => i >= targets@.len() || targets@[i as int] == target,
        (Successors::Table { default, .. }, SuccessorSlot::TableDefault) => default == target,
        _ => false,
    }
}

/// Whether every fixup names a schedule of `s` that has the fixup's slot.
pub open spec fn fixups_fit(s: Seq<Schedule>, fixups: Seq<Fixup>) -> bool {
    forall|j: int|
        0 <= j < fixups.len() ==> (#[trigger] fixups[j]).instr_index < s.len() && slot_fits(
            s[fixups[j].instr_index as int].successors,
            fixups[j].slot,
        )
}

/// Whether schedule `k` is named by one of `fixups`.
pub open spec fn fixed_up(fixups: Seq<Fixup>, k: int) -> bool {
    exists|j: int| 0 <= j < fixups.len() && (#[trigger] fixups[j]).instr_index == k
}

/// Whether `b`'s successors have the same slots as `a`'s, schedule by schedule.
pub open spec fn same_slots(a: Seq<Schedule>, b: Seq<Schedule>) -> bool {
    &&& a.len() == b.len()
    &&& forall|k: int, slot: SuccessorSlot|
        0 <= k < a.len() ==> #[trigger] slot_fits(b[k].successors, slot) == slot_fits(a[k].successors, slot)
}

/// Patching a slot to `target` makes it hold `target`, and keeps every slot
/// that already held `target`.
proof fn lemma_patched_holds(a: Successors, b: Successors, slot: SuccessorSlot, target: u32, other: SuccessorSlot)
    requires
        patched(a, b, slot, target),
    ensures
        slot_holds(b, slot, target),
        slot_holds(a, other, target) ==> slot_holds(b, other, target),
{
}

/// The input and output arities of a block type, or `None` where it names a
/// type the module does not declare.
pub open spec fn block_arities(bt: BlockType, type_arities: Seq<(u32, u32)>) -> Option<(u32, u32)> {
    match bt {
        BlockType::Empty => Some((0, 0)),
        BlockType::Type => Some((0, 1)),
        BlockType::FuncType(idx) => if idx < type_arities.len() {
            Some(type_arities[idx as int])
        } else {
            None
        },
    }
}

/// The result of `n` polymorphic-aware pops from `height` over a frame whose
/// floor is `floor`: the height stops at the floor.
pub open spec fn popped_height(height: int, floor: int, n: int) -> int {
    if height > floor {
        if height - n > floor {
            height - n
        } else {
            floor
        }
    } else {
        height
    }
}

/// The per-function abstract interpreter.
pub struct Lifter<'b, 'a> {
    info: &'b ModuleInfo<'a>,
    func_index: u32,
    locals_count: u32,
    globals_count: u32,
    result_arity: u32,
    height: u32,
    max_height: u32,
    frames: Vec<CtrlFrame>,
    schedules: Vec<Schedule>,
}

impl<'b, 'a> Lifter<'b, 'a> {
    /// The lifter's invariant: schedules numbered by position, and every height
    /// and stack register named so far within the running maximum.
    pub closed spec fn wf(&self) -> bool {
        &&& schedules_within(self.schedules@, self.max_height as int)
        &&& self.height <= self.max_height
        &&& forall|i: int| 0 <= i < self.frames@.len() ==> (#[trigger] self.frames@[i]).floor <= self.max_height
        &&& self.globals_count == self.info.num_globals
    }

    pub closed spec fn schedules_view(&self) -> Seq<Schedule> {
        self.schedules@
    }

    pub closed spec fn frames_view(&self) -> Seq<CtrlFrame> {
        self.frames@
    }

    pub closed spec fn info_view(&self) -> &'b ModuleInfo<'a> {
        self.info
    }

    /// The lifter's state as the lift's success depends on it.
    pub closed spec fn model(&self) -> LiftModel {
        LiftModel {
            height: self.height,
            max_height: self.max_height,
            frames: self.frames@.map_values(|f: CtrlFrame| frame_model(f)),
            succs: self.schedules@.map_values(|s: Schedule| succ_model(s.successors)),
        }
    }

    pub closed spec fn fixed(&self, func_index: u32, locals_count: u32, result_arity: u32) -> bool {
        self.func_index == func_index && self.locals_count == locals_count && self.result_arity == result_arity
    }

    /// A lifter at the entry of function `func_index`, inside its function frame.
    pub fn new(info: &'b ModuleInfo<'a>, func_index: u32, locals_count: u32, result_arity: u32) -> (r: Self)
        ensures
            r.wf(),
            r.schedules_view().len() == 0,
            r.frames_view().len() == 1,
            r.info_view() == info,
            r.fixed(func_index, locals_count, result_arity),
            r.model() == entry_model(result_arity),
    {
        let func_frame = CtrlFrame {
            in_arity: 0,
            out_arity: result_arity,
            floor: 0,
            unreachable: false,
            loop_header: None,
            fixups: Vec::new(),
            if_instr: None,
        };
        let mut frames: Vec<CtrlFrame> = Vec::new();
        frames.push(func_frame);
        Lifter {
            info,
            func_index,
            locals_count,
            globals_count: info.num_globals,
            result_arity,
            height: 0,
            max_height: 0,
            frames,
            schedules: Vec::new(),
        }
    }

    fn cur_frame_reachable(&self) -> (r: bool)
        ensures
            r == (self.frames@.len() > 0 && !self.frames@.last().unreachable),
    {
        if self.frames.len() == 0 {
            false
        } else {
            !self.frames[self.frames.len() - 1].unreachable
        }
    }

    fn push_one(&mut self) -> (r: Result<(), LiftError>)
        requires
            old(self).wf(),
        ensures
            final(self).wf(),
            final(self).schedules@ == old(self).schedules@,
            final(self).frames@ == old(self).frames@,
            final(self).info == old(self).info,
            final(self).fixed(old(self).func_index, old(self).locals_count, old(self).result_arity),
            r is Ok ==> final(self).height == old(self).height + 1 && final(self).max_height == (if old(self).max_height > final(self).height {
                old(self).max_height
            } else {
                final(self).height
            }),
            r is Err ==> old(self).height == u32::MAX,
            final(self).max_height >= old(self).max_height,
    {
        if self.height == u32::MAX {
            return Err(LiftError::RegisterFileOverflow { func_index: self.func_index, width: self.height as u64 + 1 });
        }
        self.height = self.height + 1;
        if self.height > self.max_height {
            self.max_height = self.height;
        }
        Ok(())
    }

    fn push(&mut self, n: u32) -> (r: Result<(), LiftError>)
        requires
            old(self).wf(),
        ensures
            final(self).wf(),
            final(self).schedules@ == old(self).schedules@,
            final(self).frames@ == old(self).frames@,
            final(self).info == old(self).info,
            final(self).fixed(old(self).func_index, old(self).locals_count, old(self).result_arity),
            final(self).max_height >= old(self).max_height,
            r is Ok ==> final(self).height == old(self).height + n && final(self).max_height == (if old(self).max_height > final(self).height {
                old(self).max_height
            } else {
                final(self).height
            }),
            r is Err ==> old(self).height + n > u32::MAX,
            r is Ok ==> final(self).model() == raised_m(old(self).model(), old(self).height + n),
    {
        let mut i: u32 = 0;
        while i < n
            invariant
                self.wf(),
                i <= n,
                self.schedules@ == old(self).schedules@,
                self.frames@ == old(self).frames@,
                self.info == old(self).info,
                self.fixed(old(self).func_index, old(self).locals_count, old(self).result_arity),
                self.height == old(self).height + i,
                self.max_height == (if old(self).max_height > self.height {
                    old(self).max_height
                } else {
                    self.height as u32
                }),
            decreases n - i,
        {
            self.push_one()?;
            i = i + 1;
        }
        Ok(())
    }

    /// Pops one operand-stack slot, honouring the WASM validation rule that a
    /// pop at the current frame's floor in unreachable code is polymorphic and
    /// leaves the height unchanged.
    fn pop_one(&mut self)
        requires
            old(self).wf(),
        ensures
            final(self).wf(),
            final(self).schedules@ == old(self).schedules@,
            final(self).frames@ == old(self).frames@,
            final(self).info == old(self).info,
            final(self).fixed(old(self).func_index, old(self).locals_count, old(self).result_arity),
            final(self).max_height == old(self).max_height,
            final(self).height == popped_height(old(self).height as int, Self::floor_of(old(self).frames@), 1),
    {
        let floor = if self.frames.len() == 0 {
            0
        } else {
            self.frames[self.frames.len() - 1].floor
        };
        if self.height > floor {
            self.height = self.height - 1;
        }
    }

    /// The floor of the innermost frame, `0` outside every frame.
    pub closed spec fn floor_of(frames: Seq<CtrlFrame>) -> int {
        if frames.len() == 0 {
            0
        } else {
            frames.last().floor as int
        }
    }

    fn pop(&mut self, n: u32)
        requires
            old(self).wf(),
        ensures
            final(self).wf(),
            final(self).schedules@ == old(self).schedules@,
            final(self).frames@ == old(self).frames@,
            final(self).info == old(self).info,
            final(self).fixed(old(self).func_index, old(self).locals_count, old(self).result_arity),
            final(self).max_height == old(self).max_height,
            final(self).height == popped_height(old(self).height as int, Self::floor_of(old(self).frames@), n as int),
            final(self).model() == popped_m(old(self).model(), n as int),
    {
        let mut i: u32 = 0;
        while i < n
            invariant
                self.wf(),
                i <= n,
                self.schedules@ == old(self).schedules@,
                self.frames@ == old(self).frames@,
                self.info == old(self).info,
                self.fixed(old(self).func_index, old(self).locals_count, old(self).result_arity),
                self.max_height == old(self).max_height,
                self.height == popped_height(old(self).height as int, Self::floor_of(old(self).frames@), i as int),
            decreases n - i,
        {
            self.pop_one();
            i = i + 1;
        }
    }

    /// Marks the current frame unreachable, resetting the height to its floor---
    /// the WASM validation algorithm's treatment of code after an unconditional
    /// branch, `return`, or `unreachable`.
    fn mark_unreachable(&mut self)
        requires
            old(self).wf(),
        ensures
            final(self).wf(),
            final(self).schedules@ == old(self).schedules@,
            final(self).frames@.len() == old(self).frames@.len(),
            final(self).info == old(self).info,
            final(self).fixed(old(self).func_index, old(self).locals_count, old(self).result_arity),
            final(self).max_height == old(self).max_height,
            old(self).frames@.len() == 0 ==> final(self).frames@ == old(self).frames@ && final(self).height == old(self).height,
            old(self).frames@.len() > 0 ==> ({
                let top = old(self).frames@.last();
                let now = final(self).frames@.last();
                &&& final(self).height == top.floor
                &&& final(self).frames@.drop_last() == old(self).frames@.drop_last()
                &&& now.unreachable
                &&& now.in_arity == top.in_arity && now.out_arity == top.out_arity && now.floor == top.floor
                &&& now.loop_header == top.loop_header && now.fixups@ == top.fixups@ && now.if_instr == top.if_instr
            }),
            final(self).model() == unreachable_m(old(self).model()),
    {
        if self.frames.len() > 0 {
            let mut frame = self.frames.pop().unwrap();
            self.height = frame.floor;
            frame.unreachable = true;
            self.frames.push(frame);
            assert(forall|i: int| 0 <= i < self.frames@.len() - 1 ==> self.frames@[i] == old(self).frames@[i]);
            assert(self.frames@.drop_last() =~= old(self).frames@.drop_last());
        }
    }

    fn push_instr(&mut self, pc: u32, height_in: u32, reads: Vec<Register>, writes: Vec<Register>, successors: Successors)
        requires
            old(self).wf(),
            pc == old(self).schedules@.len(),
            height_in <= old(self).max_height,
            stack_regs_below(reads@, old(self).max_height as int),
            stack_regs_below(writes@, old(self).max_height as int),
        ensures
            final(self).wf(),
            final(self).schedules@ == old(self).schedules@.push(Schedule { pc, height_in, reads, writes, successors }),
            final(self).frames@ == old(self).frames@,
            final(self).info == old(self).info,
            final(self).fixed(old(self).func_index, old(self).locals_count, old(self).result_arity),
            final(self).height == old(self).height,
            final(self).max_height == old(self).max_height,
            final(self).model() == scheduled_m(old(self).model(), succ_model(successors)),
    {
        self.schedules.push(Schedule { pc, height_in, reads, writes, successors });
    }

    fn block_arity(&self, bt: &BlockType) -> (r: Result<(u32, u32), LiftError>)
        ensures
            r is Ok <==> (bt matches BlockType::FuncType(idx) ==> idx < self.info.type_arities@.len()),
            r is Ok ==> match *bt {
                BlockType::Empty => r == Ok::<(u32, u32), LiftError>((0, 0)),
                BlockType::Type => r == Ok::<(u32, u32), LiftError>((0, 1)),
                BlockType::FuncType(idx) => idx < self.info.type_arities@.len() && r == Ok::<(u32, u32), LiftError>(
                    self.info.type_arities@[idx as int],
                ),
            },
    {
        match bt {
            BlockType::Empty => Ok((0, 0)),
            BlockType::Type => Ok((0, 1)),
            BlockType::FuncType(idx) => match self.info.type_arity(*idx) {
                Some(a) => Ok(a),
                None => Err(LiftError::internal("block references an undeclared type")),
            },
        }
    }

    fn push_ctrl(&mut self, in_arity: u32, out_arity: u32, loop_header: Option<u32>, if_instr: Option<usize>) -> (r: Result<(), LiftError>)
        requires
            old(self).wf(),
        ensures
            final(self).wf(),
            final(self).schedules@ == old(self).schedules@,
            final(self).info == old(self).info,
            final(self).fixed(old(self).func_index, old(self).locals_count, old(self).result_arity),
            final(self).frames@.len() == old(self).frames@.len() + 1,
            final(self).frames@.drop_last() == old(self).frames@,
            final(self).max_height >= old(self).max_height,
            r is Ok <==> popped_height(old(self).height as int, Self::floor_of(old(self).frames@), in_arity as int) + in_arity
                <= u32::MAX,
            ({
                let f = final(self).frames@.last();
                &&& f.in_arity == in_arity && f.out_arity == out_arity && !f.unreachable
                &&& f.floor == popped_height(old(self).height as int, Self::floor_of(old(self).frames@), in_arity as int)
                &&& f.loop_header == loop_header && f.fixups@.len() == 0 && f.if_instr == if_instr
            }),
            r is Ok ==> final(self).model() == opened_m(old(self).model(), in_arity, out_arity, loop_header, if_instr),
    {
        self.pop(in_arity);
        let floor = self.height;
        self.frames.push(CtrlFrame { in_arity, out_arity, floor, unreachable: false, loop_header, fixups: Vec::new(), if_instr });
        self.push(in_arity)
    }

    /// Replaces the successors of schedule `index`, keeping its touches.
    fn set_successors(&mut self, index: usize, successors: Successors)
        requires
            old(self).wf(),
            index < old(self).schedules@.len(),
        ensures
            final(self).wf(),
            same_touches(old(self).schedules@, final(self).schedules@),
            final(self).schedules@[index as int].successors == successors,
            forall|k: int| 0 <= k < old(self).schedules@.len() && k != index ==> #[trigger] final(self).schedules@[k] == old(self).schedules@[k],
            final(self).frames@ == old(self).frames@,
            final(self).info == old(self).info,
            final(self).fixed(old(self).func_index, old(self).locals_count, old(self).result_arity),
            final(self).height == old(self).height,
            final(self).max_height == old(self).max_height,
            final(self).model() == (LiftModel { succs: old(self).model().succs.update(index as int, succ_model(successors)), ..old(self).model() }),
    {
        let old_sched = self.schedules.remove(index);
        let ghost rest = self.schedules@;
        self.schedules.insert(
            index,
            Schedule { pc: old_sched.pc, height_in: old_sched.height_in, reads: old_sched.reads, writes: old_sched.writes, successors },
        );
        assert forall|k: int| 0 <= k < old(self).schedules@.len() && k != index implies #[trigger] self.schedules@[k] == old(self).schedules@[k] by {
            if k < index {
                assert(rest[k] == old(self).schedules@[k]);
            } else {
                assert(rest[k - 1] == old(self).schedules@[k]);
            }
        }
    }

    /// Patches the successor slot `slot` of schedule `index` to `target`.
    fn patch(&mut self, index: usize, slot: SuccessorSlot, target: u32) -> (r: Result<(), LiftError>)
        requires
            old(self).wf(),
        ensures
            index < old(self).schedules@.len() && slot_fits(old(self).schedules@[index as int].successors, slot) ==> ({
                &&& r is Ok
                &&& patched(old(self).schedules@[index as int].successors, final(self).schedules@[index as int].successors, slot, target)
                &&& forall|k: int| 0 <= k < old(self).schedules@.len() && k != index ==> #[trigger] final(self).schedules@[k]
                    == old(self).schedules@[k]
            }),
            !(index < old(self).schedules@.len() && slot_fits(old(self).schedules@[index as int].successors, slot)) ==> ({
                &&& r is Err
                &&& final(self).schedules@ == old(self).schedules@
            }),
            r is Ok ==> final(self).model() == (LiftModel {
                succs: old(self).model().succs.update(
                    index as int,
                    patch_m(old(self).model().succs[index as int], slot, target),
                ),
                ..old(self).model()
            }),
            final(self).wf(),
            same_touches(old(self).schedules@, final(self).schedules@),
            final(self).frames@ == old(self).frames@,
            final(self).info == old(self).info,
            final(self).fixed(old(self).func_index, old(self).locals_count, old(self).result_arity),
            final(self).height == old(self).height,
            final(self).max_height == old(self).max_height,
    {
        if index >= self.schedules.len() {
            return Err(LiftError::internal("branch fixup references a missing instruction"));
        }
        let patched = match (&self.schedules[index].successors, slot) {
            (Successors::Jump(_), SuccessorSlot::Jump) => Successors::Jump(target),
            (Successors::Branch { not_taken, .. }, SuccessorSlot::BranchTaken) => Successors::Branch {
                taken: target,
                not_taken: *not_taken,
            },
            (Successors::Table { targets, default }, SuccessorSlot::TableEntry(i)) => {
                let mut t = copy_targets(targets);
                if i < t.len() {
                    t.set(i, target);
                }
                Successors::Table { targets: t, default: *default }
            },
            (Successors::Table { targets, .. }, SuccessorSlot::TableDefault) => Successors::Table {
                targets: copy_targets(targets),
                default: target,
            },
            _ => {
                return Err(LiftError::internal("branch fixup slot does not match its successor"));
            },
        };
        self.set_successors(index, patched);
        Ok(())
    }

    /// Sets the `not_taken` target of the `if` at schedule `index`, if it is
    /// one.
    fn patch_not_taken(&mut self, index: usize, target: u32)
        requires
            old(self).wf(),
        ensures
            index < old(self).schedules@.len() && old(self).schedules@[index as int].successors is Branch ==> ({
                let taken = old(self).schedules@[index as int].successors->taken;
                &&& final(self).schedules@[index as int].successors == (Successors::Branch { taken, not_taken: target })
                &&& forall|k: int| 0 <= k < old(self).schedules@.len() && k != index ==> #[trigger] final(self).schedules@[k]
                    == old(self).schedules@[k]
            }),
            !(index < old(self).schedules@.len() && old(self).schedules@[index as int].successors is Branch)
                ==> final(self).schedules@ == old(self).schedules@,
            final(self).wf(),
            same_touches(old(self).schedules@, final(self).schedules@),
            final(self).frames@ == old(self).frames@,
            final(self).info == old(self).info,
            final(self).fixed(old(self).func_index, old(self).locals_count, old(self).result_arity),
            final(self).height == old(self).height,
            final(self).max_height == old(self).max_height,
            final(self).model() == (LiftModel {
                succs: patch_not_taken_m(old(self).model().succs, index as int, target),
                ..old(self).model()
            }),
    {
        if index < self.schedules.len() {
            let taken = match &self.schedules[index].successors {
                Successors::Branch { taken, .. } => Some(*taken),
                _ => None,
            };
            match taken {
                Some(taken) => {
                    self.set_successors(index, Successors::Branch { taken, not_taken: target });
                },
                None => {},
            }
        }
    }

    /// Closes the top frame at the `end` whose program point is `end_pc`.
    ///
    /// Returns `true` when the closed frame was the function frame.
    #[verifier::rlimit(60)]
    fn pop_ctrl(&mut self, end_pc: u32) -> (r: Result<bool, LiftError>)
        requires
            old(self).wf(),
        ensures
            final(self).wf(),
            same_touches(old(self).schedules@, final(self).schedules@),
            final(self).info == old(self).info,
            final(self).fixed(old(self).func_index, old(self).locals_count, old(self).result_arity),
            final(self).max_height >= old(self).max_height,
            old(self).frames@.len() == 0 ==> r is Err,
            old(self).frames@.len() > 0 ==> ({
                let top = old(self).frames@.last();
                r is Ok <==> ({
                    &&& end_pc < u32::MAX
                    &&& fixups_fit(old(self).schedules@, top.fixups@)
                    &&& top.floor + top.out_arity <= u32::MAX
                })
            }),
            r is Ok ==> ({
                let top = old(self).frames@.last();
                let s0 = old(self).schedules@;
                let s1 = final(self).schedules@;
                &&& r == Ok::<bool, LiftError>(old(self).frames@.len() == 1)
                &&& final(self).frames@ == old(self).frames@.drop_last()
                &&& final(self).height == top.floor + top.out_arity
                &&& final(self).max_height == (if old(self).max_height >= final(self).height {
                    old(self).max_height
                } else {
                    final(self).height
                })
                &&& forall|j: int| 0 <= j < top.fixups@.len() ==> slot_holds(
                    s1[(#[trigger] top.fixups@[j]).instr_index as int].successors,
                    top.fixups@[j].slot,
                    (end_pc + 1) as u32,
                )
                &&& (match top.if_instr {
                    Some(i) => i < s0.len() && s0[i as int].successors is Branch ==> s1[i as int].successors->not_taken
                        == end_pc + 1,
                    None => true,
                })
                &&& forall|k: int| 0 <= k < s0.len() && !fixed_up(top.fixups@, k) && top.if_instr != Some(k as usize)
                    ==> #[trigger] s1[k] == s0[k]
            }),
            r is Ok ==> final(self).model() == raised_m(
                (LiftModel {
                    frames: old(self).model().frames.drop_last(),
                    succs: ended_succs(old(self).model().succs, old(self).model().frames.last(), (end_pc + 1) as u32),
                    ..old(self).model()
                }),
                old(self).frames@.last().floor + old(self).frames@.last().out_arity,
            ),
    {
        if self.frames.len() == 0 {
            return Err(LiftError::internal("`end` with no open control frame"));
        }
        let frame = self.frames.pop().unwrap();
        if end_pc == u32::MAX {
            return Err(LiftError::FunctionTooLarge { func_index: self.func_index });
        }
        let continuation = end_pc + 1;
        let ghost start = self.schedules@;
        let ghost fx = frame.fixups@;
        let mut i: usize = 0;
        while i < frame.fixups.len()
            invariant
                self.wf(),
                same_touches(start, self.schedules@),
                same_slots(start, self.schedules@),
                self.frames@ == old(self).frames@.drop_last(),
                self.info == old(self).info,
                self.fixed(old(self).func_index, old(self).locals_count, old(self).result_arity),
                self.height == old(self).height,
                self.max_height == old(self).max_height,
                start == old(self).schedules@,
                fx == frame.fixups@,
                frame == old(self).frames@.last(),
                continuation == end_pc + 1,
                i <= fx.len(),
                self.model().succs == patch_all_m(old(self).model().succs, fx, continuation, i as int),
                forall|j: int| 0 <= j < i ==> (#[trigger] fx[j]).instr_index < start.len() && slot_fits(
                    start[fx[j].instr_index as int].successors,
                    fx[j].slot,
                ),
                forall|j: int| 0 <= j < i ==> slot_holds(
                    self.schedules@[(#[trigger] fx[j]).instr_index as int].successors,
                    fx[j].slot,
                    continuation,
                ),
                forall|k: int| 0 <= k < start.len() && !(exists|j: int| 0 <= j < i && (#[trigger] fx[j]).instr_index == k)
                    ==> #[trigger] self.schedules@[k] == start[k],
            decreases frame.fixups.len() - i,
        {
            let fixup = frame.fixups[i];
            let ghost before = self.schedules@;
            let res = self.patch(fixup.instr_index, fixup.slot, continuation);
            match res {
                Ok(()) => {},
                Err(e) => {
                    proof {
                        assert(!fixups_fit(start, fx)) by {
                            if fixups_fit(start, fx) {
                                assert(fx[i as int] == fixup);
                                assert(slot_fits(before[fixup.instr_index as int].successors, fixup.slot));
                            }
                        }
                    }
                    return Err(e);
                },
            }
            proof {
                let x = fixup.instr_index as int;
                assert(fx[i as int] == fixup);
                assert forall|k: int, slot: SuccessorSlot| 0 <= k < start.len() implies #[trigger] slot_fits(
                    self.schedules@[k].successors,
                    slot,
                ) == slot_fits(start[k].successors, slot) by {
                    if k == x {
                        lemma_patched_keeps_slots(before[x].successors, self.schedules@[x].successors, fixup.slot, continuation, slot);
                    }
                }
                assert forall|j: int| 0 <= j < i + 1 implies slot_holds(
                    self.schedules@[(#[trigger] fx[j]).instr_index as int].successors,
                    fx[j].slot,
                    continuation,
                ) by {
                    lemma_patched_holds(before[x].successors, self.schedules@[x].successors, fixup.slot, continuation, fx[j].slot);
                }
                assert forall|k: int| 0 <= k < start.len() && !(exists|j: int| 0 <= j < i + 1 && (#[trigger] fx[j]).instr_index == k)
                    implies #[trigger] self.schedules@[k] == start[k] by {
                    assert(k != x);
                }
            }
            i = i + 1;
        }
        let ghost patched_all = self.schedules@;
        match frame.if_instr {
            Some(if_idx) => self.patch_not_taken(if_idx, continuation),
            None => {},
        }
        proof {
            assert forall|j: int| 0 <= j < fx.len() implies slot_holds(
                self.schedules@[(#[trigger] fx[j]).instr_index as int].successors,
                fx[j].slot,
                continuation,
            ) by {
                assert(slot_holds(patched_all[fx[j].instr_index as int].successors, fx[j].slot, continuation));
            }
            assert forall|k: int| 0 <= k < start.len() && !fixed_up(fx, k) && frame.if_instr != Some(k as usize)
                implies #[trigger] self.schedules@[k] == start[k] by {
                assert(!(exists|j: int| 0 <= j < fx.len() && (#[trigger] fx[j]).instr_index == k));
                assert(patched_all[k] == start[k]);
            }
            assert(fixups_fit(start, fx));
        }
        if frame.out_arity > u32::MAX - frame.floor {
            return Err(LiftError::RegisterFileOverflow {
                func_index: self.func_index,
                width: frame.floor as u64 + frame.out_arity as u64,
            });
        }
        self.height = frame.floor + frame.out_arity;
        if self.height > self.max_height {
            self.max_height = self.height;
        }
        Ok(self.frames.len() == 0)
    }

    /// Resolves a branch to `relative_depth`, returning the target program point
    /// and registering a fixup when the target frame closes forward.
    fn branch_target(&mut self, relative_depth: u32, instr_index: usize, slot: SuccessorSlot) -> (r: Result<u32, LiftError>)
        requires
            old(self).wf(),
        ensures
            relative_depth >= old(self).frames@.len() ==> r is Err && final(self).frames@ == old(self).frames@,
            relative_depth < old(self).frames@.len() ==> ({
                let idx = old(self).frames@.len() - 1 - relative_depth;
                let f0 = old(self).frames@[idx];
                match f0.loop_header {
                    Some(header) => r == Ok::<u32, LiftError>(header) && final(self).frames@ == old(self).frames@,
                    None => {
                        let f1 = final(self).frames@[idx];
                        &&& r == Ok::<u32, LiftError>(PENDING_BRANCH_TARGET)
                        &&& forall|i: int| 0 <= i < old(self).frames@.len() && i != idx ==> #[trigger] final(self).frames@[i]
                            == old(self).frames@[i]
                        &&& f1.fixups@ == f0.fixups@.push((Fixup { instr_index, slot }))
                        &&& f1.in_arity == f0.in_arity && f1.out_arity == f0.out_arity && f1.floor == f0.floor
                        &&& f1.unreachable == f0.unreachable && f1.loop_header == f0.loop_header && f1.if_instr == f0.if_instr
                    },
                }
            }),
            final(self).wf(),
            final(self).schedules@ == old(self).schedules@,
            final(self).frames@.len() == old(self).frames@.len(),
            final(self).info == old(self).info,
            final(self).fixed(old(self).func_index, old(self).locals_count, old(self).result_arity),
            final(self).height == old(self).height,
            final(self).max_height == old(self).max_height,
            r is Ok ==> final(self).model() == branched_m(old(self).model(), relative_depth, instr_index, slot),
    {
        if relative_depth as usize >= self.frames.len() {
            return Err(LiftError::internal("branch depth exceeds the control stack"));
        }
        let idx = self.frames.len() - 1 - relative_depth as usize;
        match self.frames[idx].loop_header {
            Some(header) => Ok(header),
            None => {
                let mut frame = self.frames.remove(idx);
                frame.fixups.push(Fixup { instr_index, slot });
                let ghost rest = self.frames@;
                self.frames.insert(idx, frame);
                assert forall|i: int| 0 <= i < self.frames@.len() && i != idx implies #[trigger] self.frames@[i] == old(self).frames@[i] by {
                    if i < idx {
                        assert(self.frames@[i] == rest[i]);
                    } else {
                        assert(self.frames@[i] == rest[i - 1]);
                    }
                }
                assert forall|i: int| 0 <= i < self.frames@.len() implies (#[trigger] self.frames@[i]).floor <= self.max_height by {
                    if i < idx {
                        assert(self.frames@[i] == rest[i]);
                        assert(rest[i] == old(self).frames@[i]);
                    } else if i > idx {
                        assert(self.frames@[i] == rest[i - 1]);
                        assert(rest[i - 1] == old(self).frames@[i]);
                    } else {
                        assert(old(self).frames@[i].floor == frame.floor);
                    }
                }
                Ok(PENDING_BRANCH_TARGET)
            },
        }
    }

    fn stack_read(&self, depth_from_top: u32) -> (r: Result<Register, LiftError>)
        ensures
            depth_from_top <= self.height ==> r == Ok::<Register, LiftError>(Register::Stack((self.height - depth_from_top) as u32)),
            depth_from_top > self.height ==> r is Err,
    {
        if depth_from_top > self.height {
            return Err(LiftError::internal("operand-stack read underflows the stack"));
        }
        Ok(Register::Stack(self.height - depth_from_top))
    }

    fn top_reads(&self, n: u32) -> (r: Result<Vec<Register>, LiftError>)
        requires
            self.wf(),
        ensures
            r is Ok <==> n <= self.height,
            r matches Ok(v) ==> v@ == Seq::new(n as nat, |k: int| Register::Stack((self.height - 1 - k) as u32))
                && stack_regs_below(v@, self.height as int),
    {
        let mut out: Vec<Register> = Vec::new();
        let mut k: u32 = 0;
        while k < n
            invariant
                k <= n,
                k <= self.height,
                out@ == Seq::new(k as nat, |j: int| Register::Stack((self.height - 1 - j) as u32)),
            decreases n - k,
        {
            let reg = self.stack_read(k + 1)?;
            out.push(reg);
            k = k + 1;
            assert(out@ =~= Seq::new(k as nat, |j: int| Register::Stack((self.height - 1 - j) as u32)));
        }
        Ok(out)
    }
}

impl<'b, 'a> Lifter<'b, 'a> {
    fn value_regs(&self, eff: &ValueEffect) -> (r: Result<(Vec<Register>, Vec<Register>), LiftError>)
        requires
            self.wf(),
        ensures
            r is Ok <==> eff.pops <= self.height && (eff.is_tee || eff.pushes == 0 || self.height - eff.pops + eff.pushes
                - 1 <= u32::MAX),
            r matches Ok((reads, writes)) ==> reads@ == value_reads(*eff, self.height as int) && writes@
                == value_writes(*eff, self.height as int) && eff.pops <= self.height,
    {
        let mut reads: Vec<Register> = Vec::new();
        match eff.bank_read {
            Some(reg) => reads.push(reg),
            None => {},
        }
        let ghost bank = reads@;
        let mut k: u32 = 0;
        while k < eff.pops
            invariant
                k <= eff.pops,
                k <= self.height,
                reads@ == bank + Seq::new(k as nat, |j: int| Register::Stack((self.height - 1 - j) as u32)),
            decreases eff.pops - k,
        {
            let reg = self.stack_read(k + 1)?;
            reads.push(reg);
            k = k + 1;
            assert(reads@ =~= bank + Seq::new(k as nat, |j: int| Register::Stack((self.height - 1 - j) as u32)));
        }
        assert(reads@ =~= value_reads(*eff, self.height as int));
        let mut writes: Vec<Register> = Vec::new();
        if eff.is_tee {
            match eff.bank_write {
                Some(reg) => writes.push(reg),
                None => {},
            }
        } else {
            if eff.pops > self.height {
                return Err(LiftError::internal("operand-stack write underflows the stack"));
            }
            let base = self.height - eff.pops;
            let mut k: u32 = 0;
            while k < eff.pushes
                invariant
                    k <= eff.pushes,
                    base == self.height - eff.pops,
                    base + k <= u32::MAX + 1,
                    !eff.is_tee,
                    eff.pops <= self.height,
                    writes@ == Seq::new(k as nat, |j: int| Register::Stack((base + j) as u32)),
                decreases eff.pushes - k,
            {
                if k > u32::MAX - base {
                    return Err(LiftError::internal("operand-stack write overflows the stack"));
                }
                writes.push(Register::Stack(base + k));
                k = k + 1;
                assert(writes@ =~= Seq::new(k as nat, |j: int| Register::Stack((base + j) as u32)));
            }
            match eff.bank_write {
                Some(reg) => writes.push(reg),
                None => {},
            }
        }
        assert(writes@ =~= value_writes(*eff, self.height as int));
        Ok((reads, writes))
    }

    /// Whether interpreting `op` at the next program point succeeds: the
    /// program point fits a `u32`, the block type, branch depths and callee
    /// exist, the operand stack holds what reachable code reads, and no height
    /// overflows.
    pub closed spec fn step_ok(&self, op: Instruction) -> bool {
        step_ok_m(self.model(), op, self.info.type_arities@, self.info.func_type_idx@, self.result_arity)
    }

    /// Interprets one operator at the next program point.
    #[verifier::rlimit(100)]
    fn step(&mut self, op: &Instruction, offset: usize) -> (r: Result<(), LiftError>)
        requires
            old(self).wf(),
        ensures
            final(self).wf(),
            final(self).info == old(self).info,
            final(self).fixed(old(self).func_index, old(self).locals_count, old(self).result_arity),
            r is Ok ==> final(self).schedules@.len() == old(self).schedules@.len() + 1 && same_touches(
                old(self).schedules@,
                final(self).schedules@.subrange(0, old(self).schedules@.len() as int),
            ) && final(self).schedules@[old(self).schedules@.len() as int].height_in == old(self).height,
            r is Ok && value_effect(*op, old(self).info.type_arities@, old(self).info.func_type_idx@) is Some
                && old(self).frames@.len() > 0 && !old(self).frames@.last().unreachable ==> final(self).schedules@.last().reads@
                == value_reads(value_effect(*op, old(self).info.type_arities@, old(self).info.func_type_idx@)->0, old(self).height as int)
                && final(self).schedules@.last().writes@ == value_writes(
                value_effect(*op, old(self).info.type_arities@, old(self).info.func_type_idx@)->0,
                old(self).height as int,
            ),
            r is Ok && value_effect(*op, old(self).info.type_arities@, old(self).info.func_type_idx@) is Some
                && !(old(self).frames@.len() > 0 && !old(self).frames@.last().unreachable) ==> final(self).schedules@.last().reads@.len() == 0
                && final(self).schedules@.last().writes@.len() == 0,
            r is Ok ==> reads_condition(final(self).schedules@.last(), *op),
            r is Ok <==> old(self).step_ok(*op),
            r is Ok ==> final(self).model() == next_m(old(self).model(), *op, old(self).info.type_arities@, old(self).info.func_type_idx@),
    {
        if self.schedules.len() > u32::MAX as usize {
            return Err(LiftError::FunctionTooLarge { func_index: self.func_index });
        }
        let pc = self.schedules.len() as u32;
        let height_in = self.height;
        let reachable = self.cur_frame_reachable();
        let ghost s0 = self.schedules@;
        let empty_regs: Vec<Register> = Vec::new();
        let ghost ta = self.info.type_arities@;
        let ghost fti = self.info.func_type_idx@;
        let ghost m0 = self.model();
        match op {
            Instruction::Block { blockty } => {
                let (in_arity, out_arity) = self.block_arity(blockty)?;
                self.push_instr(pc, height_in, Vec::new(), Vec::new(), Successors::Fallthrough);
                self.push_ctrl(in_arity, out_arity, None, None)?;
                assert(self.model() == next_m(m0, *op, ta, fti));
            },
            Instruction::Loop { blockty } => {
                let (in_arity, out_arity) = self.block_arity(blockty)?;
                self.push_instr(pc, height_in, Vec::new(), Vec::new(), Successors::Fallthrough);
                if pc == u32::MAX {
                    return Err(LiftError::FunctionTooLarge { func_index: self.func_index });
                }
                self.push_ctrl(in_arity, out_arity, Some(pc + 1), None)?;
                assert(self.model() == next_m(m0, *op, ta, fti));
            },
            Instruction::If { blockty } => {
                let (in_arity, out_arity) = self.block_arity(blockty)?;
                let mut reads: Vec<Register> = Vec::new();
                if reachable {
                    reads.push(self.stack_read(1)?);
                }
                if pc == u32::MAX {
                    return Err(LiftError::FunctionTooLarge { func_index: self.func_index });
                }
                self.push_instr(pc, height_in, reads, Vec::new(), Successors::Branch { taken: pc + 1, not_taken: PENDING_BRANCH_TARGET });
                self.pop(1);
                self.push_ctrl(in_arity, out_arity, None, Some(pc as usize))?;
                assert(self.model() == next_m(m0, *op, ta, fti));
            },
            Instruction::Else => {
                if self.frames.len() == 0 {
                    return Err(LiftError::internal("`else` with no open control frame"));
                }
                let mut frame = self.frames.pop().unwrap();
                let floor = frame.floor;
                let in_arity = frame.in_arity;
                let if_instr = frame.if_instr;
                frame.if_instr = None;
                self.frames.push(frame);
                let if_idx = match if_instr {
                    Some(i) => i,
                    None => {
                        return Err(LiftError::internal("`else` without a matching `if`"));
                    },
                };
                if pc == u32::MAX {
                    return Err(LiftError::FunctionTooLarge { func_index: self.func_index });
                }
                self.patch_not_taken(if_idx, pc + 1);
                self.push_instr(pc, height_in, Vec::new(), Vec::new(), Successors::Jump(PENDING_BRANCH_TARGET));
                let mut frame = self.frames.pop().unwrap();
                frame.fixups.push(Fixup { instr_index: pc as usize, slot: SuccessorSlot::Jump });
                frame.unreachable = false;
                self.frames.push(frame);
                self.height = floor;
                self.push(in_arity)?;
                assert(self.model() == next_m(m0, *op, ta, fti));
            },
            Instruction::End => {
                self.push_instr(pc, height_in, Vec::new(), Vec::new(), Successors::Fallthrough);
                let closed_function = self.pop_ctrl(pc)?;
                if closed_function {
                    self.set_successors(pc as usize, Successors::Return);
                }
                assert(self.model() == next_m(m0, *op, ta, fti));
            },
            Instruction::Br { relative_depth } => {
                let target = self.branch_target(*relative_depth, pc as usize, SuccessorSlot::Jump)?;
                self.push_instr(pc, height_in, Vec::new(), Vec::new(), Successors::Jump(target));
                self.mark_unreachable();
                assert(self.model() == next_m(m0, *op, ta, fti));
            },
            Instruction::BrIf { relative_depth } => {
                let mut reads: Vec<Register> = Vec::new();
                if reachable {
                    reads.push(self.stack_read(1)?);
                }
                self.pop(1);
                let taken = self.branch_target(*relative_depth, pc as usize, SuccessorSlot::BranchTaken)?;
                if pc == u32::MAX {
                    return Err(LiftError::FunctionTooLarge { func_index: self.func_index });
                }
                self.push_instr(pc, height_in, reads, Vec::new(), Successors::Branch { taken, not_taken: pc + 1 });
                assert(self.model() == next_m(m0, *op, ta, fti));
            },
            Instruction::BrTable { targets, default } => {
                let mut reads: Vec<Register> = Vec::new();
                if reachable {
                    reads.push(self.stack_read(1)?);
                }
                self.pop(1);
                let mut resolved: Vec<u32> = Vec::new();
                let mut i: usize = 0;
                while i < targets.len()
                    invariant
                        self.wf(),
                        self.schedules@ == s0,
                        self.info == old(self).info,
                        self.fixed(old(self).func_index, old(self).locals_count, old(self).result_arity),
                        self.max_height == old(self).max_height,
                        height_in <= self.max_height,
                        stack_regs_below(reads@, self.max_height as int),
                        pc == s0.len(),
                        s0 == old(self).schedules@,
                        i <= targets@.len(),
                        self.frames@.len() == old(self).frames@.len(),
                        op is BrTable && op->targets@ == targets@ && op->default == *default,
                        reachable == (old(self).frames@.len() > 0 && !old(self).frames@.last().unreachable),
                        reachable ==> old(self).height >= 1,
                        forall|k: int| 0 <= k < i ==> #[trigger] targets@[k] < old(self).frames@.len(),
                        m0 == old(self).model(),
                        self.model() == table_m(popped_m(m0, 1), targets@, pc as usize, i as int),
                        forall|j: int| 0 <= j < self.frames@.len() ==> (#[trigger] self.frames@[j]).loop_header == old(self).frames@[j].loop_header,
                        resolved@ == targets@.subrange(0, i as int).map_values(|d: u32| target_m(m0.frames, d)),
                    decreases targets.len() - i,
                {
                    let t = self.branch_target(targets[i], pc as usize, SuccessorSlot::TableEntry(i))?;
                    resolved.push(t);
                    i = i + 1;
                    assert(resolved@ =~= targets@.subrange(0, i as int).map_values(|d: u32| target_m(m0.frames, d)));
                }
                assert(targets@.subrange(0, i as int) =~= targets@);
                let d = self.branch_target(*default, pc as usize, SuccessorSlot::TableDefault)?;
                self.push_instr(pc, height_in, reads, Vec::new(), Successors::Table { targets: resolved, default: d });
                self.mark_unreachable();
                assert(self.model() == next_m(m0, *op, ta, fti));
            },
            Instruction::Return => {
                let reads = if reachable {
                    self.top_reads(self.result_arity)?
                } else {
                    Vec::new()
                };
                self.push_instr(pc, height_in, reads, Vec::new(), Successors::Return);
                self.mark_unreachable();
                assert(self.model() == next_m(m0, *op, ta, fti));
            },
            Instruction::Unreachable => {
                self.push_instr(pc, height_in, Vec::new(), Vec::new(), Successors::Trap);
                self.mark_unreachable();
                assert(self.model() == next_m(m0, *op, ta, fti));
            },
            Instruction::Nop => {
                self.push_instr(pc, height_in, Vec::new(), Vec::new(), Successors::Fallthrough);
                assert(self.model() == next_m(m0, *op, ta, fti));
            },
            _ => {
                let eff = classify_value_op(op, self.info, offset)?;
                let (reads, writes) = if reachable {
                    self.value_regs(&eff)?
                } else {
                    (Vec::new(), Vec::new())
                };
                let ghost floor = Self::floor_of(self.frames@);
                self.pop(eff.pops);
                self.push(eff.pushes)?;
                proof {
                    assert(stack_regs_below(writes@, self.max_height as int)) by {
                        if reachable {
                            assert forall|j: int| 0 <= j < writes@.len() implies (#[trigger] writes@[j] matches Register::Stack(d) ==> d < self.max_height) by {
                                if !eff.is_tee && j < eff.pushes {
                                    assert(writes@[j] == Register::Stack((height_in - eff.pops + j) as u32));
                                }
                            }
                        }
                    }
                }
                self.push_instr(pc, height_in, reads, writes, Successors::Fallthrough);
                assert(self.model() == next_m(m0, *op, ta, fti));
            },
        }
        assert(self.schedules@.subrange(0, s0.len() as int) =~= self.schedules@.subrange(0, s0.len() as int));
        Ok(())
    }
}

/// Whether a program point's schedule carries the register touches its
/// operator's value effect dictates at the point's entry height: for a value
/// operator, either none at all (the point is unreachable) or exactly the
/// effect's reads and writes.
pub open spec fn follows_effect(sched: Schedule, op: Instruction, type_arities: Seq<(u32, u32)>, func_type_idx: Seq<u32>) -> bool {
    match value_effect(op, type_arities, func_type_idx) {
        Some(e) => (sched.reads@.len() == 0 && sched.writes@.len() == 0) || (sched.reads@ == value_reads(
            e,
            sched.height_in as int,
        ) && sched.writes@ == value_writes(e, sched.height_in as int)),
        None => reads_condition(sched, op),
    }
}

/// Whether a conditional or table branch reads nothing or exactly its
/// condition, the operand-stack top at its entry height, and writes nothing.
pub open spec fn reads_condition(sched: Schedule, op: Instruction) -> bool {
    (op is If || op is BrIf || op is BrTable) ==> (sched.reads@.len() == 0 || (sched.height_in >= 1 && sched.reads@
        == seq![Register::Stack((sched.height_in - 1) as u32)])) && sched.writes@.len() == 0
}

/// Whether a lifted function's register file covers every stack register its
/// schedule names, within the supported width.
pub open spec fn register_file_covers(f: LiftedFunction) -> bool {
    &&& schedules_within(f.schedules@, f.max_stack_height as int)
    &&& f.reg_file_width == f.locals_count + f.globals_count + f.max_stack_height
    &&& f.reg_file_width <= MAX_REGISTER_FILE_WIDTH
}

impl<'b, 'a> Lifter<'b, 'a> {
    fn finish(self) -> (r: Result<LiftedFunction, LiftError>)
        requires
            self.wf(),
        ensures
            r is Ok <==> self.frames@.len() == 0 && self.locals_count + self.globals_count + self.max_height
                <= MAX_REGISTER_FILE_WIDTH,
            r matches Ok(f) ==> register_file_covers(f) && f.schedules@ == self.schedules@ && f.func_index
                == self.func_index && f.locals_count == self.locals_count && f.globals_count == self.info.num_globals
                && f.max_stack_height == self.max_height,
    {
        if self.frames.len() != 0 {
            return Err(LiftError::internal("function body ended with an open control frame"));
        }
        let width: u64 = self.locals_count as u64 + self.globals_count as u64 + self.max_height as u64;
        if width > MAX_REGISTER_FILE_WIDTH as u64 {
            return Err(LiftError::RegisterFileOverflow { func_index: self.func_index, width });
        }
        Ok(LiftedFunction {
            func_index: self.func_index,
            locals_count: self.locals_count,
            globals_count: self.globals_count,
            max_stack_height: self.max_height,
            reg_file_width: width as u32,
            schedules: self.schedules,
        })
    }
}

/// The number of declared locals a body's runs add up to.
pub open spec fn declared_count(runs: Seq<(u32, crate::decoder::sections::ValueKind)>) -> int
    decreases runs.len(),
{
    if runs.len() == 0 {
        0
    } else {
        declared_count(runs.drop_last()) + runs.last().0
    }
}

/// Whether lifting body `body`, the defined function at `code_index`, succeeds
/// in a module with the given type arities, function types, imported-function
/// count and global count: its index and type exist, its locals fit a `u32`,
/// every operator interprets in turn, every frame is closed at the end, and
/// the register file fits the supported width.
pub open spec fn lift_ok(
    type_arities: Seq<(u32, u32)>,
    func_types: Seq<u32>,
    num_imported: u32,
    num_globals: u32,
    code_index: usize,
    body: BodyDecl,
) -> bool {
    let fi = num_imported + code_index;
    &&& fi <= u32::MAX
    &&& fi < func_types.len() && func_types[fi] < type_arities.len()
    &&& {
        let locals = type_arities[func_types[fi] as int].0 + declared_count(body.locals@);
        &&& locals <= u32::MAX
        &&& match lift_run(type_arities, func_types, num_imported, code_index, body) {
            Some(m) => m.frames.len() == 0 && locals + num_globals + m.max_height <= MAX_REGISTER_FILE_WIDTH,
            None => false,
        }
    }
}

/// The lift's state after every operator of `body`, the defined function at
/// `code_index`, or `None` where one of them fails.
pub open spec fn lift_run(
    type_arities: Seq<(u32, u32)>,
    func_types: Seq<u32>,
    num_imported: u32,
    code_index: usize,
    body: BodyDecl,
) -> Option<LiftModel> {
    let results = type_arities[func_types[num_imported + code_index] as int].1;
    run_m(entry_model(results), body.instructions@, body.instructions@.len() as int, type_arities, func_types, results)
}

/// A prefix of a body's local runs declares no more locals than the whole.
proof fn lemma_declared_prefix(runs: Seq<(u32, crate::decoder::sections::ValueKind)>, k: int)
    requires
        0 <= k <= runs.len(),
    ensures
        declared_count(runs.subrange(0, k)) <= declared_count(runs),
    decreases runs.len(),
{
    if k < runs.len() {
        lemma_declared_prefix(runs.drop_last(), k);
        assert(runs.drop_last().subrange(0, k) =~= runs.subrange(0, k));
    } else {
        assert(runs.subrange(0, k) =~= runs);
    }
}

/// Once an operator fails, the run stays failed.
proof fn lemma_run_fails_on(start: LiftModel, ops: Seq<Instruction>, k: int, j: int, ta: Seq<(u32, u32)>, ft: Seq<u32>, ra: u32)
    requires
        0 <= k <= j,
        run_m(start, ops, k, ta, ft, ra) is None,
    ensures
        run_m(start, ops, j, ta, ft, ra) is None,
    decreases j - k,
{
    if j > k {
        lemma_run_fails_on(start, ops, k, j - 1, ta, ft, ra);
    }
}

/// Lifts the defined function at `code_index` of the code section to its
/// static register schedule.
pub fn lift_function(info: &ModuleInfo, code_index: usize, func: &BodyDecl) -> (r: Result<LiftedFunction, LiftError>)
    ensures
        r is Ok <==> lift_ok(info.type_arities@, info.func_type_idx@, info.num_imported_funcs, info.num_globals, code_index, *func),
        r matches Ok(f) ==> register_file_covers(f) && f.schedules@.len() == func.instructions@.len() && f.func_index
            == info.num_imported_funcs + code_index && f.globals_count == info.num_globals && f.locals_count
            == info.type_arities@[info.func_type_idx@[f.func_index as int] as int].0 + declared_count(func.locals@),
        r matches Ok(f) ==> targets_within(f.schedules@.map_values(|s: Schedule| succ_model(s.successors))),
        r matches Ok(f) ==> (func.instructions@.len() > 0 && func.instructions@.last() is End ==> f.schedules@.last().successors
            == Successors::Return),
        r matches Ok(f) ==> forall|k: int|
            0 <= k < f.schedules@.len() ==> succ_model(#[trigger] f.schedules@[k].successors) == lift_run(
                info.type_arities@,
                info.func_type_idx@,
                info.num_imported_funcs,
                code_index,
                *func,
            )->0.succs[k],
        r matches Ok(f) ==> forall|k: int|
            0 <= k < f.schedules@.len() ==> follows_effect(
                #[trigger] f.schedules@[k],
                func.instructions@[k],
                info.type_arities@,
                info.func_type_idx@,
            ),
{
    if code_index > (u32::MAX - info.num_imported_funcs) as usize {
        return Err(LiftError::FunctionTooLarge { func_index: 0 });
    }
    let func_index = info.num_imported_funcs + code_index as u32;
    let (param_count, result_arity) = match info.func_arity(func_index) {
        Some(a) => a,
        None => {
            return Err(LiftError::internal("function references an undeclared type"));
        },
    };
    let mut declared: u32 = 0;
    let mut i: usize = 0;
    while i < func.locals.len()
        invariant
            i <= func.locals@.len(),
            declared == declared_count(func.locals@.subrange(0, i as int)),
        decreases func.locals.len() - i,
    {
        let (count, _ty) = func.locals[i];
        assert(func.locals@.subrange(0, i + 1 as int).drop_last() =~= func.locals@.subrange(0, i as int));
        if count > u32::MAX - declared {
            proof {
                lemma_declared_prefix(func.locals@, i + 1);
            }
            return Err(LiftError::RegisterFileOverflow { func_index, width: u32::MAX as u64 });
        }
        declared = declared + count;
        i = i + 1;
    }
    assert(func.locals@.subrange(0, i as int) =~= func.locals@);
    if declared > u32::MAX - param_count {
        return Err(LiftError::RegisterFileOverflow { func_index, width: param_count as u64 + declared as u64 });
    }
    let locals_count = param_count + declared;
    let mut lifter = Lifter::new(info, func_index, locals_count, result_arity);
    let mut k: usize = 0;
    while k < func.instructions.len()
        invariant
            lifter.wf(),
            lifter.info_view() == info,
            lifter.fixed(func_index, locals_count, result_arity),
            k <= func.instructions@.len(),
            lifter.schedules_view().len() == k,
            run_m(entry_model(result_arity), func.instructions@, k as int, info.type_arities@, info.func_type_idx@, result_arity)
                == Some(lifter.model()),
            func_index == info.num_imported_funcs + code_index,
            func_index < info.func_type_idx@.len(),
            info.func_type_idx@[func_index as int] < info.type_arities@.len(),
            (param_count, result_arity) == info.type_arities@[info.func_type_idx@[func_index as int] as int],
            locals_count == param_count + declared_count(func.locals@),
            forall|j: int|
                0 <= j < k ==> follows_effect(
                    #[trigger] lifter.schedules@[j],
                    func.instructions@[j],
                    info.type_arities@,
                    info.func_type_idx@,
                ),
        decreases func.instructions.len() - k,
    {
        let ghost before = lifter.schedules@;
        let offset = if k < func.offsets.len() {
            func.offsets[k]
        } else {
            0
        };
        let stepped = lifter.step(&func.instructions[k], offset);
        if stepped.is_err() {
            proof {
                assert(run_m(entry_model(result_arity), func.instructions@, k + 1, info.type_arities@, info.func_type_idx@, result_arity) is None);
                lemma_run_fails_on(
                    entry_model(result_arity),
                    func.instructions@,
                    k + 1,
                    func.instructions@.len() as int,
                    info.type_arities@,
                    info.func_type_idx@,
                    result_arity,
                );
            }
            return Err(stepped.unwrap_err());
        }
        proof {
            assert forall|j: int| 0 <= j < k + 1 implies follows_effect(
                #[trigger] lifter.schedules@[j],
                func.instructions@[j],
                info.type_arities@,
                info.func_type_idx@,
            ) by {
                if j < k {
                    let now = lifter.schedules@.subrange(0, k as int);
                    assert(now[j] == lifter.schedules@[j]);
                    assert(now[j].reads@ == before[j].reads@ && now[j].writes@ == before[j].writes@
                        && now[j].height_in == before[j].height_in);
                }
            }
        }
        k = k + 1;
    }
    let f = lifter.finish()?;
    proof {
        law_lift_resolves_every_target(
            info.type_arities@,
            info.func_type_idx@,
            info.num_imported_funcs,
            info.num_globals,
            code_index,
            *func,
        );
        assert(f.schedules@.map_values(|s: Schedule| succ_model(s.successors)) =~= lift_run(
            info.type_arities@,
            info.func_type_idx@,
            info.num_imported_funcs,
            code_index,
            *func,
        )->0.succs);
        if func.instructions@.len() > 0 && func.instructions@.last() is End {
            law_lift_last_returns(
                info.type_arities@,
                info.func_type_idx@,
                info.num_imported_funcs,
                info.num_globals,
                code_index,
                *func,
            );
            let last = f.schedules@.len() - 1;
            assert(succ_model(f.schedules@[last].successors) == SuccModel::Return);
        }
    }
    Ok(f)
}

/// Lifts every defined function of `info` to its static register schedule, in
/// code-section order.
pub fn lift_functions(info: &ModuleInfo) -> (r: Result<Vec<LiftedFunction>, LiftError>)
    ensures
        r is Ok <==> forall|i: int|
            0 <= i < info.bodies@.len() ==> lift_ok(
                info.type_arities@,
                info.func_type_idx@,
                info.num_imported_funcs,
                info.num_globals,
                i as usize,
                #[trigger] info.bodies@[i],
            ),
        r matches Ok(fs) ==> fs@.len() == info.bodies@.len() && forall|i: int| 0 <= i < fs@.len() ==> {
            &&& register_file_covers(#[trigger] fs@[i])
            &&& fs@[i].schedules@.len() == info.bodies@[i].instructions@.len()
            &&& fs@[i].func_index == info.num_imported_funcs + i
            &&& fs@[i].globals_count == info.num_globals
            &&& targets_within(fs@[i].schedules@.map_values(|s: Schedule| succ_model(s.successors)))
            &&& info.bodies@[i].instructions@.len() > 0 && info.bodies@[i].instructions@.last() is End
                ==> fs@[i].schedules@.last().successors == Successors::Return
            &&& fs@[i].locals_count == info.type_arities@[info.func_type_idx@[fs@[i].func_index as int] as int].0
                + declared_count(info.bodies@[i].locals@)
            &&& forall|k: int|
                0 <= k < fs@[i].schedules@.len() ==> succ_model(#[trigger] fs@[i].schedules@[k].successors) == lift_run(
                    info.type_arities@,
                    info.func_type_idx@,
                    info.num_imported_funcs,
                    i as usize,
                    info.bodies@[i],
                )->0.succs[k]
            &&& forall|k: int|
                0 <= k < fs@[i].schedules@.len() ==> follows_effect(
                    #[trigger] fs@[i].schedules@[k],
                    info.bodies@[i].instructions@[k],
                    info.type_arities@,
                    info.func_type_idx@,
                )
        },
{
    let mut out: Vec<LiftedFunction> = Vec::new();
    let mut i: usize = 0;
    while i < info.bodies.len()
        invariant
            i <= info.bodies@.len(),
            out@.len() == i,
            forall|j: int|
                0 <= j < i ==> lift_ok(
                    info.type_arities@,
                    info.func_type_idx@,
                    info.num_imported_funcs,
                    info.num_globals,
                    j as usize,
                    #[trigger] info.bodies@[j],
                ),
            forall|j: int| 0 <= j < i ==> {
                &&& register_file_covers(#[trigger] out@[j])
                &&& out@[j].schedules@.len() == info.bodies@[j].instructions@.len()
                &&& out@[j].func_index == info.num_imported_funcs + j
                &&& out@[j].globals_count == info.num_globals
                &&& targets_within(out@[j].schedules@.map_values(|s: Schedule| succ_model(s.successors)))
                &&& info.bodies@[j].instructions@.len() > 0 && info.bodies@[j].instructions@.last() is End
                    ==> out@[j].schedules@.last().successors == Successors::Return
                &&& out@[j].locals_count == info.type_arities@[info.func_type_idx@[out@[j].func_index as int] as int].0
                    + declared_count(info.bodies@[j].locals@)
                &&& forall|k: int|
                    0 <= k < out@[j].schedules@.len() ==> succ_model(#[trigger] out@[j].schedules@[k].successors) == lift_run(
                        info.type_arities@,
                        info.func_type_idx@,
                        info.num_imported_funcs,
                        j as usize,
                        info.bodies@[j],
                    )->0.succs[k]
                &&& forall|k: int|
                    0 <= k < out@[j].schedules@.len() ==> follows_effect(
                        #[trigger] out@[j].schedules@[k],
                        info.bodies@[j].instructions@[k],
                        info.type_arities@,
                        info.func_type_idx@,
                    )
            },
        decreases info.bodies.len() - i,
    {
        let f = lift_function(info, i, &info.bodies[i])?;
        out.push(f);
        i = i + 1;
    }
    Ok(out)
}

/// A copy of a branch table's targets.
fn copy_targets(targets: &Vec<u32>) -> (r: Vec<u32>)
    ensures
        r@ == targets@,
{
    let mut out: Vec<u32> = Vec::new();
    let mut i: usize = 0;
    while i < targets.len()
        invariant
            i <= targets@.len(),
            out@ == targets@.subrange(0, i as int),
        decreases targets.len() - i,
    {
        out.push(targets[i]);
        i = i + 1;
        assert(out@ =~= targets@.subrange(0, i as int));
    }
    assert(targets@.subrange(0, i as int) =~= targets@);
    out
}

} // verus!
