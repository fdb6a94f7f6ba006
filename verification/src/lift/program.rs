use vstd::prelude::*;

verus! {

/// A register operand referenced by a lifted instruction.
///
/// The operand stack, locals, and globals form one per-function register file
/// whose addresses are fixed at analysis time, in three banks: locals (function
/// parameters followed by declared locals), module globals, and operand-stack
/// slots addressed by absolute depth (`0` is the bottom of the stack).
#[derive(Debug, Clone, Copy, PartialEq, Eq, Hash, Structural)]
pub enum Register {
    /// A local slot, addressed by its WebAssembly local index.
    Local(u32),
    /// A module global, addressed by its WebAssembly global index.
    Global(u32),
    /// An operand-stack slot, addressed by its absolute depth.
    Stack(u32),
}

/// The in-function control-flow successor(s) of a lifted instruction.
#[derive(Debug, Clone, PartialEq, Eq)]
pub enum Successors {
    /// Control falls through to the next program point (`pc + 1`).
    Fallthrough,
    /// Unconditional transfer to a single target program point.
    Jump(u32),
    /// Two-way branch: `taken` when the condition holds, `not_taken` otherwise.
    Branch {
        /// Target entered when the condition is non-zero.
        taken: u32,
        /// Target entered when the condition is zero.
        not_taken: u32,
    },
    /// Multi-way branch (`br_table`): one target per table entry plus a default.
    Table {
        /// Targets selected by the branch index, in table order.
        targets: Vec<u32>,
        /// Target selected when the index is out of range.
        default: u32,
    },
    /// The instruction returns from the function.
    Return,
    /// The instruction traps unconditionally (`unreachable`).
    Trap,
}

/// The static schedule for a single WebAssembly instruction.
#[derive(Debug, Clone, PartialEq, Eq)]
pub struct Schedule {
    /// Program point: the instruction's zero-based index within the body.
    pub pc: u32,
    /// Operand-stack height immediately before the instruction executes.
    pub height_in: u32,
    /// Registers read, top of the operand stack first. Empty in unreachable code.
    pub reads: Vec<Register>,
    /// Registers written. Empty in unreachable code.
    pub writes: Vec<Register>,
    /// In-function control-flow successor(s).
    pub successors: Successors,
}

/// A lifted WebAssembly function: its register-file dimensions and
/// per-program-point instruction schedule.
#[derive(Debug, Clone, PartialEq, Eq)]
pub struct LiftedFunction {
    /// Index of this function in the module's function index space.
    pub func_index: u32,
    /// Number of local slots: function parameters plus declared locals.
    pub locals_count: u32,
    /// Number of module globals addressable by this function.
    pub globals_count: u32,
    /// Maximum operand-stack height reached anywhere in the body.
    pub max_stack_height: u32,
    /// Width of the register file, `locals_count + globals_count + max_stack_height`.
    pub reg_file_width: u32,
    /// Per-program-point instruction schedule in body order.
    pub schedules: Vec<Schedule>,
}

/// The result of lifting a validated module: one [`LiftedFunction`] per
/// defined function, in code-section order.
#[derive(Debug, Clone, PartialEq, Eq)]
pub struct LiftedProgram {
    /// Lifted functions in code-section order.
    pub functions: Vec<LiftedFunction>,
}

/// A forward branch whose target becomes known when its frame closes.
#[derive(Debug, Clone, Copy, PartialEq, Eq)]
pub struct Fixup {
    /// Index of the instruction whose successor target must be patched.
    pub instr_index: usize,
    /// Which successor field of that instruction to patch.
    pub slot: SuccessorSlot,
}

/// Which successor field of a branch a [`Fixup`] patches.
#[derive(Debug, Clone, Copy, PartialEq, Eq)]
pub enum SuccessorSlot {
    Jump,
    BranchTaken,
    TableEntry(usize),
    TableDefault,
}

/// A WebAssembly structured-control frame, tracked as the lift walks a body.
#[derive(Debug, Clone, PartialEq, Eq)]
pub struct CtrlFrame {
    /// Values a branch to a loop header carries.
    pub in_arity: u32,
    /// Values a branch past the matching `end` carries.
    pub out_arity: u32,
    /// Operand-stack height at frame entry, below the frame's inputs.
    pub floor: u32,
    /// Whether the current point in this frame is unreachable (dead code).
    pub unreachable: bool,
    /// `Some(header_pc)` for a `loop`; `None` for forward-closing frames.
    pub loop_header: Option<u32>,
    /// Forward branches awaiting this frame's continuation, patched at `end`.
    pub fixups: Vec<Fixup>,
    /// For an `if` frame, the `if` whose `not_taken` target is still pending.
    pub if_instr: Option<usize>,
}

/// The stack effect and register touches of a non-control value instruction.
#[derive(Debug, Clone, Copy, PartialEq, Eq)]
pub struct ValueEffect {
    pub pops: u32,
    pub pushes: u32,
    pub bank_read: Option<Register>,
    pub bank_write: Option<Register>,
    /// `local.tee`: reads the operand-stack top and writes a local while leaving
    /// the top in place, so its stack slot is not rewritten.
    pub is_tee: bool,
}

impl ValueEffect {
    /// An effect on the operand stack alone.
    pub open spec fn stack_spec(pops: u32, pushes: u32) -> Self {
        ValueEffect { pops, pushes, bank_read: None, bank_write: None, is_tee: false }
    }

    /// A read of a local or global pushed onto the operand stack.
    pub open spec fn bank_read_spec(reg: Register) -> Self {
        ValueEffect { pops: 0, pushes: 1, bank_read: Some(reg), bank_write: None, is_tee: false }
    }

    /// The operand-stack top popped into a local or global.
    pub open spec fn bank_write_spec(reg: Register) -> Self {
        ValueEffect { pops: 1, pushes: 0, bank_read: None, bank_write: Some(reg), is_tee: false }
    }

    /// The operand-stack top copied into a local, left in place.
    pub open spec fn tee_spec(reg: Register) -> Self {
        ValueEffect { pops: 1, pushes: 1, bank_read: None, bank_write: Some(reg), is_tee: true }
    }

    /// An effect on the operand stack alone.
    pub fn stack(pops: u32, pushes: u32) -> (r: Self)
        ensures
            r == (ValueEffect { pops, pushes, bank_read: None, bank_write: None, is_tee: false }),
    {
        ValueEffect { pops, pushes, bank_read: None, bank_write: None, is_tee: false }
    }

    /// A read of a local or global pushed onto the operand stack.
    pub fn bank_read(reg: Register) -> (r: Self)
        ensures
            r == (ValueEffect {
                pops: 0,
                pushes: 1,
                bank_read: Some(reg),
                bank_write: None,
                is_tee: false,
            }),
    {
        ValueEffect { pops: 0, pushes: 1, bank_read: Some(reg), bank_write: None, is_tee: false }
    }

    /// The operand-stack top popped into a local or global.
    pub fn bank_write(reg: Register) -> (r: Self)
        ensures
            r == (ValueEffect {
                pops: 1,
                pushes: 0,
                bank_read: None,
                bank_write: Some(reg),
                is_tee: false,
            }),
    {
        ValueEffect { pops: 1, pushes: 0, bank_read: None, bank_write: Some(reg), is_tee: false }
    }

    /// The operand-stack top copied into a local, left in place.
    pub fn tee(reg: Register) -> (r: Self)
        ensures
            r == (ValueEffect {
                pops: 1,
                pushes: 1,
                bank_read: None,
                bank_write: Some(reg),
                is_tee: true,
            }),
    {
        ValueEffect { pops: 1, pushes: 1, bank_read: None, bank_write: Some(reg), is_tee: true }
    }
}

} // verus!
