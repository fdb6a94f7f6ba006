use ananse::decoder::opcode::OpCode;
use ananse::decoder::types::Word;
use ananse::executor::record::{MemAccess, RegAccess, StepRecord, Transition};
use ananse::lift::program::{LiftedFunction, LiftedProgram, Register};
use ananse::trace::access::{access_stream, execution_log, immediate_offset, row_accesses, validate, Access};
use ananse::trace::error::TraceError;
use ananse::trace::frame::ExecFrame;

const REGION: u64 = 1 << 32;

fn frame() -> ExecFrame {
    ExecFrame { locals: 2, globals: 1, width: 6 }
}

fn reg(reg: Register, value: Word) -> RegAccess {
    RegAccess { reg, value }
}

fn record(opcode: OpCode, reads: Vec<RegAccess>, writes: Vec<RegAccess>, memory: Vec<MemAccess>) -> StepRecord {
    StepRecord { func_index: 0, pc: 0, opcode, reads, writes, memory, transition: Transition::Next(1) }
}

fn access(address: u64, timestamp: u64, lo: u64, hi: u64, is_write: bool) -> Access {
    Access { address, timestamp, lo, hi, is_write }
}

#[test]
fn a_row_lays_reads_then_memory_then_writes_on_the_bus() {
    // i64.store-like row: two stack reads, one memory write, no register write.
    let r = record(
        OpCode::I64Add,
        vec![reg(Register::Stack(1), Word::I64(0x1_0000_0002)), reg(Register::Local(0), Word::I32(5))],
        vec![reg(Register::Stack(0), Word::I64(7))],
        vec![MemAccess { address: 16, width: 8, value: 0x2_0000_0003, store: true }],
    );
    let row = row_accesses(3, &r, frame()).unwrap();
    assert_eq!(
        row,
        vec![
            access(REGION + 4, 12, 2, 1, false),
            access(REGION, 13, 5, 0, false),
            access(16, 14, 3, 2, true),
            access(REGION + 3, 15, 7, 0, true),
        ]
    );
}

#[test]
fn a_row_with_more_accesses_than_the_bus_holds_overflows() {
    let reads = (0..5).map(|d| reg(Register::Stack(d), Word::I32(d))).collect();
    let r = record(OpCode::Nop, reads, vec![], vec![]);
    let wide = ExecFrame { locals: 0, globals: 0, width: 8 };
    assert_eq!(row_accesses(2, &r, wide), Err(TraceError::AccessOverflow { step: 2, count: 5 }));
}

#[test]
fn the_first_register_outside_the_frame_is_named() {
    let r = record(
        OpCode::I32Add,
        vec![reg(Register::Stack(2), Word::I32(1)), reg(Register::Stack(9), Word::I32(2))],
        vec![reg(Register::Global(4), Word::I32(3))],
        vec![],
    );
    assert_eq!(
        row_accesses(0, &r, frame()),
        Err(TraceError::RegisterOutOfRange { register: Register::Stack(9), width: 6 })
    );
}

#[test]
fn the_stream_concatenates_rows_in_execution_order() {
    let a = record(OpCode::I32Const, vec![], vec![reg(Register::Stack(0), Word::I32(9))], vec![]);
    let b = record(OpCode::LocalSet, vec![reg(Register::Stack(0), Word::I32(9))], vec![reg(Register::Local(1), Word::I32(9))], vec![]);
    let log = access_stream(&[a, b], frame()).unwrap();
    assert_eq!(
        log,
        vec![access(REGION + 3, 0, 9, 0, true), access(REGION + 3, 4, 9, 0, false), access(REGION + 1, 5, 9, 0, true)]
    );
    assert_eq!(validate(&log), Ok(()));
}

#[test]
fn the_stream_reports_the_earliest_failing_row() {
    let bad = record(OpCode::Drop, vec![reg(Register::Stack(7), Word::I32(0))], vec![], vec![]);
    let good = record(OpCode::Nop, vec![], vec![], vec![]);
    assert_eq!(
        access_stream(&[good, bad.clone(), bad], frame()),
        Err(TraceError::RegisterOutOfRange { register: Register::Stack(7), width: 6 })
    );
}

#[test]
fn a_read_disagreeing_with_the_last_write_is_rejected_with_its_step() {
    let log = vec![access(REGION + 3, 1, 9, 0, true), access(REGION + 3, 9, 8, 0, false), access(REGION, 0, 1, 0, false)];
    assert_eq!(validate(&log), Err(TraceError::AccessInconsistent { address: REGION + 3, step: 2 }));
}

#[test]
fn validation_sorts_by_address_then_time() {
    // Out of order on input; consistent once sorted.
    let log = vec![access(40, 8, 3, 0, false), access(40, 2, 3, 0, true), access(8, 5, 1, 1, false)];
    assert_eq!(validate(&log), Ok(()));
}

#[test]
fn the_immediate_is_the_first_local_or_global_touched() {
    let r = record(
        OpCode::GlobalSet,
        vec![reg(Register::Stack(0), Word::I32(1))],
        vec![reg(Register::Global(0), Word::I32(1))],
        vec![],
    );
    assert_eq!(immediate_offset(&r, frame()), Ok(2));
    let none = record(OpCode::I32Add, vec![reg(Register::Stack(0), Word::I32(1))], vec![], vec![]);
    assert_eq!(immediate_offset(&none, frame()), Ok(0));
    let outside = record(OpCode::LocalGet, vec![], vec![reg(Register::Local(6), Word::I32(1))], vec![]);
    assert_eq!(
        immediate_offset(&outside, frame()),
        Err(TraceError::RegisterOutOfRange { register: Register::Local(6), width: 6 })
    );
}

fn function(func_index: u32) -> LiftedFunction {
    LiftedFunction {
        func_index,
        locals_count: 2,
        globals_count: 1,
        max_stack_height: 3,
        reg_file_width: 6,
        schedules: vec![],
    }
}

#[test]
fn an_execution_log_needs_records_of_one_known_frame() {
    let program = LiftedProgram { functions: vec![function(1), function(0)] };
    assert_eq!(execution_log(&program, &[]), Err(TraceError::EmptyExecution));

    let mut other = record(OpCode::Nop, vec![], vec![], vec![]);
    other.func_index = 1;
    let here = record(OpCode::Nop, vec![], vec![], vec![]);
    assert_eq!(execution_log(&program, &[here.clone(), other]), Err(TraceError::UnsupportedCall));

    let mut call = here.clone();
    call.transition = Transition::Call { callee: 1, return_pc: 1 };
    assert_eq!(execution_log(&program, &[call]), Err(TraceError::UnsupportedCall));

    let mut unknown = here.clone();
    unknown.func_index = 7;
    assert_eq!(execution_log(&program, &[unknown]), Err(TraceError::InconsistentSchedule { func_index: 7 }));

    let write = record(OpCode::I32Const, vec![], vec![reg(Register::Stack(0), Word::I32(4))], vec![]);
    let (f, log) = execution_log(&program, &[write]).unwrap();
    assert_eq!(f, frame());
    assert_eq!(log, vec![access(REGION + 3, 0, 4, 0, true)]);
}
