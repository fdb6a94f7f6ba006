use ananse::executor::record::{MemAccess, StepRecord, Transition};
use ananse::decoder::opcode::OpCode;
use ananse::trace::error::TraceError;
use ananse::trace::memory::{access_log, validate, MemoryAccess};
use ananse::trace::layout::{bus_slot, main_width, sorted_slot, witness_base, BUS_BASE, SELECTOR_BASE, SORTED_BASE};
use ananse::trace::selector::{opcode_index, NUM_OPCODES};

fn access(address: u64, step: usize, value: u64, is_write: bool) -> MemoryAccess {
    MemoryAccess { address, step, value, is_write }
}

#[test]
fn load_agrees_with_the_preceding_store() {
    let log = vec![access(8, 0, 123, true), access(8, 1, 123, false)];
    assert_eq!(validate(&log), Ok(()));
}

#[test]
fn load_disagreeing_with_the_last_store_is_rejected() {
    let log = vec![access(8, 0, 123, true), access(8, 1, 999, false)];
    assert_eq!(validate(&log), Err(TraceError::MemoryInconsistent { address: 8, step: 1 }));
}

#[test]
fn a_first_load_establishes_the_address_value() {
    let log = vec![access(4, 0, 7, false), access(4, 3, 7, false)];
    assert_eq!(validate(&log), Ok(()));
}

#[test]
fn addresses_are_validated_independently() {
    let log = vec![access(4, 0, 1, true), access(4, 2, 1, false), access(8, 1, 2, true), access(8, 3, 2, false)];
    assert_eq!(validate(&log), Ok(()));
}

#[test]
fn a_store_may_change_the_value_a_later_load_sees() {
    let log = vec![access(4, 0, 1, true), access(4, 1, 9, true), access(4, 2, 9, false)];
    assert_eq!(validate(&log), Ok(()));
    let bad = vec![access(4, 0, 1, true), access(4, 1, 9, true), access(4, 2, 1, false)];
    assert_eq!(validate(&bad), Err(TraceError::MemoryInconsistent { address: 4, step: 2 }));
}

fn record(memory: Vec<MemAccess>) -> StepRecord {
    StepRecord {
        func_index: 0,
        pc: 0,
        opcode: OpCode::Nop,
        reads: Vec::new(),
        writes: Vec::new(),
        memory,
        transition: Transition::Next(1),
    }
}

#[test]
fn access_log_sorts_by_address_then_step() {
    let records = vec![
        record(vec![MemAccess { address: 16, width: 4, value: 5, store: true }]),
        record(vec![MemAccess { address: 8, width: 4, value: 6, store: true }]),
        record(Vec::new()),
        record(vec![MemAccess { address: 16, width: 4, value: 5, store: false }]),
    ];
    let log = access_log(&records);
    assert_eq!(log, vec![access(8, 1, 6, true), access(16, 0, 5, true), access(16, 3, 5, false)]);
    assert_eq!(validate(&log), Ok(()));
}

#[test]
fn layout_columns_follow_each_other() {
    assert_eq!(bus_slot(0), BUS_BASE);
    assert_eq!(bus_slot(1), BUS_BASE + 5);
    assert_eq!(sorted_slot(0), SORTED_BASE);
    assert_eq!(witness_base(), SELECTOR_BASE + 104);
    assert_eq!(main_width(), 163);
}

#[test]
fn opcode_selectors_are_distinct_and_in_range() {
    assert_eq!(opcode_index(OpCode::Unreachable), 0);
    assert_eq!(opcode_index(OpCode::I64Xor), 94);
    assert_eq!(opcode_index(OpCode::I64ExtendI32U), NUM_OPCODES - 1);
}
