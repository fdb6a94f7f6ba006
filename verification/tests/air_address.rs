use ananse::air::constraints::address::evaluate;
use ananse::air::constraints::FIELD_ORDER;
use ananse::decoder::opcode::OpCode;
use ananse::trace::layout::{bus_slot, slot, COL_FRAME_BASE, COL_HEIGHT, COL_IMM, REGISTER_REGION, SELECTOR_BASE};
use ananse::trace::selector::{opcode_index, NUM_SELECTORS};

fn row_for(op: OpCode) -> Vec<u64> {
    let mut row = vec![0u64; SELECTOR_BASE + NUM_SELECTORS];
    row[SELECTOR_BASE + opcode_index(op)] = 1;
    row
}

#[test]
fn a_push_binds_its_slot_to_the_new_top() {
    let mut row = row_for(OpCode::I32Const);
    row[COL_HEIGHT] = 3;
    row[bus_slot(0) + slot::ADDR] = REGISTER_REGION + 5 + 3;
    row[bus_slot(0) + slot::ACTIVE] = 1;
    row[bus_slot(0) + slot::IS_WRITE] = 1;
    let r = evaluate(&row, 5);
    assert_eq!(r.len(), 58);
    assert!(r.iter().all(|&v| v == 0));

    row[bus_slot(0) + slot::ADDR] += 1;
    let r = evaluate(&row, 5);
    assert_eq!(r[18], 1);
    assert_eq!(r.iter().filter(|&&v| v != 0).count(), 1);

    row[bus_slot(0) + slot::ADDR] -= 2;
    let r = evaluate(&row, 5);
    assert_eq!(r[18], FIELD_ORDER - 1);
}

#[test]
fn a_local_get_reads_its_bank_slot_and_pushes() {
    let mut row = row_for(OpCode::LocalGet);
    row[COL_FRAME_BASE] = 100;
    row[COL_IMM] = 2;
    row[COL_HEIGHT] = 1;
    row[bus_slot(0) + slot::ADDR] = 100 + REGISTER_REGION + 2;
    row[bus_slot(0) + slot::ACTIVE] = 1;
    row[bus_slot(1) + slot::ADDR] = 100 + REGISTER_REGION + 7 + 1;
    row[bus_slot(1) + slot::ACTIVE] = 1;
    row[bus_slot(1) + slot::IS_WRITE] = 1;
    assert!(evaluate(&row, 7).iter().all(|&v| v == 0));

    row[bus_slot(2) + slot::ACTIVE] = 1;
    let r = evaluate(&row, 7);
    assert_eq!(r[16], 1);
    assert_eq!(r.iter().filter(|&&v| v != 0).count(), 1);
}

#[test]
fn an_add_reads_two_operands_and_writes_over_the_deeper() {
    let mut row = row_for(OpCode::I32Add);
    row[COL_HEIGHT] = 2;
    row[bus_slot(0) + slot::ADDR] = REGISTER_REGION + 1;
    row[bus_slot(1) + slot::ADDR] = REGISTER_REGION;
    row[bus_slot(2) + slot::ADDR] = REGISTER_REGION;
    for s in 0..3 {
        row[bus_slot(s) + slot::ACTIVE] = 1;
    }
    row[bus_slot(2) + slot::IS_WRITE] = 1;
    assert!(evaluate(&row, 0).iter().all(|&v| v == 0));

    row[bus_slot(2) + slot::IS_WRITE] = 0;
    let r = evaluate(&row, 0);
    assert_eq!(r[9], FIELD_ORDER - 1);
}
