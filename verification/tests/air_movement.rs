use ananse::air::constraints::movement::evaluate;
use ananse::air::constraints::FIELD_ORDER;
use ananse::decoder::opcode::OpCode;
use ananse::trace::layout::{bus_slot, slot, SELECTOR_BASE};
use ananse::trace::selector::{opcode_index, NUM_SELECTORS};

fn row_for(op: OpCode) -> Vec<u64> {
    let mut row = vec![0u64; SELECTOR_BASE + NUM_SELECTORS];
    row[SELECTOR_BASE + opcode_index(op)] = 1;
    row
}

#[test]
fn a_copy_writes_the_value_it_reads() {
    let mut row = row_for(OpCode::LocalGet);
    row[bus_slot(0) + slot::LO] = 5;
    row[bus_slot(0) + slot::HI] = 6;
    row[bus_slot(1) + slot::LO] = 5;
    row[bus_slot(1) + slot::HI] = 6;
    assert_eq!(evaluate(&row), vec![0, 0, 0, 0]);
    row[bus_slot(1) + slot::HI] = 7;
    assert_eq!(evaluate(&row), vec![0, 1, 0, 0]);
}

#[test]
fn a_wrap_keeps_the_low_limb_and_clears_the_high() {
    let mut row = row_for(OpCode::I32WrapI64);
    row[bus_slot(0) + slot::LO] = 9;
    row[bus_slot(0) + slot::HI] = 4;
    row[bus_slot(1) + slot::LO] = 9;
    assert_eq!(evaluate(&row), vec![0, 0, 0, 0]);
    row[bus_slot(1) + slot::LO] = 8;
    row[bus_slot(1) + slot::HI] = 2;
    assert_eq!(evaluate(&row), vec![0, 0, FIELD_ORDER - 1, 2]);
}
