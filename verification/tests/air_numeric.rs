use ananse::air::constraints::numeric::evaluate;
use ananse::decoder::opcode::OpCode;
use ananse::trace::layout::{bus_slot, slot, SELECTOR_BASE};
use ananse::trace::selector::{opcode_index, NUM_SELECTORS};

fn row_for(op: OpCode, c2: (u64, u64), c1: (u64, u64), r: (u64, u64)) -> Vec<u64> {
    let mut row = vec![0u64; SELECTOR_BASE + NUM_SELECTORS];
    row[SELECTOR_BASE + opcode_index(op)] = 1;
    row[bus_slot(0) + slot::LO] = c2.0;
    row[bus_slot(0) + slot::HI] = c2.1;
    row[bus_slot(1) + slot::LO] = c1.0;
    row[bus_slot(1) + slot::HI] = c1.1;
    row[bus_slot(2) + slot::LO] = r.0;
    row[bus_slot(2) + slot::HI] = r.1;
    row
}

#[test]
fn a_32_bit_add_balances_its_low_limbs() {
    assert_eq!(evaluate(&row_for(OpCode::I32Add, (4, 0), (3, 0), (7, 0))), vec![0; 5]);
    assert_eq!(evaluate(&row_for(OpCode::I32Add, (4, 0), (3, 0), (7, 1))), vec![0, 0, 1, 0, 0]);
}

#[test]
fn a_64_bit_add_carries_into_the_high_limb() {
    let row = row_for(OpCode::I64Add, (1, 0), (0xFFFF_FFFF, 0), (0, 1));
    assert_eq!(evaluate(&row), vec![0; 5]);
    let row = row_for(OpCode::I64Add, (1, 0), (0xFFFF_FFFF, 0), (0, 0));
    assert_eq!(evaluate(&row), vec![0, 0, 0, 0xFFFF_FFFE_0000_0002, 0]);
}

#[test]
fn a_64_bit_sub_borrows_from_the_high_limb() {
    let row = row_for(OpCode::I64Sub, (1, 0), (0, 1), (0xFFFF_FFFF, 0));
    assert_eq!(evaluate(&row), vec![0; 5]);
}
