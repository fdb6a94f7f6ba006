use ananse::decoder::opcode::OpCode;
use ananse::decoder::types::Word;
use ananse::executor::record::{RegAccess, StepRecord, Transition};
use ananse::lift::program::{LiftedFunction, Register, Schedule, Successors};
use ananse::trace::access::Access;
use ananse::trace::error::TraceError;
use ananse::trace::fill::{
    fill_bitwise, fill_borrow, fill_comparison, fill_is_zero, fill_pcdata, fill_popcount, fill_sign, fill_sorted_log,
    write_bytes, write_value_bytes, BorrowWitness, ComparisonWitness, IsZeroWitness, LogEntry, SignWitness,
};

const P: u64 = 0xFFFF_FFFF_0000_0001;

fn record(opcode: OpCode, reads: Vec<Word>, writes: Vec<Word>) -> StepRecord {
    let reg = |value: Word| RegAccess { reg: Register::Stack(0), value };
    StepRecord {
        func_index: 0,
        pc: 0,
        opcode,
        reads: reads.into_iter().map(reg).collect(),
        writes: writes.into_iter().map(reg).collect(),
        memory: vec![],
        transition: Transition::Next(1),
    }
}

fn access(address: u64, timestamp: u64) -> Access {
    Access { address, timestamp, lo: 0, hi: 0, is_write: false }
}

#[test]
fn bytes_are_written_least_significant_first() {
    assert_eq!(write_bytes(0x1234_5678, 4), vec![0x78, 0x56, 0x34, 0x12]);
    assert_eq!(write_bytes(0x0102_0304_0506_0708, 8), vec![8, 7, 6, 5, 4, 3, 2, 1]);
    assert_eq!(write_bytes(0xABCD, 1), vec![0xCD]);
    assert_eq!(write_value_bytes(0xFFFF_FFFF), vec![0xFF; 4]);
}

#[test]
fn a_low_borrow_carries_into_the_high_limb() {
    // lhs = 5 + 1 * 2^32, rhs = 7: lhs is the larger.
    let w = fill_borrow((5, 1), (7, 0));
    assert_eq!(w, BorrowWitness { dlo: (1 << 32) - 2, dhi: 0, borrow_lo: 1, borrow_hi: 0 });
}

#[test]
fn the_high_borrow_marks_the_smaller_operand() {
    // lhs = 3, rhs = 3 + 2^32.
    let w = fill_borrow((3, 0), (3, 1));
    assert_eq!(w, BorrowWitness { dlo: 0, dhi: 0xFFFF_FFFF, borrow_lo: 0, borrow_hi: 1 });
    assert_eq!(fill_borrow((9, 9), (9, 9)).borrow_hi, 0);
}

#[test]
fn a_limb_splits_into_its_sign_and_rest() {
    assert_eq!(fill_sign(0x8000_0005), SignWitness { rest: 5, top: 0, sign: 1 });
    assert_eq!(fill_sign(0x7F00_0000), SignWitness { rest: 0x7F00_0000, top: 0xFE, sign: 0 });
    assert_eq!(fill_sign(0xFFFF_FFFF), SignWitness { rest: 0x7FFF_FFFF, top: 0xFE, sign: 1 });
}

#[test]
fn equal_limbs_have_a_vanishing_gap() {
    assert_eq!(fill_is_zero((1, 2), (1, 2)), IsZeroWitness { equal: 1, inv: 0 });
}

#[test]
fn a_nonzero_gap_carries_its_inverse() {
    let w = fill_is_zero((3, 0), (1, 0));
    assert_eq!(w.equal, 0);
    assert_eq!(w.inv, (P + 1) / 2);
    assert_eq!((2u128 * w.inv as u128 % P as u128) as u64, 1);
    // A gap of -1: its inverse is -1.
    assert_eq!(fill_is_zero((0, 0), (1, 0)), IsZeroWitness { equal: 0, inv: P - 1 });
}

#[test]
fn values_a_field_order_apart_share_a_vanishing_gap() {
    // 0xFFFF_FFFF_0000_0001 and 0 differ by the field order itself.
    assert_eq!(fill_is_zero((1, 0xFFFF_FFFF), (0, 0)).equal, 1);
}

#[test]
fn a_signed_64_bit_comparison_carries_every_witness() {
    // i64.lt_s with lhs = -1 (read second) and rhs = 2 (read first).
    let r = record(OpCode::I64LtS, vec![Word::I64(2), Word::I64(u64::MAX)], vec![Word::I32(1)]);
    let w = fill_comparison(&r);
    assert_eq!(w.borrow, Some(fill_borrow((0xFFFF_FFFF, 0xFFFF_FFFF), (2, 0))));
    assert_eq!(w.is_zero.unwrap().equal, 0);
    assert_eq!(w.sign_a, Some(SignWitness { rest: 0x7FFF_FFFF, top: 0xFE, sign: 1 }));
    assert_eq!(w.sign_b, Some(SignWitness { rest: 0, top: 0, sign: 0 }));
}

#[test]
fn a_signed_32_bit_comparison_signs_the_low_limbs() {
    let r = record(OpCode::I32GeS, vec![Word::I32(0x8000_0000), Word::I32(4)], vec![Word::I32(1)]);
    let w = fill_comparison(&r);
    assert_eq!(w.sign_a, Some(SignWitness { rest: 4, top: 0, sign: 0 }));
    assert_eq!(w.sign_b, Some(SignWitness { rest: 0, top: 0, sign: 1 }));
    let unsigned = record(OpCode::I32LtU, vec![Word::I32(1), Word::I32(4)], vec![Word::I32(0)]);
    let w = fill_comparison(&unsigned);
    assert_eq!(w.sign_a, None);
    assert_eq!(w.borrow, Some(BorrowWitness { dlo: 3, dhi: 0, borrow_lo: 0, borrow_hi: 0 }));
}

#[test]
fn a_branch_condition_and_a_sign_extension_use_one_gadget_each() {
    let br = record(OpCode::BrIf, vec![Word::I32(0)], vec![]);
    assert_eq!(
        fill_comparison(&br),
        ComparisonWitness { borrow: None, is_zero: Some(IsZeroWitness { equal: 1, inv: 0 }), sign_a: None, sign_b: None }
    );
    let ext = record(OpCode::I64ExtendI32S, vec![Word::I32(0xFFFF_FFFE)], vec![Word::I64(u64::MAX - 1)]);
    assert_eq!(fill_comparison(&ext).sign_a, Some(SignWitness { rest: 0x7FFF_FFFE, top: 0xFE, sign: 1 }));
    let add = record(OpCode::I32Add, vec![Word::I32(1), Word::I32(2)], vec![Word::I32(3)]);
    assert_eq!(fill_comparison(&add), ComparisonWitness { borrow: None, is_zero: None, sign_a: None, sign_b: None });
    let short = record(OpCode::I32Eq, vec![Word::I32(1)], vec![]);
    assert_eq!(fill_comparison(&short).borrow, None);
}

#[test]
fn bitwise_operands_split_into_nibbles() {
    let r = record(OpCode::I32And, vec![Word::I32(0xFF00), Word::I32(0xF0F0)], vec![Word::I32(0xF000)]);
    let w = fill_bitwise(&r).unwrap();
    assert_eq!(w.a.len(), 16);
    assert_eq!(&w.a[..4], &[0, 0xF, 0, 0xF]);
    assert_eq!(&w.b[..4], &[0, 0, 0xF, 0xF]);
    assert_eq!(&w.p[..4], &[0, 0, 0, 0xF]);
    assert!(w.a[4..].iter().all(|&n| n == 0));
    let and: u64 = w.p.iter().rev().fold(0, |acc, &n| acc * 16 + n);
    assert_eq!(and, 0xF000);
    assert!(fill_bitwise(&record(OpCode::I32Add, vec![Word::I32(1), Word::I32(2)], vec![])).is_none());
}

#[test]
fn a_64_bit_operand_fills_every_nibble() {
    let r = record(OpCode::I64Xor, vec![Word::I64(0x0123_4567_89AB_CDEF), Word::I64(u64::MAX)], vec![]);
    let w = fill_bitwise(&r).unwrap();
    assert_eq!(w.a, vec![0xF; 16]);
    assert_eq!(w.b, vec![0xF, 0xE, 0xD, 0xC, 0xB, 0xA, 9, 8, 7, 6, 5, 4, 3, 2, 1, 0]);
    assert_eq!(w.p, w.b);
}

#[test]
fn popcount_bytes_count_the_operand() {
    let r = record(OpCode::I64Popcnt, vec![Word::I64(0xFF00_0000_0000_0301)], vec![Word::I64(11)]);
    let w = fill_popcount(&r).unwrap();
    assert_eq!(w.bytes, vec![1, 3, 0, 0, 0, 0, 0, 0xFF]);
    assert_eq!(w.counts, vec![1, 2, 0, 0, 0, 0, 0, 8]);
    assert_eq!(w.counts.iter().sum::<u64>(), 11);
    let narrow = record(OpCode::I32Popcnt, vec![Word::I32(0x8000_0001)], vec![Word::I32(2)]);
    assert_eq!(fill_popcount(&narrow).unwrap().counts.iter().sum::<u64>(), 2);
    assert!(fill_popcount(&record(OpCode::I32Clz, vec![Word::I32(1)], vec![])).is_none());
}

#[test]
fn program_data_holds_constants_and_branch_targets() {
    let func = LiftedFunction {
        func_index: 0,
        locals_count: 0,
        globals_count: 0,
        max_stack_height: 1,
        reg_file_width: 1,
        schedules: vec![
            Schedule { pc: 0, height_in: 0, reads: vec![], writes: vec![], successors: Successors::Fallthrough },
            Schedule {
                pc: 1,
                height_in: 1,
                reads: vec![],
                writes: vec![],
                successors: Successors::Branch { taken: 5, not_taken: 2 },
            },
        ],
    };
    let c = record(OpCode::I64Const, vec![], vec![Word::I64(0x7_0000_0009)]);
    assert_eq!(fill_pcdata(&c, &func), Some((9, 7)));
    let mut b = record(OpCode::BrIf, vec![Word::I32(1)], vec![]);
    b.pc = 1;
    assert_eq!(fill_pcdata(&b, &func), Some((5, 2)));
    b.pc = 0;
    assert_eq!(fill_pcdata(&b, &func), None);
    assert_eq!(fill_pcdata(&record(OpCode::Nop, vec![], vec![]), &func), None);
}

#[test]
fn the_sorted_log_carries_its_ordering_gaps() {
    let log = fill_sorted_log(&[access(20, 3), access(10, 7), access(10, 2), access(12, 0)]).unwrap();
    assert_eq!(
        log,
        vec![
            LogEntry { access: access(10, 2), same_addr: false, gap: 0 },
            LogEntry { access: access(10, 7), same_addr: true, gap: 4 },
            LogEntry { access: access(12, 0), same_addr: false, gap: 1 },
            LogEntry { access: access(20, 3), same_addr: false, gap: 7 },
        ]
    );
    assert_eq!(fill_sorted_log(&[]), Ok(vec![]));
}

#[test]
fn a_repeated_key_breaks_the_strict_order() {
    let r = fill_sorted_log(&[access(4, 1), access(9, 0), access(4, 1)]);
    assert_eq!(r, Err(TraceError::AccessLogNotStrictlyOrdered { position: 1 }));
}
