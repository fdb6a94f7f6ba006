use ananse::decoder::types::Word;
use ananse::executor::error::Trap;
use ananse::executor::value::{arithmetic, compare, unary, Arithmetic, Compare, Unary};

fn i32(value: i32) -> Word {
    Word::I32(value as u32)
}

#[test]
fn shift_counts_wrap_modulo_width() {
    assert_eq!(arithmetic(Arithmetic::Shl, Word::I32(1), Word::I32(33)), Ok(Word::I32(2)));
    assert_eq!(arithmetic(Arithmetic::Shl, Word::I64(1), Word::I64(65)), Ok(Word::I64(2)));
}

#[test]
fn shr_s_is_arithmetic_while_shr_u_is_logical() {
    assert_eq!(arithmetic(Arithmetic::ShrS, i32(-2), Word::I32(1)), Ok(i32(-1)));
    assert_eq!(arithmetic(Arithmetic::ShrU, i32(-2), Word::I32(1)), Ok(Word::I32(0x7FFF_FFFF)));
}

#[test]
fn rotate_wraps_bits_around_the_width() {
    assert_eq!(arithmetic(Arithmetic::Rotl, Word::I32(0x8000_0000), Word::I32(1)), Ok(Word::I32(1)));
    assert_eq!(arithmetic(Arithmetic::Rotr, Word::I32(1), Word::I32(1)), Ok(Word::I32(0x8000_0000)));
}

#[test]
fn signed_remainder_of_min_by_minus_one_is_zero() {
    assert_eq!(arithmetic(Arithmetic::RemS, i32(i32::MIN), i32(-1)), Ok(Word::I32(0)));
}

#[test]
fn division_and_remainder_by_zero_trap() {
    assert_eq!(arithmetic(Arithmetic::DivU, Word::I64(7), Word::I64(0)), Err(Trap::DivideByZero));
    assert_eq!(arithmetic(Arithmetic::RemS, Word::I32(7), Word::I32(0)), Err(Trap::DivideByZero));
}

#[test]
fn comparison_distinguishes_signedness() {
    assert_eq!(compare(Compare::LtS, i32(-1), Word::I32(0)), Word::I32(1));
    assert_eq!(compare(Compare::LtU, i32(-1), Word::I32(0)), Word::I32(0));
}

#[test]
fn bit_counts_respect_the_operand_width() {
    assert_eq!(unary(Unary::Ctz, Word::I32(0)), Word::I32(32));
    assert_eq!(unary(Unary::Ctz, Word::I64(0)), Word::I64(64));
    assert_eq!(unary(Unary::Clz, Word::I32(1)), Word::I32(31));
    assert_eq!(unary(Unary::Popcnt, Word::I64(0xFF)), Word::I64(8));
}

#[test]
fn eqz_yields_an_i32_for_both_widths() {
    assert_eq!(unary(Unary::Eqz, Word::I64(0)), Word::I32(1));
    assert_eq!(unary(Unary::Eqz, Word::I64(5)), Word::I32(0));
}

#[test]
fn signed_division_overflow_traps() {
    assert_eq!(arithmetic(Arithmetic::DivS, i32(i32::MIN), i32(-1)), Err(Trap::IntegerOverflow));
}

#[test]
fn addition_and_multiplication_wrap() {
    assert_eq!(arithmetic(Arithmetic::Add, Word::I32(u32::MAX), Word::I32(2)), Ok(Word::I32(1)));
    assert_eq!(arithmetic(Arithmetic::Mul, Word::I64(1 << 63), Word::I64(2)), Ok(Word::I64(0)));
    assert_eq!(arithmetic(Arithmetic::Sub, Word::I32(0), Word::I32(1)), Ok(Word::I32(u32::MAX)));
}

#[test]
fn signed_division_truncates_toward_zero() {
    assert_eq!(arithmetic(Arithmetic::DivS, i32(-7), i32(2)), Ok(i32(-3)));
    assert_eq!(arithmetic(Arithmetic::RemS, i32(-7), i32(2)), Ok(i32(-1)));
}
