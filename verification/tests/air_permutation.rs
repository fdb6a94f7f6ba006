use ananse::air::constraints::permutation::{consistency_columns, fold_access, reciprocal};
use ananse::air::error::AirError;
use ananse::air::field::{ext_add, ext_mul, felt_add, felt_mul, felt_sub, Ext};
use ananse::air::matrix::RowMajorMatrix;
use ananse::trace::layout::{bus_slot, main_width, sorted_slot, COL_CLK};

const P: u64 = 0xFFFF_FFFF_0000_0001;

fn ext(c0: u64, c1: u64) -> Ext {
    Ext { c0, c1 }
}

/// A two-row trace whose first row carries one bus access and the same access
/// in its sorted log.
fn one_access_trace() -> RowMajorMatrix {
    let width = main_width();
    let mut values = vec![0u64; 2 * width];
    values[COL_CLK] = 0;
    values[width + COL_CLK] = 1;
    let b = bus_slot(0);
    values[b] = 5; // addr
    values[b + 1] = 7; // lo
    values[b + 2] = 0; // hi
    values[b + 3] = 1; // is_write
    values[b + 4] = 1; // active
    let s = sorted_slot(0);
    values[s] = 5; // addr
    values[s + 1] = 0; // ts
    values[s + 2] = 7; // lo
    values[s + 3] = 0; // hi
    values[s + 4] = 1; // is_write
    values[s + 5] = 1; // active
    RowMajorMatrix { values, width }
}

#[test]
fn base_field_arithmetic_wraps_at_the_order() {
    assert_eq!(felt_add(P - 1, 2), 1);
    assert_eq!(felt_sub(1, 2), P - 1);
    assert_eq!(felt_mul(P - 1, P - 1), 1);
}

#[test]
fn extension_multiplication_reduces_x_squared_to_seven() {
    // X * X = 7
    assert_eq!(ext_mul(ext(0, 1), ext(0, 1)), ext(7, 0));
    // (1 + X)(1 + X) = 1 + 7 + 2X
    assert_eq!(ext_mul(ext(1, 1), ext(1, 1)), ext(8, 2));
    assert_eq!(ext_add(ext(P - 1, 3), ext(1, 4)), ext(0, 7));
}

#[test]
fn an_access_folds_lowest_term_first() {
    // With challenge 2: 5 + 2*(0 + 2*(7 + 2*(0 + 2*1))) = 5 + 2*(2*(7 + 4)) = 49
    assert_eq!(fold_access(ext(2, 0), 5, 0, 7, 0, 1), ext(49, 0));
}

#[test]
fn a_reciprocal_inverts_the_difference() {
    let inv = reciprocal(ext(3, 0), ext(1, 0)).unwrap();
    assert_eq!(ext_mul(inv, ext(2, 0)), ext(1, 0));
    let inv = reciprocal(ext(0, 1), ext(0, 0)).unwrap();
    assert_eq!(ext_mul(inv, ext(0, 1)), ext(1, 0));
    assert_eq!(reciprocal(ext(4, 9), ext(4, 9)), Err(AirError::DegenerateChallenge));
}

#[test]
fn matching_bus_and_sorted_log_balance() {
    let m = one_access_trace();
    // Folding at zero keeps the address alone: the term is 1 / (6 - 5) = 1.
    let (bus, sorted) = consistency_columns(&m, ext(6, 0), ext(0, 0)).unwrap();
    assert_eq!(bus, vec![ext(0, 0), ext(1, 0)]);
    assert_eq!(sorted, vec![ext(0, 0), ext(1, 0)]);
    let (bus, sorted) = consistency_columns(&m, ext(11, 3), ext(5, 8)).unwrap();
    assert_eq!(bus.last(), sorted.last());
}

#[test]
fn a_challenge_equal_to_a_folded_access_is_degenerate() {
    let m = one_access_trace();
    assert_eq!(consistency_columns(&m, ext(5, 0), ext(0, 0)), Err(AirError::DegenerateChallenge));
}

#[test]
fn a_tampered_sorted_log_unbalances_the_columns() {
    let mut m = one_access_trace();
    let s = sorted_slot(0);
    m.values[s + 2] = 8; // the sorted copy claims a different low limb
    let (bus, sorted) = consistency_columns(&m, ext(11, 3), ext(5, 8)).unwrap();
    assert_ne!(bus.last(), sorted.last());
}
