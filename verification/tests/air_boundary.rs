use ananse::air::constraints::boundary::columns;
use ananse::air::error::AirError;
use ananse::air::field::{ext_add, Ext};
use ananse::air::matrix::RowMajorMatrix;
use ananse::trace::layout::{main_width, sorted_slot};

const REGION: u64 = 1 << 32;

fn ext(c0: u64, c1: u64) -> Ext {
    Ext { c0, c1 }
}

/// Two rows; the first row's sorted entry `k` is a fresh read of `(addr, lo, hi)`.
fn trace(k: usize, addr: u64, lo: u64, hi: u64) -> RowMajorMatrix {
    let width = main_width();
    let mut values = vec![0u64; 2 * width];
    let s = sorted_slot(k);
    values[s] = addr;
    values[s + 2] = lo;
    values[s + 3] = hi;
    values[s + 4] = 0; // a read
    values[s + 5] = 1; // active
    values[s + 6] = 0; // opens its address
    RowMajorMatrix { values, width }
}

#[test]
fn a_fresh_read_of_the_table_balances() {
    let m = trace(2, REGION, 5, 0);
    let cols = columns(&m, &[(REGION, 5, 0)], ext(3, 1), ext(1000, 7)).unwrap();
    assert_eq!(cols.len(), 6);
    assert_eq!(cols[0], vec![ext(1, 0), ext(0, 0)]);
    assert_eq!(cols[1][0], ext(0, 0));
    assert_eq!(cols[4][1], cols[1][1]);
    let channels = (2..6).fold(ext(0, 0), |acc, c| ext_add(acc, cols[c][1]));
    assert_eq!(channels, cols[1][1]);
    assert_ne!(cols[1][1], ext(0, 0));
}

#[test]
fn a_write_or_continuing_entry_is_not_looked_up() {
    let mut m = trace(0, REGION, 5, 0);
    let s = sorted_slot(0);
    m.values[s + 4] = 1; // now a write
    let cols = columns(&m, &[], ext(3, 1), ext(1000, 7)).unwrap();
    assert_eq!(cols[2], vec![ext(0, 0), ext(0, 0)]);
}

#[test]
fn a_table_longer_than_the_trace_is_refused() {
    let m = trace(0, REGION, 5, 0);
    assert_eq!(
        columns(&m, &[(REGION, 5, 0), (REGION + 1, 0, 0)], ext(3, 1), ext(1000, 7)),
        Err(AirError::TraceTooShortForBoundary { trace_len: 2, table_len: 2 })
    );
}

#[test]
fn a_fresh_read_absent_from_the_table_is_named() {
    let m = trace(3, REGION, 5, 0);
    assert_eq!(
        columns(&m, &[(REGION, 6, 0)], ext(3, 1), ext(1000, 7)),
        Err(AirError::LookupBuild("fresh read at row 0 entry 3 is absent from the initial-state table".to_string()))
    );
}

#[test]
fn a_challenge_on_a_folded_entry_is_degenerate() {
    let m = trace(0, REGION, 5, 0);
    // With fold zero the folded entry is its address alone.
    assert_eq!(columns(&m, &[(REGION, 5, 0)], ext(0, 0), ext(REGION, 0)), Err(AirError::DegenerateChallenge));
}

#[test]
fn repeated_reads_of_one_entry_balance_with_their_count() {
    // Three rows; rows 0 and 1 each carry a fresh read of the same key, in
    // different channels. The table lists that key twice; the later copy
    // takes the count.
    let width = main_width();
    let mut values = vec![0u64; 3 * width];
    for (row, k) in [(0usize, 0usize), (1, 3)] {
        let s = row * width + sorted_slot(k);
        values[s] = REGION + 1;
        values[s + 2] = 9;
        values[s + 3] = 4;
        values[s + 5] = 1;
    }
    let m = RowMajorMatrix { values, width };
    let table = [(REGION + 1, 9, 4), (REGION + 1, 9, 4)];
    let cols = columns(&m, &table, ext(11, 2), ext(77, 5)).unwrap();
    assert_eq!(cols[0], vec![ext(0, 0), ext(2, 0), ext(0, 0)]);
    let channels = (2..6).fold(ext(0, 0), |acc, c| ext_add(acc, cols[c][2]));
    assert_eq!(channels, cols[1][2]);
    assert_eq!(cols[2][2], cols[5][2]);
}
