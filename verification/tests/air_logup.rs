use ananse::air::constraints::logup::{control_flow_columns, edge, evaluate};
use ananse::air::error::AirError;
use ananse::air::field::Ext;
use ananse::air::matrix::RowMajorMatrix;
use ananse::air::rom::{HEIGHT_PLACE, NEXT_PC_PLACE, OPCODE_RADIX};
use ananse::trace::layout::{main_width, COL_HEIGHT, COL_PC, SELECTOR_BASE};

fn ext(c0: u64, c1: u64) -> Ext {
    Ext { c0, c1 }
}

/// Three rows: two operators at pcs 0 and 1, then the halt row at pc 2.
fn trace() -> RowMajorMatrix {
    let width = main_width();
    let mut values = vec![0u64; 3 * width];
    let row = |r: usize, c: usize| r * width + c;
    values[row(0, COL_PC)] = 0;
    values[row(0, SELECTOR_BASE + 5)] = 1;
    values[row(0, COL_HEIGHT)] = 0;
    values[row(1, COL_PC)] = 1;
    values[row(1, SELECTOR_BASE + 9)] = 1;
    values[row(1, COL_HEIGHT)] = 1;
    values[row(2, COL_PC)] = 2;
    values[row(2, SELECTOR_BASE + 103)] = 1;
    RowMajorMatrix { values, width }
}

#[test]
fn an_edge_packs_opcode_pcs_and_height() {
    let m = trace();
    assert_eq!(edge(&m, 0), 5 + NEXT_PC_PLACE);
    assert_eq!(edge(&m, 1), 9 + OPCODE_RADIX + 2 * NEXT_PC_PLACE + HEIGHT_PLACE);
}

#[test]
fn an_honest_lookup_closes_the_grand_sum_at_zero() {
    let m = trace();
    let rom = vec![edge(&m, 1), edge(&m, 0)];
    let (mult, grand) = control_flow_columns(&m, &rom, ext(12345, 678)).unwrap();
    assert_eq!(mult, vec![ext(0, 0), ext(1, 0), ext(1, 0)]);
    assert_eq!(grand.len(), 3);
    assert_eq!(grand[0], ext(0, 0));
    assert_eq!(grand[2], ext(0, 0));
}

#[test]
fn a_repeated_lookup_counts_twice() {
    let width = main_width();
    let m = RowMajorMatrix { values: vec![0u64; 3 * width], width };
    // Every row is all zero: both transitions look up edge 0.
    let (mult, grand) = control_flow_columns(&m, &[0], ext(7, 1)).unwrap();
    assert_eq!(mult, vec![ext(0, 0), ext(2, 0), ext(0, 0)]);
    assert_eq!(grand[2], ext(0, 0));
}

#[test]
fn a_rom_longer_than_the_trace_is_refused() {
    let m = trace();
    assert_eq!(
        control_flow_columns(&m, &[1, 2, 3], ext(1, 1)),
        Err(AirError::TraceTooShortForRom { trace_len: 3, rom_len: 3 })
    );
}

#[test]
fn an_edge_absent_from_the_rom_names_its_row() {
    let m = trace();
    let rom = vec![edge(&m, 0)];
    assert_eq!(
        control_flow_columns(&m, &rom, ext(1, 1)),
        Err(AirError::LookupBuild("row 1 looks up a control-flow edge absent from the program ROM".to_string()))
    );
}

#[test]
fn a_challenge_on_a_table_value_is_degenerate() {
    let m = trace();
    let rom = vec![edge(&m, 0), edge(&m, 1)];
    assert_eq!(control_flow_columns(&m, &rom, ext(rom[0], 0)), Err(AirError::DegenerateChallenge));
}

#[test]
fn honest_columns_satisfy_the_transition() {
    let m = trace();
    let rom = vec![edge(&m, 1), edge(&m, 0)];
    let alpha = ext(12345, 678);
    let (mult, grand) = control_flow_columns(&m, &rom, alpha).unwrap();
    for r in 0..2 {
        let residual = evaluate(&m, r, grand[r], grand[r + 1], mult[r + 1], alpha, rom[r]);
        assert_eq!(residual, ext(0, 0), "row {r}");
    }
    let skewed = evaluate(&m, 0, grand[0], grand[1], ext(2, 0), alpha, rom[0]);
    assert_ne!(skewed, ext(0, 0));
}
