use ananse::air::constraints::bitwise::and_table;
use ananse::air::constraints::boundary::periodic_columns;
use ananse::air::constraints::control::data_periodic;
use ananse::air::constraints::logup::periodic_table;
use ananse::air::constraints::popcount::table;
use ananse::air::constraints::range::byte_table;
use ananse::air::constraints::{AnanseAir, FIELD_ORDER};
use ananse::trace::layout::main_width;

#[test]
fn the_rom_column_repeats_its_first_entry_past_the_rom() {
    assert_eq!(periodic_table(&[7, 8, 9], 5), vec![7, 8, 9, 7, 7]);
    assert_eq!(periodic_table(&[], 3), vec![0, 0, 0]);
    assert_eq!(periodic_table(&[1, 2, 3], 2), vec![1, 2]);
}

#[test]
fn the_and_table_pairs_every_nibble() {
    let [a, b, p] = and_table(260);
    assert_eq!(a.len(), 260);
    assert_eq!((a[0x5c], b[0x5c], p[0x5c]), (5, 12, 4));
    assert_eq!((a[0xff], b[0xff], p[0xff]), (15, 15, 15));
    assert_eq!((a[0x0f], b[0x0f], p[0x0f]), (0, 15, 0));
    assert_eq!((a[256], b[256], p[256]), (0, 0, 0));
}

#[test]
fn the_popcount_table_counts_the_bits_of_each_byte() {
    let t = table(258);
    assert_eq!(t[0], 0);
    assert_eq!(t[7], 3);
    assert_eq!(t[0x80], 1);
    assert_eq!(t[255], 8);
    assert_eq!(t[256], 0);
}

#[test]
fn the_data_rom_is_zero_padded() {
    let [pc, a, b] = data_periodic(&[(3, 40, 50), (6, 1, 2)], 4);
    assert_eq!(pc, vec![3, 6, 0, 0]);
    assert_eq!(a, vec![40, 1, 0, 0]);
    assert_eq!(b, vec![50, 2, 0, 0]);
}

#[test]
fn boundary_addresses_are_field_elements() {
    let [addr, lo, hi] = periodic_columns(&[(1 << 32, 5, 6), (FIELD_ORDER + 2, 0, 1)], 3);
    assert_eq!(addr, vec![1 << 32, 2, 0]);
    assert_eq!(lo, vec![5, 0, 0]);
    assert_eq!(hi, vec![6, 1, 0]);
}

#[test]
fn the_air_reads_every_periodic_table_cyclically() {
    let region = 1u64 << 32;
    let air = AnanseAir::new(&[5, 6], &[(1, 2, 3)], 8, 0, &[(region, 5, 0)]);
    assert_eq!(air.num_periodic_columns(), 12);
    assert_eq!(air.width(), main_width());
    let cols = air.periodic_columns();
    assert_eq!(cols.len(), 12);
    assert!(cols.iter().all(|c| c.len() == 8));
    assert_eq!(cols[1], vec![0, 1, 2, 3, 4, 5, 6, 7]);
    assert_eq!(air.periodic_values(0), vec![5, 0, region, 5, 0, 0, 0, 0, 0, 1, 2, 3]);
    assert_eq!(air.periodic_values(9), vec![6, 1, 0, 0, 0, 0, 1, 0, 1, 0, 0, 0]);
}

#[test]
fn the_byte_table_holds_each_byte_once() {
    let t = byte_table(300);
    assert_eq!(t.len(), 300);
    assert!((0..256).all(|i| t[i] == i as u64));
    assert!(t[256..].iter().all(|&v| v == 0));
}
