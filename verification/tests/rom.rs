use std::collections::HashSet;

use ananse::air::rom::{pack, pack_edge, OPCODE_RADIX, PC_RADIX, REG_RADIX};
use ananse::trace::selector::NUM_SELECTORS;

#[test]
fn packing_distinct_edges_gives_distinct_values() {
    let mut seen = HashSet::new();
    for pc in [0, 1, 2, 100, PC_RADIX - 1] {
        for opcode_id in [0, 1, OPCODE_RADIX - 1] {
            for next_pc in [0, 1, 100, PC_RADIX - 1] {
                for height in [0, 1, REG_RADIX - 1] {
                    for imm in [0, REG_RADIX - 1] {
                        let value = pack(pc, opcode_id, next_pc, height, imm).expect("within radices");
                        assert!(seen.insert(value), "collision at ({pc}, {opcode_id}, {next_pc}, {height}, {imm})");
                    }
                }
            }
        }
    }
}

#[test]
fn largest_edge_stays_below_the_goldilocks_prime() {
    let max = pack(PC_RADIX - 1, OPCODE_RADIX - 1, PC_RADIX - 1, REG_RADIX - 1, REG_RADIX - 1).expect("within radices");
    assert!(max < (1u64 << 63));
}

#[test]
fn out_of_range_components_do_not_pack() {
    assert!(pack_edge(0, NUM_SELECTORS, 0, 0, 0).is_none());
    assert!(pack_edge(u32::try_from(PC_RADIX).unwrap(), 0, 0, 0, 0).is_none());
    assert!(pack_edge(0, 0, 0, u32::try_from(REG_RADIX).unwrap(), 0).is_none());
    assert!(pack_edge(0, 0, 0, 0, u32::try_from(REG_RADIX).unwrap()).is_none());
}

#[test]
fn pack_places_each_digit_at_its_radix() {
    assert_eq!(pack(0, 5, 0, 0, 0), Some(5));
    assert_eq!(pack(1, 0, 0, 0, 0), Some(OPCODE_RADIX));
    assert_eq!(pack(0, 0, 1, 0, 0), Some(OPCODE_RADIX * PC_RADIX));
    assert_eq!(pack_edge(2, 3, 4, 5, 6), pack(2, 3, 4, 5, 6));
    assert_eq!(pack(u64::MAX, 0, 0, 0, 0), None);
}
