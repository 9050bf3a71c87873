use ape_table_trig::bits::{clear_sign_bit_32, clear_sign_bit_64};
use ape_table_trig::quadrant::{fold_angle, read_slot, reconstruct, TableSlot};

#[test]
fn fold_first_quadrant_is_identity() {
    assert_eq!(fold_angle(false, 0, 0, 0, 1000), (TableSlot::Sample(0), false));
    assert_eq!(fold_angle(false, 0, 0, 250, 1000), (TableSlot::Sample(250), false));
    assert_eq!(fold_angle(false, 0, 0, 999, 1000), (TableSlot::Sample(999), false));
}

#[test]
fn fold_second_quadrant_reads_backwards() {
    assert_eq!(fold_angle(false, 1, 0, 400, 1000), (TableSlot::Sample(600), false));
    assert_eq!(fold_angle(false, 1, 0, 1000, 1000), (TableSlot::Sample(0), false));
}

#[test]
fn fold_boundary_cases() {
    // The exact reversed boundary: the mirrored index reaches the table length.
    assert_eq!(fold_angle(false, 1, 0, 0, 1000), (TableSlot::Boundary, false));
    // A raw index that reaches the length without mirroring.
    assert_eq!(fold_angle(false, 0, 0, 1000, 1000), (TableSlot::Boundary, false));
    // A raw index past the quadrant is treated as the quadrant boundary.
    assert_eq!(fold_angle(false, 0, 0, 1001, 1000), (TableSlot::Boundary, false));
    assert_eq!(fold_angle(false, 1, 0, 1001, 1000), (TableSlot::Sample(0), false));
}

#[test]
fn fold_second_half_turn_negates() {
    assert_eq!(fold_angle(false, 2, 1, 300, 1000), (TableSlot::Sample(300), true));
    assert_eq!(fold_angle(false, 3, 1, 300, 1000), (TableSlot::Sample(700), true));
    // A whole extra turn changes nothing.
    assert_eq!(fold_angle(false, 6, 3, 300, 1000), (TableSlot::Sample(300), true));
    assert_eq!(fold_angle(false, 4, 2, 300, 1000), (TableSlot::Sample(300), false));
}

#[test]
fn fold_combines_signs_by_xor() {
    assert_eq!(fold_angle(true, 0, 0, 300, 1000).1, true);
    assert_eq!(fold_angle(true, 2, 1, 300, 1000).1, false);
    assert_eq!(fold_angle(false, 2, 1, 300, 1000).1, true);
    assert_eq!(fold_angle(false, 0, 0, 300, 1000).1, false);
}

#[test]
fn fold_smallest_table() {
    assert_eq!(fold_angle(false, 0, 0, 0, 1), (TableSlot::Sample(0), false));
    assert_eq!(fold_angle(false, 0, 0, 1, 1), (TableSlot::Boundary, false));
    assert_eq!(fold_angle(false, 1, 0, 0, 1), (TableSlot::Boundary, false));
    assert_eq!(fold_angle(false, 1, 0, 1, 1), (TableSlot::Sample(0), false));
}

#[test]
fn read_slot_returns_sample_or_boundary() {
    let table: Vec<u16> = vec![10, 20, 30];
    assert_eq!(read_slot(&table, TableSlot::Sample(0), 99), 10);
    assert_eq!(read_slot(&table, TableSlot::Sample(2), 99), 30);
    assert_eq!(read_slot(&table, TableSlot::Boundary, 99), 99);
}

#[test]
fn reconstruct_reads_the_folded_slot() {
    let table: Vec<u16> = vec![10, 20, 30, 40];
    assert_eq!(reconstruct(&table, false, 0, 0, 1, 99), (20, false));
    assert_eq!(reconstruct(&table, false, 1, 0, 1, 99), (40, false));
    assert_eq!(reconstruct(&table, false, 1, 0, 0, 99), (99, false));
    assert_eq!(reconstruct(&table, true, 2, 1, 2, 99), (30, false));
    assert_eq!(reconstruct(&table, false, 2, 1, 2, 99), (30, true));
}

#[test]
fn clear_sign_bit_is_float_abs() {
    assert_eq!(f32::from_bits(clear_sign_bit_32((-2.5f32).to_bits())), 2.5f32);
    assert_eq!(f32::from_bits(clear_sign_bit_32(2.5f32.to_bits())), 2.5f32);
    assert_eq!(f32::from_bits(clear_sign_bit_32((-0.0f32).to_bits())), 0.0f32);
    assert!(f32::from_bits(clear_sign_bit_32((-0.0f32).to_bits())).is_sign_positive());
    assert_eq!(f64::from_bits(clear_sign_bit_64((-7.25f64).to_bits())), 7.25f64);
    assert_eq!(f64::from_bits(clear_sign_bit_64(7.25f64.to_bits())), 7.25f64);
    assert!(f64::from_bits(clear_sign_bit_64(f64::NEG_INFINITY.to_bits())).is_infinite());
}

#[test]
fn clear_sign_bit_leaves_low_bits() {
    assert_eq!(clear_sign_bit_32(0xffff_ffff), 0x7fff_ffff);
    assert_eq!(clear_sign_bit_32(0x1234_5678), 0x1234_5678);
    assert_eq!(clear_sign_bit_64(0x8000_0000_0000_0001), 1);
}
