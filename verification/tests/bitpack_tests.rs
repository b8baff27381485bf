use lrr_230pro_can_driver::bitpack::{get_bits_m, set_bits_m, sign_extend};

#[test]
fn motorola_roundtrip_simple() {
    let mut d = vec![0u8; 8];
    // put 0b10101 (21) into startbit 3, len 5
    set_bits_m(&mut d, 3, 5, 0b10101);
    assert_eq!(get_bits_m(&d, 3, 5), 0b10101);
}

#[test]
fn sign_extend_ok() {
    // 11-bit signed: -1 should be 0x7FF -> -1
    assert_eq!(sign_extend(0x7FF, 11), -1);
    // 11-bit signed: 0x400 -> -1024?
    assert_eq!(sign_extend(0x400, 11), -1024);
}

#[test]
fn sign_extend_zero_for_every_width() {
    for len in 1..=64u16 {
        assert_eq!(sign_extend(0, len), 0);
    }
    assert_eq!(sign_extend(5, 11), 5);
    assert_eq!(sign_extend(u64::MAX, 64), -1);
}

#[test]
fn roundtrip_across_byte_boundary_leaves_other_bits() {
    // a field of 13 bits straddling bytes 1..3, written into a payload of
    // all ones: the field reads back and every other bit stays set
    let mut d = vec![0xFFu8; 8];
    set_bits_m(&mut d, 11, 13, 0x0A5A);
    assert_eq!(get_bits_m(&d, 11, 13), 0x0A5A);
    assert_eq!(get_bits_m(&d, 0, 11), 0x7FF);
    assert_eq!(get_bits_m(&d, 24, 40), 0xFF_FFFF_FFFF);
}

#[test]
fn roundtrip_full_width() {
    let mut d = vec![0u8; 8];
    set_bits_m(&mut d, 0, 64, 0x0123_4567_89AB_CDEF);
    assert_eq!(get_bits_m(&d, 0, 64), 0x0123_4567_89AB_CDEF);
    assert_eq!(d, vec![0x01, 0x23, 0x45, 0x67, 0x89, 0xAB, 0xCD, 0xEF]);
}

#[test]
fn set_truncates_to_field_width() {
    let mut d = vec![0u8; 8];
    set_bits_m(&mut d, 4, 4, 0x1F5);
    assert_eq!(get_bits_m(&d, 4, 4), 0x5);
    assert_eq!(get_bits_m(&d, 0, 4), 0);
}
