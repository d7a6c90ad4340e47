use des_cipher::bits::{
    join28s, join32s, permute32, permute64, rotate28, set_bit32, set_bit64, split56, split64,
    test_bit32, test_bit64,
};
use des_cipher::tables;

#[test]
fn test_test_bit64() {
    assert!(!test_bit64(0x123456789ABCDEF, 22));
    assert!(test_bit64(0x123456789ABCDEF, 62));
    assert!(!test_bit64(0x123456789ABCDEF, 24));
    assert!(test_bit64(0x133457799BBCDFF1, 3));
    assert!(!test_bit64(0x133457799BBCDFF1, 20));
    assert!(test_bit64(0x133457799BBCDFF1, 38));
}

#[test]
fn test_set_bit64() {
    assert_eq!(set_bit64(0x2D24D04CAD8B8083, 27), 0x2D24D05CAD8B8083);
    assert_eq!(set_bit64(0x2D24D05CAD8B8083, 43), 0x2D24D05CAD9B8083);
    assert_eq!(set_bit64(0x2D24D05CAD9B8083, 0), 0xAD24D05CAD9B8083);
}

#[test]
fn test_test_bit32() {
    assert!(!test_bit32(0xF0CCAAF2, 17));
    assert!(test_bit32(0xF0CCAAF2, 26));
    assert!(!test_bit32(0xF0CCAAF2, 31));
    assert!(test_bit32(0x6678F55A, 16));
    assert!(test_bit32(0x6678F55A, 5));
    assert!(!test_bit32(0x6678F55A, 26));
}

#[test]
fn test_set_bit32() {
    assert_eq!(set_bit32(0x4C00CCFE, 0), 0xCC00CCFE);
    assert_eq!(set_bit32(0xCC00CCFE, 31), 0xCC00CCFF);
    assert_eq!(set_bit32(0xCC00CCFF, 9), 0xCC40CCFF);
}

#[test]
fn test_split64() {
    let (l, r) = split64(0x420F638744EAD0FD);
    assert_eq!(l, 0x420F6387);
    assert_eq!(r, 0x44EAD0FD);

    let (l, r) = split64(0xEE2CE164A50BAC4B);
    assert_eq!(l, 0xEE2CE164);
    assert_eq!(r, 0xA50BAC4B);
}

#[test]
fn test_join32s() {
    let l = 0x420F6387;
    let r = 0x44EAD0FD;
    assert_eq!(join32s(l, r), 0x420F638744EAD0FD);

    let l = 0xEE2CE164;
    let r = 0xA50BAC4B;
    assert_eq!(join32s(l, r), 0xEE2CE164A50BAC4B);
}

#[test]
fn test_split56() {
    let (c, d) = split56(0xF0CCAAF556678F00);
    assert_eq!(c, 0xF0CCAAF0);
    assert_eq!(d, 0x556678F0);
}

#[test]
fn test_join28s() {
    let c = 0xF0CCAAF0;
    let d = 0x556678F0;
    assert_eq!(join28s(c, d), 0xF0CCAAF556678F00);
}

#[test]
fn test_rotate28() {
    assert_eq!(rotate28(0x59D2C690, tables::Shift::Two), 0x674B1A50);
    assert_eq!(rotate28(0xA72D3860, tables::Shift::One), 0x4E5A70D0);
    assert_eq!(rotate28(0xCAB1E520, tables::Shift::Two), 0x2AC794B0);
    assert_eq!(rotate28(0x374E93B0, tables::Shift::Two), 0xDD3A4EC0);
    assert_eq!(rotate28(0x374E93B0, tables::Shift::One), 0x6E9D2760);
}

#[test]
fn test_permute64() {
    assert_eq!(permute64(0x123456789ABCDEF, &tables::IP), 0xCC00CCFFF0AAF0AA);
    assert_eq!(permute64(0xA4CD99543423234, &tables::IP_INV), 0x85E813540F0AB405);
    assert_eq!(permute64(0x133457799BBCDFF1, &tables::PC1), 0xF0CCAAF556678F00);
    assert_eq!(permute64(0xE19955FAACCF1E00, &tables::PC2), 0x1B02EFFC70720000);
    assert_eq!(permute64(0xF0AAF0AA00000000, &tables::E), 0x7A15557A15550000);
}

#[test]
fn test_permute32() {
    assert_eq!(permute32(0x5C82B597, &tables::P), 0x234AA9BB);
}

#[test]
fn split_and_join_round_trip() {
    let x: u64 = 0x0123456789ABCDEF;
    let (l, r) = split64(x);
    assert_eq!(join32s(l, r), x);
    let (c, d) = split56(0xE19955FAACCF1E00);
    assert_eq!((c, d), (0xE19955F0, 0xAACCF1E0));
    assert_eq!(join28s(c, d), 0xE19955FAACCF1E00);
}

#[test]
fn rotate28_keeps_padding_zero() {
    assert_eq!(rotate28(0x80000000, tables::Shift::One), 0x00000010);
    assert_eq!(rotate28(0xC0000000, tables::Shift::Two), 0x00000030);
    assert_eq!(rotate28(0xFFFFFFF0, tables::Shift::Two), 0xFFFFFFF0);
    assert_eq!(tables::Shift::One.amount(), 1);
    assert_eq!(tables::Shift::Two.amount(), 2);
}

#[test]
fn permute_ip_then_inverse_is_identity() {
    let x: u64 = 0xDEADBEEF01234567;
    assert_eq!(permute64(permute64(x, &tables::IP), &tables::IP_INV), x);
    assert_eq!(permute64(permute64(x, &tables::IP_INV), &tables::IP), x);
}

#[test]
fn permute_with_short_table_clears_tail() {
    assert_eq!(permute64(u64::MAX, &tables::PC2), 0xFFFFFFFFFFFF0000);
    assert_eq!(permute64(0, &tables::IP), 0);
}
