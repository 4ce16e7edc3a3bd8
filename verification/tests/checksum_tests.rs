use launcher::iw3mp::{
    adler32, characteristics_large_address_aware, is_large_address_aware, is_pure,
    IMAGE_FILE_LARGE_ADDRESS_AWARE,
};

#[test]
fn adler32_of_empty_is_one() {
    assert_eq!(adler32(&[]), 1);
}

#[test]
fn adler32_known_values() {
    assert_eq!(adler32(b"Wikipedia"), 0x11E6_0398);
    assert_eq!(adler32(b"abc"), 0x024D_0127);
    assert_eq!(adler32(&[0u8]), 0x0001_0001);
}

#[test]
fn adler32_wraps_modulo_65521() {
    let data = vec![0xFFu8; 5552];
    let mut a: u64 = 1;
    let mut b: u64 = 0;
    for &d in &data {
        a = (a + d as u64) % 65521;
        b = (b + a) % 65521;
    }
    let checksum = adler32(&data);
    assert_eq!(checksum as u64, (b << 16) | a);
    assert!((checksum & 0xFFFF) < 65521);
    assert!((checksum >> 16) < 65521);
}

#[test]
fn is_pure_rejects_other_data() {
    assert!(!is_pure(b"text", b"rdata"));
    assert!(!is_pure(&[], &[]));
}

#[test]
fn large_address_aware_flag_is_read_little_endian() {
    assert_eq!(IMAGE_FILE_LARGE_ADDRESS_AWARE, 0x20);
    assert!(characteristics_large_address_aware([0x22, 0x01]));
    assert!(!characteristics_large_address_aware([0x02, 0x01]));
    assert!(!characteristics_large_address_aware([0x00, 0x20]));
}

#[test]
fn unreadable_header_counts_as_large_address_aware() {
    assert!(is_large_address_aware(None));
    assert!(is_large_address_aware(Some([0x2F, 0x00])));
    assert!(!is_large_address_aware(Some([0x0F, 0x01])));
}
