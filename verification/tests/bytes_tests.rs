use evice_blockchain::bytes::{u128_to_be_bytes, u64_from_be_bytes, u64_to_be_bytes};

#[test]
fn test_u64_to_be_bytes_exact() {
    assert_eq!(
        u64_to_be_bytes(0x0102030405060708),
        vec![1, 2, 3, 4, 5, 6, 7, 8]
    );
    assert_eq!(u64_to_be_bytes(0), vec![0; 8]);
    assert_eq!(u64_to_be_bytes(u64::MAX), vec![0xff; 8]);
    assert_eq!(u64_to_be_bytes(1), vec![0, 0, 0, 0, 0, 0, 0, 1]);
}

#[test]
fn test_u128_to_be_bytes_exact() {
    assert_eq!(
        u128_to_be_bytes(0x0102030405060708090a0b0c0d0e0f10),
        vec![1, 2, 3, 4, 5, 6, 7, 8, 9, 10, 11, 12, 13, 14, 15, 16]
    );
    assert_eq!(u128_to_be_bytes(1704067200000), 1704067200000u128.to_be_bytes().to_vec());
}

#[test]
fn test_u64_be_roundtrip() {
    for x in [0u64, 1, 255, 256, 1704067200000, u64::MAX] {
        let bytes = u64_to_be_bytes(x);
        assert_eq!(u64_from_be_bytes(&bytes), x);
        assert_eq!(bytes, x.to_be_bytes().to_vec());
    }
}
