use kitties::encoding::{nonce_payload, random_payload, u128_from_random};

#[test]
fn random_payload_concatenates_scale_fields() {
    let mut seed = [0u8; 32];
    seed[0] = 0xaa;
    seed[31] = 0xbb;
    let payload = random_payload(seed, 0x0102030405060708, Some(0x11223344), 7);
    let mut expected: Vec<u8> = seed.to_vec();
    expected.extend_from_slice(&[0x08, 0x07, 0x06, 0x05, 0x04, 0x03, 0x02, 0x01]);
    expected.extend_from_slice(&[1, 0x44, 0x33, 0x22, 0x11]);
    expected.extend_from_slice(&[7, 0, 0, 0, 0, 0, 0, 0]);
    assert_eq!(payload, expected);
    assert_eq!(payload.len(), 32 + 8 + 5 + 8);
}

#[test]
fn random_payload_without_extrinsic_index() {
    let seed = [3u8; 32];
    let payload = random_payload(seed, 1, None, 2);
    assert_eq!(payload.len(), 32 + 8 + 1 + 8);
    assert_eq!(payload[40], 0);
    assert_eq!(payload[32], 1);
    assert_eq!(payload[41], 2);
}

#[test]
fn nonce_payload_concatenates_scale_fields() {
    let seed = [9u8; 32];
    let payload = nonce_payload(seed, 258, 3);
    let mut expected: Vec<u8> = seed.to_vec();
    expected.extend_from_slice(&[2, 1, 0, 0, 0, 0, 0, 0]);
    expected.extend_from_slice(&[3, 0, 0, 0, 0, 0, 0, 0]);
    assert_eq!(payload, expected);
}

#[test]
fn u128_from_random_reads_little_endian() {
    let mut random = [0u8; 16];
    random[0] = 1;
    assert_eq!(u128_from_random(&random), 1);
    let mut random = [0u8; 16];
    random[1] = 1;
    assert_eq!(u128_from_random(&random), 256);
    let random = [0xffu8; 16];
    assert_eq!(u128_from_random(&random), u128::MAX);
    let mut random = [0u8; 16];
    random[15] = 0x80;
    assert_eq!(u128_from_random(&random), 1u128 << 127);
}
