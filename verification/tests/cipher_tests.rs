use zks_core::xor_single;
use zks_core::xor_vernam;

#[test]
fn xor_single_exact_bytes() {
    let data = vec![0xFFu8, 0x0F, 0x00, 0xAA];
    let key = vec![0x0Fu8, 0x0F, 0xFF, 0xAA];
    let out = xor_single(&data, &key);
    assert_eq!(out, vec![0xF0u8, 0x00, 0xFF, 0x00]);
}

#[test]
fn xor_single_truncates_to_shorter_input() {
    let data = vec![1u8, 2, 3, 4, 5];
    let key = vec![0u8, 0, 0];
    let out = xor_single(&data, &key);
    assert_eq!(out, vec![1u8, 2, 3]);

    let out2 = xor_single(&key, &data);
    assert_eq!(out2, vec![1u8, 2, 3]);
}

#[test]
fn xor_single_empty() {
    let out = xor_single(&[], &[1u8, 2, 3]);
    assert_eq!(out.len(), 0);
}

#[test]
fn xor_single_involution_equal_length() {
    let data = b"attack at dawn".to_vec();
    let key = vec![0x5Au8; 14];
    let once = xor_single(&data, &key);
    let twice = xor_single(&once, &key);
    assert_eq!(twice, data);
}

#[test]
fn xor_vernam_exact_bytes() {
    let data = vec![0b1010_1010u8, 0b0000_1111];
    let key_a = vec![0b0101_0101u8, 0b1111_0000];
    let key_b = vec![0b1111_1111u8, 0b0000_0000];
    let out = xor_vernam(&data, &key_a, &key_b);
    assert_eq!(out, vec![0b0000_0000u8, 0b1111_1111]);
}

#[test]
fn xor_vernam_short_keys_count_as_zero() {
    let data = vec![7u8, 8, 9];
    let key_a = vec![1u8];
    let key_b: Vec<u8> = Vec::new();
    let out = xor_vernam(&data, &key_a, &key_b);
    assert_eq!(out, vec![6u8, 8, 9]);
}

#[test]
fn xor_vernam_involution_full_length_keys() {
    let data = b"media frame payload".to_vec();
    let key_a: Vec<u8> = (0..data.len()).map(|i| (i * 7 + 3) as u8).collect();
    let key_b: Vec<u8> = (0..data.len()).map(|i| (i * 13 + 11) as u8).collect();
    let once = xor_vernam(&data, &key_a, &key_b);
    let twice = xor_vernam(&once, &key_a, &key_b);
    assert_eq!(twice, data);
}
