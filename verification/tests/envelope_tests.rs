use zks_core::decrypt_frame;
use zks_core::decrypt_to_text;
use zks_core::decrypt_with_key;
use zks_core::encrypt_data_return_key;
use zks_core::encrypt_frame;
use zks_core::encrypt_frame_local;
use zks_core::encrypt_text_double_key;
use zks_core::encrypt_text_return_key;
use zks_core::encrypt_text_with_buffer;
use zks_core::encrypt_with_buffer;
use zks_core::xor_vernam;
use zks_core::KeyStreamBuffer;

fn buffer_with(material: &[u8]) -> KeyStreamBuffer {
    let mut b = KeyStreamBuffer::new();
    b.push_key_bytes(material);
    b
}

#[test]
fn text_round_trip_through_buffer() {
    let key_material = vec![0x21u8, 0x42, 0x63, 0x84, 0xA5, 0xC6];
    let mut b = buffer_with(&key_material);

    let encrypted = encrypt_text_with_buffer(&mut b, "hidden");
    assert_eq!(encrypted.len(), 6);
    assert_ne!(encrypted, b"hidden".to_vec());
    assert_eq!(b.current_offset(), 6);

    let text = decrypt_to_text(&encrypted, &key_material);
    assert_eq!(text, "hidden");
}

#[test]
fn binary_round_trip_through_buffer() {
    let key_material = vec![0xF0u8, 0x0F, 0x55, 0xAA];
    let mut b = buffer_with(&key_material);
    let data = vec![1u8, 2, 3, 4];

    let encrypted = encrypt_with_buffer(&mut b, &data);
    assert_eq!(encrypted, vec![0xF1u8, 0x0D, 0x56, 0xAE]);

    let decrypted = decrypt_with_key(&encrypted, &key_material);
    assert_eq!(decrypted, data);
}

#[test]
fn short_key_truncates_ciphertext() {
    let mut b = buffer_with(&[0x11u8, 0x22]);
    let encrypted = encrypt_with_buffer(&mut b, &[5u8, 6, 7, 8]);
    assert_eq!(encrypted.len(), 2);
    assert_eq!(b.current_offset(), 2);
}

#[test]
fn envelope_carries_key_and_offset() {
    let key_material = vec![9u8, 8, 7, 6, 5];
    let mut b = buffer_with(&key_material);
    let _ = b.get_key_chunk(2);

    let envelope = encrypt_text_return_key(&mut b, "ok");
    assert_eq!(envelope.get_offset(), 2);
    assert_eq!(envelope.get_key(), vec![7u8, 6]);

    let text = decrypt_to_text(&envelope.get_encrypted(), &envelope.get_key());
    assert_eq!(text, "ok");
}

#[test]
fn data_envelope_round_trip() {
    let key_material = vec![3u8, 1, 4, 1, 5, 9];
    let mut b = buffer_with(&key_material);
    let data = vec![10u8, 20, 30];

    let envelope = encrypt_data_return_key(&mut b, &data);
    assert_eq!(envelope.get_offset(), 0);
    assert_eq!(envelope.get_key(), vec![3u8, 1, 4]);
    assert_eq!(b.current_offset(), 3);

    let decrypted = decrypt_with_key(&envelope.get_encrypted(), &envelope.get_key());
    assert_eq!(decrypted, data);
}

#[test]
fn double_key_envelope_round_trip() {
    let key_material = vec![0xAAu8; 16];
    let mut b = buffer_with(&key_material);

    let envelope = encrypt_text_double_key(&mut b, "double keyed");
    assert_eq!(envelope.get_offset(), 0);
    assert_eq!(envelope.get_key_a().len(), 12);
    assert_eq!(envelope.get_key_b(), vec![0xAAu8; 12]);
    assert_eq!(b.current_offset(), 12);

    let decrypted = xor_vernam(
        &envelope.get_encrypted(),
        &envelope.get_key_a(),
        &envelope.get_key_b(),
    );
    assert_eq!(decrypted, b"double keyed".to_vec());
}

#[test]
fn frame_round_trip_through_buffer() {
    let key_material: Vec<u8> = (0u8..64).collect();
    let mut b = buffer_with(&key_material);
    let frame: Vec<u8> = (100u8..150).collect();

    let envelope = encrypt_frame(&mut b, &frame);
    assert_eq!(envelope.get_offset(), 0);
    assert_eq!(envelope.get_key().len(), 50);
    assert_eq!(b.current_offset(), 50);

    let decrypted = decrypt_frame(&envelope.get_encrypted(), &envelope.get_key());
    assert_eq!(decrypted, frame);
}

#[test]
fn local_frame_round_trip_without_buffer() {
    let frame: Vec<u8> = (0u8..200).collect();
    let envelope = encrypt_frame_local(&frame);
    assert_eq!(envelope.get_offset(), 0);
    assert_eq!(envelope.get_key().len(), frame.len());

    let decrypted = decrypt_frame(&envelope.get_encrypted(), &envelope.get_key());
    assert_eq!(decrypted, frame);
}

#[test]
fn decrypt_to_text_replaces_invalid_utf8() {
    let bytes = vec![0xFFu8, 0xFE];
    let zero_key = vec![0u8, 0];
    let text = decrypt_to_text(&bytes, &zero_key);
    assert_eq!(text.chars().count(), 2);
    assert!(text.chars().all(|c| c == '\u{FFFD}'));
}
