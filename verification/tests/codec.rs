use base64::Engine;
use clipcrypt::codec::{
    classify_opening, decrypt_data, decrypt_decoded, decrypt_text, decrypt_thumbnail, encrypt_data,
    encrypt_data_with_nonce, encrypt_text, encrypt_to_text, frame_sealed, looks_like_encrypted_data,
    text_from_plain, wrap_bytes,
};
use clipcrypt::error::EncryptionError;
use clipcrypt::keystore::{derive_key, set_encryption_key, KeyStore};

fn unhex(text: &str) -> Vec<u8> {
    let digits: Vec<u8> = text.bytes().map(|b| (b as char).to_digit(16).unwrap() as u8).collect();
    digits.chunks(2).map(|pair| pair[0] * 16 + pair[1]).collect()
}

fn store(password: &str) -> KeyStore {
    let mut keys = KeyStore::new();
    set_encryption_key(&mut keys, password.to_string());
    keys
}

/// Seals with ring directly, as a record written by another program would be.
fn seal_by_hand(password: &str, nonce: [u8; 12], plain: &[u8]) -> Vec<u8> {
    let key = derive_key(password);
    let unbound = ring::aead::UnboundKey::new(&ring::aead::AES_256_GCM, &key).unwrap();
    let sealing = ring::aead::LessSafeKey::new(unbound);
    let mut in_out = plain.to_vec();
    sealing
        .seal_in_place_append_tag(
            ring::aead::Nonce::assume_unique_for_key(nonce),
            ring::aead::Aad::empty(),
            &mut in_out,
        )
        .unwrap();
    let mut blob = nonce.to_vec();
    blob.extend_from_slice(&in_out);
    blob
}

#[test]
fn sealing_matches_the_published_vector_for_an_empty_plaintext() {
    let keys = KeyStore::from_key([0u8; 32]);
    let blob = encrypt_data_with_nonce(&keys, &[0u8; 12], &[]).unwrap();
    let mut expected = vec![0u8; 12];
    expected.extend(unhex("530f8afbc74536b9a963b4f1c4cb738b"));
    assert_eq!(blob, expected);
}

#[test]
fn sealing_matches_the_published_vector_for_one_block() {
    let keys = KeyStore::from_key([0u8; 32]);
    let blob = encrypt_data_with_nonce(&keys, &[0u8; 12], &[0u8; 16]).unwrap();
    let mut expected = vec![0u8; 12];
    expected.extend(unhex("cea7403d4d606b6e074ec5d3baf39d18"));
    expected.extend(unhex("d0d1c8a799996bf0265b98b5d48ab919"));
    assert_eq!(blob, expected);
}

#[test]
fn opening_the_published_vector_gives_the_plaintext() {
    let keys = KeyStore::from_key([0u8; 32]);
    let mut blob = vec![0u8; 12];
    blob.extend(unhex("cea7403d4d606b6e074ec5d3baf39d18"));
    blob.extend(unhex("d0d1c8a799996bf0265b98b5d48ab919"));
    assert_eq!(decrypt_data(&keys, &blob), Ok(vec![0u8; 16]));
}

#[test]
fn blob_is_nonce_then_ciphertext_then_tag() {
    let keys = store("pw");
    let nonce = [9u8; 12];
    let blob = encrypt_data_with_nonce(&keys, &nonce, b"hello").unwrap();
    assert_eq!(blob.len(), 12 + 5 + 16);
    assert_eq!(&blob[..12], &nonce);
    assert_eq!(blob, seal_by_hand("pw", nonce, b"hello"));
}

#[test]
fn round_trip_restores_the_plaintext() {
    let keys = store("pw");
    for plain in [&b""[..], &b"a"[..], &b"hello world"[..], &[0u8, 255, 1, 254][..]] {
        let blob = encrypt_data(&keys, plain).unwrap();
        assert_eq!(decrypt_data(&keys, &blob), Ok(plain.to_vec()));
    }
}

#[test]
fn round_trip_of_a_long_plaintext() {
    let keys = store("pw");
    let plain: Vec<u8> = (0..100_000u32).map(|i| (i % 251) as u8).collect();
    let blob = encrypt_data(&keys, &plain).unwrap();
    assert_eq!(blob.len(), plain.len() + 28);
    assert_eq!(decrypt_data(&keys, &blob), Ok(plain));
}

#[test]
fn every_encryption_draws_a_nonce_of_its_own() {
    let keys = store("pw");
    let one = encrypt_data(&keys, b"same").unwrap();
    let two = encrypt_data(&keys, b"same").unwrap();
    assert_ne!(one[..12], two[..12]);
    assert_ne!(one, two);
}

#[test]
fn wrong_key_is_reported_as_invalid_key() {
    let blob = encrypt_data(&store("k1"), b"secret").unwrap();
    assert_eq!(decrypt_data(&store("k2"), &blob), Err(EncryptionError::InvalidKey));
}

#[test]
fn wrong_key_on_an_empty_plaintext_is_invalid_key() {
    let blob = encrypt_data(&store("k1"), b"").unwrap();
    assert_eq!(blob.len(), 28);
    assert_eq!(decrypt_data(&store("k2"), &blob), Err(EncryptionError::InvalidKey));
}

#[test]
fn tampered_blob_is_reported_as_invalid_key() {
    let keys = store("pw");
    let mut blob = encrypt_data(&keys, b"secret").unwrap();
    let last = blob.len() - 1;
    blob[last] ^= 1;
    assert_eq!(decrypt_data(&keys, &blob), Err(EncryptionError::InvalidKey));
}

#[test]
fn short_input_is_not_encrypted() {
    let keys = store("pw");
    for len in 0..12usize {
        assert_eq!(
            decrypt_data(&keys, &vec![7u8; len]),
            Err(EncryptionError::NotEncrypted)
        );
    }
}

#[test]
fn short_input_is_judged_before_the_key() {
    let keys = KeyStore::new();
    assert_eq!(decrypt_data(&keys, &[1, 2, 3]), Err(EncryptionError::NotEncrypted));
    assert_eq!(decrypt_data(&keys, &[]), Err(EncryptionError::NotEncrypted));
}

#[test]
fn without_a_key_decryption_is_no_key() {
    let keys = KeyStore::new();
    assert_eq!(decrypt_data(&keys, &[0u8; 12]), Err(EncryptionError::NoKey));
    assert_eq!(decrypt_data(&keys, &[0u8; 40]), Err(EncryptionError::NoKey));
}

#[test]
fn without_a_key_encryption_is_no_key() {
    let keys = KeyStore::new();
    assert_eq!(encrypt_data(&keys, b"x"), Err(EncryptionError::NoKey));
    assert_eq!(
        encrypt_data_with_nonce(&keys, &[0u8; 12], b"x"),
        Err(EncryptionError::NoKey)
    );
}

#[test]
fn blob_without_room_for_a_tag_is_not_encrypted() {
    let keys = store("pw");
    assert_eq!(decrypt_data(&keys, &[0u8; 12]), Err(EncryptionError::NotEncrypted));
    assert_eq!(decrypt_data(&keys, &[0u8; 27]), Err(EncryptionError::NotEncrypted));
}

#[test]
fn blob_with_room_for_a_tag_that_does_not_open_is_invalid_key() {
    let keys = store("pw");
    assert_eq!(decrypt_data(&keys, &[0u8; 28]), Err(EncryptionError::InvalidKey));
    assert_eq!(decrypt_data(&keys, b"this is legacy plaintext, long enough"), Err(EncryptionError::InvalidKey));
}

#[test]
fn looks_like_encrypted_data_asks_for_nonce_and_tag() {
    assert!(!looks_like_encrypted_data(&[]));
    assert!(!looks_like_encrypted_data(&[0u8; 27]));
    assert!(looks_like_encrypted_data(&[0u8; 28]));
    assert!(looks_like_encrypted_data(&[0u8; 1000]));
}

#[test]
fn classify_opening_passes_plaintext_through() {
    assert_eq!(classify_opening(&[0u8; 40], Some(vec![1, 2, 3])), Ok(vec![1, 2, 3]));
    assert_eq!(classify_opening(&[], Some(vec![])), Ok(vec![]));
}

#[test]
fn classify_opening_labels_a_refusal_by_structure() {
    assert_eq!(classify_opening(&[0u8; 28], None), Err(EncryptionError::InvalidKey));
    assert_eq!(classify_opening(&[0u8; 27], None), Err(EncryptionError::NotEncrypted));
}

#[test]
fn frame_sealed_puts_the_nonce_in_front() {
    let nonce = [1u8, 2, 3, 4, 5, 6, 7, 8, 9, 10, 11, 12];
    assert_eq!(
        frame_sealed(&nonce, Some(vec![100, 101])),
        Ok(vec![1, 2, 3, 4, 5, 6, 7, 8, 9, 10, 11, 12, 100, 101])
    );
    assert_eq!(frame_sealed(&nonce, Some(vec![])), Ok(nonce.to_vec()));
    assert_eq!(frame_sealed(&nonce, None), Err(EncryptionError::EncryptionFailed));
}

#[test]
fn text_from_plain_reads_utf8() {
    assert_eq!(text_from_plain(b"hello".to_vec()), Ok("hello".to_string()));
    assert_eq!(text_from_plain(vec![0xc3, 0xa9]), Ok("\u{e9}".to_string()));
    assert_eq!(text_from_plain(vec![]), Ok(String::new()));
}

#[test]
fn text_from_plain_rejects_what_is_no_utf8() {
    assert_eq!(text_from_plain(vec![0xff, 0xfe]), Err(EncryptionError::DecryptionFailed));
    assert_eq!(text_from_plain(vec![0xc3]), Err(EncryptionError::DecryptionFailed));
}

#[test]
fn wrap_bytes_writes_standard_padded_base64() {
    assert_eq!(
        wrap_bytes(b"hello", EncryptionError::EncryptionFailed),
        Ok("aGVsbG8=".to_string())
    );
    assert_eq!(wrap_bytes(b"", EncryptionError::EncryptionFailed), Ok(String::new()));
    assert_eq!(
        wrap_bytes(&[0xfb, 0xff], EncryptionError::DecryptionFailed),
        Ok("+/8=".to_string())
    );
}

#[test]
fn decrypt_decoded_without_base64_is_a_decoding_failure() {
    let keys = store("pw");
    assert_eq!(decrypt_decoded(&keys, None), Err(EncryptionError::DecryptionFailed));
}

#[test]
fn decrypt_decoded_decrypts_the_blob() {
    let keys = store("pw");
    let blob = encrypt_data(&keys, b"abc").unwrap();
    assert_eq!(decrypt_decoded(&keys, Some(blob)), Ok(b"abc".to_vec()));
    assert_eq!(decrypt_decoded(&keys, Some(vec![1, 2])), Err(EncryptionError::NotEncrypted));
}

#[test]
fn decrypt_text_opens_a_field_sealed_by_hand() {
    let blob = seal_by_hand("pw", [3u8; 12], b"hello");
    let field = base64::engine::general_purpose::STANDARD.encode(&blob);
    assert_eq!(decrypt_text(&store("pw"), &field), Ok("hello".to_string()));
}

#[test]
fn decrypt_text_rejects_what_is_no_base64() {
    let keys = store("pw");
    assert_eq!(decrypt_text(&keys, "not base64!"), Err(EncryptionError::DecryptionFailed));
    assert_eq!(decrypt_text(&keys, "hello world"), Err(EncryptionError::DecryptionFailed));
}

#[test]
fn decrypt_text_of_an_empty_field_is_not_encrypted() {
    assert_eq!(decrypt_text(&store("pw"), ""), Err(EncryptionError::NotEncrypted));
}

#[test]
fn decrypt_text_rejects_plaintext_that_is_no_utf8() {
    let keys = store("pw");
    let field = encrypt_to_text(&keys, &[0xff, 0xfe, 0xfd]).unwrap();
    assert_eq!(decrypt_text(&keys, &field), Err(EncryptionError::DecryptionFailed));
}

#[test]
fn decrypt_text_under_the_wrong_key_is_invalid_key() {
    let field = encrypt_text(&store("k1"), "hello").unwrap();
    assert_eq!(decrypt_text(&store("k2"), &field), Err(EncryptionError::InvalidKey));
}

#[test]
fn decrypt_text_without_a_key_is_no_key() {
    let field = encrypt_text(&store("k1"), "hello").unwrap();
    assert_eq!(decrypt_text(&KeyStore::new(), &field), Err(EncryptionError::NoKey));
}

#[test]
fn text_round_trip() {
    let keys = store("pw");
    for text in ["", "hello", "gr\u{fc}\u{df}e \u{1f600}", "line\nbreak"] {
        let field = encrypt_text(&keys, text).unwrap();
        assert_ne!(field, text);
        assert_eq!(decrypt_text(&keys, &field), Ok(text.to_string()));
    }
}

#[test]
fn encrypted_text_is_base64_of_a_blob() {
    let keys = store("pw");
    let field = encrypt_text(&keys, "hello").unwrap();
    let blob = base64::engine::general_purpose::STANDARD.decode(&field).unwrap();
    assert_eq!(blob.len(), 12 + 5 + 16);
    assert_eq!(decrypt_data(&keys, &blob), Ok(b"hello".to_vec()));
}

#[test]
fn encrypt_text_without_a_key_is_no_key() {
    assert_eq!(encrypt_text(&KeyStore::new(), "x"), Err(EncryptionError::NoKey));
    assert_eq!(encrypt_to_text(&KeyStore::new(), b"x"), Err(EncryptionError::NoKey));
}

#[test]
fn decrypt_thumbnail_gives_base64_of_the_plain_bytes() {
    let keys = store("pw");
    let raw = [0x89u8, 0x50, 0x4e, 0x47, 0xff];
    let field = encrypt_to_text(&keys, &raw).unwrap();
    assert_eq!(
        decrypt_thumbnail(&keys, &field),
        Ok(base64::engine::general_purpose::STANDARD.encode(raw))
    );
}

#[test]
fn decrypt_thumbnail_rejects_what_is_no_base64() {
    assert_eq!(
        decrypt_thumbnail(&store("pw"), "***"),
        Err(EncryptionError::DecryptionFailed)
    );
}

#[test]
fn decrypt_thumbnail_under_the_wrong_key_is_invalid_key() {
    let field = encrypt_to_text(&store("k1"), &[1, 2, 3]).unwrap();
    assert_eq!(decrypt_thumbnail(&store("k2"), &field), Err(EncryptionError::InvalidKey));
}
