use base64::Engine;
use clipcrypt::codec::{decrypt_data, encrypt_data, encrypt_text, encrypt_to_text};
use clipcrypt::error::EncryptionError;
use clipcrypt::keystore::{derive_key, set_encryption_key, KeyStore};
use clipcrypt::record::{ClipboardRecord, FileAttachment, FullClipboardDto, ImageContent, TextContent};
use clipcrypt::transform::{decrypt_clipboard, encrypt_clipboard, FieldKind, TransformError};

fn store(password: &str) -> KeyStore {
    let mut keys = KeyStore::new();
    set_encryption_key(&mut keys, password.to_string());
    keys
}

fn b64(bytes: &[u8]) -> String {
    base64::engine::general_purpose::STANDARD.encode(bytes)
}

fn head(id: u128, kind: &str, encrypted: bool) -> ClipboardRecord {
    ClipboardRecord { id, kind: kind.to_string(), encrypted, created_at: 1_700_000_000_000, star: Some(true) }
}

fn bare(id: u128, encrypted: bool) -> FullClipboardDto {
    FullClipboardDto {
        clipboard: head(id, "text", encrypted),
        text: None,
        html: None,
        rtf: None,
        image: None,
        files: Vec::new(),
    }
}

fn body(id: u128, clipboard_id: u128, kind: &str, data: &str) -> TextContent {
    TextContent { id, clipboard_id, kind: kind.to_string(), data: data.to_string() }
}

fn image(clipboard_id: u128, data: Vec<u8>, thumbnail: String) -> ImageContent {
    ImageContent {
        id: 40,
        clipboard_id,
        data,
        thumbnail,
        extension: Some("png".to_string()),
        width: Some(640),
        height: Some(480),
        size: Some("12 KB".to_string()),
    }
}

fn file(id: u128, clipboard_id: u128, name: &str, data: &[u8], extension: Option<&str>, mime: Option<&str>) -> FileAttachment {
    FileAttachment {
        id,
        clipboard_id,
        name: name.to_string(),
        data: data.to_vec(),
        extension: extension.map(|e| e.to_string()),
        mime_type: mime.map(|m| m.to_string()),
    }
}

/// A plaintext entry with every kind of content.
fn rich(id: u128) -> FullClipboardDto {
    FullClipboardDto {
        clipboard: head(id, "files", false),
        text: Some(body(1, id, "text", "plain words")),
        html: Some(body(2, id, "html", "<b>bold</b>")),
        rtf: Some(body(3, id, "rtf", "{\\rtf1 hi}")),
        image: Some(image(id, vec![0x89, 0x50, 0x4e, 0x47, 0, 1, 2, 255], b64(&[9, 8, 7, 6]))),
        files: vec![
            file(50, id, "report.pdf", b"%PDF-1.7", Some("pdf"), Some("application/pdf")),
            file(51, id, "notes", b"", None, None),
            file(52, id, "data.bin", &[0, 255, 0, 255], Some("bin"), None),
        ],
    }
}

fn failure(id: u128, field: FieldKind, file_index: Option<usize>, cause: EncryptionError) -> TransformError {
    TransformError { clipboard_id: id, field, file_index, cause }
}

#[test]
fn hello_sealed_by_hand_decrypts_to_hello() {
    let key = derive_key("pw");
    let nonce = [5u8; 12];
    let unbound = ring::aead::UnboundKey::new(&ring::aead::AES_256_GCM, &key).unwrap();
    let mut in_out = b"hello".to_vec();
    ring::aead::LessSafeKey::new(unbound)
        .seal_in_place_append_tag(
            ring::aead::Nonce::assume_unique_for_key(nonce),
            ring::aead::Aad::empty(),
            &mut in_out,
        )
        .unwrap();
    let mut blob = nonce.to_vec();
    blob.extend_from_slice(&in_out);

    let mut entry = bare(7, true);
    entry.text = Some(body(1, 7, "text", &b64(&blob)));
    let plain = decrypt_clipboard(&store("pw"), &entry).unwrap();
    assert_eq!(plain.text.as_ref().unwrap().data, "hello");
    assert!(!plain.clipboard.encrypted);

    let mut expected = bare(7, false);
    expected.text = Some(body(1, 7, "text", "hello"));
    assert_eq!(plain, expected);
}

#[test]
fn entry_with_the_flag_down_is_refused_and_left_alone() {
    let entry = rich(11);
    let before = entry.clone();
    assert_eq!(
        decrypt_clipboard(&store("pw"), &entry),
        Err(failure(11, FieldKind::Flag, None, EncryptionError::NotEncrypted))
    );
    assert_eq!(entry, before);
}

#[test]
fn flag_is_judged_before_the_key() {
    assert_eq!(
        decrypt_clipboard(&KeyStore::new(), &bare(3, false)),
        Err(failure(3, FieldKind::Flag, None, EncryptionError::NotEncrypted))
    );
}

#[test]
fn entry_without_content_only_drops_the_flag() {
    assert_eq!(decrypt_clipboard(&store("pw"), &bare(3, true)), Ok(bare(3, false)));
    assert_eq!(decrypt_clipboard(&KeyStore::new(), &bare(3, true)), Ok(bare(3, false)));
}

#[test]
fn whole_entry_round_trip() {
    let keys = store("pw");
    let plain = rich(21);
    let sealed = encrypt_clipboard(&keys, &plain).unwrap();
    assert!(sealed.clipboard.encrypted);
    assert_ne!(sealed.text, plain.text);
    assert_ne!(sealed.image, plain.image);
    assert_ne!(sealed.files, plain.files);
    assert_eq!(decrypt_clipboard(&keys, &sealed), Ok(plain));
}

#[test]
fn encryption_keeps_what_is_no_content() {
    let keys = store("pw");
    let plain = rich(21);
    let sealed = encrypt_clipboard(&keys, &plain).unwrap();
    assert_eq!(sealed.clipboard, head(21, "files", true));
    let text = sealed.text.as_ref().unwrap();
    assert_eq!((text.id, text.clipboard_id, text.kind.as_str()), (1, 21, "text"));
    let picture = sealed.image.as_ref().unwrap();
    assert_eq!(picture.extension, Some("png".to_string()));
    assert_eq!((picture.width, picture.height), (Some(640), Some(480)));
    assert_eq!(picture.size, Some("12 KB".to_string()));
    assert_eq!(sealed.files.len(), 3);
    assert_eq!((sealed.files[1].id, sealed.files[1].clipboard_id), (51, 21));
    assert_eq!(sealed.files[1].extension, None);
    assert_eq!(sealed.files[1].mime_type, None);
    assert!(sealed.files[2].extension.is_some());
}

#[test]
fn encrypted_fields_have_the_shape_of_their_kind() {
    let keys = store("pw");
    let plain = rich(21);
    let sealed = encrypt_clipboard(&keys, &plain).unwrap();
    // Text fields are base64 of a blob.
    let text_blob = base64::engine::general_purpose::STANDARD
        .decode(&sealed.text.as_ref().unwrap().data)
        .unwrap();
    assert_eq!(decrypt_data(&keys, &text_blob), Ok(b"plain words".to_vec()));
    // Image and file payloads are raw blobs.
    let picture = sealed.image.as_ref().unwrap();
    assert_eq!(picture.data.len(), 8 + 28);
    assert_eq!(decrypt_data(&keys, &picture.data), Ok(vec![0x89, 0x50, 0x4e, 0x47, 0, 1, 2, 255]));
    assert_eq!(decrypt_data(&keys, &sealed.files[0].data), Ok(b"%PDF-1.7".to_vec()));
    // The thumbnail is base64 of a blob of the thumbnail's bytes.
    let thumb_blob = base64::engine::general_purpose::STANDARD.decode(&picture.thumbnail).unwrap();
    assert_eq!(decrypt_data(&keys, &thumb_blob), Ok(vec![9, 8, 7, 6]));
}

#[test]
fn success_drops_the_flag_once_everything_is_plain() {
    let keys = store("pw");
    let sealed = encrypt_clipboard(&keys, &rich(5)).unwrap();
    let plain = decrypt_clipboard(&keys, &sealed).unwrap();
    assert!(!plain.clipboard.encrypted);
    assert_eq!(plain.files[0].name, "report.pdf");
    assert_eq!(plain.files[0].mime_type, Some("application/pdf".to_string()));
    assert_eq!(plain.files[2].data, vec![0, 255, 0, 255]);
}

#[test]
fn failure_leaves_the_input_as_it_was() {
    let keys = store("pw");
    let mut sealed = encrypt_clipboard(&keys, &rich(5)).unwrap();
    sealed.files[2].data.truncate(5);
    let before = sealed.clone();
    assert!(decrypt_clipboard(&keys, &sealed).is_err());
    assert_eq!(sealed, before);
    assert!(sealed.clipboard.encrypted);
}

#[test]
fn text_failure_names_the_text() {
    let keys = store("pw");
    let mut sealed = encrypt_clipboard(&keys, &rich(5)).unwrap();
    sealed.text.as_mut().unwrap().data = "not base64!".to_string();
    assert_eq!(
        decrypt_clipboard(&keys, &sealed),
        Err(failure(5, FieldKind::Text, None, EncryptionError::DecryptionFailed))
    );
}

#[test]
fn html_failure_names_the_html() {
    let keys = store("pw");
    let mut sealed = encrypt_clipboard(&keys, &rich(5)).unwrap();
    sealed.html.as_mut().unwrap().data = b64(&[1, 2, 3]);
    assert_eq!(
        decrypt_clipboard(&keys, &sealed),
        Err(failure(5, FieldKind::Html, None, EncryptionError::NotEncrypted))
    );
}

#[test]
fn rtf_failure_names_the_rtf() {
    let keys = store("pw");
    let mut sealed = encrypt_clipboard(&keys, &rich(5)).unwrap();
    sealed.rtf.as_mut().unwrap().data = encrypt_text(&store("other"), "x").unwrap();
    assert_eq!(
        decrypt_clipboard(&keys, &sealed),
        Err(failure(5, FieldKind::Rtf, None, EncryptionError::InvalidKey))
    );
}

#[test]
fn truncated_image_payload_is_not_encrypted() {
    let keys = store("pw");
    let mut sealed = encrypt_clipboard(&keys, &rich(5)).unwrap();
    sealed.image.as_mut().unwrap().data.truncate(5);
    assert_eq!(
        decrypt_clipboard(&keys, &sealed),
        Err(failure(5, FieldKind::ImageData, None, EncryptionError::NotEncrypted))
    );
}

#[test]
fn image_payload_comes_before_the_thumbnail() {
    let keys = store("pw");
    let mut sealed = encrypt_clipboard(&keys, &rich(5)).unwrap();
    sealed.image.as_mut().unwrap().data.truncate(5);
    sealed.image.as_mut().unwrap().thumbnail = "***".to_string();
    assert_eq!(
        decrypt_clipboard(&keys, &sealed).unwrap_err().field,
        FieldKind::ImageData
    );
}

#[test]
fn thumbnail_failure_names_the_thumbnail() {
    let keys = store("pw");
    let mut sealed = encrypt_clipboard(&keys, &rich(5)).unwrap();
    sealed.image.as_mut().unwrap().thumbnail = "***".to_string();
    assert_eq!(
        decrypt_clipboard(&keys, &sealed),
        Err(failure(5, FieldKind::ImageThumbnail, None, EncryptionError::DecryptionFailed))
    );
}

#[test]
fn file_failures_name_the_field_and_the_place_in_the_list() {
    let keys = store("pw");
    let sealed = encrypt_clipboard(&keys, &rich(5)).unwrap();

    let mut broken = sealed.clone();
    broken.files[1].name = "???".to_string();
    assert_eq!(
        decrypt_clipboard(&keys, &broken),
        Err(failure(5, FieldKind::FileName, Some(1), EncryptionError::DecryptionFailed))
    );

    let mut broken = sealed.clone();
    broken.files[2].data = vec![0u8; 40];
    assert_eq!(
        decrypt_clipboard(&keys, &broken),
        Err(failure(5, FieldKind::FileData, Some(2), EncryptionError::InvalidKey))
    );

    let mut broken = sealed.clone();
    broken.files[0].extension = Some(encrypt_to_text(&keys, &[0xff]).unwrap());
    assert_eq!(
        decrypt_clipboard(&keys, &broken),
        Err(failure(5, FieldKind::FileExtension, Some(0), EncryptionError::DecryptionFailed))
    );

    let mut broken = sealed.clone();
    broken.files[0].mime_type = Some(String::new());
    assert_eq!(
        decrypt_clipboard(&keys, &broken),
        Err(failure(5, FieldKind::FileMimeType, Some(0), EncryptionError::NotEncrypted))
    );
}

#[test]
fn first_failing_file_is_the_one_reported() {
    let keys = store("pw");
    let mut sealed = encrypt_clipboard(&keys, &rich(5)).unwrap();
    sealed.files[0].data.truncate(3);
    sealed.files[2].name = "???".to_string();
    assert_eq!(
        decrypt_clipboard(&keys, &sealed),
        Err(failure(5, FieldKind::FileData, Some(0), EncryptionError::NotEncrypted))
    );
}

#[test]
fn earlier_fields_fail_before_later_ones() {
    let keys = store("pw");
    let mut sealed = encrypt_clipboard(&keys, &rich(5)).unwrap();
    sealed.rtf.as_mut().unwrap().data = "???".to_string();
    sealed.files[0].data.truncate(3);
    assert_eq!(decrypt_clipboard(&keys, &sealed).unwrap_err().field, FieldKind::Rtf);
}

#[test]
fn wrong_key_fails_on_the_first_present_field() {
    let sealed = encrypt_clipboard(&store("k1"), &rich(5)).unwrap();
    assert_eq!(
        decrypt_clipboard(&store("k2"), &sealed),
        Err(failure(5, FieldKind::Text, None, EncryptionError::InvalidKey))
    );
}

#[test]
fn without_a_key_decryption_fails_with_no_key() {
    let sealed = encrypt_clipboard(&store("k1"), &rich(5)).unwrap();
    assert_eq!(
        decrypt_clipboard(&KeyStore::new(), &sealed),
        Err(failure(5, FieldKind::Text, None, EncryptionError::NoKey))
    );
}

#[test]
fn files_alone_are_decrypted() {
    let keys = store("pw");
    let mut plain = bare(9, false);
    plain.files = vec![file(1, 9, "a.txt", b"a", Some("txt"), Some("text/plain"))];
    let sealed = encrypt_clipboard(&keys, &plain).unwrap();
    assert_eq!(decrypt_clipboard(&keys, &sealed), Ok(plain));
}

#[test]
fn entry_already_encrypted_is_not_encrypted_again() {
    let keys = store("pw");
    let sealed = encrypt_clipboard(&keys, &rich(5)).unwrap();
    assert_eq!(
        encrypt_clipboard(&keys, &sealed),
        Err(failure(5, FieldKind::Flag, None, EncryptionError::EncryptionFailed))
    );
}

#[test]
fn without_a_key_encryption_fails_with_no_key() {
    assert_eq!(
        encrypt_clipboard(&KeyStore::new(), &rich(5)),
        Err(failure(5, FieldKind::Text, None, EncryptionError::NoKey))
    );
    let mut only_files = bare(6, false);
    only_files.files = vec![file(1, 6, "a", b"a", None, None)];
    assert_eq!(
        encrypt_clipboard(&KeyStore::new(), &only_files),
        Err(failure(6, FieldKind::FileName, Some(0), EncryptionError::NoKey))
    );
}

#[test]
fn entry_without_content_only_raises_the_flag() {
    assert_eq!(encrypt_clipboard(&KeyStore::new(), &bare(3, false)), Ok(bare(3, true)));
}

#[test]
fn thumbnail_that_is_no_base64_cannot_be_encrypted() {
    let keys = store("pw");
    let mut plain = bare(4, false);
    plain.image = Some(image(4, vec![1, 2, 3], "***".to_string()));
    assert_eq!(
        encrypt_clipboard(&keys, &plain),
        Err(failure(4, FieldKind::ImageThumbnail, None, EncryptionError::EncryptionFailed))
    );
}

#[test]
fn raw_blob_as_image_payload_is_accepted() {
    let keys = store("pw");
    let mut sealed = bare(4, true);
    sealed.image = Some(image(
        4,
        encrypt_data(&keys, &[1, 2, 3]).unwrap(),
        encrypt_to_text(&keys, &[4, 5]).unwrap(),
    ));
    let plain = decrypt_clipboard(&keys, &sealed).unwrap();
    let picture = plain.image.unwrap();
    assert_eq!(picture.data, vec![1, 2, 3]);
    assert_eq!(picture.thumbnail, b64(&[4, 5]));
}
