//! The record transformer: applies the field codec to every part of one
//! clipboard entry, as a single unit. The result is built beside the input,
//! so a failure on any field leaves the caller's entry as it was.

use vstd::prelude::*;
use vstd::utf8::encode_utf8;
use crate::codec::{
    decrypt_data, decrypt_text, decrypt_thumbnail, decrypted, decrypted_text, decrypted_thumbnail, encrypt_data,
    encrypt_text, encrypt_to_text, is_encrypted_text, is_encryption_of, lemma_text_round_trip,
    lemma_thumbnail_round_trip,
};
use crate::encoding::{base64_decode, base64_decoded, base64_encoded};
use crate::error::EncryptionError;
use crate::keystore::KeyStore;
use crate::record::{
    file_views, optional_content, optional_image, optional_text, ClipboardRecord, FileAttachment,
    FileAttachmentView, FullClipboardDto, FullClipboardView, ImageContent, ImageContentView, RecordId,
    TextContent, TextContentView,
};

verus! {

/// The part of an entry that a transformation was working on.
#[derive(Clone, Copy, Debug, PartialEq, Eq)]
pub enum FieldKind {
    /// The entry's own `encrypted` flag.
    Flag,
    Text,
    Html,
    Rtf,
    ImageData,
    ImageThumbnail,
    FileName,
    FileData,
    FileExtension,
    FileMimeType,
}

/// A failed transformation: which entry, which field, which file of the
/// list where the field belongs to one, and why. It carries neither key
/// material nor content.
#[derive(Clone, Copy, Debug, PartialEq, Eq)]
pub struct TransformError {
    pub clipboard_id: RecordId,
    pub field: FieldKind,
    pub file_index: Option<usize>,
    pub cause: EncryptionError,
}

/// The failure of a field that belongs to the entry itself.
pub open spec fn field_failure(id: RecordId, field: FieldKind, cause: EncryptionError) -> TransformError {
    TransformError { clipboard_id: id, field, file_index: None, cause }
}

/// The failure of a field of the file at `index`.
pub open spec fn file_failure(id: RecordId, field: FieldKind, index: int, cause: EncryptionError) -> TransformError {
    TransformError { clipboard_id: id, field, file_index: Some(index as usize), cause }
}

/// What decrypting an optional textual body yields.
pub open spec fn decrypted_content(
    key: Option<Seq<u8>>,
    id: RecordId,
    field: FieldKind,
    slot: Option<TextContentView>,
) -> Result<Option<TextContentView>, TransformError> {
    match slot {
        None => Ok(None),
        Some(content) => match decrypted_text(key, content.data) {
            Err(e) => Err(field_failure(id, field, e)),
            Ok(data) => Ok(Some(TextContentView { data, ..content })),
        },
    }
}

/// What decrypting an optional image yields: the payload first, then the
/// thumbnail.
pub open spec fn decrypted_image(key: Option<Seq<u8>>, id: RecordId, slot: Option<ImageContentView>) -> Result<
    Option<ImageContentView>,
    TransformError,
> {
    match slot {
        None => Ok(None),
        Some(image) => match decrypted(key, image.data) {
            Err(e) => Err(field_failure(id, FieldKind::ImageData, e)),
            Ok(data) => match decrypted_thumbnail(key, image.thumbnail) {
                Err(e) => Err(field_failure(id, FieldKind::ImageThumbnail, e)),
                Ok(thumbnail) => Ok(Some(ImageContentView { data, thumbnail, ..image })),
            },
        },
    }
}

/// What decrypting an optional text field of a file yields.
pub open spec fn decrypted_optional(
    key: Option<Seq<u8>>,
    id: RecordId,
    field: FieldKind,
    index: int,
    text: Option<Seq<char>>,
) -> Result<Option<Seq<char>>, TransformError> {
    match text {
        None => Ok(None),
        Some(t) => match decrypted_text(key, t) {
            Err(e) => Err(file_failure(id, field, index, e)),
            Ok(plain) => Ok(Some(plain)),
        },
    }
}

/// What decrypting the file at `index` yields: name, payload, extension,
/// MIME type, in that order.
pub open spec fn decrypted_file(key: Option<Seq<u8>>, id: RecordId, index: int, file: FileAttachmentView) -> Result<
    FileAttachmentView,
    TransformError,
> {
    match decrypted_text(key, file.name) {
        Err(e) => Err(file_failure(id, FieldKind::FileName, index, e)),
        Ok(name) => match decrypted(key, file.data) {
            Err(e) => Err(file_failure(id, FieldKind::FileData, index, e)),
            Ok(data) => match decrypted_optional(key, id, FieldKind::FileExtension, index, file.extension) {
                Err(e) => Err(e),
                Ok(extension) => match decrypted_optional(
                    key,
                    id,
                    FieldKind::FileMimeType,
                    index,
                    file.mime_type,
                ) {
                    Err(e) => Err(e),
                    Ok(mime_type) => Ok(FileAttachmentView { name, data, extension, mime_type, ..file }),
                },
            },
        },
    }
}

/// What decrypting a list of files yields: every file decrypted, or the
/// failure of the first file that fails.
pub open spec fn decrypted_files(key: Option<Seq<u8>>, id: RecordId, files: Seq<FileAttachmentView>) -> Result<
    Seq<FileAttachmentView>,
    TransformError,
>
    decreases files.len(),
{
    if files.len() == 0 {
        Ok(Seq::empty())
    } else {
        match decrypted_files(key, id, files.drop_last()) {
            Err(e) => Err(e),
            Ok(done) => match decrypted_file(key, id, files.len() - 1, files.last()) {
                Err(e) => Err(e),
                Ok(file) => Ok(done.push(file)),
            },
        }
    }
}

/// What decrypting a whole entry yields. An entry that is not flagged as
/// encrypted is refused; otherwise the fields are taken in the order text,
/// HTML, RTF, image, files, the first failure ends the attempt, and the flag
/// falls only when every present field has been decrypted.
pub open spec fn decrypted_clipboard(key: Option<Seq<u8>>, entry: FullClipboardView) -> Result<
    FullClipboardView,
    TransformError,
> {
    let id = entry.clipboard.id;
    if !entry.clipboard.encrypted {
        Err(field_failure(id, FieldKind::Flag, EncryptionError::NotEncrypted))
    } else {
        match decrypted_content(key, id, FieldKind::Text, entry.text) {
            Err(e) => Err(e),
            Ok(text) => match decrypted_content(key, id, FieldKind::Html, entry.html) {
                Err(e) => Err(e),
                Ok(html) => match decrypted_content(key, id, FieldKind::Rtf, entry.rtf) {
                    Err(e) => Err(e),
                    Ok(rtf) => match decrypted_image(key, id, entry.image) {
                        Err(e) => Err(e),
                        Ok(image) => match decrypted_files(key, id, entry.files) {
                            Err(e) => Err(e),
                            Ok(files) => Ok(
                                FullClipboardView {
                                    clipboard: crate::record::ClipboardRecordView {
                                        encrypted: false,
                                        ..entry.clipboard
                                    },
                                    text,
                                    html,
                                    rtf,
                                    image,
                                    files,
                                },
                            ),
                        },
                    },
                },
            },
        }
    }
}

/// The outcome of a transformation, over views.
pub open spec fn entry_outcome(result: Result<FullClipboardDto, TransformError>) -> Result<
    FullClipboardView,
    TransformError,
> {
    match result {
        Ok(entry) => Ok(entry@),
        Err(e) => Err(e),
    }
}

/// An independent copy of an optional string.
fn copy_optional(text: &Option<String>) -> (copy: Option<String>)
    ensures
        optional_text(copy) == optional_text(*text),
{
    match text {
        Some(t) => Some(t.clone()),
        None => None,
    }
}

/// Decrypts an optional textual body.
fn decrypt_content(keys: &KeyStore, id: RecordId, field: FieldKind, slot: &Option<TextContent>) -> (result: Result<
    Option<TextContent>,
    TransformError,
>)
    ensures
        match result {
            Ok(content) => decrypted_content(keys@, id, field, optional_content(*slot)) == Ok::<
                Option<TextContentView>,
                TransformError,
            >(optional_content(content)),
            Err(e) => decrypted_content(keys@, id, field, optional_content(*slot)) == Err::<
                Option<TextContentView>,
                TransformError,
            >(e),
        },
{
    match slot {
        None => Ok(None),
        Some(content) => match decrypt_text(keys, content.data.as_str()) {
            Err(cause) => Err(TransformError { clipboard_id: id, field, file_index: None, cause }),
            Ok(data) => Ok(
                Some(
                    TextContent {
                        id: content.id,
                        clipboard_id: content.clipboard_id,
                        kind: content.kind.clone(),
                        data,
                    },
                ),
            ),
        },
    }
}

/// Decrypts an optional image: the payload, then the thumbnail.
fn decrypt_image(keys: &KeyStore, id: RecordId, slot: &Option<ImageContent>) -> (result: Result<
    Option<ImageContent>,
    TransformError,
>)
    ensures
        match result {
            Ok(image) => decrypted_image(keys@, id, optional_image(*slot)) == Ok::<
                Option<ImageContentView>,
                TransformError,
            >(optional_image(image)),
            Err(e) => decrypted_image(keys@, id, optional_image(*slot)) == Err::<
                Option<ImageContentView>,
                TransformError,
            >(e),
        },
{
    match slot {
        None => Ok(None),
        Some(image) => {
            let data = match decrypt_data(keys, image.data.as_slice()) {
                Ok(data) => data,
                Err(cause) => {
                    return Err(
                        TransformError { clipboard_id: id, field: FieldKind::ImageData, file_index: None, cause },
                    );
                },
            };
            let thumbnail = match decrypt_thumbnail(keys, image.thumbnail.as_str()) {
                Ok(thumbnail) => thumbnail,
                Err(cause) => {
                    return Err(
                        TransformError {
                            clipboard_id: id,
                            field: FieldKind::ImageThumbnail,
                            file_index: None,
                            cause,
                        },
                    );
                },
            };
            Ok(
                Some(
                    ImageContent {
                        id: image.id,
                        clipboard_id: image.clipboard_id,
                        data,
                        thumbnail,
                        extension: copy_optional(&image.extension),
                        width: image.width,
                        height: image.height,
                        size: copy_optional(&image.size),
                    },
                ),
            )
        },
    }
}

/// Decrypts an optional text field of the file at `index`.
fn decrypt_optional(keys: &KeyStore, id: RecordId, field: FieldKind, index: usize, text: &Option<String>) -> (result:
    Result<Option<String>, TransformError>)
    ensures
        match result {
            Ok(plain) => decrypted_optional(keys@, id, field, index as int, optional_text(*text)) == Ok::<
                Option<Seq<char>>,
                TransformError,
            >(optional_text(plain)),
            Err(e) => decrypted_optional(keys@, id, field, index as int, optional_text(*text)) == Err::<
                Option<Seq<char>>,
                TransformError,
            >(e),
        },
{
    match text {
        None => Ok(None),
        Some(t) => match decrypt_text(keys, t.as_str()) {
            Err(cause) => Err(TransformError { clipboard_id: id, field, file_index: Some(index), cause }),
            Ok(plain) => Ok(Some(plain)),
        },
    }
}

/// Decrypts the file at `index`.
fn decrypt_file(keys: &KeyStore, id: RecordId, index: usize, file: &FileAttachment) -> (result: Result<
    FileAttachment,
    TransformError,
>)
    ensures
        match result {
            Ok(plain) => decrypted_file(keys@, id, index as int, file@) == Ok::<
                FileAttachmentView,
                TransformError,
            >(plain@),
            Err(e) => decrypted_file(keys@, id, index as int, file@) == Err::<FileAttachmentView, TransformError>(
                e,
            ),
        },
{
    let name = match decrypt_text(keys, file.name.as_str()) {
        Ok(name) => name,
        Err(cause) => {
            return Err(
                TransformError { clipboard_id: id, field: FieldKind::FileName, file_index: Some(index), cause },
            );
        },
    };
    let data = match decrypt_data(keys, file.data.as_slice()) {
        Ok(data) => data,
        Err(cause) => {
            return Err(
                TransformError { clipboard_id: id, field: FieldKind::FileData, file_index: Some(index), cause },
            );
        },
    };
    let extension = match decrypt_optional(keys, id, FieldKind::FileExtension, index, &file.extension) {
        Ok(extension) => extension,
        Err(e) => {
            return Err(e);
        },
    };
    let mime_type = match decrypt_optional(keys, id, FieldKind::FileMimeType, index, &file.mime_type) {
        Ok(mime_type) => mime_type,
        Err(e) => {
            return Err(e);
        },
    };
    Ok(FileAttachment { id: file.id, clipboard_id: file.clipboard_id, name, data, extension, mime_type })
}

/// Decrypts a list of files in order, stopping at the first that fails.
fn decrypt_files(keys: &KeyStore, id: RecordId, files: &Vec<FileAttachment>) -> (result: Result<
    Vec<FileAttachment>,
    TransformError,
>)
    ensures
        match result {
            Ok(plain) => decrypted_files(keys@, id, file_views(files@)) == Ok::<
                Seq<FileAttachmentView>,
                TransformError,
            >(file_views(plain@)),
            Err(e) => decrypted_files(keys@, id, file_views(files@)) == Err::<
                Seq<FileAttachmentView>,
                TransformError,
            >(e),
        },
{
    let ghost all = file_views(files@);
    let mut plain: Vec<FileAttachment> = Vec::new();
    let mut i: usize = 0;
    assert(all.subrange(0, 0) =~= Seq::<FileAttachmentView>::empty());
    assert(file_views(plain@) =~= Seq::<FileAttachmentView>::empty());
    while i < files.len()
        invariant
            i <= files.len(),
            all == file_views(files@),
            decrypted_files(keys@, id, all.subrange(0, i as int)) == Ok::<
                Seq<FileAttachmentView>,
                TransformError,
            >(file_views(plain@)),
        decreases files.len() - i,
    {
        let ghost before = file_views(plain@);
        let ghost prefix = all.subrange(0, i + 1);
        assert(prefix.drop_last() =~= all.subrange(0, i as int));
        assert(prefix.last() == files@[i as int]@);
        match decrypt_file(keys, id, i, &files[i]) {
            Err(e) => {
                proof {
                    lemma_failure_persists(keys@, id, all, i + 1);
                    assert(all.subrange(0, all.len() as int) =~= all);
                }
                return Err(e);
            },
            Ok(file) => {
                plain.push(file);
                assert(file_views(plain@) =~= before.push(file@));
            },
        }
        i += 1;
    }
    assert(all.subrange(0, i as int) =~= all);
    Ok(plain)
}

/// Once a prefix of a list fails, every longer prefix fails in the same way.
pub proof fn lemma_failure_persists(key: Option<Seq<u8>>, id: RecordId, files: Seq<FileAttachmentView>, n: int)
    requires
        0 <= n <= files.len(),
        decrypted_files(key, id, files.subrange(0, n)) is Err,
    ensures
        forall|m: int|
            n <= m <= files.len() ==> #[trigger] decrypted_files(key, id, files.subrange(0, m))
                == decrypted_files(key, id, files.subrange(0, n)),
    decreases files.len() - n,
{
    if n < files.len() {
        let longer = files.subrange(0, n + 1);
        assert(longer.drop_last() =~= files.subrange(0, n));
        lemma_failure_persists(key, id, files, n + 1);
    }
}

/// Decrypts a whole entry into a new one. An entry whose flag is already
/// down is refused with `NotEncrypted`; a failure names the entry, the field
/// and, for a file, its place in the list; on success the flag is down and
/// every present field holds plaintext.
pub fn decrypt_clipboard(keys: &KeyStore, clipboard: &FullClipboardDto) -> (result: Result<
    FullClipboardDto,
    TransformError,
>)
    ensures
        entry_outcome(result) == decrypted_clipboard(keys@, clipboard@),
        !clipboard.clipboard.encrypted ==> result == Err::<FullClipboardDto, TransformError>(
            field_failure(clipboard.clipboard.id, FieldKind::Flag, EncryptionError::NotEncrypted),
        ),
        result matches Ok(plain) ==> !plain.clipboard.encrypted,
        result matches Err(e) ==> e.clipboard_id == clipboard.clipboard.id,
{
    let id = clipboard.clipboard.id;
    if !clipboard.clipboard.encrypted {
        return Err(
            TransformError {
                clipboard_id: id,
                field: FieldKind::Flag,
                file_index: None,
                cause: EncryptionError::NotEncrypted,
            },
        );
    }
    let text = match decrypt_content(keys, id, FieldKind::Text, &clipboard.text) {
        Ok(text) => text,
        Err(e) => {
            return Err(e);
        },
    };
    let html = match decrypt_content(keys, id, FieldKind::Html, &clipboard.html) {
        Ok(html) => html,
        Err(e) => {
            return Err(e);
        },
    };
    let rtf = match decrypt_content(keys, id, FieldKind::Rtf, &clipboard.rtf) {
        Ok(rtf) => rtf,
        Err(e) => {
            return Err(e);
        },
    };
    let image = match decrypt_image(keys, id, &clipboard.image) {
        Ok(image) => image,
        Err(e) => {
            return Err(e);
        },
    };
    let files = match decrypt_files(keys, id, &clipboard.files) {
        Ok(files) => files,
        Err(e) => {
            proof {
                lemma_failures_name_the_entry(keys@, id, file_views(clipboard.files@));
            }
            return Err(e);
        },
    };
    Ok(
        FullClipboardDto {
            clipboard: ClipboardRecord {
                id,
                kind: clipboard.clipboard.kind.clone(),
                encrypted: false,
                created_at: clipboard.clipboard.created_at,
                star: clipboard.clipboard.star,
            },
            text,
            html,
            rtf,
            image,
            files,
        },
    )
}

/// A failure among the files names the entry that the files belong to.
pub proof fn lemma_failures_name_the_entry(key: Option<Seq<u8>>, id: RecordId, files: Seq<FileAttachmentView>)
    ensures
        decrypted_files(key, id, files) matches Err(e) ==> e.clipboard_id == id,
    decreases files.len(),
{
    if files.len() > 0 {
        lemma_failures_name_the_entry(key, id, files.drop_last());
    }
}

/// The flag invariant. An entry whose flag is down is refused as not
/// encrypted; an entry that decrypts had its flag up and comes out with the
/// flag down and its head otherwise unchanged, the same optional parts
/// present, and as many files.
pub proof fn lemma_flag_invariant(key: Option<Seq<u8>>, entry: FullClipboardView)
    ensures
        !entry.clipboard.encrypted ==> decrypted_clipboard(key, entry) == Err::<
            FullClipboardView,
            TransformError,
        >(field_failure(entry.clipboard.id, FieldKind::Flag, EncryptionError::NotEncrypted)),
        decrypted_clipboard(key, entry) matches Ok(plain) ==> {
            &&& entry.clipboard.encrypted
            &&& plain.clipboard == crate::record::ClipboardRecordView { encrypted: false, ..entry.clipboard }
            &&& plain.text is Some <==> entry.text is Some
            &&& plain.html is Some <==> entry.html is Some
            &&& plain.rtf is Some <==> entry.rtf is Some
            &&& plain.image is Some <==> entry.image is Some
            &&& plain.files.len() == entry.files.len()
        },
{
    lemma_files_keep_count(key, entry.clipboard.id, entry.files);
}

/// Decrypting a list of files keeps their number.
pub proof fn lemma_files_keep_count(key: Option<Seq<u8>>, id: RecordId, files: Seq<FileAttachmentView>)
    ensures
        decrypted_files(key, id, files) matches Ok(plain) ==> plain.len() == files.len(),
    decreases files.len(),
{
    if files.len() > 0 {
        lemma_files_keep_count(key, id, files.drop_last());
    }
}

/// An encrypted entry whose image payload is shorter than a nonce, and whose
/// textual bodies are absent or decrypt, fails on the payload as not
/// encrypted.
pub proof fn lemma_truncated_image_refused(key: Option<Seq<u8>>, entry: FullClipboardView)
    requires
        entry.clipboard.encrypted,
        decrypted_content(key, entry.clipboard.id, FieldKind::Text, entry.text) is Ok,
        decrypted_content(key, entry.clipboard.id, FieldKind::Html, entry.html) is Ok,
        decrypted_content(key, entry.clipboard.id, FieldKind::Rtf, entry.rtf) is Ok,
        entry.image matches Some(image) && image.data.len() < crate::cipher::NONCE_LEN,
    ensures
        decrypted_clipboard(key, entry) == Err::<FullClipboardView, TransformError>(
            field_failure(entry.clipboard.id, FieldKind::ImageData, EncryptionError::NotEncrypted),
        ),
{
}

/// Whether `sealed` is `plain` with its text encrypted and nothing else
/// changed.
pub open spec fn is_encrypted_content(key: Option<Seq<u8>>, plain: Option<TextContentView>, sealed: Option<
    TextContentView,
>) -> bool {
    match (plain, sealed) {
        (None, None) => true,
        (Some(p), Some(s)) => {
            &&& s == TextContentView { data: s.data, ..p }
            &&& is_encrypted_text(key, encode_utf8(p.data), Ok(s.data))
        },
        _ => false,
    }
}

/// Whether `sealed` is `plain` with payload and thumbnail encrypted and
/// nothing else changed. The thumbnail is base64 of its bytes in both.
pub open spec fn is_encrypted_image(key: Option<Seq<u8>>, plain: Option<ImageContentView>, sealed: Option<
    ImageContentView,
>) -> bool {
    match (plain, sealed) {
        (None, None) => true,
        (Some(p), Some(s)) => {
            &&& s == ImageContentView { data: s.data, thumbnail: s.thumbnail, ..p }
            &&& is_encryption_of(key, s.data, p.data)
            &&& base64_decoded(p.thumbnail) matches Some(raw)
            &&& is_encrypted_text(key, raw, Ok(s.thumbnail))
        },
        _ => false,
    }
}

/// Whether `sealed` is the optional text `plain`, encrypted.
pub open spec fn is_encrypted_optional(key: Option<Seq<u8>>, plain: Option<Seq<char>>, sealed: Option<
    Seq<char>,
>) -> bool {
    match (plain, sealed) {
        (None, None) => true,
        (Some(p), Some(s)) => is_encrypted_text(key, encode_utf8(p), Ok(s)),
        _ => false,
    }
}

/// Whether `sealed` is the file `plain` with name, payload, extension and
/// MIME type encrypted and nothing else changed.
pub open spec fn is_encrypted_file(key: Option<Seq<u8>>, plain: FileAttachmentView, sealed: FileAttachmentView) -> bool {
    &&& sealed.id == plain.id
    &&& sealed.clipboard_id == plain.clipboard_id
    &&& is_encrypted_text(key, encode_utf8(plain.name), Ok(sealed.name))
    &&& is_encryption_of(key, sealed.data, plain.data)
    &&& is_encrypted_optional(key, plain.extension, sealed.extension)
    &&& is_encrypted_optional(key, plain.mime_type, sealed.mime_type)
}

/// Whether `sealed` is the entry `plain` with the flag raised and every
/// present field encrypted under `key`.
pub open spec fn is_encrypted_clipboard(key: Option<Seq<u8>>, plain: FullClipboardView, sealed: FullClipboardView) -> bool {
    &&& !plain.clipboard.encrypted
    &&& sealed.clipboard == crate::record::ClipboardRecordView { encrypted: true, ..plain.clipboard }
    &&& is_encrypted_content(key, plain.text, sealed.text)
    &&& is_encrypted_content(key, plain.html, sealed.html)
    &&& is_encrypted_content(key, plain.rtf, sealed.rtf)
    &&& is_encrypted_image(key, plain.image, sealed.image)
    &&& sealed.files.len() == plain.files.len()
    &&& forall|i: int|
        0 <= i < plain.files.len() ==> is_encrypted_file(key, #[trigger] plain.files[i], sealed.files[i])
}

/// An entry with its thumbnail written the way the encoder writes it. Base64
/// text that the decoder accepts is that of some bytes; this is the text of
/// those bytes.
pub open spec fn canonical(entry: FullClipboardView) -> FullClipboardView {
    FullClipboardView {
        image: match entry.image {
            Some(image) => match base64_decoded(image.thumbnail) {
                Some(raw) => Some(ImageContentView { thumbnail: base64_encoded(raw), ..image }),
                None => Some(image),
            },
            None => None,
        },
        ..entry
    }
}

/// Round trip of a list of files: the files that encrypting `plain` gave
/// decrypt to `plain`.
pub proof fn lemma_files_round_trip(
    key: Option<Seq<u8>>,
    id: RecordId,
    plain: Seq<FileAttachmentView>,
    sealed: Seq<FileAttachmentView>,
)
    requires
        sealed.len() == plain.len(),
        forall|i: int| 0 <= i < plain.len() ==> is_encrypted_file(key, #[trigger] plain[i], sealed[i]),
    ensures
        decrypted_files(key, id, sealed) == Ok::<Seq<FileAttachmentView>, TransformError>(plain),
    decreases plain.len(),
{
    if plain.len() == 0 {
        assert(plain =~= Seq::empty());
    } else {
        let last = plain.len() - 1;
        assert forall|i: int| 0 <= i < plain.drop_last().len() implies is_encrypted_file(
            key,
            #[trigger] plain.drop_last()[i],
            sealed.drop_last()[i],
        ) by {
            assert(is_encrypted_file(key, plain[i], sealed[i]));
        }
        lemma_files_round_trip(key, id, plain.drop_last(), sealed.drop_last());
        let p = plain[last];
        let s = sealed[last];
        assert(is_encrypted_file(key, p, s));
        lemma_text_round_trip(key, p.name, s.name);
        if p.extension is Some {
            lemma_text_round_trip(key, p.extension->0, s.extension->0);
        }
        if p.mime_type is Some {
            lemma_text_round_trip(key, p.mime_type->0, s.mime_type->0);
        }
        assert(decrypted_file(key, id, last, s) == Ok::<FileAttachmentView, TransformError>(p));
        assert(plain.drop_last().push(p) =~= plain);
    }
}

/// Round trip of a whole entry: what encrypting an entry gave decrypts,
/// under the same key, to that entry, its thumbnail written the way the
/// encoder writes it.
pub proof fn lemma_entry_round_trip(key: Option<Seq<u8>>, plain: FullClipboardView, sealed: FullClipboardView)
    requires
        is_encrypted_clipboard(key, plain, sealed),
    ensures
        decrypted_clipboard(key, sealed) == Ok::<FullClipboardView, TransformError>(canonical(plain)),
{
    let id = sealed.clipboard.id;
    if plain.text is Some {
        lemma_text_round_trip(key, plain.text->0.data, sealed.text->0.data);
    }
    if plain.html is Some {
        lemma_text_round_trip(key, plain.html->0.data, sealed.html->0.data);
    }
    if plain.rtf is Some {
        lemma_text_round_trip(key, plain.rtf->0.data, sealed.rtf->0.data);
    }
    if plain.image is Some {
        let raw = base64_decoded(plain.image->0.thumbnail)->0;
        lemma_thumbnail_round_trip(key, raw, sealed.image->0.thumbnail);
    }
    lemma_files_round_trip(key, id, plain.files, sealed.files);
    assert(decrypted_content(key, id, FieldKind::Text, sealed.text) == Ok::<
        Option<TextContentView>,
        TransformError,
    >(plain.text));
    assert(decrypted_content(key, id, FieldKind::Html, sealed.html) == Ok::<
        Option<TextContentView>,
        TransformError,
    >(plain.html));
    assert(decrypted_content(key, id, FieldKind::Rtf, sealed.rtf) == Ok::<
        Option<TextContentView>,
        TransformError,
    >(plain.rtf));
    assert(decrypted_image(key, id, sealed.image) == Ok::<Option<ImageContentView>, TransformError>(
        canonical(plain).image,
    ));
}

/// Whether an entry has any field to transform.
pub open spec fn has_content(entry: FullClipboardView) -> bool {
    ||| entry.text is Some
    ||| entry.html is Some
    ||| entry.rtf is Some
    ||| entry.image is Some
    ||| entry.files.len() > 0
}

/// Whether `e` is a failure that encrypting a field of entry `id` can end
/// in: no key where none is stored, a refusal of the cipher otherwise.
pub open spec fn is_sealing_failure(key: Option<Seq<u8>>, id: RecordId, e: TransformError) -> bool {
    &&& e.clipboard_id == id
    &&& e.field != FieldKind::Flag
    &&& if key is None {
        e.cause == EncryptionError::NoKey
    } else {
        e.cause == EncryptionError::EncryptionFailed
    }
}

/// Encrypts an optional textual body.
fn encrypt_content(keys: &KeyStore, id: RecordId, field: FieldKind, slot: &Option<TextContent>) -> (result: Result<
    Option<TextContent>,
    TransformError,
>)
    requires
        field != FieldKind::Flag,
    ensures
        match result {
            Ok(content) => is_encrypted_content(keys@, optional_content(*slot), optional_content(content)),
            Err(e) => is_sealing_failure(keys@, id, e) && slot is Some,
        },
{
    match slot {
        None => Ok(None),
        Some(content) => match encrypt_text(keys, content.data.as_str()) {
            Err(cause) => Err(TransformError { clipboard_id: id, field, file_index: None, cause }),
            Ok(data) => Ok(
                Some(
                    TextContent {
                        id: content.id,
                        clipboard_id: content.clipboard_id,
                        kind: content.kind.clone(),
                        data,
                    },
                ),
            ),
        },
    }
}

/// Encrypts a thumbnail: its base64 text is decoded, encrypted and written
/// as base64 again. A thumbnail that is no base64 cannot be encrypted.
fn encrypt_thumbnail(keys: &KeyStore, thumbnail: &str) -> (result: Result<String, EncryptionError>)
    ensures
        match result {
            Ok(sealed) => base64_decoded(thumbnail@) matches Some(raw) && is_encrypted_text(
                keys@,
                raw,
                Ok(sealed@),
            ),
            Err(cause) => {
                ||| cause == EncryptionError::EncryptionFailed
                ||| cause == EncryptionError::NoKey && keys@ is None
            },
        },
{
    match base64_decode(thumbnail) {
        None => Err(EncryptionError::EncryptionFailed),
        Some(raw) => encrypt_to_text(keys, raw.as_slice()),
    }
}

/// Encrypts an optional image: the payload, then the thumbnail.
fn encrypt_image(keys: &KeyStore, id: RecordId, slot: &Option<ImageContent>) -> (result: Result<
    Option<ImageContent>,
    TransformError,
>)
    ensures
        match result {
            Ok(image) => is_encrypted_image(keys@, optional_image(*slot), optional_image(image)),
            Err(e) => is_sealing_failure(keys@, id, e) && slot is Some,
        },
{
    match slot {
        None => Ok(None),
        Some(image) => {
            let data = match encrypt_data(keys, image.data.as_slice()) {
                Ok(data) => data,
                Err(cause) => {
                    return Err(
                        TransformError { clipboard_id: id, field: FieldKind::ImageData, file_index: None, cause },
                    );
                },
            };
            let thumbnail = match encrypt_thumbnail(keys, image.thumbnail.as_str()) {
                Ok(thumbnail) => thumbnail,
                Err(cause) => {
                    return Err(
                        TransformError {
                            clipboard_id: id,
                            field: FieldKind::ImageThumbnail,
                            file_index: None,
                            cause,
                        },
                    );
                },
            };
            Ok(
                Some(
                    ImageContent {
                        id: image.id,
                        clipboard_id: image.clipboard_id,
                        data,
                        thumbnail,
                        extension: copy_optional(&image.extension),
                        width: image.width,
                        height: image.height,
                        size: copy_optional(&image.size),
                    },
                ),
            )
        },
    }
}

/// Encrypts an optional text field of the file at `index`.
fn encrypt_optional(keys: &KeyStore, id: RecordId, field: FieldKind, index: usize, text: &Option<String>) -> (result:
    Result<Option<String>, TransformError>)
    requires
        field != FieldKind::Flag,
    ensures
        match result {
            Ok(sealed) => is_encrypted_optional(keys@, optional_text(*text), optional_text(sealed)),
            Err(e) => is_sealing_failure(keys@, id, e),
        },
{
    match text {
        None => Ok(None),
        Some(t) => match encrypt_text(keys, t.as_str()) {
            Err(cause) => Err(TransformError { clipboard_id: id, field, file_index: Some(index), cause }),
            Ok(sealed) => Ok(Some(sealed)),
        },
    }
}

/// Encrypts the file at `index`.
fn encrypt_file(keys: &KeyStore, id: RecordId, index: usize, file: &FileAttachment) -> (result: Result<
    FileAttachment,
    TransformError,
>)
    ensures
        match result {
            Ok(sealed) => is_encrypted_file(keys@, file@, sealed@),
            Err(e) => is_sealing_failure(keys@, id, e),
        },
{
    let name = match encrypt_text(keys, file.name.as_str()) {
        Ok(name) => name,
        Err(cause) => {
            return Err(
                TransformError { clipboard_id: id, field: FieldKind::FileName, file_index: Some(index), cause },
            );
        },
    };
    let data = match encrypt_data(keys, file.data.as_slice()) {
        Ok(data) => data,
        Err(cause) => {
            return Err(
                TransformError { clipboard_id: id, field: FieldKind::FileData, file_index: Some(index), cause },
            );
        },
    };
    let extension = match encrypt_optional(keys, id, FieldKind::FileExtension, index, &file.extension) {
        Ok(extension) => extension,
        Err(e) => {
            return Err(e);
        },
    };
    let mime_type = match encrypt_optional(keys, id, FieldKind::FileMimeType, index, &file.mime_type) {
        Ok(mime_type) => mime_type,
        Err(e) => {
            return Err(e);
        },
    };
    Ok(FileAttachment { id: file.id, clipboard_id: file.clipboard_id, name, data, extension, mime_type })
}

/// Encrypts a list of files in order, stopping at the first that fails.
fn encrypt_files(keys: &KeyStore, id: RecordId, files: &Vec<FileAttachment>) -> (result: Result<
    Vec<FileAttachment>,
    TransformError,
>)
    ensures
        match result {
            Ok(sealed) => {
                &&& sealed@.len() == files@.len()
                &&& forall|i: int|
                    0 <= i < files@.len() ==> is_encrypted_file(keys@, #[trigger] files@[i]@, sealed@[i]@)
            },
            Err(e) => is_sealing_failure(keys@, id, e) && files@.len() > 0,
        },
{
    let mut sealed: Vec<FileAttachment> = Vec::new();
    let mut i: usize = 0;
    while i < files.len()
        invariant
            i <= files.len(),
            sealed@.len() == i,
            forall|j: int| 0 <= j < i ==> is_encrypted_file(keys@, #[trigger] files@[j]@, sealed@[j]@),
        decreases files.len() - i,
    {
        match encrypt_file(keys, id, i, &files[i]) {
            Err(e) => {
                return Err(e);
            },
            Ok(file) => {
                sealed.push(file);
            },
        }
        i += 1;
    }
    Ok(sealed)
}

/// Encrypts a whole entry into a new one, each field under a nonce of its
/// own. An entry whose flag is already up is refused; without a key an entry
/// that has any field fails with `NoKey`; on success the flag is up and
/// every present field is an encryption of what the input held.
pub fn encrypt_clipboard(keys: &KeyStore, clipboard: &FullClipboardDto) -> (result: Result<
    FullClipboardDto,
    TransformError,
>)
    ensures
        clipboard.clipboard.encrypted ==> result == Err::<FullClipboardDto, TransformError>(
            field_failure(clipboard.clipboard.id, FieldKind::Flag, EncryptionError::EncryptionFailed),
        ),
        !clipboard.clipboard.encrypted ==> match result {
            Ok(sealed) => is_encrypted_clipboard(keys@, clipboard@, sealed@),
            Err(e) => is_sealing_failure(keys@, clipboard.clipboard.id, e) && has_content(clipboard@),
        },
        result matches Ok(sealed) ==> decrypted_clipboard(keys@, sealed@) == Ok::<
            FullClipboardView,
            TransformError,
        >(canonical(clipboard@)),
        !clipboard.clipboard.encrypted && !has_content(clipboard@) ==> result is Ok,
        !clipboard.clipboard.encrypted && has_content(clipboard@) && keys@ is None ==> result is Err,
{
    let id = clipboard.clipboard.id;
    if clipboard.clipboard.encrypted {
        return Err(
            TransformError {
                clipboard_id: id,
                field: FieldKind::Flag,
                file_index: None,
                cause: EncryptionError::EncryptionFailed,
            },
        );
    }
    let text = match encrypt_content(keys, id, FieldKind::Text, &clipboard.text) {
        Ok(text) => text,
        Err(e) => {
            return Err(e);
        },
    };
    let html = match encrypt_content(keys, id, FieldKind::Html, &clipboard.html) {
        Ok(html) => html,
        Err(e) => {
            return Err(e);
        },
    };
    let rtf = match encrypt_content(keys, id, FieldKind::Rtf, &clipboard.rtf) {
        Ok(rtf) => rtf,
        Err(e) => {
            return Err(e);
        },
    };
    let image = match encrypt_image(keys, id, &clipboard.image) {
        Ok(image) => image,
        Err(e) => {
            return Err(e);
        },
    };
    let files = match encrypt_files(keys, id, &clipboard.files) {
        Ok(files) => files,
        Err(e) => {
            return Err(e);
        },
    };
    let sealed = FullClipboardDto {
        clipboard: ClipboardRecord {
            id,
            kind: clipboard.clipboard.kind.clone(),
            encrypted: true,
            created_at: clipboard.clipboard.created_at,
            star: clipboard.clipboard.star,
        },
        text,
        html,
        rtf,
        image,
        files,
    };
    proof {
        lemma_sealed_needs_key(keys@, clipboard@, sealed@);
        lemma_entry_round_trip(keys@, clipboard@, sealed@);
    }
    Ok(sealed)
}

/// No entry with content has an encryption under an absent key.
pub proof fn lemma_sealed_needs_key(key: Option<Seq<u8>>, plain: FullClipboardView, sealed: FullClipboardView)
    requires
        !plain.clipboard.encrypted,
        is_encrypted_content(key, plain.text, sealed.text),
        is_encrypted_content(key, plain.html, sealed.html),
        is_encrypted_content(key, plain.rtf, sealed.rtf),
        is_encrypted_image(key, plain.image, sealed.image),
        sealed.files.len() == plain.files.len(),
        forall|i: int|
            0 <= i < plain.files.len() ==> is_encrypted_file(key, #[trigger] plain.files[i], sealed.files[i]),
    ensures
        has_content(plain) ==> key is Some,
{
    if plain.files.len() > 0 {
        assert(is_encrypted_file(key, plain.files[0], sealed.files[0]));
    }
}

} // verus!
