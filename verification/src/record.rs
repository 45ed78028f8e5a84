//! The clipboard record and its typed sub-content, as plain data, each with
//! the mathematical view that the contracts speak of.

use vstd::prelude::*;

verus! {

/// Identity of a record or of one of its parts.
pub type RecordId = u128;

/// The text of an optional string.
pub open spec fn optional_text(text: Option<String>) -> Option<Seq<char>> {
    match text {
        Some(t) => Some(t@),
        None => None,
    }
}

/// The head of a clipboard entry. `encrypted` alone says how every part of
/// the entry is to be read.
#[derive(Clone, Debug, PartialEq, Eq)]
pub struct ClipboardRecord {
    pub id: RecordId,
    /// Content-type tag.
    pub kind: String,
    pub encrypted: bool,
    /// Creation time, in milliseconds since the epoch.
    pub created_at: i64,
    pub star: Option<bool>,
}

pub struct ClipboardRecordView {
    pub id: RecordId,
    pub kind: Seq<char>,
    pub encrypted: bool,
    pub created_at: i64,
    pub star: Option<bool>,
}

impl View for ClipboardRecord {
    type V = ClipboardRecordView;

    open spec fn view(&self) -> ClipboardRecordView {
        ClipboardRecordView {
            id: self.id,
            kind: self.kind@,
            encrypted: self.encrypted,
            created_at: self.created_at,
            star: self.star,
        }
    }
}

/// A textual body: plain text, HTML or RTF. `data` is base64 of ciphertext
/// when the entry is encrypted.
#[derive(Clone, Debug, PartialEq, Eq)]
pub struct TextContent {
    pub id: RecordId,
    pub clipboard_id: RecordId,
    pub kind: String,
    pub data: String,
}

pub struct TextContentView {
    pub id: RecordId,
    pub clipboard_id: RecordId,
    pub kind: Seq<char>,
    pub data: Seq<char>,
}

impl View for TextContent {
    type V = TextContentView;

    open spec fn view(&self) -> TextContentView {
        TextContentView { id: self.id, clipboard_id: self.clipboard_id, kind: self.kind@, data: self.data@ }
    }
}

/// An image. `data` is raw ciphertext when the entry is encrypted; the
/// thumbnail is base64 text in either state.
#[derive(Clone, Debug, PartialEq, Eq)]
pub struct ImageContent {
    pub id: RecordId,
    pub clipboard_id: RecordId,
    pub data: Vec<u8>,
    pub thumbnail: String,
    pub extension: Option<String>,
    pub width: Option<i32>,
    pub height: Option<i32>,
    pub size: Option<String>,
}

pub struct ImageContentView {
    pub id: RecordId,
    pub clipboard_id: RecordId,
    pub data: Seq<u8>,
    pub thumbnail: Seq<char>,
    pub extension: Option<Seq<char>>,
    pub width: Option<i32>,
    pub height: Option<i32>,
    pub size: Option<Seq<char>>,
}

impl View for ImageContent {
    type V = ImageContentView;

    open spec fn view(&self) -> ImageContentView {
        ImageContentView {
            id: self.id,
            clipboard_id: self.clipboard_id,
            data: self.data@,
            thumbnail: self.thumbnail@,
            extension: optional_text(self.extension),
            width: self.width,
            height: self.height,
            size: optional_text(self.size),
        }
    }
}

/// One attached file. Name, extension and MIME type are text fields; `data`
/// is raw.
#[derive(Clone, Debug, PartialEq, Eq)]
pub struct FileAttachment {
    pub id: RecordId,
    pub clipboard_id: RecordId,
    pub name: String,
    pub data: Vec<u8>,
    pub extension: Option<String>,
    pub mime_type: Option<String>,
}

pub struct FileAttachmentView {
    pub id: RecordId,
    pub clipboard_id: RecordId,
    pub name: Seq<char>,
    pub data: Seq<u8>,
    pub extension: Option<Seq<char>>,
    pub mime_type: Option<Seq<char>>,
}

impl View for FileAttachment {
    type V = FileAttachmentView;

    open spec fn view(&self) -> FileAttachmentView {
        FileAttachmentView {
            id: self.id,
            clipboard_id: self.clipboard_id,
            name: self.name@,
            data: self.data@,
            extension: optional_text(self.extension),
            mime_type: optional_text(self.mime_type),
        }
    }
}

/// The view of an optional textual body.
pub open spec fn optional_content(slot: Option<TextContent>) -> Option<TextContentView> {
    match slot {
        Some(content) => Some(content@),
        None => None,
    }
}

/// The view of an optional image.
pub open spec fn optional_image(slot: Option<ImageContent>) -> Option<ImageContentView> {
    match slot {
        Some(image) => Some(image@),
        None => None,
    }
}

/// The views of a list of files, in order.
pub open spec fn file_views(files: Seq<FileAttachment>) -> Seq<FileAttachmentView> {
    Seq::new(files.len(), |i: int| files[i]@)
}

/// A clipboard entry with all that belongs to it: at most one body of each
/// textual kind, at most one image, any number of files.
#[derive(Clone, Debug, PartialEq, Eq)]
pub struct FullClipboardDto {
    pub clipboard: ClipboardRecord,
    pub text: Option<TextContent>,
    pub html: Option<TextContent>,
    pub rtf: Option<TextContent>,
    pub image: Option<ImageContent>,
    pub files: Vec<FileAttachment>,
}

pub struct FullClipboardView {
    pub clipboard: ClipboardRecordView,
    pub text: Option<TextContentView>,
    pub html: Option<TextContentView>,
    pub rtf: Option<TextContentView>,
    pub image: Option<ImageContentView>,
    pub files: Seq<FileAttachmentView>,
}

impl View for FullClipboardDto {
    type V = FullClipboardView;

    open spec fn view(&self) -> FullClipboardView {
        FullClipboardView {
            clipboard: self.clipboard@,
            text: optional_content(self.text),
            html: optional_content(self.html),
            rtf: optional_content(self.rtf),
            image: optional_image(self.image),
            files: file_views(self.files@),
        }
    }
}

} // verus!
