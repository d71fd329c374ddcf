//! Classification of a destination file's content for the conflict preview:
//! a small file is shown verbatim when it is clean text, reported as binary
//! when it holds a null byte or is not valid UTF-8, and reported by size
//! alone when it is above the preview limit.

use vstd::prelude::*;
use vstd::utf8::decode_utf8;
use vstd::utf8::valid_utf8;

verus! {

/// Largest file size, in bytes, whose content is shown in a preview.
pub const MAX_PREVIEW_SIZE: u64 = 32768;

/// What the preview shows for one file.
#[derive(Debug, PartialEq)]
pub enum FilePreview {
    /// The file is empty.
    Empty,
    /// The file is clean text, shown verbatim.
    Text { content: String },
    /// The file holds a null byte or is not valid UTF-8.
    Binary,
    /// The file is above the preview limit; only its size is reported.
    TooLarge { len: u64 },
}

/// The mathematical form of a file preview.
pub enum FilePreviewView {
    Empty,
    Text { content: Seq<char> },
    Binary,
    TooLarge { len: u64 },
}

impl View for FilePreview {
    type V = FilePreviewView;

    open spec fn view(&self) -> FilePreviewView {
        match self {
            FilePreview::Empty => FilePreviewView::Empty,
            FilePreview::Text { content } => FilePreviewView::Text { content: content@ },
            FilePreview::Binary => FilePreviewView::Binary,
            FilePreview::TooLarge { len } => FilePreviewView::TooLarge { len: *len },
        }
    }
}

/// The preview of a file of `len` bytes whose content is `bytes`: the size
/// alone above the limit; binary when a null byte occurs or the bytes are not
/// UTF-8; otherwise the decoded text, or emptiness.
pub open spec fn spec_preview(len: u64, bytes: Seq<u8>) -> FilePreviewView {
    if len > MAX_PREVIEW_SIZE {
        FilePreviewView::TooLarge { len }
    } else if exists|i: int| 0 <= i < bytes.len() && (#[trigger] bytes[i]) == 0 {
        FilePreviewView::Binary
    } else if valid_utf8(bytes) {
        if bytes.len() == 0 {
            FilePreviewView::Empty
        } else {
            FilePreviewView::Text { content: decode_utf8(bytes) }
        }
    } else {
        FilePreviewView::Binary
    }
}

/// Relies on `String::from_utf8`: it succeeds exactly on valid UTF-8 input
/// and decodes those bytes into the string's characters.
#[verifier::external_body]
fn bytes_to_string(bytes: &Vec<u8>) -> (r: Option<String>)
    ensures
        r is Some <==> valid_utf8(bytes@),
        match r {
            Some(s) => s@ == decode_utf8(bytes@),
            None => true,
        },
{
    String::from_utf8(bytes.clone()).ok()
}

/// Classifies one file's content for the preview. `len` is the probed file
/// size; `bytes` is the content read when the size is within the limit.
pub fn preview_file(len: u64, bytes: &Vec<u8>) -> (r: FilePreview)
    ensures
        r@ == spec_preview(len, bytes@),
{
    if len > MAX_PREVIEW_SIZE {
        return FilePreview::TooLarge { len };
    }
    let n = bytes.len();
    let mut i: usize = 0;
    while i < n
        invariant
            i <= n,
            n == bytes@.len(),
            len <= MAX_PREVIEW_SIZE,
            forall|j: int| 0 <= j < i ==> bytes@[j] != 0,
        decreases n - i,
    {
        if bytes[i] == 0 {
            proof {
                assert(bytes@[i as int] == 0);
            }
            return FilePreview::Binary;
        }
        i += 1;
    }
    match bytes_to_string(bytes) {
        None => FilePreview::Binary,
        Some(s) => {
            if n == 0 {
                FilePreview::Empty
            } else {
                FilePreview::Text { content: s }
            }
        },
    }
}

} // verus!
