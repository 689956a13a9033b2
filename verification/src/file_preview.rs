//! The preview of a file in the finder.
use vstd::prelude::*;

use crate::text;
use crate::text::{parts_without_returns, text_from_bytes};

verus! {

/// Files with more bytes than this are not previewed.
pub const PREVIEW_MAX_BYTES: u64 = 1048576;

/// How many lines of a file are previewed at most.
pub const PREVIEW_MAX_LINES: usize = 2000;

/// What loading a file gave.
#[derive(Debug)]
pub enum LoadedFile {
    Text(String),
    TooLarge,
    Binary,
    Unreadable,
}

/// What a preview shows.
#[derive(Debug)]
pub enum PreviewContent {
    Empty,
    Loading,
    TooLarge,
    Binary,
    Unreadable,
    Doc { lines: Vec<String> },
}

/// The preview of a file.
#[derive(Debug)]
pub struct FilePreview {
    pub content: PreviewContent,
    /// The file that the content comes from.
    pub path: Option<String>,
    /// Counts the changes of what is to be previewed: what was loaded for an earlier one is
    /// dropped.
    pub epoch: u64,
}

/// Whether bytes are no text: one of them is zero, or they are not UTF-8.
pub open spec fn is_binary(bytes: Seq<u8>) -> bool {
    bytes.contains(0) || !vstd::utf8::valid_utf8(bytes)
}

/// Whether a byte is zero.
fn has_zero(bytes: &[u8]) -> (b: bool)
    ensures
        b == bytes@.contains(0),
{
    let mut i: usize = 0;
    while i < bytes.len()
        invariant
            i <= bytes@.len(),
            forall|k: int| 0 <= k < i ==> bytes@[k] != 0,
        decreases bytes@.len() - i,
    {
        if bytes[i] == 0 {
            assert(bytes@[i as int] == 0);
            return true;
        }
        i = i + 1;
    }
    false
}

/// What loading a file gives. `len` is its size and `bytes` are its bytes, as far as they could
/// be read.
pub fn load_file(len: Option<u64>, bytes: Option<Vec<u8>>) -> (r: LoadedFile)
    ensures
        match (len, bytes) {
            (None, _) => r is Unreadable,
            (Some(n), b) => if n > PREVIEW_MAX_BYTES {
                r is TooLarge
            } else {
                match b {
                    None => r is Unreadable,
                    Some(v) => if is_binary(v@) {
                        r is Binary
                    } else {
                        r matches LoadedFile::Text(t) && t@ == vstd::utf8::decode_utf8(v@)
                    },
                }
            },
        },
{
    match len {
        None => return LoadedFile::Unreadable,
        Some(n) => {
            if n > PREVIEW_MAX_BYTES {
                return LoadedFile::TooLarge;
            }
        },
    }
    match bytes {
        None => LoadedFile::Unreadable,
        Some(v) => {
            if has_zero(v.as_slice()) {
                return LoadedFile::Binary;
            }
            match text_from_bytes(v) {
                Some(t) => LoadedFile::Text(t),
                None => LoadedFile::Binary,
            }
        },
    }
}

/// Whether `lines` are what is previewed of a text: its lines, without carriage returns at their
/// ends, as far as the limit goes.
pub open spec fn previews(lines: Seq<String>, s: Seq<char>) -> bool {
    let parts = text::feed_parts(s);
    &&& lines.len() == if PREVIEW_MAX_LINES < parts.len() { PREVIEW_MAX_LINES as int } else { parts.len() as int }
    &&& forall|i: int| 0 <= i < lines.len() ==> (#[trigger] lines[i])@ == text::without_returns(parts[i])
}

impl FilePreview {
    /// A preview of nothing.
    pub fn new() -> (p: FilePreview)
        ensures
            p.content is Empty,
            p.path is None,
            p.epoch == 0,
    {
        FilePreview { content: PreviewContent::Empty, path: None, epoch: 0 }
    }

    /// Takes over what loading the file at `path` gave.
    pub fn set_loaded(&mut self, path: String, loaded: LoadedFile)
        ensures
            final(self).path == Some(path),
            final(self).epoch == old(self).epoch,
            match loaded {
                LoadedFile::Text(t) => final(self).content matches PreviewContent::Doc { lines } && previews(lines@, t@),
                LoadedFile::TooLarge => final(self).content is TooLarge,
                LoadedFile::Binary => final(self).content is Binary,
                LoadedFile::Unreadable => final(self).content is Unreadable,
            },
    {
        self.content = match loaded {
            LoadedFile::Text(t) => PreviewContent::Doc { lines: parts_without_returns(t.as_str(), PREVIEW_MAX_LINES) },
            LoadedFile::TooLarge => PreviewContent::TooLarge,
            LoadedFile::Binary => PreviewContent::Binary,
            LoadedFile::Unreadable => PreviewContent::Unreadable,
        };
        self.path = Some(path);
    }
}

} // verus!
