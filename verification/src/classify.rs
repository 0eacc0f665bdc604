//! Sorting files into images, videos and the rest, and the record of one
//! file as the planning functions take it.

use vstd::prelude::*;
use crate::image::{image_content, is_image};
use crate::text::{bytes_of, str_of, text_of};
use crate::video::{is_video, lookup_request, lookup_url, video_name};

verus! {

/// The kind of a file, which decides how it is named.
#[derive(Clone, Copy, Debug, PartialEq, Eq)]
pub enum FileClassification {
    Image,
    Video,
    Plain,
}

/// The kind of a file with this name and these bytes: an image where the
/// bytes carry an image signature, whatever the name says; else a video where
/// the extension is a video's; else plain. A file that could not be read is
/// plain, whatever its name.
pub open spec fn classification(name: Seq<char>, content: Option<Seq<u8>>) -> FileClassification {
    if content is None {
        FileClassification::Plain
    } else if image_content(content) {
        FileClassification::Image
    } else if video_name(name) {
        FileClassification::Video
    } else {
        FileClassification::Plain
    }
}

/// Classifies a file by its bytes and its name. `content` is `None` for a
/// file that could not be read.
pub fn classify(file_name: &str, content: Option<&[u8]>) -> (kind: FileClassification)
    ensures
        kind == classification(file_name@, bytes_of(content)),
{
    if content.is_none() {
        FileClassification::Plain
    } else if is_image(content) {
        FileClassification::Image
    } else if is_video(file_name) {
        FileClassification::Video
    } else {
        FileClassification::Plain
    }
}

/// One file of a run: where it is, what it holds, and what the title service
/// answered for it.
#[derive(Clone, Debug, PartialEq, Eq)]
pub struct FileEntry {
    /// The directory of the file; empty for the current directory.
    pub dir: String,
    /// The name of the file in its directory.
    pub name: String,
    /// The bytes of the file, `None` where it could not be read.
    pub content: Option<Vec<u8>>,
    /// The body of the answer to `lookup_request`, `None` where no request
    /// was made or none was answered.
    pub lookup: Option<String>,
}

impl FileEntry {
    /// The bytes of the file.
    pub open spec fn bytes(&self) -> Option<Seq<u8>> {
        match self.content {
            Some(content) => Some(content@),
            None => None,
        }
    }

    /// The answer of the title service.
    pub open spec fn answer(&self) -> Option<Seq<char>> {
        text_of(self.lookup)
    }

    /// The kind of the file.
    pub open spec fn kind(&self) -> FileClassification {
        classification(self.name@, self.bytes())
    }

    /// The bytes of the file as a slice.
    pub fn content_bytes(&self) -> (r: Option<&[u8]>)
        ensures
            bytes_of(r) == self.bytes(),
    {
        match &self.content {
            Some(content) => Some(content.as_slice()),
            None => None,
        }
    }

    /// The answer of the title service as a string slice.
    pub fn lookup_text(&self) -> (r: Option<&str>)
        ensures
            str_of(r) == self.answer(),
    {
        match &self.lookup {
            Some(body) => Some(body.as_str()),
            None => None,
        }
    }

    /// Classifies the file.
    pub fn classify(&self) -> (kind: FileClassification)
        ensures
            kind == self.kind(),
    {
        classify(self.name.as_str(), self.content_bytes())
    }

    /// The address to fetch before the file is planned: that of the title
    /// search for a video, nothing for any other file.
    pub fn lookup_request(&self, api_key: Option<&str>) -> (r: Option<String>)
        ensures
            text_of(r) == (match self.kind() {
                FileClassification::Video => lookup_url(self.name@, str_of(api_key)),
                _ => None,
            }),
    {
        match self.classify() {
            FileClassification::Video => lookup_request(self.name.as_str(), api_key),
            _ => None,
        }
    }
}

/// Whether two records describe the same file: its place, its name, its
/// bytes and the answer of the title service agree.
pub open spec fn same_file(a: FileEntry, b: FileEntry) -> bool {
    &&& a.dir@ == b.dir@
    &&& a.name@ == b.name@
    &&& a.bytes() == b.bytes()
    &&& a.answer() == b.answer()
}

} // verus!
