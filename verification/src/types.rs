//! Documents as the reading application knows them.
use crate::metadata::Timestamp;
use vstd::prelude::*;

verus! {

/// The file of a document.
#[derive(Debug, PartialEq)]
pub struct FileInfo {
    /// Where it is, seen from the library.
    pub path: String,
    pub kind: String,
    pub size: u64,
}

/// A document.
#[derive(Debug, PartialEq)]
pub struct Info {
    pub title: String,
    pub identifier: String,
    pub author: String,
    pub file: FileInfo,
    pub added: Timestamp,
}

/// [`Info`] as a mathematical value.
pub struct InfoView {
    pub title: Seq<char>,
    pub identifier: Seq<char>,
    pub author: Seq<char>,
    pub path: Seq<char>,
    pub kind: Seq<char>,
    pub size: u64,
    pub added: Timestamp,
}

impl View for Info {
    type V = InfoView;

    open spec fn view(&self) -> InfoView {
        InfoView {
            title: self.title@,
            identifier: self.identifier@,
            author: self.author@,
            path: self.file.path@,
            kind: self.file.kind@,
            size: self.file.size,
            added: self.added,
        }
    }
}

} // verus!
