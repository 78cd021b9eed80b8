//! What can go wrong while pages are read from an archive.

use vstd::prelude::*;

verus! {

/// The ways in which reading pages fails.
#[derive(Clone, Copy, Debug, PartialEq, Eq, Structural)]
pub enum PageError {
    /// The archive file could not be read.
    Unreadable,
    /// The file is not a zip archive.
    NotArchive,
    /// The archive holds no page.
    NoImage,
    /// The archive has no page with the number asked for.
    NoSuchPage,
    /// The bytes of a page could not be taken out of the archive.
    BrokenEntry,
    /// The bytes of a page are not a picture.
    NotImage,
    /// None of the pages of the archive could be shown.
    NothingLoaded,
}

/// The broad kinds of failure.
#[derive(Clone, Copy, Debug, PartialEq, Eq, Structural)]
pub enum ErrorKind {
    /// The archive file cannot be opened.
    Read,
    /// The file is not a valid zip container.
    Archive,
    /// There is no page to give: none at all, or none with that number.
    NotFound,
    /// A page cannot be turned into a picture.
    Decode,
    /// All pages were tried and none gave a picture.
    EmptyResult,
}

impl PageError {
    /// The kind of this failure.
    pub open spec fn kind_of(self) -> ErrorKind {
        match self {
            PageError::Unreadable => ErrorKind::Read,
            PageError::NotArchive => ErrorKind::Archive,
            PageError::NoImage => ErrorKind::NotFound,
            PageError::NoSuchPage => ErrorKind::NotFound,
            PageError::BrokenEntry => ErrorKind::Decode,
            PageError::NotImage => ErrorKind::Decode,
            PageError::NothingLoaded => ErrorKind::EmptyResult,
        }
    }

    /// The words that describe this failure to a reader.
    pub open spec fn text(self) -> Seq<char> {
        match self {
            PageError::Unreadable => "Failed to read cbz file"@,
            PageError::NotArchive => "Unable to process cbz file"@,
            PageError::NoImage => "Unable to find an image in the cbz file"@,
            PageError::NoSuchPage => "Selected image not found"@,
            PageError::BrokenEntry => "Unable to read bytes"@,
            PageError::NotImage => "Unable to processes image"@,
            PageError::NothingLoaded => "No images loaded"@,
        }
    }

    /// The kind of this failure.
    pub fn kind(&self) -> (kind: ErrorKind)
        ensures
            kind == self.kind_of(),
    {
        match self {
            PageError::Unreadable => ErrorKind::Read,
            PageError::NotArchive => ErrorKind::Archive,
            PageError::NoImage => ErrorKind::NotFound,
            PageError::NoSuchPage => ErrorKind::NotFound,
            PageError::BrokenEntry => ErrorKind::Decode,
            PageError::NotImage => ErrorKind::Decode,
            PageError::NothingLoaded => ErrorKind::EmptyResult,
        }
    }

    /// A short description of this failure.
    pub fn message(&self) -> (message: String)
        ensures
            message@ == self.text(),
    {
        match self {
            PageError::Unreadable => "Failed to read cbz file".to_owned(),
            PageError::NotArchive => "Unable to process cbz file".to_owned(),
            PageError::NoImage => "Unable to find an image in the cbz file".to_owned(),
            PageError::NoSuchPage => "Selected image not found".to_owned(),
            PageError::BrokenEntry => "Unable to read bytes".to_owned(),
            PageError::NotImage => "Unable to processes image".to_owned(),
            PageError::NothingLoaded => "No images loaded".to_owned(),
        }
    }
}

} // verus!
