//! Keeping the catalog in a file: what to do with what was read, and what
//! came of writing.
//!
//! Reading and writing files, and turning bytes into records and back, is the
//! caller's part. The caller reports what it found; the functions here say
//! what follows.

use vstd::prelude::*;
use crate::library::{current_version, Library, LibraryRecord};
use crate::shared::{BookRef, Fixed};

verus! {

/// The ways in which writing the catalog fails.
#[derive(Clone, Copy, Debug, PartialEq, Eq, Structural)]
pub enum SaveError {
    /// The catalog could not be turned into a document.
    Serialize,
    /// The document could not be written to the file.
    Write,
}

/// The ways in which reading the catalog fails.
#[derive(Clone, Copy, Debug, PartialEq, Eq, Structural)]
pub enum LoadError {
    /// The file does not hold a catalog.
    Parse,
    /// There was no file, and the empty catalog could not be written in its
    /// place.
    Persist(SaveError),
}

/// What the caller found in the file of the catalog.
pub enum Stored {
    /// The file is missing or could not be read.
    Unreadable,
    /// The file was read and does not hold a catalog.
    Malformed,
    /// The file holds this catalog.
    Document(LibraryRecord),
}

/// What follows from what was found in the file.
pub enum LoadStep {
    /// The catalog is loaded.
    Loaded(Library),
    /// Loading has failed; the file is left as it is.
    Failed(LoadError),
    /// There was no catalog: this empty one is to be written to the file,
    /// and what comes of that is to be reported to `Library::created`.
    Create(Library),
}

/// How far an attempt to write the catalog came.
#[derive(Clone, Copy, Debug, PartialEq, Eq, Structural)]
pub enum SaveEvent {
    /// The catalog could not be turned into a document.
    NotSerialized,
    /// The document was made and could not be written to the file.
    NotWritten,
    /// The document is in the file.
    Written,
}

impl SaveError {
    /// The words that describe this failure to a reader.
    pub open spec fn text(self) -> Seq<char> {
        match self {
            SaveError::Serialize => "Unable to serialize library"@,
            SaveError::Write => "Unable to save library file"@,
        }
    }

    /// A short description of this failure.
    pub fn message(&self) -> (message: String)
        ensures
            message@ == self.text(),
    {
        match self {
            SaveError::Serialize => "Unable to serialize library".to_owned(),
            SaveError::Write => "Unable to save library file".to_owned(),
        }
    }
}

impl LoadError {
    /// The words that describe this failure to a reader.
    pub open spec fn text(self) -> Seq<char> {
        match self {
            LoadError::Parse => "Unable to parse JSON file"@,
            LoadError::Persist(cause) => cause.text(),
        }
    }

    /// A short description of this failure.
    pub fn message(&self) -> (message: String)
        ensures
            message@ == self.text(),
    {
        match self {
            LoadError::Parse => "Unable to parse JSON file".to_owned(),
            LoadError::Persist(cause) => cause.message(),
        }
    }
}

impl SaveEvent {
    /// What an attempt that came this far has achieved.
    pub open spec fn outcome_of(self) -> Result<(), SaveError> {
        match self {
            SaveEvent::NotSerialized => Err(SaveError::Serialize),
            SaveEvent::NotWritten => Err(SaveError::Write),
            SaveEvent::Written => Ok(()),
        }
    }

    /// What an attempt that came this far has achieved.
    pub fn outcome(self) -> (outcome: Result<(), SaveError>)
        ensures
            outcome == self.outcome_of(),
    {
        match self {
            SaveEvent::NotSerialized => Err(SaveError::Serialize),
            SaveEvent::NotWritten => Err(SaveError::Write),
            SaveEvent::Written => Ok(()),
        }
    }
}

impl Library {
    /// What follows from what was found in the file of the catalog: a file
    /// that holds a catalog gives that catalog, one that holds something else
    /// is a failure, and where there is none an empty catalog is to be
    /// written.
    pub fn load(stored: Stored) -> (step: LoadStep)
        ensures
            match stored {
                Stored::Unreadable => step matches LoadStep::Create(library)
                    && library.version() == current_version() && library.handles()
                    == Seq::<BookRef>::empty(),
                Stored::Malformed => step matches LoadStep::Failed(LoadError::Parse),
                Stored::Document(record) => step matches LoadStep::Loaded(library)
                    && library.admits(record) && forall|i: int|
                    0 <= i < record.books.len() ==> (#[trigger] library.handles()[i]).fixed()
                        == Fixed::of(record.books[i]@),
            },
    {
        match stored {
            Stored::Unreadable => LoadStep::Create(Library::default()),
            Stored::Malformed => LoadStep::Failed(LoadError::Parse),
            Stored::Document(record) => LoadStep::Loaded(Library::from_record(record)),
        }
    }

    /// What loading gives once the empty catalog `self` was to be written and
    /// `saved` came of it: the catalog, or the failure to write it.
    pub fn created(self, saved: Result<(), SaveError>) -> (outcome: Result<Library, LoadError>)
        ensures
            match saved {
                Ok(_) => outcome == Ok::<Library, LoadError>(self),
                Err(cause) => outcome matches Err(LoadError::Persist(reason)) && reason == cause,
            },
    {
        match saved {
            Ok(_) => Ok(self),
            Err(cause) => Err(LoadError::Persist(cause)),
        }
    }
}

} // verus!
