//! Handles to the books of a catalog.
//!
//! A handle gives access to one book that all copies of the handle share.
//! Reading goes on side by side; a change waits until it is alone with the
//! book. What a reader gets is the book as it was at one moment, copied out,
//! so that nothing of the book is held while the reader goes on.
//!
//! The identifier, the path and the labels of a book never change while it is
//! shared; its title and author may at any time.

use vstd::prelude::*;
use vstd::rwlock::RwLock;
use vstd::rwlock::RwLockPredicate;
use std::sync::Arc;
use crate::book::{Book, BookData};
use crate::paths::file_stem;

verus! {

/// What stays the same of a shared book.
pub struct Fixed {
    pub id: u128,
    pub path: Seq<char>,
    pub tags: Seq<Seq<char>>,
}

impl Fixed {
    /// What is fixed of the book `data`.
    pub open spec fn of(data: BookData) -> Fixed {
        Fixed { id: data.id, path: data.path, tags: data.tags }
    }

    /// Whether `data` is a state of the book that `self` is fixed of.
    pub open spec fn admits(self, data: BookData) -> bool {
        Fixed::of(data) == self
    }
}

impl RwLockPredicate<Book> for Fixed {
    open spec fn inv(self, book: Book) -> bool {
        self.admits(book@)
    }
}

/// A shared book for which no title is entered is shown under the name of
/// its file without the extension, whatever else was entered.
pub proof fn lemma_untitled_shared_book(book: BookRef, state: BookData)
    requires
        book.fixed().admits(state),
        state.title is None,
    ensures
        state.shown_title() == file_stem(book.path()),
{
}

/// Calls `Arc::clone`: another handle to the same place, which to the reader
/// of contracts is the same value.
#[verifier::external_body]
fn share_cell(cell: &Arc<RwLock<Book, Fixed>>) -> (shared: Arc<RwLock<Book, Fixed>>)
    ensures
        shared == *cell,
{
    Arc::clone(cell)
}

/// A handle to a book that is shared with all copies of the handle.
pub struct BookRef {
    cell: Arc<RwLock<Book, Fixed>>,
}

impl Clone for BookRef {
    /// Another handle to the same book.
    fn clone(&self) -> (copy: Self)
        ensures
            copy == *self,
    {
        BookRef { cell: share_cell(&self.cell) }
    }
}

impl BookRef {
    /// What stays the same of the book.
    pub closed spec fn fixed(&self) -> Fixed {
        self.cell.pred()
    }

    /// The identifier of the book.
    pub open spec fn id(&self) -> u128 {
        self.fixed().id
    }

    /// The path of the book's archive file.
    pub open spec fn path(&self) -> Seq<char> {
        self.fixed().path
    }

    /// The labels of the book.
    pub open spec fn tags(&self) -> Seq<Seq<char>> {
        self.fixed().tags
    }

    /// A handle to `book`, which from now on is reached through handles only.
    pub fn new(book: Book) -> (handle: Self)
        ensures
            handle.fixed() == Fixed::of(book@),
    {
        let ghost fixed = Fixed::of(book@);
        BookRef { cell: Arc::new(RwLock::new(book, Ghost(fixed))) }
    }

    /// The book as it is at the moment of the call, copied out. Its
    /// identifier, path and labels are those of the handle; of its title and
    /// author nothing is promised.
    pub fn snapshot(&self) -> (book: Book)
        ensures
            self.fixed().admits(book@),
    {
        let guard = self.cell.acquire_read();
        let book = guard.borrow().clone();
        guard.release_read();
        book
    }

    /// The identifier of the book.
    pub fn get_id(&self) -> (id: u128)
        ensures
            id == self.id(),
    {
        let guard = self.cell.acquire_read();
        let id = guard.borrow().get_id();
        guard.release_read();
        id
    }

    /// The path of the book's archive file.
    pub fn get_path(&self) -> (path: String)
        ensures
            path@ == self.path(),
    {
        let guard = self.cell.acquire_read();
        let path = guard.borrow().get_path();
        guard.release_read();
        path
    }

    /// The title under which the book is shown at the moment of the call: the
    /// one entered, else the name of its file without the extension. Nothing
    /// is promised of it, since the title may be entered anew through another
    /// handle at any time.
    pub fn get_title(&self) -> String {
        let guard = self.cell.acquire_read();
        let title = guard.borrow().get_title().to_owned();
        guard.release_read();
        title
    }

    /// The author of the book as shown at the moment of the call: the one
    /// entered, else nothing. Nothing is promised of it, since the author may
    /// be entered anew through another handle at any time.
    pub fn get_author(&self) -> String {
        let guard = self.cell.acquire_read();
        let author = guard.borrow().get_author().to_owned();
        guard.release_read();
        author
    }

    /// Enters `title` as the title of the book, for all who share it. Nothing
    /// is promised of what is read afterwards, since another handle may enter
    /// a title in between.
    pub fn set_title(&self, title: String) {
        let (mut book, guard) = self.cell.acquire_write();
        book.set_title(title);
        guard.release_write(book);
    }

    /// Enters `author` as the author of the book, for all who share it.
    /// Nothing is promised of what is read afterwards, since another handle
    /// may enter an author in between.
    pub fn set_author(&self, author: String) {
        let (mut book, guard) = self.cell.acquire_write();
        book.set_author(author);
        guard.release_write(book);
    }

    /// Whether `other` is a handle to the book with the same identifier.
    pub fn same_book(&self, other: &BookRef) -> (same: bool)
        ensures
            same == (self.id() == other.id()),
    {
        self.get_id() == other.get_id()
    }
}

} // verus!
