//! The catalog: the books of a reader, in the order in which they were taken
//! in.

use vstd::prelude::*;
use crate::book::{Book, BookData};
use crate::ident::{fresh_id, is_random_id};
use crate::shared::{BookRef, Fixed};

verus! {

/// The catalog as it is written down: its books as plain records, none of
/// them shared.
pub struct LibraryRecord {
    /// The tag of the format.
    pub version: String,
    /// The books, in their order.
    pub books: Vec<Book>,
}

/// The catalog of a reader.
pub struct Library {
    version: String,
    books: Vec<BookRef>,
}

/// The tag of the format in which catalogs are written down.
pub open spec fn current_version() -> Seq<char> {
    "1.0"@
}

/// Whether `at` is the first position in `handles` of a book with the
/// identifier `id`.
pub open spec fn is_first_with_id(handles: Seq<BookRef>, at: int, id: u128) -> bool {
    &&& 0 <= at < handles.len()
    &&& handles[at].id() == id
    &&& forall|j: int| 0 <= j < at ==> (#[trigger] handles[j]).id() != id
}

/// Whether none of `handles` is a book with the identifier `id`.
pub open spec fn has_no_id(handles: Seq<BookRef>, id: u128) -> bool {
    forall|j: int| 0 <= j < handles.len() ==> (#[trigger] handles[j]).id() != id
}

/// Whether no two of `handles` are books with the same identifier.
pub open spec fn has_distinct_ids(handles: Seq<BookRef>) -> bool {
    forall|i: int, j: int|
        0 <= i < j < handles.len() ==> (#[trigger] handles[i]).id() != (#[trigger] handles[j]).id()
}

impl Library {
    /// The tag of the format.
    pub closed spec fn version(&self) -> Seq<char> {
        self.version@
    }

    /// The handles to the books, in their order.
    pub closed spec fn handles(&self) -> Seq<BookRef> {
        self.books@
    }

    /// Whether `record` is a state of this catalog: the same tag, and book
    /// for book the same identifier, path and labels.
    pub open spec fn admits(&self, record: LibraryRecord) -> bool {
        &&& record.version@ == self.version()
        &&& record.books.len() == self.handles().len()
        &&& forall|i: int|
            0 <= i < record.books.len() ==> (#[trigger] self.handles()[i]).fixed().admits(
                record.books[i]@,
            )
    }

    /// The handles to the books, in their order. They are the catalog's own:
    /// what is entered through one of them is entered in the catalog.
    pub fn get_books(&self) -> (books: &Vec<BookRef>)
        ensures
            books@ == self.handles(),
    {
        &self.books
    }

    /// Takes the archive file at `path` into the catalog as its last book,
    /// under an identifier drawn at random, and hands out the handle to it.
    pub fn add_book(&mut self, path: &str) -> (book: BookRef)
        ensures
            final(self).version() == old(self).version(),
            final(self).handles() == old(self).handles().push(book),
            book.fixed() == Fixed::of(BookData::fresh(book.id(), path@)),
            is_random_id(book.id()),
            has_distinct_ids(old(self).handles()) && has_no_id(old(self).handles(), book.id())
                ==> has_distinct_ids(final(self).handles()),
    {
        self.add_book_with_id(fresh_id(), path)
    }

    /// Takes the archive file at `path` into the catalog as its last book,
    /// under the identifier `id`, and hands out the handle to it.
    pub fn add_book_with_id(&mut self, id: u128, path: &str) -> (book: BookRef)
        ensures
            final(self).version() == old(self).version(),
            final(self).handles() == old(self).handles().push(book),
            book.fixed() == Fixed::of(BookData::fresh(id, path@)),
            has_distinct_ids(old(self).handles()) && has_no_id(old(self).handles(), id)
                ==> has_distinct_ids(final(self).handles()),
    {
        let book = BookRef::new(Book::with_id(id, path));
        let shared = book.clone();
        self.books.push(book);
        shared
    }

    /// The first book of the catalog with the identifier `id`, or `None` where
    /// the catalog has no such book.
    pub fn get_book(&self, id: &u128) -> (found: Option<BookRef>)
        ensures
            match found {
                Some(book) => exists|at: int|
                    is_first_with_id(self.handles(), at, *id) && self.handles()[at] == book,
                None => has_no_id(self.handles(), *id),
            },
    {
        let mut i: usize = 0;
        while i < self.books.len()
            invariant
                i <= self.books.len(),
                forall|j: int| 0 <= j < i ==> (#[trigger] self.books@[j]).id() != *id,
            decreases self.books.len() - i,
        {
            if self.books[i].get_id() == *id {
                let book = self.books[i].clone();
                proof {
                    assert(is_first_with_id(self.handles(), i as int, *id));
                }
                return Some(book);
            }
            i = i + 1;
        }
        None
    }

    /// The catalog as it is now, copied out book by book. What is entered
    /// after a book was copied is not in the copy.
    pub fn snapshot(&self) -> (record: LibraryRecord)
        ensures
            self.admits(record),
    {
        let mut books: Vec<Book> = Vec::new();
        let mut i: usize = 0;
        while i < self.books.len()
            invariant
                i <= self.books.len(),
                books.len() == i,
                forall|j: int| 0 <= j < i ==> (#[trigger] self.books@[j]).fixed().admits(books[j]@),
            decreases self.books.len() - i,
        {
            books.push(self.books[i].snapshot());
            i = i + 1;
        }
        LibraryRecord { version: self.version.clone(), books }
    }

    /// A catalog of the books of `record`, in their order, each behind a
    /// handle of its own.
    pub fn from_record(record: LibraryRecord) -> (library: Self)
        ensures
            library.version() == record.version@,
            library.handles().len() == record.books.len(),
            forall|i: int|
                0 <= i < record.books.len() ==> (#[trigger] library.handles()[i]).fixed()
                    == Fixed::of(record.books[i]@),
            library.admits(record),
    {
        let mut books: Vec<BookRef> = Vec::new();
        let mut i: usize = 0;
        while i < record.books.len()
            invariant
                i <= record.books.len(),
                books.len() == i,
                forall|j: int| 0 <= j < i ==> (#[trigger] books[j]).fixed() == Fixed::of(
                    record.books[j]@,
                ),
            decreases record.books.len() - i,
        {
            books.push(BookRef::new(record.books[i].clone()));
            i = i + 1;
        }
        Library { version: record.version, books }
    }
}

/// Two states of one catalog have the same tag and, book for book in the
/// same order, the same identifier, path and labels: writing a catalog down
/// and reading it back changes none of these.
pub proof fn lemma_states_agree(library: Library, one: LibraryRecord, other: LibraryRecord)
    requires
        library.admits(one),
        library.admits(other),
    ensures
        one.version@ == other.version@,
        one.books.len() == other.books.len(),
        forall|i: int|
            0 <= i < one.books.len() ==> {
                &&& (#[trigger] one.books[i])@.id == other.books[i]@.id
                &&& one.books[i]@.path == other.books[i]@.path
                &&& one.books[i]@.tags == other.books[i]@.tags
            },
{
    assert forall|i: int| 0 <= i < one.books.len() implies {
        &&& (#[trigger] one.books[i])@.id == other.books[i]@.id
        &&& one.books[i]@.path == other.books[i]@.path
        &&& one.books[i]@.tags == other.books[i]@.tags
    } by {
        let fixed = library.handles()[i].fixed();
        assert(fixed.admits(one.books[i]@));
        assert(fixed.admits(other.books[i]@));
    }
}

impl Clone for Library {
    /// A catalog of the same books: the handles are copied, the books are
    /// shared.
    fn clone(&self) -> (copy: Self)
        ensures
            copy.version() == self.version(),
            copy.handles() == self.handles(),
    {
        let mut books: Vec<BookRef> = Vec::new();
        let mut i: usize = 0;
        while i < self.books.len()
            invariant
                i <= self.books.len(),
                books@ == self.books@.take(i as int),
            decreases self.books.len() - i,
        {
            books.push(self.books[i].clone());
            proof {
                assert(self.books@.take(i + 1) =~= self.books@.take(i as int).push(self.books@[i as int]));
            }
            i = i + 1;
        }
        proof {
            assert(self.books@.take(self.books.len() as int) =~= self.books@);
        }
        Library { version: self.version.clone(), books }
    }
}

impl Default for Library {
    /// The catalog before any book is taken in.
    fn default() -> (library: Self)
        ensures
            library.version() == current_version(),
            library.handles() == Seq::<BookRef>::empty(),
    {
        Library { version: "1.0".to_owned(), books: Vec::new() }
    }
}

} // verus!
