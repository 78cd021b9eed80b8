//! What a reader's sitting consists of: the catalog, the covers that have
//! come in, and what is on the screen.
//!
//! Files are read and pictures are made elsewhere, each request on its own.
//! Whatever comes of a request is handed to the session, which is the one
//! place where the state changes. Answers may come in any order: a cover is
//! kept under the identifier of its book, and pages are taken only while their
//! book is the one that is open.
//!
//! The pictures themselves are of a type `I` that the session only keeps.

use vstd::prelude::*;
use std::collections::HashMap;
use vstd::string::StringExecFns;
use crate::book::BookData;
use crate::ident::is_random_id;
use crate::library::Library;
use crate::shared::{BookRef, Fixed};
use crate::viewer::{turn_page, turned};

verus! {

broadcast use vstd::std_specs::hash::group_hash_axioms;

/// What is on the screen.
pub enum Screen<I> {
    /// What is known of one book.
    BookDetails { book: BookRef },
    /// What is known of a book that was just taken in.
    EditBook { book: BookRef },
    /// A failure, in words.
    Errored(String),
    /// The books of the catalog.
    Library,
    /// Nothing yet: the catalog is being read.
    Loading,
    /// One page of an opened book. The pages come in after the book is opened.
    Viewer { book: BookRef, current: usize, images: Vec<I> },
}

/// The state of a sitting.
pub struct Session<I> {
    covers: HashMap<u128, I>,
    library: Library,
    screen: Screen<I>,
}

/// What is on the screen after a step forward or back.
pub open spec fn page_turned<I>(screen: Screen<I>, forward: bool) -> Screen<I> {
    match screen {
        Screen::Viewer { book, current, images } => Screen::Viewer {
            book,
            current: turned(current as nat, images.len() as nat, forward) as usize,
            images,
        },
        other => other,
    }
}

/// What is on the screen after the pages `images` of the book with the
/// identifier `id` have come in: they are shown from the first on if that
/// book is open, and dropped if it is not.
pub open spec fn pages_taken<I>(screen: Screen<I>, id: u128, images: Vec<I>) -> Screen<I> {
    match screen {
        Screen::Viewer { book, current, images: shown } => if book.id() == id {
            Screen::Viewer { book, current: 0, images }
        } else {
            screen
        },
        other => other,
    }
}

impl<I> Session<I> {
    /// The covers that have come in, each under the identifier of its book.
    pub closed spec fn covers(&self) -> Map<u128, I> {
        self.covers@
    }

    /// The catalog.
    pub closed spec fn library(&self) -> Library {
        self.library
    }

    /// What is on the screen.
    pub closed spec fn screen(&self) -> Screen<I> {
        self.screen
    }

    /// A sitting at its start: an empty catalog, no covers, and the catalog
    /// being read.
    pub fn new() -> (session: Self)
        ensures
            session.screen() == Screen::<I>::Loading,
            session.covers() == Map::<u128, I>::empty(),
            session.library().handles() == Seq::<BookRef>::empty(),
    {
        Session { covers: HashMap::new(), library: Library::default(), screen: Screen::Loading }
    }

    /// What is on the screen.
    pub fn get_screen(&self) -> (screen: &Screen<I>)
        ensures
            *screen == self.screen(),
    {
        &self.screen
    }

    /// The catalog.
    pub fn get_library(&self) -> (library: &Library)
        ensures
            *library == self.library(),
    {
        &self.library
    }

    /// The cover of `book`, if it has come in.
    pub fn cover_of(&self, book: &BookRef) -> (cover: Option<&I>)
        ensures
            match cover {
                Some(cover) => self.covers().dom().contains(book.id()) && *cover
                    == self.covers()[book.id()],
                None => !self.covers().dom().contains(book.id()),
            },
    {
        let id = book.get_id();
        self.covers.get(&id)
    }

    /// One step forward or back in the opened book. Elsewhere nothing
    /// happens.
    pub fn advance_page(&mut self, forward: bool)
        ensures
            final(self).screen() == page_turned(old(self).screen(), forward),
            final(self).covers() == old(self).covers(),
            final(self).library() == old(self).library(),
    {
        match &mut self.screen {
            Screen::Viewer { current, images, .. } => {
                *current = turn_page(*current, images.len(), forward);
            },
            _ => {},
        }
    }

    /// The pages of `book` have come in, or the failure to get them. Pages
    /// are taken if their book is the opened one; a failure is shown.
    pub fn images_loaded(&mut self, book: &BookRef, loaded: Result<Vec<I>, String>)
        ensures
            final(self).screen() == (match loaded {
                Ok(images) => pages_taken(old(self).screen(), book.id(), images),
                Err(failure) => Screen::Errored(failure),
            }),
            final(self).covers() == old(self).covers(),
            final(self).library() == old(self).library(),
    {
        match loaded {
            Ok(pages) => {
                match &mut self.screen {
                    Screen::Viewer { book: open, current, images } => {
                        if open.same_book(book) {
                            *current = 0;
                            *images = pages;
                        }
                    },
                    _ => {},
                }
            },
            Err(failure) => {
                self.screen = Screen::Errored(failure);
            },
        }
    }

    /// The cover of `book` has come in, or the failure to get it. A cover is
    /// kept under the identifier of its book, in place of an earlier one; a
    /// failure is shown.
    pub fn cover_loaded(&mut self, book: &BookRef, loaded: Result<I, String>)
        ensures
            final(self).library() == old(self).library(),
            match loaded {
                Ok(cover) => final(self).covers() == old(self).covers().insert(book.id(), cover)
                    && final(self).screen() == old(self).screen(),
                Err(failure) => final(self).covers() == old(self).covers() && final(self).screen()
                    == Screen::<I>::Errored(failure),
            },
    {
        match loaded {
            Ok(cover) => {
                let id = book.get_id();
                self.covers.insert(id, cover);
            },
            Err(failure) => {
                self.screen = Screen::Errored(failure);
            },
        }
    }

    /// The details of `book` are asked for.
    pub fn open_details(&mut self, book: BookRef)
        ensures
            final(self).screen() == (Screen::<I>::BookDetails { book }),
            final(self).covers() == old(self).covers(),
            final(self).library() == old(self).library(),
    {
        self.screen = Screen::BookDetails { book };
    }

    /// `book` is opened for reading: its first page is to be shown as soon as
    /// its pages have come in.
    pub fn open_viewer(&mut self, book: BookRef)
        ensures
            final(self).screen() matches Screen::Viewer { book: open, current, images } && open == book
                && current == 0 && images@ == Seq::<I>::empty(),
            final(self).covers() == old(self).covers(),
            final(self).library() == old(self).library(),
    {
        self.screen = Screen::Viewer { book, current: 0, images: Vec::new() };
    }

    /// Back to the books of the catalog.
    pub fn return_to_library(&mut self)
        ensures
            final(self).screen() == Screen::<I>::Library,
            final(self).covers() == old(self).covers(),
            final(self).library() == old(self).library(),
    {
        self.screen = Screen::Library;
    }

    /// Writing the catalog has ended. A failure is shown.
    pub fn saved(&mut self, outcome: Result<(), String>)
        ensures
            final(self).screen() == (match outcome {
                Ok(_) => old(self).screen(),
                Err(failure) => Screen::Errored(failure),
            }),
            final(self).covers() == old(self).covers(),
            final(self).library() == old(self).library(),
    {
        match outcome {
            Ok(_) => {},
            Err(failure) => {
                self.screen = Screen::Errored(failure);
            },
        }
    }

    /// Reading the catalog has ended. A catalog takes the place of the empty
    /// one and its books are shown; the books are handed out, for their covers
    /// to be asked for. A failure is shown.
    pub fn loaded(&mut self, outcome: Result<Library, String>) -> (wanted: Vec<BookRef>)
        ensures
            final(self).covers() == old(self).covers(),
            match outcome {
                Ok(library) => final(self).library() == library && final(self).screen()
                    == Screen::<I>::Library && wanted@ == library.handles(),
                Err(failure) => final(self).library() == old(self).library() && final(self).screen()
                    == Screen::<I>::Errored(failure) && wanted@ == Seq::<BookRef>::empty(),
            },
    {
        match outcome {
            Ok(library) => {
                let wanted = copy_handles(library.get_books());
                self.library = library;
                self.screen = Screen::Library;
                wanted
            },
            Err(failure) => {
                self.screen = Screen::Errored(failure);
                Vec::new()
            },
        }
    }

    /// A file was chosen to be taken into the catalog, or none was. The new
    /// book is shown for what is known of it to be entered, and handed out if
    /// its cover has not come in yet, for the cover to be asked for.
    pub fn import_book(&mut self, path: Option<String>) -> (wanted: Option<BookRef>)
        ensures
            final(self).covers() == old(self).covers(),
            match path {
                None => final(self).library() == old(self).library() && final(self).screen()
                    == old(self).screen() && wanted is None,
                Some(path) => final(self).screen() matches Screen::EditBook { book } && {
                    &&& final(self).library().version() == old(self).library().version()
                    &&& final(self).library().handles() == old(self).library().handles().push(book)
                    &&& book.fixed() == Fixed::of(BookData::fresh(book.id(), path@))
                    &&& is_random_id(book.id())
                    &&& wanted == (if old(self).covers().dom().contains(book.id()) {
                        None
                    } else {
                        Some(book)
                    })
                },
            },
    {
        match path {
            None => None,
            Some(path) => {
                let book = self.library.add_book(path.as_str());
                let id = book.get_id();
                let wanted = if self.covers.contains_key(&id) {
                    None
                } else {
                    Some(book.clone())
                };
                self.screen = Screen::EditBook { book };
                wanted
            },
        }
    }

    /// Files were chosen to be taken into the catalog, all at once. They
    /// become its last books, in their order; those whose covers have not
    /// come in yet are handed out, for the covers to be asked for.
    pub fn import_books(&mut self, paths: &Vec<String>) -> (wanted: Vec<BookRef>)
        ensures
            final(self).covers() == old(self).covers(),
            final(self).screen() == old(self).screen(),
            final(self).library().version() == old(self).library().version(),
            final(self).library().handles().len() == old(self).library().handles().len()
                + paths.len(),
            final(self).library().handles().take(old(self).library().handles().len() as int)
                == old(self).library().handles(),
            forall|i: int|
                0 <= i < paths.len() ==> {
                    let book = #[trigger] final(self).library().handles()[
                        old(self).library().handles().len() + i
                    ];
                    book.fixed() == Fixed::of(BookData::fresh(book.id(), paths[i]@)) && is_random_id(
                        book.id(),
                    )
                },
            wanted@ == without_cover(
                final(self).library().handles().skip(old(self).library().handles().len() as int),
                old(self).covers().dom(),
            ),
    {
        let ghost before = self.library.handles();
        let mut wanted: Vec<BookRef> = Vec::new();
        let mut i: usize = 0;
        while i < paths.len()
            invariant
                i <= paths.len(),
                self.covers() == old(self).covers(),
                self.screen() == old(self).screen(),
                self.library().version() == old(self).library().version(),
                before == old(self).library().handles(),
                self.library().handles().len() == before.len() + i,
                self.library().handles().take(before.len() as int) == before,
                forall|j: int|
                    0 <= j < i ==> {
                        let book = #[trigger] self.library().handles()[before.len() + j];
                        book.fixed() == Fixed::of(BookData::fresh(book.id(), paths[j]@))
                            && is_random_id(book.id())
                    },
                wanted@ == without_cover(
                    self.library().handles().skip(before.len() as int),
                    self.covers().dom(),
                ),
            decreases paths.len() - i,
        {
            let ghost earlier = self.library.handles();
            let book = self.library.add_book(paths[i].as_str());
            let id = book.get_id();
            proof {
                let later = self.library.handles();
                assert(later == earlier.push(book));
                assert(later.take(before.len() as int) =~= earlier.take(before.len() as int));
                assert(later.skip(before.len() as int).drop_last() =~= earlier.skip(
                    before.len() as int,
                ));
                assert(later.skip(before.len() as int).last() == book);
                assert forall|j: int| 0 <= j < i + 1 implies {
                    let added = #[trigger] later[before.len() + j];
                    added.fixed() == Fixed::of(BookData::fresh(added.id(), paths[j]@))
                        && is_random_id(added.id())
                } by {
                    if j < i {
                        assert(later[before.len() + j] == earlier[before.len() + j]);
                    }
                }
            }
            if !self.covers.contains_key(&id) {
                wanted.push(book);
            }
            i = i + 1;
        }
        wanted
    }

    /// The name of what is on the screen. A book on the screen gives its
    /// title as it is at the moment, of which nothing is promised.
    pub fn subtitle(&self) -> (subtitle: String)
        ensures
            screen_name(self.screen()) matches Some(name) ==> subtitle@ == name,
    {
        match &self.screen {
            Screen::BookDetails { book } => book.get_title(),
            Screen::EditBook { .. } => "Add Book".to_owned(),
            Screen::Errored(_) => "Ooops".to_owned(),
            Screen::Library => "Library".to_owned(),
            Screen::Loading => "Loading".to_owned(),
            Screen::Viewer { book, .. } => book.get_title(),
        }
    }

    /// The title of the window: the name of what is on the screen, and the
    /// name of the program behind it.
    pub fn title(&self) -> (title: String)
        ensures
            title@.len() >= program_name().len(),
            title@.skip(title@.len() - program_name().len()) == program_name(),
            screen_name(self.screen()) matches Some(name) ==> title@ == name + program_name(),
    {
        let mut title = self.subtitle();
        let ghost subtitle = title@;
        title.append(" - My App");
        proof {
            assert(title@ == subtitle + program_name());
            assert(title@.skip(title@.len() - program_name().len()) =~= program_name());
        }
        title
    }
}

/// The name of the screen `screen`, where it has one of its own; a book on
/// the screen is named by its title.
pub open spec fn screen_name<I>(screen: Screen<I>) -> Option<Seq<char>> {
    match screen {
        Screen::BookDetails { .. } => None,
        Screen::Viewer { .. } => None,
        Screen::EditBook { .. } => Some("Add Book"@),
        Screen::Errored(_) => Some("Ooops"@),
        Screen::Library => Some("Library"@),
        Screen::Loading => Some("Loading"@),
    }
}

/// What follows the name of the screen in the title of the window.
pub open spec fn program_name() -> Seq<char> {
    " - My App"@
}

/// Those of `books` whose identifier is not in `covers`, in their order.
pub open spec fn without_cover(books: Seq<BookRef>, covers: Set<u128>) -> Seq<BookRef>
    decreases books.len(),
{
    if books.len() == 0 {
        Seq::empty()
    } else if covers.contains(books.last().id()) {
        without_cover(books.drop_last(), covers)
    } else {
        without_cover(books.drop_last(), covers).push(books.last())
    }
}

/// Handles to the same books, in the same order.
fn copy_handles(books: &Vec<BookRef>) -> (copy: Vec<BookRef>)
    ensures
        copy@ == books@,
{
    let mut copy: Vec<BookRef> = Vec::new();
    let mut i: usize = 0;
    while i < books.len()
        invariant
            i <= books.len(),
            copy@ == books@.take(i as int),
        decreases books.len() - i,
    {
        copy.push(books[i].clone());
        proof {
            assert(books@.take(i + 1) =~= books@.take(i as int).push(books@[i as int]));
        }
        i = i + 1;
    }
    proof {
        assert(books@.take(books.len() as int) =~= books@);
    }
    copy
}

} // verus!
