//! One record of the catalog: a comic book and what is known of it.

use vstd::prelude::*;
use crate::ident::{fresh_id, is_random_id};
use crate::paths::{file_stem, stem_of};

verus! {

/// A book as a value.
pub struct BookData {
    /// What tells the book from all others of its catalog.
    pub id: u128,
    /// Who made the book, where that was entered.
    pub author: Option<Seq<char>>,
    /// Where the archive file of the book lies.
    pub path: Seq<char>,
    /// Labels, in the order in which they were given.
    pub tags: Seq<Seq<char>>,
    /// What the book is called, where that was entered.
    pub title: Option<Seq<char>>,
}

impl BookData {
    /// The title under which the book is shown: the one entered, else the
    /// name of its file without the extension.
    pub open spec fn shown_title(self) -> Seq<char> {
        match self.title {
            Some(title) => title,
            None => file_stem(self.path),
        }
    }

    /// The author as shown: the one entered, else nothing.
    pub open spec fn shown_author(self) -> Seq<char> {
        match self.author {
            Some(author) => author,
            None => Seq::empty(),
        }
    }

    /// A book newly taken into a catalog: nothing is entered yet.
    pub open spec fn fresh(id: u128, path: Seq<char>) -> BookData {
        BookData { id, author: None, path, tags: Seq::empty(), title: None }
    }
}

/// A book for which no title was entered is shown under the name of its file
/// without the extension, and a book newly taken in is such a book.
pub proof fn lemma_untitled_book(data: BookData)
    requires
        data.title is None,
    ensures
        data.shown_title() == file_stem(data.path),
        BookData::fresh(data.id, data.path).shown_title() == file_stem(data.path),
        BookData::fresh(data.id, data.path).shown_author() == Seq::<char>::empty(),
{
}

/// The text that `text` holds, where it holds one.
pub open spec fn text_of(text: Option<String>) -> Option<Seq<char>> {
    match text {
        Some(text) => Some(text@),
        None => None,
    }
}

/// The texts that `texts` holds, in their order.
pub open spec fn texts_of(texts: Seq<String>) -> Seq<Seq<char>> {
    Seq::new(texts.len(), |i: int| texts[i]@)
}

/// A copy of `text`.
pub fn copy_text(text: &Option<String>) -> (copy: Option<String>)
    ensures
        text_of(copy) == text_of(*text),
{
    match text {
        Some(text) => Some(text.clone()),
        None => None,
    }
}

/// A copy of `texts`.
pub fn copy_texts(texts: &Vec<String>) -> (copy: Vec<String>)
    ensures
        texts_of(copy@) == texts_of(texts@),
{
    let mut copy: Vec<String> = Vec::new();
    let mut i: usize = 0;
    while i < texts.len()
        invariant
            i <= texts.len(),
            copy.len() == i,
            forall|j: int| 0 <= j < i ==> copy[j]@ == texts[j]@,
        decreases texts.len() - i,
    {
        copy.push(texts[i].clone());
        i = i + 1;
    }
    proof {
        assert(texts_of(copy@) =~= texts_of(texts@));
    }
    copy
}

/// A comic book of the catalog.
#[derive(Debug)]
pub struct Book {
    id: u128,
    author: Option<String>,
    path: String,
    tags: Vec<String>,
    title: Option<String>,
}

impl View for Book {
    type V = BookData;

    closed spec fn view(&self) -> BookData {
        BookData {
            id: self.id,
            author: text_of(self.author),
            path: self.path@,
            tags: texts_of(self.tags@),
            title: text_of(self.title),
        }
    }
}

impl Clone for Book {
    fn clone(&self) -> (copy: Self)
        ensures
            copy@ == self@,
    {
        Book {
            id: self.id,
            author: copy_text(&self.author),
            path: self.path.clone(),
            tags: copy_texts(&self.tags),
            title: copy_text(&self.title),
        }
    }
}

impl Book {
    /// A book for the archive file at `path`, under an identifier drawn at
    /// random; nothing else is entered yet.
    pub fn new(path: &str) -> (book: Self)
        ensures
            book@ == BookData::fresh(book@.id, path@),
            is_random_id(book@.id),
    {
        Self::with_id(fresh_id(), path)
    }

    /// A book for the archive file at `path`, under the identifier `id`;
    /// nothing else is entered yet.
    pub fn with_id(id: u128, path: &str) -> (book: Self)
        ensures
            book@ == BookData::fresh(id, path@),
    {
        let book = Self { id, author: None, path: path.to_owned(), tags: Vec::new(), title: None };
        proof {
            assert(texts_of(book.tags@) =~= Seq::empty());
        }
        book
    }

    /// The book that is made of these parts.
    pub fn from_parts(
        id: u128,
        author: Option<String>,
        path: String,
        tags: Vec<String>,
        title: Option<String>,
    ) -> (book: Self)
        ensures
            book@ == (BookData {
                id,
                author: text_of(author),
                path: path@,
                tags: texts_of(tags@),
                title: text_of(title),
            }),
    {
        Self { id, author, path, tags, title }
    }

    /// What tells this book from all others of its catalog.
    pub fn get_id(&self) -> (id: u128)
        ensures
            id == self@.id,
    {
        self.id
    }

    /// Where the archive file of the book lies.
    pub fn get_path_str(&self) -> (path: &str)
        ensures
            path@ == self@.path,
    {
        self.path.as_str()
    }

    /// Where the archive file of the book lies, as a text of the caller's own.
    pub fn get_path(&self) -> (path: String)
        ensures
            path@ == self@.path,
    {
        self.path.clone()
    }

    /// The title under which the book is shown: the one entered, else the
    /// name of its file without the extension.
    pub fn get_title(&self) -> (title: &str)
        ensures
            title@ == self@.shown_title(),
    {
        match &self.title {
            Some(title) => title.as_str(),
            None => stem_of(self.path.as_str()),
        }
    }

    /// Enters `title` as the title of the book.
    pub fn set_title(&mut self, title: String)
        ensures
            final(self)@ == (BookData { title: Some(title@), ..old(self)@ }),
    {
        self.title = Some(title);
    }

    /// The author as shown: the one entered, else nothing.
    pub fn get_author(&self) -> (author: &str)
        ensures
            author@ == self@.shown_author(),
    {
        match &self.author {
            Some(author) => author.as_str(),
            None => {
                proof {
                    reveal_strlit("");
                    assert(""@ =~= Seq::<char>::empty());
                }
                ""
            },
        }
    }

    /// Enters `author` as the author of the book.
    pub fn set_author(&mut self, author: String)
        ensures
            final(self)@ == (BookData { author: Some(author@), ..old(self)@ }),
    {
        self.author = Some(author);
    }

    /// The title that was entered, if any.
    pub fn entered_title(&self) -> (title: &Option<String>)
        ensures
            text_of(*title) == self@.title,
    {
        &self.title
    }

    /// The author that was entered, if any.
    pub fn entered_author(&self) -> (author: &Option<String>)
        ensures
            text_of(*author) == self@.author,
    {
        &self.author
    }

    /// The labels of the book, in the order in which they were given.
    pub fn get_tags(&self) -> (tags: &Vec<String>)
        ensures
            texts_of(tags@) == self@.tags,
    {
        &self.tags
    }
}

} // verus!
