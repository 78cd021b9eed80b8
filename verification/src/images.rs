//! Pictures out of a comic archive: the cover, one page by its number, or all
//! pages in reading order.
//!
//! The functions take the bytes of the archive file as their caller read
//! them, or `None` where the file could not be read.

use vstd::prelude::*;
use std::io::Cursor;
use zip::ZipArchive;
use crate::archive::{archive_entries, entry_names, open_archive, read_entry, stored, zip_entries};
use crate::cover::{first_page, lemma_first_page_among, select_cover};
use crate::decode::{decode_page, decoded, fit_within, fitted};
use crate::error::PageError;
use crate::pages::is_page_name;
use crate::raster::{shown, PageImage, Raster};
use crate::sequence::{is_page_order, name_seq, page_order, sort_pages};

verus! {

/// The width that no cover exceeds, in pixels.
pub const COVER_WIDTH: u32 = 250;

/// The height that no cover exceeds, in pixels.
pub const COVER_HEIGHT: u32 = 350;

/// What the archive file `file` holds under which name, where it was read and
/// is an archive.
pub open spec fn held_by(file: Option<Seq<u8>>) -> Option<Map<Seq<char>, Option<Seq<u8>>>> {
    match file {
        None => None,
        Some(bytes) => zip_entries(bytes),
    }
}

/// What comes of showing the entry `name` of an archive that holds `entries`.
pub open spec fn page_outcome(entries: Map<Seq<char>, Option<Seq<u8>>>, name: Seq<char>) -> Result<
    Raster,
    PageError,
> {
    match stored(entries, name) {
        None => Err(PageError::BrokenEntry),
        Some(bytes) => match decoded(bytes) {
            None => Err(PageError::NotImage),
            Some(picture) => Ok(picture),
        },
    }
}

/// What comes of asking for the cover of the archive file `file`.
pub open spec fn cover_outcome(file: Option<Seq<u8>>) -> Result<Raster, PageError> {
    match file {
        None => Err(PageError::Unreadable),
        Some(bytes) => match zip_entries(bytes) {
            None => Err(PageError::NotArchive),
            Some(entries) => match first_page(entries.dom()) {
                None => Err(PageError::NoImage),
                Some(name) => match page_outcome(entries, name) {
                    Err(error) => Err(error),
                    Ok(picture) => match fitted(picture, COVER_WIDTH, COVER_HEIGHT) {
                        None => Err(PageError::NotImage),
                        Some(small) => Ok(small),
                    },
                },
            },
        },
    }
}

/// The pictures of those of the entries `names` that can be shown, in the
/// order of `names`.
pub open spec fn shown_pages(entries: Map<Seq<char>, Option<Seq<u8>>>, names: Seq<Seq<char>>) -> Seq<
    Raster,
>
    decreases names.len(),
{
    if names.len() == 0 {
        Seq::empty()
    } else {
        match page_outcome(entries, names.last()) {
            Ok(picture) => shown_pages(entries, names.drop_last()).push(picture),
            Err(_) => shown_pages(entries, names.drop_last()),
        }
    }
}

/// The picture of the entry `name` of an archive that holds `entries`, where
/// the entry can be shown.
pub open spec fn picture_in(entries: Map<Seq<char>, Option<Seq<u8>>>, name: Seq<char>) -> Option<
    Raster,
> {
    match page_outcome(entries, name) {
        Ok(picture) => Some(picture),
        Err(_) => None,
    }
}

/// The pictures shown are those of the entries that can be shown, each once
/// and in the order of the names: with the names in reading order, the
/// pictures are in reading order.
pub proof fn lemma_shown_pages_follow_the_names(
    entries: Map<Seq<char>, Option<Seq<u8>>>,
    names: Seq<Seq<char>>,
)
    ensures
        shown_pages(entries, names) == names.filter_map(
            |name: Seq<char>| picture_in(entries, name),
        ),
    decreases names.len(),
{
    let pick = |name: Seq<char>| picture_in(entries, name);
    if names.len() > 0 {
        lemma_shown_pages_follow_the_names(entries, names.drop_last());
        match page_outcome(entries, names.last()) {
            Ok(picture) => {
                assert(pick(names.last()) == Some(picture));
                assert(names.filter_map(pick) =~= names.drop_last().filter_map(pick) + seq![
                    picture,
                ]);
                assert(shown_pages(entries, names) =~= names.filter_map(pick));
            },
            Err(_) => {
                assert(pick(names.last()) is None);
            },
        }
    } else {
        assert(names.filter_map(pick) =~= Seq::<Raster>::empty());
    }
}

/// Where none of the entries `names` can be shown, no picture comes of them.
pub proof fn lemma_nothing_shown(entries: Map<Seq<char>, Option<Seq<u8>>>, names: Seq<Seq<char>>)
    requires
        forall|i: int| 0 <= i < names.len() ==> page_outcome(entries, #[trigger] names[i]) is Err,
    ensures
        shown_pages(entries, names) == Seq::<Raster>::empty(),
    decreases names.len(),
{
    if names.len() > 0 {
        let front = names.drop_last();
        assert forall|i: int| 0 <= i < front.len() implies page_outcome(
            entries,
            #[trigger] front[i],
        ) is Err by {
            assert(front[i] == names[i]);
        }
        lemma_nothing_shown(entries, front);
    }
}

/// An entry that cannot be shown takes nothing from the others: the pictures
/// are those of the names without it.
pub proof fn lemma_bad_page_is_skipped(
    entries: Map<Seq<char>, Option<Seq<u8>>>,
    names: Seq<Seq<char>>,
    bad: int,
)
    requires
        0 <= bad < names.len(),
        page_outcome(entries, names[bad]) is Err,
    ensures
        shown_pages(entries, names) == shown_pages(entries, names.remove(bad)),
    decreases names.len(),
{
    if bad == names.len() - 1 {
        assert(names.remove(bad) =~= names.drop_last());
    } else {
        lemma_bad_page_is_skipped(entries, names.drop_last(), bad);
        assert(names.remove(bad).drop_last() =~= names.drop_last().remove(bad));
        assert(names.remove(bad).last() == names.last());
    }
}

/// Every picture shown comes of one of the entries: there are no more
/// pictures than names.
pub proof fn lemma_shown_pages_len(entries: Map<Seq<char>, Option<Seq<u8>>>, names: Seq<Seq<char>>)
    ensures
        shown_pages(entries, names).len() <= names.len(),
    decreases names.len(),
{
    if names.len() > 0 {
        lemma_shown_pages_len(entries, names.drop_last());
    }
}

/// What comes of asking for all pages of the archive file `file`.
pub open spec fn images_outcome(file: Option<Seq<u8>>) -> Result<Seq<Raster>, PageError> {
    match file {
        None => Err(PageError::Unreadable),
        Some(bytes) => match zip_entries(bytes) {
            None => Err(PageError::NotArchive),
            Some(entries) => {
                let pictures = shown_pages(entries, page_order(entries.dom()));
                if pictures.len() == 0 {
                    Err(PageError::NothingLoaded)
                } else {
                    Ok(pictures)
                }
            },
        },
    }
}

/// The pictures that `images` holds, in their order.
pub open spec fn rasters(images: Seq<PageImage>) -> Seq<Raster> {
    Seq::new(images.len(), |i: int| images[i]@)
}

/// The bytes of `file` as a value.
pub open spec fn file_bytes(file: Option<Vec<u8>>) -> Option<Seq<u8>> {
    match file {
        Some(bytes) => Some(bytes@),
        None => None,
    }
}

/// The picture or the failure in `outcome`, as values.
pub open spec fn outcome_view(outcome: Result<PageImage, PageError>) -> Result<Raster, PageError> {
    match outcome {
        Ok(image) => Ok(image@),
        Err(error) => Err(error),
    }
}

/// The pictures or the failure in `outcome`, as values.
pub open spec fn outcomes_view(outcome: Result<Vec<PageImage>, PageError>) -> Result<
    Seq<Raster>,
    PageError,
> {
    match outcome {
        Ok(images) => Ok(rasters(images@)),
        Err(error) => Err(error),
    }
}

/// The picture of the entry `name` of `archive`.
fn load_entry(archive: &mut ZipArchive<Cursor<Vec<u8>>>, name: &str) -> (outcome: Result<
    PageImage,
    PageError,
>)
    ensures
        archive_entries(*final(archive)) == archive_entries(*old(archive)),
        outcome_view(outcome) == page_outcome(archive_entries(*old(archive)), name@),
{
    match read_entry(archive, name) {
        None => Err(PageError::BrokenEntry),
        Some(bytes) => match decode_page(&bytes) {
            None => Err(PageError::NotImage),
            Some(image) => Ok(image),
        },
    }
}

/// The cover of a book: the page of its archive whose name comes first, made
/// as large as fits within 250 by 350 pixels. There is no cover exactly where
/// none of the entries is a page.
pub fn load_cover_image(file: Option<Vec<u8>>) -> (outcome: Result<PageImage, PageError>)
    ensures
        outcome_view(outcome) == cover_outcome(file_bytes(file)),
        outcome matches Ok(cover) ==> cover@.width <= COVER_WIDTH && cover@.height <= COVER_HEIGHT
            && (cover@.width == COVER_WIDTH || cover@.height == COVER_HEIGHT),
        held_by(file_bytes(file)) matches Some(entries) ==> (first_page(entries.dom()) is None
            <==> forall|name: Seq<char>| #[trigger]
            entries.dom().contains(name) ==> !is_page_name(name)),
{
    let bytes = match file {
        None => {
            return Err(PageError::Unreadable);
        },
        Some(bytes) => bytes,
    };
    let mut archive = match open_archive(bytes) {
        Err(_) => {
            return Err(PageError::NotArchive);
        },
        Ok(archive) => archive,
    };
    let names = entry_names(&archive);
    let found = select_cover(&names);
    proof {
        lemma_first_page_among(names@);
    }
    let at = match found {
        None => {
            return Err(PageError::NoImage);
        },
        Some(at) => at,
    };
    let image = match load_entry(&mut archive, names[at].as_str()) {
        Err(error) => {
            return Err(error);
        },
        Ok(image) => image,
    };
    match fit_within(image, COVER_WIDTH, COVER_HEIGHT) {
        None => Err(PageError::NotImage),
        Some(cover) => Ok(cover),
    }
}

/// An opened archive with the names of its pages in reading order, out of
/// which pages are decoded one at a time.
pub struct BookImageContext {
    archive: ZipArchive<Cursor<Vec<u8>>>,
    filenames: Vec<String>,
}

impl BookImageContext {
    /// Whether the names kept are those of the archive's pages, in reading
    /// order. Every context that this library hands out is so.
    pub closed spec fn well_formed(self) -> bool {
        name_seq(self.filenames@) == page_order(archive_entries(self.archive).dom())
    }

    /// What the archive holds under which name.
    pub closed spec fn entries(self) -> Map<Seq<char>, Option<Seq<u8>>> {
        archive_entries(self.archive)
    }

    /// The names of the pages, in reading order.
    pub open spec fn page_names(self) -> Seq<Seq<char>> {
        page_order(self.entries().dom())
    }

    fn new(archive: ZipArchive<Cursor<Vec<u8>>>, filenames: Vec<String>) -> (context: Self)
        requires
            name_seq(filenames@) == page_order(archive_entries(archive).dom()),
        ensures
            context.well_formed(),
            context.entries() == archive_entries(archive),
    {
        Self { archive, filenames }
    }

    /// The number of pages.
    pub fn len(&self) -> (count: usize)
        requires
            self.well_formed(),
        ensures
            count == self.page_names().len(),
    {
        self.filenames.len()
    }

    /// Whether the archive has no page.
    pub fn is_empty(&self) -> (empty: bool)
        requires
            self.well_formed(),
        ensures
            empty == (self.page_names().len() == 0),
    {
        self.filenames.len() == 0
    }
}

/// What comes of opening the archive file `file` for reading pages one by one.
pub open spec fn context_outcome(file: Option<Seq<u8>>) -> Result<
    Map<Seq<char>, Option<Seq<u8>>>,
    PageError,
> {
    match file {
        None => Err(PageError::Unreadable),
        Some(bytes) => match zip_entries(bytes) {
            None => Err(PageError::NotArchive),
            Some(entries) => Ok(entries),
        },
    }
}

/// Opens the archive file `file` and lists its pages in reading order. No
/// page is decoded yet.
pub fn get_book_image_context(file: Option<Vec<u8>>) -> (outcome: Result<BookImageContext, PageError>)
    ensures
        match outcome {
            Ok(context) => context.well_formed() && context_outcome(file_bytes(file)) == Ok::<
                _,
                PageError,
            >(context.entries()) && is_page_order(context.page_names(), context.entries().dom()),
            Err(error) => context_outcome(file_bytes(file)) == Err::<
                Map<Seq<char>, Option<Seq<u8>>>,
                _,
            >(error),
        },
{
    let bytes = match file {
        None => {
            return Err(PageError::Unreadable);
        },
        Some(bytes) => bytes,
    };
    let archive = match open_archive(bytes) {
        Err(_) => {
            return Err(PageError::NotArchive);
        },
        Ok(archive) => archive,
    };
    let names = entry_names(&archive);
    let filenames = sort_pages(&names);
    Ok(BookImageContext::new(archive, filenames))
}

/// What comes of asking an archive that holds `entries` for the page with the
/// number `index`, the first page having the number 0.
pub open spec fn indexed_outcome(entries: Map<Seq<char>, Option<Seq<u8>>>, index: int) -> Result<
    Raster,
    PageError,
> {
    if 0 <= index < page_order(entries.dom()).len() {
        page_outcome(entries, page_order(entries.dom())[index])
    } else {
        Err(PageError::NoSuchPage)
    }
}

/// The page with the number `index`, decoded at its full size.
pub fn load_image(context: &mut BookImageContext, index: usize) -> (outcome: Result<
    PageImage,
    PageError,
>)
    requires
        old(context).well_formed(),
    ensures
        final(context).well_formed(),
        final(context).entries() == old(context).entries(),
        outcome_view(outcome) == indexed_outcome(old(context).entries(), index as int),
{
    if index >= context.filenames.len() {
        return Err(PageError::NoSuchPage);
    }
    proof {
        assert(name_seq(context.filenames@)[index as int] == context.filenames[index as int]@);
    }
    load_entry(&mut context.archive, context.filenames[index].as_str())
}

/// All pages of a book in reading order, each decoded at its full size. A
/// page that cannot be shown is left out; the whole fails where none is left.
pub fn load_images(file: Option<Vec<u8>>) -> (outcome: Result<Vec<PageImage>, PageError>)
    ensures
        outcomes_view(outcome) == images_outcome(file_bytes(file)),
        held_by(file_bytes(file)) matches Some(entries) ==> is_page_order(
            page_order(entries.dom()),
            entries.dom(),
        ),
{
    let mut context = match get_book_image_context(file) {
        Err(error) => {
            return Err(error);
        },
        Ok(context) => context,
    };
    let ghost entries = context.entries();
    let ghost names = page_order(entries.dom());
    let count = context.len();
    let mut images: Vec<PageImage> = Vec::new();
    let mut index: usize = 0;
    while index < count
        invariant
            index <= count,
            count == names.len(),
            context.well_formed(),
            context.entries() == entries,
            names == page_order(entries.dom()),
            rasters(images@) == shown_pages(entries, names.take(index as int)),
        decreases count - index,
    {
        let ghost before = rasters(images@);
        proof {
            assert(names.take(index + 1).drop_last() == names.take(index as int));
            assert(names.take(index + 1).last() == names[index as int]);
        }
        match load_image(&mut context, index) {
            Ok(image) => {
                images.push(image);
                proof {
                    assert(rasters(images@) =~= before.push(image@));
                }
            },
            Err(_) => {},
        }
        index = index + 1;
    }
    proof {
        assert(names.take(count as int) == names);
    }
    if images.len() == 0 {
        Err(PageError::NothingLoaded)
    } else {
        Ok(images)
    }
}

} // verus!
