//! Zip archives held in memory: what they hold under which name.

use vstd::prelude::*;
use std::io::Cursor;
use std::io::Read;
use zip::result::ZipError;
use zip::ZipArchive;
use crate::cover::name_set;

verus! {

/// `zip::ZipArchive`, the reader of the zip crate, as a value that is handed
/// on and never looked into.
#[verifier::external_type_specification]
#[verifier::external_body]
#[verifier::reject_recursive_types(R)]
pub struct ExZipArchive<R>(ZipArchive<R>);

/// `std::io::Cursor`, through which the archive reads the bytes it is made
/// of.
#[verifier::external_type_specification]
#[verifier::external_body]
#[verifier::reject_recursive_types(T)]
pub struct ExCursor<T>(Cursor<T>);

/// `zip::result::ZipError`, the reason for which the zip crate refuses a
/// file. Only that there is one is used.
#[verifier::external_type_specification]
#[verifier::external_body]
pub struct ExZipError(ZipError);

/// What `zip::ZipArchive::new` finds in the file `bytes`: for each name of its
/// directory the bytes stored under it, or `None` where they cannot be taken
/// out; `None` for the whole where the file is refused.
pub uninterp spec fn zip_entries(bytes: Seq<u8>) -> Option<Map<Seq<char>, Option<Seq<u8>>>>;

/// What an opened archive holds: for each name of its directory the bytes
/// stored under it, or `None` where they cannot be taken out.
pub uninterp spec fn archive_entries(archive: ZipArchive<Cursor<Vec<u8>>>) -> Map<
    Seq<char>,
    Option<Seq<u8>>,
>;

/// The bytes stored under `name`, where `entries` has that name and its bytes
/// can be taken out.
pub open spec fn stored(entries: Map<Seq<char>, Option<Seq<u8>>>, name: Seq<char>) -> Option<
    Seq<u8>,
> {
    if entries.dom().contains(name) {
        entries[name]
    } else {
        None
    }
}

/// Calls `zip::ZipArchive::new` on a cursor over `bytes`. The archive that
/// comes back holds what these bytes always give.
#[verifier::external_body]
pub(crate) fn open_archive(bytes: Vec<u8>) -> (opened: Result<ZipArchive<Cursor<Vec<u8>>>, ZipError>)
    ensures
        match opened {
            Ok(archive) => zip_entries(bytes@) == Some(archive_entries(archive)),
            Err(_) => zip_entries(bytes@) is None,
        },
{
    ZipArchive::new(Cursor::new(bytes))
}

/// Calls `zip::ZipArchive::file_names` and collects the names. They come in no
/// order that could be stated; together they are the names of the directory.
#[verifier::external_body]
pub(crate) fn entry_names(archive: &ZipArchive<Cursor<Vec<u8>>>) -> (names: Vec<String>)
    ensures
        name_set(names@) == archive_entries(*archive).dom(),
{
    archive.file_names().map(String::from).collect()
}

/// Calls `zip::ZipArchive::by_name_decrypt` with an empty password, which
/// unlike `by_name` reports an entry that asks for a password instead of
/// stopping the program, and reads the entry to its end. What the archive
/// holds is not changed by reading.
#[verifier::external_body]
pub(crate) fn read_entry(archive: &mut ZipArchive<Cursor<Vec<u8>>>, name: &str) -> (data: Option<
    Vec<u8>,
>)
    ensures
        archive_entries(*final(archive)) == archive_entries(*old(archive)),
        match data {
            Some(bytes) => stored(archive_entries(*old(archive)), name@) == Some(bytes@),
            None => stored(archive_entries(*old(archive)), name@) is None,
        },
{
    let mut file = archive.by_name_decrypt(name, b"").ok()?.ok()?;
    let mut bytes = Vec::new();
    file.read_to_end(&mut bytes).ok()?;
    Some(bytes)
}

} // verus!
