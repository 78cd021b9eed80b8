//! Which entries of an archive are pages.
//!
//! An entry is a page when the last component of its name is not hidden (does
//! not begin with a period) and its extension is `png`, `jpg` or `jpeg`, in
//! upper or lower case.

use vstd::prelude::*;
use crate::paths::{base_name, extension, find_base_start, find_last_dot, to_chars};

verus! {

/// `c` in lower case, where it is one of the letters `A` to `Z`; else `c`.
pub open spec fn ascii_lower(c: char) -> char {
    if 'A' <= c && c <= 'Z' {
        ((c as u32) + 32) as char
    } else {
        c
    }
}

/// Whether the last component `base` of a name marks a hidden file.
pub open spec fn is_hidden(base: Seq<char>) -> bool {
    base.len() > 0 && base[0] == '.'
}

/// Whether `ext` is `word`, letter for letter, whatever the case of its letters.
pub open spec fn spells(ext: Seq<char>, word: Seq<char>) -> bool {
    ext.len() == word.len() && forall|i: int|
        0 <= i < ext.len() ==> ascii_lower(#[trigger] ext[i]) == word[i]
}

/// Whether `ext` is the extension of an image that can be shown as a page.
pub open spec fn is_image_extension(ext: Seq<char>) -> bool {
    spells(ext, seq!['p', 'n', 'g']) || spells(ext, seq!['j', 'p', 'g']) || spells(
        ext,
        seq!['j', 'p', 'e', 'g'],
    )
}

/// Whether the entry called `name` is a page.
pub open spec fn is_page_name(name: Seq<char>) -> bool {
    !is_hidden(base_name(name)) && is_image_extension(extension(base_name(name)))
}

/// `c` in lower case, where it is one of the letters `A` to `Z`; else `c`.
pub fn lower(c: char) -> (low: char)
    ensures
        low == ascii_lower(c),
{
    if 'A' <= c && c <= 'Z' {
        let code: u8 = c as u8;
        (code + 32) as char
    } else {
        c
    }
}

/// Whether what follows position `from` in `name` is `word`, whatever the case
/// of its letters.
fn spells_from<const N: usize>(name: &Vec<char>, from: usize, word: &[char; N]) -> (yes: bool)
    requires
        from <= name.len(),
    ensures
        yes == spells(name@.skip(from as int), word@),
{
    if name.len() - from != N {
        return false;
    }
    let mut i: usize = 0;
    while i < N
        invariant
            i <= N,
            from + N == name.len(),
            forall|j: int| 0 <= j < i ==> ascii_lower(#[trigger] name@.skip(from as int)[j]) == word@[j],
        decreases N - i,
    {
        if lower(name[from + i]) != word[i] {
            proof {
                assert(name@.skip(from as int)[i as int] == name@[from + i]);
            }
            return false;
        }
        proof {
            assert(name@.skip(from as int)[i as int] == name@[from + i]);
        }
        i = i + 1;
    }
    true
}

/// Whether the entry whose name has the characters `name` is a page.
pub fn is_page(name: &Vec<char>) -> (yes: bool)
    ensures
        yes == is_page_name(name@),
{
    let start = find_base_start(name);
    let ghost base = base_name(name@);
    if start < name.len() && name[start] == '.' {
        return false;
    }
    match find_last_dot(name, start) {
        None => {
            false
        },
        Some(dot) => {
            proof {
                assert(extension(base) == name@.skip(dot + 1));
            }
            let png = ['p', 'n', 'g'];
            let jpg = ['j', 'p', 'g'];
            let jpeg = ['j', 'p', 'e', 'g'];
            proof {
                assert(png@ == seq!['p', 'n', 'g']);
                assert(jpg@ == seq!['j', 'p', 'g']);
                assert(jpeg@ == seq!['j', 'p', 'e', 'g']);
            }
            spells_from(name, dot + 1, &png) || spells_from(name, dot + 1, &jpg) || spells_from(
                name,
                dot + 1,
                &jpeg,
            )
        },
    }
}

/// Whether the archive entry called `filename` is a page: an image whose file
/// is not hidden.
pub fn supported_images_filter(filename: &&str) -> (supported: bool)
    ensures
        supported == is_page_name(filename@),
{
    let name = to_chars(*filename);
    is_page(&name)
}

} // verus!
