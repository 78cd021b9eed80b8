//! The cover of a book: the page whose name comes first.

use vstd::prelude::*;
use crate::order::{
    lemma_lt_asymmetric, lemma_lt_connected, lemma_lt_transitive, name_le, name_lt, rank, Rank,
};
use crate::pages::{is_page, is_page_name};
use crate::paths::to_chars;

verus! {

/// Whether `name` is a page among `names` that no other page comes before.
pub open spec fn is_first_page(name: Seq<char>, names: Set<Seq<char>>) -> bool {
    &&& names.contains(name)
    &&& is_page_name(name)
    &&& forall|other: Seq<char>| #[trigger]
        names.contains(other) && is_page_name(other) ==> name_le(name, other)
}

/// The page among `names` that comes first, or `None` where none of them is a
/// page.
pub open spec fn first_page(names: Set<Seq<char>>) -> Option<Seq<char>> {
    if exists|name: Seq<char>| is_first_page(name, names) {
        Some(choose|name: Seq<char>| is_first_page(name, names))
    } else {
        None
    }
}

/// A set of names has at most one first page.
pub proof fn lemma_first_page_unique(a: Seq<char>, b: Seq<char>, names: Set<Seq<char>>)
    requires
        is_first_page(a, names),
        is_first_page(b, names),
    ensures
        a == b,
{
    assert(name_le(a, b));
    assert(name_le(b, a));
    if a != b {
        lemma_lt_asymmetric(a, b);
    }
}

/// The first page of a set is the one name that `is_first_page` holds of, and
/// there is none exactly where the set has no page.
pub proof fn lemma_first_page(names: Set<Seq<char>>)
    ensures
        match first_page(names) {
            Some(name) => is_first_page(name, names),
            None => forall|name: Seq<char>| #[trigger]
                names.contains(name) ==> !is_first_page(name, names),
        },
{
}

/// Among finitely many names there is no first page exactly where none of
/// them is a page.
pub proof fn lemma_first_page_among(names: Seq<String>)
    ensures
        first_page(name_set(names)) is None <==> forall|name: Seq<char>| #[trigger]
            name_set(names).contains(name) ==> !is_page_name(name),
    decreases names.len(),
{
    let set = name_set(names);
    if forall|name: Seq<char>| #[trigger] set.contains(name) ==> !is_page_name(name) {
        assert forall|name: Seq<char>| !is_first_page(name, set) by {}
    } else {
        let page = choose|name: Seq<char>| #[trigger] set.contains(name) && is_page_name(name);
        let least = lemma_least_page(names, names.len() as int, page);
        assert(is_first_page(least, set)) by {
            assert forall|other: Seq<char>| #[trigger]
                set.contains(other) && is_page_name(other) implies name_le(least, other) by {
                let j = choose|j: int| 0 <= j < names.len() && #[trigger] names[j]@ == other;
            }
        }
    }
}

/// Among the first `count` of `names`, if `page` is one of them and a page,
/// there is a page that none of them comes before.
proof fn lemma_least_page(names: Seq<String>, count: int, page: Seq<char>) -> (least: Seq<char>)
    requires
        0 <= count <= names.len(),
        is_page_name(page),
        exists|i: int| 0 <= i < names.len() && #[trigger] names[i]@ == page,
    ensures
        is_page_name(least),
        exists|i: int| 0 <= i < names.len() && #[trigger] names[i]@ == least,
        forall|j: int|
            0 <= j < count && is_page_name(#[trigger] names[j]@) ==> name_le(least, names[j]@),
    decreases count,
{
    if count == 0 {
        page
    } else {
        let before = lemma_least_page(names, count - 1, page);
        let last = names[count - 1]@;
        if is_page_name(last) && name_lt(last, before) {
            assert forall|j: int| 0 <= j < count && is_page_name(#[trigger] names[j]@) implies name_le(
                last,
                names[j]@,
            ) by {
                if j < count - 1 && before != names[j]@ {
                    lemma_lt_transitive(last, before, names[j]@);
                }
            }
            last
        } else {
            if is_page_name(last) {
                lemma_lt_connected(before, last);
            }
            before
        }
    }
}

/// The names that the strings of `names` spell, as a set.
pub open spec fn name_set(names: Seq<String>) -> Set<Seq<char>> {
    Set::new(|name: Seq<char>| exists|i: int| 0 <= i < names.len() && #[trigger] names[i]@ == name)
}

/// The position in `names` of the page that comes first, or `None` where none
/// of the names is a page. Of equal names the earliest position is given.
pub fn select_cover(names: &Vec<String>) -> (cover: Option<usize>)
    ensures
        match cover {
            Some(at) => at < names.len() && first_page(name_set(names@)) == Some(names[at as int]@)
                && forall|j: int| 0 <= j < at ==> (#[trigger] names[j])@ != names[at as int]@,
            None => first_page(name_set(names@)) is None && forall|i: int|
                0 <= i < names.len() ==> !is_page_name(#[trigger] names[i]@),
        },
{
    let mut found = false;
    let mut best_at: usize = 0;
    let mut best: Vec<char> = Vec::new();
    let mut i: usize = 0;
    while i < names.len()
        invariant
            i <= names.len(),
            !found ==> forall|j: int| 0 <= j < i ==> !is_page_name(#[trigger] names[j]@),
            found ==> best_at < i && best@ == names[best_at as int]@ && is_page_name(best@),
            found ==> forall|j: int| 0 <= j < best_at ==> (#[trigger] names[j])@ != best@,
            found ==> forall|j: int|
                0 <= j < i && is_page_name(#[trigger] names[j]@) ==> name_le(best@, names[j]@),
        decreases names.len() - i,
    {
        let key = to_chars(names[i].as_str());
        if is_page(&key) {
            let first = !found || rank(&key, &best) == Rank::Before;
            if first {
                proof {
                    if found {
                        assert forall|j: int|
                            0 <= j < i && is_page_name(#[trigger] names[j]@) implies name_le(
                            key@,
                            names[j]@,
                        ) by {
                            if best@ != names[j]@ {
                                lemma_lt_transitive(key@, best@, names[j]@);
                            }
                        }
                        assert forall|j: int| 0 <= j < i implies (#[trigger] names[j])@ != key@ by {
                            if names[j]@ == key@ {
                                assert(name_le(best@, names[j]@));
                                lemma_lt_asymmetric(key@, best@);
                            }
                        }
                    }
                }
                found = true;
                best_at = i;
                best = key;
            }
        }
        i = i + 1;
    }
    let ghost set = name_set(names@);
    if found {
        proof {
            assert(set.contains(best@));
            assert(is_first_page(best@, set));
            lemma_first_page(set);
            lemma_first_page_unique(best@, first_page(set).unwrap(), set);
        }
        Some(best_at)
    } else {
        proof {
            assert forall|name: Seq<char>| !is_first_page(name, set) by {
                if set.contains(name) {
                    let j = choose|j: int| 0 <= j < names.len() && #[trigger] names[j]@ == name;
                    assert(!is_page_name(names[j]@));
                }
            }
        }
        None
    }
}

} // verus!
