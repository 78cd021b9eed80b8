//! The pages of a book in reading order: every page once, each before all
//! that come after it by name.

use vstd::prelude::*;
use crate::cover::{first_page, is_first_page, lemma_first_page, lemma_first_page_unique, name_set};
use crate::order::{lemma_lt_asymmetric, lemma_lt_irreflexive, lemma_lt_transitive, name_le, name_lt, rank, Rank};
use crate::pages::{is_page, is_page_name};
use crate::paths::to_chars;

verus! {

/// Whether each name of `pages` comes strictly before all that follow it.
pub open spec fn is_ascending(pages: Seq<Seq<char>>) -> bool {
    forall|i: int, j: int| 0 <= i < j < pages.len() ==> name_lt(#[trigger] pages[i], #[trigger] pages[j])
}

/// Whether `pages` holds the pages among `names`, and nothing else, in reading
/// order.
pub open spec fn is_page_order(pages: Seq<Seq<char>>, names: Set<Seq<char>>) -> bool {
    &&& is_ascending(pages)
    &&& forall|name: Seq<char>| #[trigger]
        pages.contains(name) <==> names.contains(name) && is_page_name(name)
}

/// The pages among `names` in reading order.
pub open spec fn page_order(names: Set<Seq<char>>) -> Seq<Seq<char>> {
    choose|pages: Seq<Seq<char>>| is_page_order(pages, names)
}

/// The names that the strings of `names` spell, in their order.
pub open spec fn name_seq(names: Seq<String>) -> Seq<Seq<char>> {
    Seq::new(names.len(), |i: int| names[i]@)
}

/// The names that the character vectors of `keys` hold, in their order.
pub open spec fn key_seq(keys: Seq<Vec<char>>) -> Seq<Seq<char>> {
    Seq::new(keys.len(), |i: int| keys[i]@)
}

/// A set of names has one reading order only.
pub proof fn lemma_page_order_unique(p: Seq<Seq<char>>, q: Seq<Seq<char>>, names: Set<Seq<char>>)
    requires
        is_page_order(p, names),
        is_page_order(q, names),
    ensures
        p == q,
    decreases p.len(),
{
    if p.len() == 0 {
        if q.len() > 0 {
            assert(q.contains(q[0]));
            assert(p.contains(q[0]));
        }
        assert(p =~= q);
    } else {
        let last = p.last();
        assert(p.contains(last));
        assert(q.contains(last));
        let k = choose|k: int| 0 <= k < q.len() && q[k] == last;
        if k < q.len() - 1 {
            let later = q.last();
            assert(name_lt(q[k], later));
            assert(q.contains(later));
            assert(p.contains(later));
            let i = choose|i: int| 0 <= i < p.len() && p[i] == later;
            lemma_lt_irreflexive(last);
            if i < p.len() - 1 {
                assert(name_lt(p[i], last));
                lemma_lt_asymmetric(last, later);
            }
        }
        assert(q.last() == last);
        let rest = names.remove(last);
        lemma_drop_last_order(p, names);
        lemma_drop_last_order(q, names);
        lemma_page_order_unique(p.drop_last(), q.drop_last(), rest);
        assert(p =~= p.drop_last().push(last));
        assert(q =~= q.drop_last().push(last));
    }
}

/// Without its last page, a reading order is that of the names without that
/// page.
proof fn lemma_drop_last_order(p: Seq<Seq<char>>, names: Set<Seq<char>>)
    requires
        is_page_order(p, names),
        p.len() > 0,
    ensures
        is_page_order(p.drop_last(), names.remove(p.last())),
{
    let front = p.drop_last();
    let last = p.last();
    assert forall|i: int, j: int| 0 <= i < j < front.len() implies name_lt(
        #[trigger] front[i],
        #[trigger] front[j],
    ) by {
        assert(front[i] == p[i] && front[j] == p[j]);
    }
    assert forall|name: Seq<char>| #[trigger]
        front.contains(name) <==> names.remove(last).contains(name) && is_page_name(name) by {
        if front.contains(name) {
            let i = choose|i: int| 0 <= i < front.len() && front[i] == name;
            assert(p[i] == name);
            assert(p.contains(name));
            assert(name_lt(p[i], p[p.len() - 1]));
            lemma_lt_irreflexive(last);
        }
        if names.remove(last).contains(name) && is_page_name(name) {
            assert(p.contains(name));
            let i = choose|i: int| 0 <= i < p.len() && p[i] == name;
            assert(front[i] == name);
        }
    }
}

/// The reading order of a set is a reading order of it, whenever it has one.
pub proof fn lemma_page_order(pages: Seq<Seq<char>>, names: Set<Seq<char>>)
    requires
        is_page_order(pages, names),
    ensures
        page_order(names) == pages,
{
    lemma_page_order_unique(page_order(names), pages, names);
}

/// A name put between the names before it and the names after it leaves the
/// order ascending, and adds itself and nothing else.
proof fn lemma_insert_ascending(pages: Seq<Seq<char>>, at: int, name: Seq<char>)
    requires
        is_ascending(pages),
        0 <= at <= pages.len(),
        forall|j: int| 0 <= j < at ==> name_lt(#[trigger] pages[j], name),
        at < pages.len() ==> name_lt(name, pages[at]),
    ensures
        is_ascending(pages.insert(at, name)),
        forall|other: Seq<char>| #[trigger]
            pages.insert(at, name).contains(other) <==> pages.contains(other) || other == name,
{
    let grown = pages.insert(at, name);
    assert(grown.len() == pages.len() + 1);
    assert forall|i: int| 0 <= i < grown.len() implies #[trigger] grown[i] == (if i < at {
        pages[i]
    } else if i == at {
        name
    } else {
        pages[i - 1]
    }) by {}
    assert forall|i: int, j: int| 0 <= i < j < grown.len() implies name_lt(
        #[trigger] grown[i],
        #[trigger] grown[j],
    ) by {
        if j == at {
        } else if i == at {
            if j - 1 > at {
                assert(name_lt(pages[at], pages[j - 1]));
                lemma_lt_transitive(name, pages[at], pages[j - 1]);
            }
        } else if i < at && j > at {
            if i < j - 1 {
                assert(name_lt(pages[i], pages[j - 1]));
            }
        } else if i < at {
            assert(name_lt(pages[i], pages[j]));
        } else {
            assert(name_lt(pages[i - 1], pages[j - 1]));
        }
    }
    assert forall|other: Seq<char>| #[trigger]
        grown.contains(other) <==> pages.contains(other) || other == name by {
        if grown.contains(other) {
            let i = choose|i: int| 0 <= i < grown.len() && grown[i] == other;
            if i < at {
                assert(pages[i] == other);
            } else if i > at {
                assert(pages[i - 1] == other);
            }
        }
        if pages.contains(other) {
            let i = choose|i: int| 0 <= i < pages.len() && pages[i] == other;
            if i < at {
                assert(grown[i] == other);
            } else {
                assert(grown[i + 1] == other);
            }
        }
        if other == name {
            assert(grown[at] == other);
        }
    }
}

/// Where `key` stands among the ascending `keys`: the number of keys before
/// it, and whether the key at that position is `key` itself.
fn find_slot(keys: &Vec<Vec<char>>, key: &Vec<char>) -> (slot: (usize, bool))
    ensures
        slot.0 <= keys.len(),
        forall|j: int| 0 <= j < slot.0 ==> name_lt(#[trigger] keys[j]@, key@),
        slot.1 ==> slot.0 < keys.len() && keys[slot.0 as int]@ == key@,
        !slot.1 && slot.0 < keys.len() ==> name_lt(key@, keys[slot.0 as int]@),
{
    let mut at: usize = 0;
    while at < keys.len()
        invariant
            at <= keys.len(),
            forall|j: int| 0 <= j < at ==> name_lt(#[trigger] keys[j]@, key@),
        decreases keys.len() - at,
    {
        match rank(&keys[at], key) {
            Rank::Before => {
                at = at + 1;
            },
            Rank::Same => {
                return (at, true);
            },
            Rank::After => {
                return (at, false);
            },
        }
    }
    (at, false)
}

/// The pages among `names` in reading order. A name that occurs more than once
/// is listed once.
pub fn sort_pages(names: &Vec<String>) -> (pages: Vec<String>)
    ensures
        is_page_order(name_seq(pages@), name_set(names@)),
        name_seq(pages@) == page_order(name_set(names@)),
{
    let mut pages: Vec<String> = Vec::new();
    let mut keys: Vec<Vec<char>> = Vec::new();
    let mut i: usize = 0;
    while i < names.len()
        invariant
            i <= names.len(),
            name_seq(pages@) == key_seq(keys@),
            is_ascending(key_seq(keys@)),
            forall|name: Seq<char>| #[trigger]
                key_seq(keys@).contains(name) <==> is_page_name(name) && exists|j: int|
                    0 <= j < i && #[trigger] names[j]@ == name,
        decreases names.len() - i,
    {
        let key = to_chars(names[i].as_str());
        let ghost before = key_seq(keys@);
        let ghost added = names[i as int]@;
        let mut grown = false;
        if is_page(&key) {
            let (at, present) = find_slot(&keys, &key);
            if present {
                proof {
                    assert(before[at as int] == added);
                    assert(before.contains(added));
                }
            } else {
                proof {
                    assert forall|j: int| 0 <= j < at implies name_lt(
                        #[trigger] before[j],
                        added,
                    ) by {
                        assert(before[j] == keys[j]@);
                    }
                    lemma_insert_ascending(before, at as int, added);
                }
                keys.insert(at, key);
                pages.insert(at, names[i].clone());
                proof {
                    assert(key_seq(keys@) =~= before.insert(at as int, added));
                    assert(name_seq(pages@) =~= before.insert(at as int, added));
                }
                grown = true;
            }
        }
        proof {
            let after = key_seq(keys@);
            assert forall|name: Seq<char>| #[trigger]
                after.contains(name) <==> is_page_name(name) && exists|j: int|
                    0 <= j < i + 1 && #[trigger] names[j]@ == name by {
                if after.contains(name) {
                    if before.contains(name) {
                        let j = choose|j: int| 0 <= j < i && #[trigger] names[j]@ == name;
                        assert(0 <= j < i + 1 && names[j]@ == name);
                    } else {
                        assert(grown && name == added);
                        assert(names[i as int]@ == name);
                    }
                }
                if is_page_name(name) && exists|j: int|
                    0 <= j < i + 1 && #[trigger] names[j]@ == name {
                    let j = choose|j: int| 0 <= j < i + 1 && #[trigger] names[j]@ == name;
                    if j < i {
                        assert(before.contains(name));
                    } else {
                        assert(name == added);
                    }
                }
            }
        }
        i = i + 1;
    }
    proof {
        lemma_page_order(name_seq(pages@), name_set(names@));
    }
    pages
}

/// The cover is the first page in reading order, and there is no cover
/// exactly where there is no page.
pub proof fn lemma_cover_leads_the_order(pages: Seq<Seq<char>>, names: Set<Seq<char>>)
    requires
        is_page_order(pages, names),
    ensures
        first_page(names) == (if pages.len() > 0 {
            Some(pages[0])
        } else {
            None
        }),
{
    if pages.len() > 0 {
        let head = pages[0];
        assert(pages.contains(head));
        assert forall|other: Seq<char>| #[trigger]
            names.contains(other) && is_page_name(other) implies name_le(head, other) by {
            assert(pages.contains(other));
            let i = choose|i: int| 0 <= i < pages.len() && pages[i] == other;
            if i > 0 {
                assert(name_lt(pages[0], pages[i]));
            }
        }
        assert(is_first_page(head, names));
        lemma_first_page(names);
        lemma_first_page_unique(head, first_page(names).unwrap(), names);
    } else {
        assert forall|name: Seq<char>| !is_first_page(name, names) by {
            if names.contains(name) && is_page_name(name) {
                assert(pages.contains(name));
            }
        }
    }
}

} // verus!
