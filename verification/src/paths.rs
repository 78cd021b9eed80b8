//! File names as sequences of characters: the last component of a path, its
//! stem and its extension.
//!
//! A path is split at `/`. The name of the file that a path leads to is its
//! last component; separators at the end and components of a single period
//! do not count, and a path that ends in `..`, or has no component at all,
//! leads to no file by name.

use vstd::prelude::*;
use vstd::string::StrSliceExecFns;

verus! {

/// Whether `c` separates the components of a path.
pub open spec fn is_separator(c: char) -> bool {
    c == '/'
}

/// The position just behind the last separator of `path`, or 0 where it has none.
pub open spec fn base_start(path: Seq<char>) -> int
    decreases path.len(),
{
    if path.len() == 0 {
        0
    } else if is_separator(path.last()) {
        path.len() as int
    } else {
        base_start(path.drop_last())
    }
}

/// The last component of `path`: what follows its last separator.
pub open spec fn base_name(path: Seq<char>) -> Seq<char> {
    path.skip(base_start(path))
}

/// The position of the last period of `name`, or -1 where it has none.
pub open spec fn last_dot(name: Seq<char>) -> int
    decreases name.len(),
{
    if name.len() == 0 {
        -1
    } else if name.last() == '.' {
        name.len() - 1
    } else {
        last_dot(name.drop_last())
    }
}

/// What follows the last period of `name`; empty where it has no period.
pub open spec fn extension(name: Seq<char>) -> Seq<char> {
    if last_dot(name) < 0 {
        Seq::empty()
    } else {
        name.skip(last_dot(name) + 1)
    }
}

/// The name of the file that `path` leads to: its last component, where
/// separators at the end of the path and components of a single period behind
/// another component are passed over. It is empty where the path leads to no
/// file by name: where it is empty, is a single period, or ends in `..`.
pub open spec fn file_name(path: Seq<char>) -> Seq<char>
    decreases path.len(),
{
    if path.len() == 0 {
        Seq::empty()
    } else if is_separator(path.last()) {
        file_name(path.drop_last())
    } else if base_name(path) == seq!['.'] {
        if 0 < base_start(path) < path.len() {
            file_name(path.take(base_start(path)))
        } else {
            Seq::empty()
        }
    } else if base_name(path) == seq!['.', '.'] {
        Seq::empty()
    } else {
        base_name(path)
    }
}

/// `name` without its extension. A name that has no period, or whose only
/// period is its first character, is its own stem.
pub open spec fn stem(name: Seq<char>) -> Seq<char> {
    if last_dot(name) <= 0 {
        name
    } else {
        name.take(last_dot(name))
    }
}

/// The name of the file that `path` leads to, without its extension; empty
/// where the path leads to no file by name.
pub open spec fn file_stem(path: Seq<char>) -> Seq<char> {
    stem(file_name(path))
}

/// A path whose last component is `..` leads to no file by name, and neither
/// does the empty path: their stem is empty.
pub proof fn lemma_no_file_no_stem(path: Seq<char>)
    requires
        path.len() == 0 || base_name(path) == seq!['.', '.'],
    ensures
        file_name(path) == Seq::<char>::empty(),
        file_stem(path) == Seq::<char>::empty(),
{
    if path.len() > 0 {
        lemma_base_start(path);
        let base = base_name(path);
        assert(base.len() == 2);
        assert(base.last() == path.last());
        assert(base[0] == '.' && base[1] == '.');
        assert(base != seq!['.']) by {
            assert(seq!['.'].len() == 1);
        }
    }
}

/// `base_start` is the one position that has a separator right before it, or is
/// 0, and no separator from it on.
pub proof fn lemma_base_start(path: Seq<char>)
    ensures
        0 <= base_start(path) <= path.len(),
        base_start(path) > 0 ==> is_separator(path[base_start(path) - 1]),
        forall|i: int| base_start(path) <= i < path.len() ==> !is_separator(#[trigger] path[i]),
    decreases path.len(),
{
    if path.len() > 0 && !is_separator(path.last()) {
        let front = path.drop_last();
        lemma_base_start(front);
        assert forall|i: int| base_start(path) <= i < path.len() implies !is_separator(
            #[trigger] path[i],
        ) by {
            if i < front.len() {
                assert(path[i] == front[i]);
            }
        }
    }
}

/// `last_dot` is the position of a period that no period follows, or -1 where
/// `name` has no period at all.
pub proof fn lemma_last_dot(name: Seq<char>)
    ensures
        -1 <= last_dot(name) < name.len(),
        last_dot(name) >= 0 ==> name[last_dot(name)] == '.',
        forall|i: int| last_dot(name) < i < name.len() ==> #[trigger] name[i] != '.',
    decreases name.len(),
{
    if name.len() > 0 && name.last() != '.' {
        let front = name.drop_last();
        lemma_last_dot(front);
        assert forall|i: int| last_dot(name) < i < name.len() implies #[trigger] name[i]
            != '.' by {
            if i < front.len() {
                assert(name[i] == front[i]);
            }
        }
    }
}

/// The last component of a path holds no separator, so it is its own last
/// component.
pub proof fn lemma_base_name_is_a_base(path: Seq<char>)
    ensures
        base_start(base_name(path)) == 0,
        base_name(base_name(path)) == base_name(path),
{
    lemma_base_start(path);
    lemma_no_separator_base(base_name(path));
}

/// A name without separators is a single component.
pub proof fn lemma_no_separator_base(name: Seq<char>)
    requires
        forall|i: int| 0 <= i < name.len() ==> !is_separator(#[trigger] name[i]),
    ensures
        base_start(name) == 0,
        base_name(name) == name,
    decreases name.len(),
{
    if name.len() > 0 {
        lemma_no_separator_base(name.drop_last());
    }
}

/// Whether `c` separates the components of a path.
pub fn separates(c: char) -> (yes: bool)
    ensures
        yes == is_separator(c),
{
    c == '/'
}

/// The position in `path` at which its last component starts.
pub fn find_base_start(path: &Vec<char>) -> (start: usize)
    ensures
        start == base_start(path@),
        start <= path.len(),
{
    proof {
        assert(path@.take(path.len() as int) == path@);
    }
    find_base_start_before(path, path.len())
}

/// The position at which the last component of the first `end` characters of
/// `path` starts.
pub fn find_base_start_before(path: &Vec<char>, end: usize) -> (start: usize)
    requires
        end <= path.len(),
    ensures
        start == base_start(path@.take(end as int)),
        start <= end,
{
    let ghost front = path@.take(end as int);
    let mut start: usize = end;
    proof {
        assert(front.take(start as int) == front);
    }
    while start > 0 && !separates(path[start - 1])
        invariant
            start <= end <= path.len(),
            front == path@.take(end as int),
            base_start(front) == base_start(front.take(start as int)),
        decreases start,
    {
        proof {
            assert(front.take(start as int).drop_last() == front.take(start - 1));
        }
        start = start - 1;
    }
    start
}

/// Where in `path` the name of the file that it leads to stands: from the
/// first position up to the second. Both are 0 where it leads to no file by
/// name.
pub fn find_file_name(path: &Vec<char>) -> (bounds: (usize, usize))
    ensures
        bounds.0 <= bounds.1 <= path.len(),
        path@.subrange(bounds.0 as int, bounds.1 as int) == file_name(path@),
{
    let mut end: usize = path.len();
    proof {
        assert(path@.take(end as int) == path@);
    }
    while end > 0
        invariant
            end <= path.len(),
            file_name(path@) == file_name(path@.take(end as int)),
        decreases end,
    {
        let ghost front = path@.take(end as int);
        if separates(path[end - 1]) {
            proof {
                assert(front.drop_last() == path@.take(end - 1));
            }
            end = end - 1;
        } else {
            let start = find_base_start_before(path, end);
            proof {
                lemma_base_start(front);
                assert(base_name(front) =~= path@.subrange(start as int, end as int));
                assert(front.take(start as int) =~= path@.take(start as int));
            }
            let single = end - start == 1 && path[start] == '.';
            let double = end - start == 2 && path[start] == '.' && path[start + 1] == '.';
            proof {
                let base = base_name(front);
                assert(single == (base == seq!['.'])) by {
                    if single {
                        assert(base =~= seq!['.']);
                    } else if base == seq!['.'] {
                        assert(base.len() == 1 && base[0] == '.');
                    }
                }
                assert(double == (base == seq!['.', '.'])) by {
                    if double {
                        assert(base =~= seq!['.', '.']);
                    } else if base == seq!['.', '.'] {
                        assert(base.len() == 2 && base[0] == '.' && base[1] == '.');
                    }
                }
            }
            if single {
                if start == 0 {
                    proof {
                        assert(path@.subrange(0, 0) =~= Seq::<char>::empty());
                    }
                    return (0, 0);
                }
                end = start;
            } else if double {
                proof {
                    assert(path@.subrange(0, 0) =~= Seq::<char>::empty());
                }
                return (0, 0);
            } else {
                return (start, end);
            }
        }
    }
    proof {
        assert(path@.subrange(0, 0) =~= Seq::<char>::empty());
        assert(path@.take(0) =~= Seq::<char>::empty());
    }
    (0, 0)
}

/// The position of the last period of `name` from `from` on, or `None` where
/// there is none.
pub fn find_last_dot(name: &Vec<char>, from: usize) -> (dot: Option<usize>)
    requires
        from <= name.len(),
    ensures
        match dot {
            Some(at) => from <= at < name.len() && last_dot(name@.skip(from as int)) == at - from,
            None => last_dot(name@.skip(from as int)) == -1,
        },
{
    let ghost tail = name@.skip(from as int);
    let mut end: usize = name.len();
    proof {
        assert(tail.take(end - from) == tail);
    }
    while end > from && name[end - 1] != '.'
        invariant
            from <= end <= name.len(),
            tail == name@.skip(from as int),
            last_dot(tail) == last_dot(tail.take(end - from)),
        decreases end,
    {
        proof {
            assert(tail.take(end - from).drop_last() == tail.take(end - from - 1));
        }
        end = end - 1;
    }
    if end > from {
        Some(end - 1)
    } else {
        None
    }
}


/// The characters of `text`, in order.
pub fn to_chars(text: &str) -> (chars: Vec<char>)
    ensures
        chars@ == text@,
{
    let mut chars: Vec<char> = Vec::new();
    for c in it: text.chars()
        invariant
            chars@ == it.seq().take(it.index() as int),
    {
        chars.push(c);
    }
    chars
}


/// The name of the file that `path` leads to, without its extension; empty
/// where the path leads to no file by name.
pub fn stem_of(path: &str) -> (stem: &str)
    ensures
        stem@ == file_stem(path@),
{
    let chars = to_chars(path);
    let (start, end) = find_file_name(&chars);
    let mut name: Vec<char> = Vec::new();
    let mut i: usize = start;
    while i < end
        invariant
            start <= i <= end <= chars.len(),
            name@ == chars@.subrange(start as int, i as int),
        decreases end - i,
    {
        name.push(chars[i]);
        proof {
            assert(name@ =~= chars@.subrange(start as int, i + 1));
        }
        i = i + 1;
    }
    let stop = match find_last_dot(&name, 0) {
        Some(dot) => if dot > 0 {
            start + dot
        } else {
            end
        },
        None => end,
    };
    proof {
        assert(name@.skip(0) =~= name@);
        assert(name@ == file_name(path@));
        if last_dot(name@) > 0 {
            assert(name@.take(last_dot(name@)) =~= path@.subrange(start as int, stop as int));
        } else {
            assert(name@ =~= path@.subrange(start as int, stop as int));
        }
    }
    path.substring_char(start, stop)
}

} // verus!
