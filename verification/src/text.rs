//! Names as sequences of characters: the split of a file name at its last dot,
//! and look-up in a list of names.

use vstd::prelude::*;
use vstd::string::*;

verus! {

/// Index of the last `.` of `name`, or -1 where it has none.
pub open spec fn last_dot(name: Seq<char>) -> int
    decreases name.len(),
{
    if name.len() == 0 {
        -1
    } else if name.last() == '.' {
        name.len() - 1
    } else {
        last_dot(name.drop_last())
    }
}

/// Where a file name parts into stem and extension: at its last dot, unless
/// that dot leads the name or the name is `..`. -1 where it does not part.
pub open spec fn split_point(name: Seq<char>) -> int {
    let i = last_dot(name);
    if i > 0 && name != seq!['.', '.'] {
        i
    } else {
        -1
    }
}

/// The file name without its extension.
pub open spec fn stem_of(name: Seq<char>) -> Seq<char> {
    if split_point(name) >= 0 {
        name.take(split_point(name))
    } else {
        name
    }
}

/// What follows the dot at which the name parts, if it parts.
pub open spec fn extension_of(name: Seq<char>) -> Option<Seq<char>> {
    if split_point(name) >= 0 {
        Some(name.skip(split_point(name) + 1))
    } else {
        None
    }
}

/// The entries of a list of strings, each as its characters.
pub open spec fn texts(list: Seq<String>) -> Seq<Seq<char>> {
    Seq::new(list.len(), |i: int| list[i]@)
}

/// `last_dot` is the one index that holds a dot and has none behind it.
pub proof fn lemma_last_dot(name: Seq<char>)
    ensures
        -1 <= last_dot(name) < name.len(),
        last_dot(name) >= 0 ==> name[last_dot(name)] == '.',
        forall|j: int| last_dot(name) < j < name.len() ==> name[j] != '.',
    decreases name.len(),
{
    if name.len() > 0 && name.last() != '.' {
        lemma_last_dot(name.drop_last());
        assert forall|j: int| last_dot(name) < j < name.len() implies name[j] != '.' by {
            if j < name.len() - 1 {
                assert(name.drop_last()[j] == name[j]);
            }
        }
    }
}

/// The last dot of a name, by position.
pub fn find_last_dot(name: &str) -> (found: Option<usize>)
    ensures
        match found {
            Some(i) => i == last_dot(name@),
            None => last_dot(name@) == -1,
        },
{
    let n: usize = name.unicode_len();
    let mut found: Option<usize> = None;
    let mut i: usize = 0;
    while i < n
        invariant
            n == name@.len(),
            i <= n,
            match found {
                Some(k) => k == last_dot(name@.take(i as int)),
                None => last_dot(name@.take(i as int)) == -1,
            },
        decreases n - i,
    {
        proof {
            assert(name@.take(i + 1).drop_last() == name@.take(i as int));
        }
        if name.get_char(i) == '.' {
            found = Some(i);
        }
        i = i + 1;
    }
    proof {
        assert(name@.take(n as int) == name@);
    }
    found
}

/// The index at which a file name parts into stem and extension.
pub fn find_split_point(name: &str) -> (found: Option<usize>)
    ensures
        match found {
            Some(i) => i == split_point(name@) && 0 < i < name@.len(),
            None => split_point(name@) == -1,
        },
{
    proof {
        lemma_last_dot(name@);
    }
    match find_last_dot(name) {
        Some(i) => {
            if i == 0 {
                None
            } else if name.unicode_len() == 2 && name.get_char(0) == '.' {
                proof {
                    assert(name@ =~= seq!['.', '.']);
                }
                None
            } else {
                proof {
                    if name@ == seq!['.', '.'] {
                        assert(name@[0] == '.');
                    }
                }
                Some(i)
            }
        },
        None => None,
    }
}

/// The file name without its extension: `Foo` of `Foo.swift`, `.profile` of
/// `.profile`, `a.tar` of `a.tar.gz`.
pub fn file_stem(name: &str) -> (stem: String)
    ensures
        stem@ == stem_of(name@),
{
    match find_split_point(name) {
        Some(i) => name.substring_char(0, i).to_owned(),
        None => name.to_owned(),
    }
}

/// The extension of a file name, without the dot: `swift` of `Foo.swift`,
/// nothing of `Makefile` and of `.profile`.
pub fn extension(name: &str) -> (ext: Option<String>)
    ensures
        match ext {
            Some(e) => extension_of(name@) == Some(e@),
            None => extension_of(name@) is None,
        },
{
    match find_split_point(name) {
        Some(i) => {
            let n: usize = name.unicode_len();
            Some(name.substring_char(i + 1, n).to_owned())
        },
        None => None,
    }
}

/// Looks `name` up in `list`, by exact equality.
pub fn contains_name(list: &Vec<String>, name: &String) -> (found: bool)
    ensures
        found == texts(list@).contains(name@),
{
    let mut i: usize = 0;
    while i < list.len()
        invariant
            i <= list.len(),
            forall|j: int| 0 <= j < i ==> texts(list@)[j] != name@,
        decreases list.len() - i,
    {
        if list[i] == *name {
            proof {
                assert(texts(list@)[i as int] == name@);
            }
            return true;
        }
        i = i + 1;
    }
    false
}

} // verus!
