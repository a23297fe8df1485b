//! Paths as lists of names.
//!
//! A path is a flag that says whether it starts at the root, and the names
//! that lead from there (or from the working directory) to its target. Text
//! becomes a path by a split at every `/`.

use vstd::prelude::*;
use vstd::string::*;
use crate::text::texts;

verus! {

/// A path: rooted or not, and the names along it.
#[derive(Debug)]
pub struct TreePath {
    /// True for a path that starts at the root.
    pub absolute: bool,
    /// The names along the path, outermost first.
    pub parts: Vec<String>,
}

/// What a `TreePath` stands for.
pub ghost struct PathModel {
    pub absolute: bool,
    pub parts: Seq<Seq<char>>,
}

impl View for TreePath {
    type V = PathModel;

    open spec fn view(&self) -> PathModel {
        PathModel { absolute: self.absolute, parts: texts(self.parts@) }
    }
}

impl PathModel {
    /// The path one name further down.
    pub open spec fn child(self, name: Seq<char>) -> PathModel {
        PathModel { absolute: self.absolute, parts: self.parts.push(name) }
    }

    /// `other` seen from `self`: a rooted `other` stands for itself, any other
    /// one continues `self`.
    pub open spec fn join(self, other: PathModel) -> PathModel {
        if other.absolute {
            other
        } else {
            PathModel { absolute: self.absolute, parts: self.parts + other.parts }
        }
    }

    /// The path without its last name; none for a path without names.
    pub open spec fn parent(self) -> Option<PathModel> {
        if self.parts.len() == 0 {
            None
        } else {
            Some(PathModel { absolute: self.absolute, parts: self.parts.drop_last() })
        }
    }

    /// The last name, unless there is none or it is `..`.
    pub open spec fn file_name(self) -> Option<Seq<char>> {
        if self.parts.len() == 0 || self.parts.last() == seq!['.', '.'] {
            None
        } else {
            Some(self.parts.last())
        }
    }

    /// True where `self` is `base` or lies below it: both start at the same
    /// place and the names of `base` lead the names of `self`.
    pub open spec fn is_under(self, base: PathModel) -> bool {
        self.absolute == base.absolute && base.parts.is_prefix_of(self.parts)
    }

    /// The names that lead from `base` to `self`, for a `self` under `base`.
    pub open spec fn below(self, base: PathModel) -> Seq<Seq<char>> {
        self.parts.skip(base.parts.len() as int)
    }
}

/// A segment of path text that names nothing: an empty one, or a lone dot.
pub open spec fn skipped_segment(seg: Seq<char>) -> bool {
    seg.len() == 0 || seg == seq!['.']
}

/// `parts` with `seg` behind them, where `seg` names something.
pub open spec fn with_segment(parts: Seq<Seq<char>>, seg: Seq<char>) -> Seq<Seq<char>> {
    if skipped_segment(seg) {
        parts
    } else {
        parts.push(seg)
    }
}

/// The names that the segments of `text` closed by a `/` give, and the segment
/// that is still open at its end.
pub open spec fn scan(text: Seq<char>) -> (Seq<Seq<char>>, Seq<char>)
    decreases text.len(),
{
    if text.len() == 0 {
        (Seq::empty(), Seq::empty())
    } else {
        let (closed, open) = scan(text.drop_last());
        if text.last() == '/' {
            (with_segment(closed, open), Seq::empty())
        } else {
            (closed, open.push(text.last()))
        }
    }
}

/// The names in `text`: its segments between `/`, without the empty ones and
/// the lone dots.
pub open spec fn parts_of(text: Seq<char>) -> Seq<Seq<char>> {
    with_segment(scan(text).0, scan(text).1)
}

/// The path that `text` writes down.
pub open spec fn path_of(text: Seq<char>) -> PathModel {
    PathModel { absolute: text.len() > 0 && text[0] == '/', parts: parts_of(text) }
}

/// Pushing a string onto a list pushes its characters onto the list's texts.
pub proof fn lemma_texts_push(list: Seq<String>, s: String)
    ensures
        texts(list.push(s)) == texts(list).push(s@),
{
    assert(texts(list.push(s)) =~= texts(list).push(s@));
}

impl Clone for TreePath {
    fn clone(&self) -> (copy: Self)
        ensures
            copy@ == self@,
    {
        let mut parts: Vec<String> = Vec::new();
        let mut i: usize = 0;
        while i < self.parts.len()
            invariant
                i <= self.parts.len(),
                texts(parts@) == texts(self.parts@.take(i as int)),
            decreases self.parts.len() - i,
        {
            proof {
                lemma_texts_push(parts@, self.parts@[i as int]);
                assert(self.parts@.take(i + 1) == self.parts@.take(i as int).push(
                    self.parts@[i as int],
                ));
                lemma_texts_push(self.parts@.take(i as int), self.parts@[i as int]);
            }
            parts.push(self.parts[i].clone());
            i = i + 1;
        }
        proof {
            assert(self.parts@.take(i as int) == self.parts@);
        }
        TreePath { absolute: self.absolute, parts }
    }
}

impl PartialEq for TreePath {
    fn eq(&self, other: &Self) -> (same: bool) {
        let same = self.parts.len() == other.parts.len() && self.is_under(other);
        proof {
            if same {
                assert(self@.parts =~= other@.parts);
            } else if self@ == other@ {
                assert(self@.parts.len() == self.parts.len());
                assert(other@.parts.len() == other.parts.len());
                assert(other@.parts.is_prefix_of(self@.parts));
            }
        }
        same
    }
}

impl vstd::std_specs::cmp::PartialEqSpecImpl for TreePath {
    open spec fn obeys_eq_spec() -> bool {
        true
    }

    open spec fn eq_spec(&self, other: &Self) -> bool {
        self@ == other@
    }
}

impl TreePath {
    /// Reads a path from text: rooted where the text starts with `/`, with one
    /// name for each segment between `/` that is neither empty nor a lone dot.
    pub fn parse(text: &str) -> (path: TreePath)
        ensures
            path@ == path_of(text@),
    {
        let n: usize = text.unicode_len();
        let mut parts: Vec<String> = Vec::new();
        let mut start: usize = 0;
        let mut i: usize = 0;
        while i < n
            invariant
                n == text@.len(),
                start <= i <= n,
                scan(text@.take(i as int)) == (texts(parts@), text@.subrange(start as int, i as int)),
            decreases n - i,
        {
            proof {
                assert(text@.take(i + 1).drop_last() == text@.take(i as int));
                assert(text@.subrange(start as int, i + 1) == text@.subrange(
                    start as int,
                    i as int,
                ).push(text@[i as int]));
            }
            if text.get_char(i) == '/' {
                let seg = text.substring_char(start, i);
                if !Self::names_nothing(seg) {
                    let owned = seg.to_owned();
                    proof {
                        lemma_texts_push(parts@, owned);
                    }
                    parts.push(owned);
                }
                start = i + 1;
                proof {
                    assert(text@.subrange(start as int, i + 1) == Seq::<char>::empty());
                }
            }
            i = i + 1;
        }
        proof {
            assert(text@.take(n as int) == text@);
        }
        let seg = text.substring_char(start, n);
        if !Self::names_nothing(seg) {
            let owned = seg.to_owned();
            proof {
                lemma_texts_push(parts@, owned);
            }
            parts.push(owned);
        }
        let absolute = n > 0 && text.get_char(0) == '/';
        TreePath { absolute, parts }
    }

    /// True for a segment that is empty or a lone dot.
    fn names_nothing(seg: &str) -> (skipped: bool)
        ensures
            skipped == skipped_segment(seg@),
    {
        let n: usize = seg.unicode_len();
        if n == 0 {
            true
        } else if n == 1 && seg.get_char(0) == '.' {
            proof {
                assert(seg@ =~= seq!['.']);
            }
            true
        } else {
            proof {
                if seg@ == seq!['.'] {
                    assert(seg@[0] == '.');
                }
            }
            false
        }
    }

    /// The path one name further down.
    pub fn child(&self, name: &str) -> (path: TreePath)
        ensures
            path@ == self@.child(name@),
    {
        let mut path = self.clone();
        let owned = name.to_owned();
        proof {
            lemma_texts_push(path.parts@, owned);
        }
        path.parts.push(owned);
        path
    }

    /// `other` seen from `self`: a rooted `other` as it is, any other one
    /// behind the names of `self`.
    pub fn join(&self, other: &TreePath) -> (path: TreePath)
        ensures
            path@ == self@.join(other@),
    {
        if other.absolute {
            return other.clone();
        }
        let mut path = self.clone();
        let mut i: usize = 0;
        while i < other.parts.len()
            invariant
                i <= other.parts.len(),
                path.absolute == self.absolute,
                texts(path.parts@) == texts(self.parts@) + texts(other.parts@).take(i as int),
            decreases other.parts.len() - i,
        {
            let owned = other.parts[i].clone();
            proof {
                lemma_texts_push(path.parts@, owned);
                assert(texts(other.parts@).take(i + 1) == texts(other.parts@).take(i as int).push(
                    owned@,
                ));
            }
            path.parts.push(owned);
            i = i + 1;
        }
        proof {
            assert(texts(other.parts@).take(i as int) == texts(other.parts@));
        }
        path
    }

    /// The path without its last name; none for a path without names.
    pub fn parent(&self) -> (up: Option<TreePath>)
        ensures
            match up {
                Some(p) => self@.parent() == Some(p@),
                None => self@.parent() is None,
            },
    {
        if self.parts.len() == 0 {
            return None;
        }
        let mut path = self.clone();
        path.parts.pop();
        proof {
            assert(texts(path.parts@) =~= texts(self.parts@).drop_last());
        }
        Some(path)
    }

    /// The last name, unless there is none or it is `..`.
    pub fn file_name(&self) -> (name: Option<String>)
        ensures
            match name {
                Some(s) => self@.file_name() == Some(s@),
                None => self@.file_name() is None,
            },
    {
        let n: usize = self.parts.len();
        if n == 0 {
            return None;
        }
        let last = &self.parts[n - 1];
        if Self::is_dot_dot(last.as_str()) {
            None
        } else {
            Some(last.clone())
        }
    }

    /// True for the name `..`.
    fn is_dot_dot(name: &str) -> (yes: bool)
        ensures
            yes == (name@ == seq!['.', '.']),
    {
        if name.unicode_len() == 2 && name.get_char(0) == '.' && name.get_char(1) == '.' {
            proof {
                assert(name@ =~= seq!['.', '.']);
            }
            true
        } else {
            proof {
                if name@ == seq!['.', '.'] {
                    assert(name@[0] == '.' && name@[1] == '.');
                }
            }
            false
        }
    }

    /// True where `self` is `base` or lies below it.
    pub fn is_under(&self, base: &TreePath) -> (under: bool)
        ensures
            under == self@.is_under(base@),
    {
        if self.absolute != base.absolute || base.parts.len() > self.parts.len() {
            return false;
        }
        let mut i: usize = 0;
        while i < base.parts.len()
            invariant
                i <= base.parts.len() <= self.parts.len(),
                forall|j: int| 0 <= j < i ==> self@.parts[j] == base@.parts[j],
            decreases base.parts.len() - i,
        {
            if self.parts[i] != base.parts[i] {
                proof {
                    assert(self@.parts[i as int] != base@.parts[i as int]);
                }
                return false;
            }
            i = i + 1;
        }
        true
    }

    /// The names that lead from `base` to `self`; none where `self` is not
    /// under `base`.
    pub fn strip_prefix(&self, base: &TreePath) -> (rest: Option<TreePath>)
        ensures
            match rest {
                Some(r) => self@.is_under(base@) && !r@.absolute && r@.parts == self@.below(base@),
                None => !self@.is_under(base@),
            },
    {
        if !self.is_under(base) {
            return None;
        }
        let mut parts: Vec<String> = Vec::new();
        let mut i: usize = base.parts.len();
        while i < self.parts.len()
            invariant
                base.parts.len() <= i <= self.parts.len(),
                texts(parts@) == self@.parts.subrange(base.parts.len() as int, i as int),
            decreases self.parts.len() - i,
        {
            let owned = self.parts[i].clone();
            proof {
                lemma_texts_push(parts@, owned);
                assert(self@.parts.subrange(base.parts.len() as int, i + 1)
                    == self@.parts.subrange(base.parts.len() as int, i as int).push(owned@));
            }
            parts.push(owned);
            i = i + 1;
        }
        proof {
            assert(self@.parts.subrange(base.parts.len() as int, i as int) == self@.below(base@));
        }
        Some(TreePath { absolute: false, parts })
    }
}

} // verus!
