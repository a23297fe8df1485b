//! Templates that include partials.
//!
//! A tag of the form `{{> name}}` or `{{#> name}}` has the engine render
//! another template in place of the tag. The engine follows such tags without
//! a limit, and a partial that includes itself keeps it busy until the stack
//! is used up. The library therefore looks for such tags before it hands a
//! template on, and refuses a template that has one.
//!
//! The search errs on the safe side: it takes every `{{` that is followed by
//! `>` with nothing but `~`, `#` and white space between them for such a tag.

use vstd::prelude::*;
use vstd::std_specs::iter::IteratorSpec;
use vstd::string::*;

verus! {

/// A character that can stand between the `{{` of a tag and the `>` that
/// makes it include a partial.
pub open spec fn fills_tag_start(c: char) -> bool {
    c == '~' || c == '#' || c == ' ' || c == '\t' || c == '\n' || c == '\r'
}

/// True where a tag has opened at `open` and nothing but fill has followed
/// up to `end`.
pub open spec fn tag_open(text: Seq<char>, open: int, end: int) -> bool {
    &&& 0 <= open
    &&& open + 2 <= end <= text.len()
    &&& text[open] == '{'
    &&& text[open + 1] == '{'
    &&& forall|k: int| open + 2 <= k < end ==> fills_tag_start(#[trigger] text[k])
}

/// True where the tag that opens at `open` includes a partial by the `>` at
/// `mark`.
pub open spec fn partial_at(text: Seq<char>, open: int, mark: int) -> bool {
    mark < text.len() && tag_open(text, open, mark) && text[mark] == '>'
}

/// True where some tag of `text` includes a partial.
pub open spec fn includes_partial(text: Seq<char>) -> bool {
    exists|open: int, mark: int| partial_at(text, open, mark)
}

/// True for a character that can stand between `{{` and `>`.
fn is_fill(c: char) -> (fill: bool)
    ensures
        fill == fills_tag_start(c),
{
    c == '~' || c == '#' || c == ' ' || c == '\t' || c == '\n' || c == '\r'
}

/// Looks for a tag that includes a partial, in one pass over the text.
pub fn has_partial(text: &str) -> (found: bool)
    ensures
        found == includes_partial(text@),
{
    broadcast use vstd::string::group_string_axioms;

    let mut armed: bool = false;
    let mut after_brace: bool = false;
    let chars = text.chars();
    for c in it: chars
        invariant
            it.seq() == text@,
            after_brace == (it.index() > 0 && text@[it.index() - 1] == '{'),
            armed == (exists|open: int| tag_open(text@, open, it.index())),
            forall|open: int, mark: int| mark < it.index() ==> !partial_at(text@, open, mark),
    {
        let ghost here = it.index();
        let ghost next = it.index() + 1;
        if armed && c == '>' {
            proof {
                let open = choose|open: int| tag_open(text@, open, here);
                assert(partial_at(text@, open, here));
            }
            return true;
        }
        if c == '{' && after_brace {
            proof {
                assert(tag_open(text@, here - 1, next));
            }
            armed = true;
        } else if armed && is_fill(c) {
            proof {
                let open = choose|open: int| tag_open(text@, open, here);
                assert(tag_open(text@, open, next));
            }
        } else {
            proof {
                assert forall|open: int| !tag_open(text@, open, next) by {
                    if tag_open(text@, open, next) {
                        if open + 2 <= here {
                            assert(fills_tag_start(text@[here]));
                            assert(tag_open(text@, open, here));
                        }
                    }
                }
            }
            armed = false;
        }
        proof {
            assert forall|open: int, mark: int| mark < next implies !partial_at(
                text@,
                open,
                mark,
            ) by {
                if mark == here && partial_at(text@, open, mark) {
                    assert(tag_open(text@, open, here));
                }
            }
        }
        after_brace = c == '{';
    }
    false
}

} // verus!
