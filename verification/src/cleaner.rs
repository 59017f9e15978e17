//! Stripping comments and blank lines from Rust source text.

use vstd::prelude::*;
use crate::patterns::{self, replace_all_matches};
use crate::text::{self, chars_of, join_chars, lines_of, trimmed};

verus! {

/// Block comments, `/* ... */`, across lines, shortest first.
pub const BLOCK_COMMENT: &'static str = r"(?s)/\*.*?\*/";

/// Line comments, `//`, `///` and `//!` up to the end of the line.
pub const LINE_COMMENT: &'static str = r"(?m)//[!/]?.*$";

/// The trimmed lines of `text` that are not empty.
pub open spec fn kept_lines(text: Seq<char>) -> Seq<Seq<char>> {
    text::non_empty(text::lines(text).map_values(|l: Seq<char>| text::trim(l)))
}

/// The trimmed lines of `text` that are not empty, joined by `\n`.
pub open spec fn compact(text: Seq<char>) -> Seq<char> {
    text::join(kept_lines(text), "\n"@)
}

/// The cleaned form of a source text: block comments removed, then line
/// comments removed, then compacted. Empty where a pattern does not compile.
pub open spec fn cleaned(content: Seq<char>) -> Seq<char> {
    match patterns::regex_replace_all(BLOCK_COMMENT@, content, ""@) {
        Some(a) => match patterns::regex_replace_all(LINE_COMMENT@, a, ""@) {
            Some(b) => compact(b),
            None => Seq::empty(),
        },
        None => Seq::empty(),
    }
}

/// The trimmed lines of `text` that are not empty, joined by `\n`.
pub fn compact_lines(text: &str) -> (r: String)
    ensures
        r@ == compact(text@),
{
    let s = chars_of(text);
    let ls = lines_of(s.as_slice());
    let ghost tl = text::lines(text@).map_values(|l: Seq<char>| text::trim(l));
    let mut kept: Vec<Vec<char>> = Vec::new();
    let n = ls.len();
    for i in 0..n
        invariant
            n == ls@.len(),
            text::views(ls@) == text::lines(text@),
            tl == text::lines(text@).map_values(|l: Seq<char>| text::trim(l)),
            text::views(kept@) == text::non_empty(tl.take(i as int)),
    {
        let ghost old_kept = kept@;
        let t = trimmed(ls[i].as_slice());
        proof {
            assert(tl.take(i + 1).drop_last() =~= tl.take(i as int));
            assert(tl[i as int] == text::trim(ls@[i as int]@));
        }
        if t.len() > 0 {
            kept.push(t);
            assert(text::views(kept@) =~= text::views(old_kept).push(tl[i as int]));
        }
    }
    assert(tl.take(n as int) =~= tl);
    join_chars(&kept, "\n")
}

/// Removes comments and blank lines from a Rust source text and trims every
/// line.
pub fn trim_fat(content: &str) -> (r: String)
    ensures
        r@ == cleaned(content@),
{
    match replace_all_matches(BLOCK_COMMENT, content, "") {
        Some(no_multi) => match replace_all_matches(LINE_COMMENT, no_multi.as_str(), "") {
            Some(no_comments) => compact_lines(no_comments.as_str()),
            None => String::new(),
        },
        None => String::new(),
    }
}

} // verus!
