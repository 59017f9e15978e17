//! The skeleton of a Rust source text: one line per item signature.

use vstd::prelude::*;
use crate::patterns::{self, find_all_matches};
use crate::text::{self, chars_of, join_chars, push_chars, split_on, trimmed};

verus! {

/// Item headers at the start of a line: an optional `pub`, a keyword that
/// opens an item, and the name and generics that follow it.
pub const SIGNATURE: &'static str = r"(?m)^(pub\s+)?(fn|struct|enum|trait|impl|type)\s+[\w<>, ]+";

/// The signature in a matched header: trimmed, cut at the first `{`, and
/// trimmed again.
pub open spec fn signature_of(m: Seq<char>) -> Seq<char> {
    text::trim(text::split_char(text::trim(m), '{')[0])
}

/// Each signature indented by two spaces and followed by `...`.
pub open spec fn entries(sigs: Seq<Seq<char>>) -> Seq<Seq<char>> {
    sigs.map_values(|c: Seq<char>| "  "@ + c + "..."@)
}

/// The skeleton lines for the matched headers: each non-empty signature,
/// indented by two spaces and followed by `...`, joined by `\n`.
pub open spec fn skeleton(matches: Seq<Seq<char>>) -> Seq<char> {
    text::join(
        entries(text::non_empty(matches.map_values(|m: Seq<char>| signature_of(m)))),
        "\n"@,
    )
}

/// The skeleton of a source text; empty where the pattern does not compile.
pub open spec fn signatures(content: Seq<char>) -> Seq<char> {
    match patterns::regex_find_all(SIGNATURE@, content) {
        Some(ms) => skeleton(ms),
        None => Seq::empty(),
    }
}

/// The signature in one matched header.
pub fn signature_in(m: &str) -> (r: Vec<char>)
    ensures
        r@ == signature_of(m@),
{
    let line = trimmed(chars_of(m).as_slice());
    let pieces = split_on(line.as_slice(), '{');
    proof {
        text::lemma_split_char_len(line@, '{');
    }
    trimmed(pieces[0].as_slice())
}

/// The skeleton lines for the matched headers.
pub fn skeleton_from_matches(matches: &Vec<String>) -> (r: String)
    ensures
        r@ == skeleton(text::string_views(matches@)),
{
    let ghost ms = text::string_views(matches@);
    let ghost sigs = ms.map_values(|m: Seq<char>| signature_of(m));
    let mut lines: Vec<Vec<char>> = Vec::new();
    let n = matches.len();
    for i in 0..n
        invariant
            n == matches@.len(),
            ms == text::string_views(matches@),
            sigs == ms.map_values(|m: Seq<char>| signature_of(m)),
            text::views(lines@) == text::non_empty(sigs.take(i as int)).map_values(
                |c: Seq<char>| "  "@ + c + "..."@,
            ),
    {
        let ghost old_lines = lines@;
        let clean = signature_in(matches[i].as_str());
        proof {
            assert(sigs.take(i + 1).drop_last() =~= sigs.take(i as int));
            assert(sigs[i as int] == clean@);
        }
        if clean.len() > 0 {
            let mut entry = String::new();
            entry.append("  ");
            push_chars(&mut entry, clean.as_slice());
            entry.append("...");
            let e = chars_of(entry.as_str());
            lines.push(e);
            proof {
                let ne = text::non_empty(sigs.take(i as int));
                assert(text::non_empty(sigs.take(i + 1)) == ne.push(clean@));
                assert(ne.push(clean@).map_values(|c: Seq<char>| "  "@ + c + "..."@) =~= ne.map_values(
                    |c: Seq<char>| "  "@ + c + "..."@,
                ).push("  "@ + clean@ + "..."@));
                assert(text::views(lines@) =~= text::views(old_lines).push(e@));
            }
        }
    }
    assert(sigs.take(n as int) =~= sigs);
    join_chars(&lines, "\n")
}

/// The skeleton of a source text: one line per item signature.
pub fn extract_signatures(content: &str) -> (r: String)
    ensures
        r@ == signatures(content@),
{
    match find_all_matches(SIGNATURE, content) {
        Some(matches) => skeleton_from_matches(&matches),
        None => String::new(),
    }
}

} // verus!
