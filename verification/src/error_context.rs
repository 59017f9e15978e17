//! What a `cargo check` run reported, and how it is shown in the context.

use vstd::prelude::*;
use crate::text::{
    self, before_first_of, chars_eq, chars_of, contains_chars, lines_of, push_char, slice_of,
    split_on, string_of, trimmed,
};

verus! {

/// The outcome of a `cargo check` run.
pub struct ErrorContext {
    pub has_errors: bool,
    /// What the run wrote to stderr.
    pub output: String,
    /// The source files that the diagnostics point at, each once.
    pub affected_files: Vec<String>,
}

/// The file that a diagnostic line points at: the text before the first
/// `.rs:`, trimmed, after its last space, with `.rs` put back. Lines without
/// `.rs:` point at no file.
pub open spec fn error_file(line: Seq<char>) -> Option<Seq<char>> {
    if text::contains(line, ".rs:"@) {
        let t = text::trim(text::before_first(line, ".rs:"@));
        Some(text::split_char(t, ' ').last() + ".rs"@)
    } else {
        None
    }
}

/// The members of `s` in order of first occurrence, each once.
pub open spec fn dedup(s: Seq<Seq<char>>) -> Seq<Seq<char>>
    decreases s.len(),
{
    if s.len() == 0 {
        s
    } else {
        let d = dedup(s.drop_last());
        if d.contains(s.last()) {
            d
        } else {
            d.push(s.last())
        }
    }
}

/// The files named by the diagnostics in `stderr`, each once, in order of
/// first mention.
pub open spec fn affected_files_in(stderr: Seq<char>) -> Seq<Seq<char>> {
    dedup(text::lines(stderr).filter_map(|l: Seq<char>| error_file(l)))
}

/// The lines listing the affected files.
pub open spec fn file_list(files: Seq<Seq<char>>) -> Seq<char>
    decreases files.len(),
{
    if files.len() == 0 {
        Seq::empty()
    } else {
        file_list(files.drop_last()) + "  - "@ + files.last() + "\n"@
    }
}

/// The context section for a `cargo check` outcome.
pub open spec fn context_section(has_errors: bool, output: Seq<char>, files: Seq<Seq<char>>) -> Seq<
    char,
> {
    if !has_errors {
        "### CARGO CHECK ###\n✅ No errors found.\n"@
    } else {
        let head = "### CARGO CHECK ERRORS ###\n"@ + output + seq!['\n'];
        if files.len() == 0 {
            head
        } else {
            head + "### AFFECTED FILES ###\n"@ + file_list(files)
        }
    }
}

/// Whether `x` is among the buffers of `v`.
pub fn contains_buffer(v: &Vec<Vec<char>>, x: &[char]) -> (r: bool)
    ensures
        r == text::views(v@).contains(x@),
{
    let n = v.len();
    for i in 0..n
        invariant
            n == v@.len(),
            forall|j: int| 0 <= j < i ==> text::views(v@)[j] != x@,
    {
        if chars_eq(v[i].as_slice(), x) {
            assert(text::views(v@)[i as int] == x@);
            return true;
        }
    }
    false
}

/// The file that a diagnostic line points at.
pub fn error_file_of(line: &[char]) -> (r: Option<Vec<char>>)
    ensures
        match r {
            Some(f) => error_file(line@) == Some(f@),
            None => error_file(line@) is None,
        },
{
    let marker = chars_of(".rs:");
    if !contains_chars(line, marker.as_slice()) {
        return None;
    }
    let before = before_first_of(line, marker.as_slice());
    let t = trimmed(before.as_slice());
    let pieces = split_on(t.as_slice(), ' ');
    proof {
        text::lemma_split_char_len(t@, ' ');
    }
    let last = pieces.len() - 1;
    let mut f = slice_of(pieces[last].as_slice(), 0, pieces[last].len());
    let ext = chars_of(".rs");
    assert(f@ =~= text::split_char(t@, ' ').last());
    let ghost f0 = f@;
    let mut k: usize = 0;
    while k < ext.len()
        invariant
            k <= ext@.len(),
            ext@ == ".rs"@,
            f@ == f0 + ext@.take(k as int),
        decreases ext@.len() - k,
    {
        f.push(ext[k]);
        assert(ext@.take(k + 1) =~= ext@.take(k as int).push(ext@[k as int]));
        k = k + 1;
    }
    assert(ext@.take(ext@.len() as int) =~= ext@);
    Some(f)
}

/// The files named by the diagnostics in `stderr`, each once, in order of
/// first mention.
pub fn affected_files_of(stderr: &str) -> (r: Vec<String>)
    ensures
        text::string_views(r@) == affected_files_in(stderr@),
{
    let s = chars_of(stderr);
    let ls = lines_of(s.as_slice());
    let mut seen: Vec<Vec<char>> = Vec::new();
    let mut out: Vec<String> = Vec::new();
    let n = ls.len();
    for i in 0..n
        invariant
            n == ls@.len(),
            text::views(ls@) == text::lines(stderr@),
            text::views(seen@) == dedup(text::views(ls@).take(i as int).filter_map(
                |l: Seq<char>| error_file(l),
            )),
            text::string_views(out@) == text::views(seen@),
    {
        let ghost pre = text::views(ls@).take(i as int);
        proof {
            assert(text::views(ls@).take(i + 1).drop_last() =~= pre);
            assert(text::views(ls@)[i as int] == ls@[i as int]@);
            text::views(ls@).lemma_filter_map_take_succ(|l: Seq<char>| error_file(l), i as int);
        }
        match error_file_of(ls[i].as_slice()) {
            Some(f) => {
                let ghost fm = pre.filter_map(|l: Seq<char>| error_file(l));
                assert(text::views(ls@).take(i + 1).filter_map(|l: Seq<char>| error_file(l)) =~= fm.push(
                    f@,
                ));
                assert(fm.push(f@).drop_last() =~= fm);
                if !contains_buffer(&seen, f.as_slice()) {
                    let ghost old_seen = seen@;
                    let ghost old_out = out@;
                    let fs = string_of(f.as_slice());
                    out.push(fs);
                    seen.push(f);
                    assert(text::views(seen@) =~= text::views(old_seen).push(f@));
                    assert(text::string_views(out@) =~= text::string_views(old_out).push(fs@));
                }
            },
            None => {
                assert(text::views(ls@).take(i + 1).filter_map(|l: Seq<char>| error_file(l))
                    =~= pre.filter_map(|l: Seq<char>| error_file(l)));
            },
        }
    }
    assert(text::views(ls@).take(n as int) =~= text::views(ls@));
    out
}

/// The outcome of a `cargo check` run that finished: it found errors exactly
/// when it did not succeed.
pub fn context_from_output(success: bool, stderr: String) -> (r: ErrorContext)
    ensures
        r.has_errors == !success,
        r.output@ == stderr@,
        text::string_views(r.affected_files@) == affected_files_in(stderr@),
{
    let affected_files = affected_files_of(stderr.as_str());
    ErrorContext { has_errors: !success, output: stderr, affected_files }
}

/// The outcome of a `cargo check` run that could not be started: no errors
/// are reported, and the output says why the run failed.
pub fn context_from_launch_failure(reason: &str) -> (r: ErrorContext)
    ensures
        !r.has_errors,
        r.output@ == "Could not run cargo check: "@ + reason@,
        r.affected_files@.len() == 0,
{
    let mut output = String::new();
    output.append("Could not run cargo check: ");
    output.append(reason);
    ErrorContext { has_errors: false, output, affected_files: Vec::new() }
}

/// The context section for a `cargo check` outcome.
pub fn format_for_context(ctx: &ErrorContext) -> (r: String)
    ensures
        r@ == context_section(ctx.has_errors, ctx.output@, text::string_views(ctx.affected_files@)),
{
    let mut out = String::new();
    if !ctx.has_errors {
        out.append("### CARGO CHECK ###\n✅ No errors found.\n");
        return out;
    }
    out.append("### CARGO CHECK ERRORS ###\n");
    out.append(ctx.output.as_str());
    push_char(&mut out, '\n');
    let ghost head = out@;
    let files = &ctx.affected_files;
    if files.len() > 0 {
        out.append("### AFFECTED FILES ###\n");
        let ghost base = out@;
        let n = files.len();
        for i in 0..n
            invariant
                n == files@.len(),
                out@ == base + file_list(text::string_views(files@).take(i as int)),
        {
            assert(text::string_views(files@).take(i + 1).drop_last() =~= text::string_views(files@).take(
                i as int,
            ));
            out.append("  - ");
            out.append(files[i].as_str());
            out.append("\n");
            assert(out@ =~= base + file_list(text::string_views(files@).take(i + 1)));
        }
        assert(text::string_views(files@).take(n as int) =~= text::string_views(files@));
    }
    out
}

} // verus!
