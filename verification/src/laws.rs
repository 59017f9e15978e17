//! Properties of the library that hold across all inputs.

use vstd::prelude::*;
use crate::api::{self, AttemptOutcome};
use crate::chat;
use crate::cleaner;
use crate::memory;
use crate::models::{ChatMessage, FileRecord};
use crate::scanner;
use crate::skeleton;
use crate::error_context;
use crate::text;

verus! {

// ---------------------------------------------------------------------------
// `cargo check` outcomes
// ---------------------------------------------------------------------------

/// A check without errors is shown by the same fixed text, whatever the run
/// wrote to stderr and whatever files were listed.
pub proof fn law_clean_check_is_fixed_text(
    output: Seq<char>,
    files: Seq<Seq<char>>,
)
    ensures
        error_context::context_section(false, output, files)
            == "### CARGO CHECK ###\n✅ No errors found.\n"@,
{
}

proof fn lemma_dedup_contains(s: Seq<Seq<char>>, x: Seq<char>)
    ensures
        error_context::dedup(s).contains(x) <==> s.contains(x),
    decreases s.len(),
{
    if s.len() > 0 {
        lemma_dedup_contains(s.drop_last(), x);
        let d = error_context::dedup(s.drop_last());
        if s.drop_last().contains(x) {
            let i = choose|i: int| 0 <= i < s.drop_last().len() && s.drop_last()[i] == x;
            assert(s[i] == x);
        }
        if s.contains(x) && x != s.last() {
            let i = choose|i: int| 0 <= i < s.len() && s[i] == x;
            assert(s.drop_last()[i] == x);
        }
        if !d.contains(s.last()) {
            assert(d.push(s.last())[d.len() as int] == s.last());
            if d.contains(x) {
                let i = choose|i: int| 0 <= i < d.len() && d[i] == x;
                assert(d.push(s.last())[i] == x);
            }
            if d.push(s.last()).contains(x) && x != s.last() {
                let i = choose|i: int| 0 <= i < d.len() + 1 && d.push(s.last())[i] == x;
                assert(d[i] == x);
            }
        }
        assert(s[s.len() - 1] == s.last());
    }
}

proof fn lemma_dedup_no_duplicates(s: Seq<Seq<char>>)
    ensures
        error_context::dedup(s).no_duplicates(),
    decreases s.len(),
{
    if s.len() > 0 {
        lemma_dedup_no_duplicates(s.drop_last());
    }
}

proof fn lemma_filter_map_contains(
    s: Seq<Seq<char>>,
    f: spec_fn(Seq<char>) -> Option<Seq<char>>,
    y: Seq<char>,
)
    ensures
        s.filter_map(f).contains(y) <==> exists|i: int| 0 <= i < s.len() && #[trigger] f(s[i]) == Some(
            y,
        ),
    decreases s.len(),
{
    if s.len() > 0 {
        let rest = s.drop_last();
        lemma_filter_map_contains(rest, f, y);
        let fr = rest.filter_map(f);
        if rest.filter_map(f).contains(y) {
            let i = choose|i: int| 0 <= i < rest.len() && #[trigger] f(rest[i]) == Some(y);
            assert(f(s[i]) == Some(y));
        }
        match f(s.last()) {
            Some(z) => {
                assert(s.filter_map(f) == fr + seq![z]);
                if (fr + seq![z]).contains(y) && y != z {
                    let k = choose|k: int| 0 <= k < fr.len() + 1 && (fr + seq![z])[k] == y;
                    assert(fr[k] == y);
                }
                if fr.contains(y) {
                    let k = choose|k: int| 0 <= k < fr.len() && fr[k] == y;
                    assert((fr + seq![z])[k] == y);
                }
                if z == y {
                    assert((fr + seq![z])[fr.len() as int] == y);
                }
            },
            None => {},
        }
        if exists|i: int| 0 <= i < s.len() && #[trigger] f(s[i]) == Some(y) {
            let i = choose|i: int| 0 <= i < s.len() && #[trigger] f(s[i]) == Some(y);
            if i < s.len() - 1 {
                assert(f(rest[i]) == Some(y));
            }
        }
    }
}

/// Each affected file is listed once.
pub proof fn law_affected_files_listed_once(stderr: Seq<char>)
    ensures
        error_context::affected_files_in(stderr).no_duplicates(),
{
    lemma_dedup_no_duplicates(
        text::lines(stderr).filter_map(|l: Seq<char>| error_context::error_file(l)),
    );
}

/// A file is listed exactly when some line of the run's stderr points at it.
pub proof fn law_affected_files_are_the_mentioned_ones(stderr: Seq<char>, file: Seq<char>)
    ensures
        error_context::affected_files_in(stderr).contains(file) <==> exists|i: int|
            0 <= i < text::lines(stderr).len() && #[trigger] error_context::error_file(
                text::lines(stderr)[i],
            ) == Some(file),
{
    let f = |l: Seq<char>| error_context::error_file(l);
    let ls = text::lines(stderr);
    let found = ls.filter_map(f);
    assert(error_context::affected_files_in(stderr) == error_context::dedup(found));
    lemma_dedup_contains(found, file);
    lemma_filter_map_contains(ls, f, file);
    if found.contains(file) {
        let i = choose|i: int| 0 <= i < ls.len() && #[trigger] f(ls[i]) == Some(file);
        assert(error_context::error_file(ls[i]) == Some(file));
    }
    if exists|i: int| 0 <= i < ls.len() && #[trigger] error_context::error_file(ls[i]) == Some(file) {
        let i = choose|i: int|
            0 <= i < ls.len() && #[trigger] error_context::error_file(ls[i]) == Some(file);
        assert(f(ls[i]) == Some(file));
    }
}

/// Every affected file name ends in `.rs`.
pub proof fn law_affected_files_end_in_rs(stderr: Seq<char>, file: Seq<char>)
    requires
        error_context::affected_files_in(stderr).contains(file),
    ensures
        text::ends_with(file, ".rs"@),
{
    law_affected_files_are_the_mentioned_ones(stderr, file);
    let i = choose|i: int|
        0 <= i < text::lines(stderr).len() && #[trigger] error_context::error_file(
            text::lines(stderr)[i],
        ) == Some(file);
    let line = text::lines(stderr)[i];
    let t = text::trim(text::before_first(line, ".rs:"@));
    let x = text::split_char(t, ' ').last();
    assert(file == x + ".rs"@);
    assert((x + ".rs"@).skip(x.len() as int) =~= ".rs"@);
}

// ---------------------------------------------------------------------------
// Cleaning
// ---------------------------------------------------------------------------

/// The lines that compaction keeps are not empty, have no surrounding
/// whitespace, and hold no line feed.
pub open spec fn is_clean_line(l: Seq<char>) -> bool {
    &&& l.len() > 0
    &&& text::trim(l) == l
    &&& !l.contains('\n')
}

proof fn lemma_compact_parts(t: Seq<char>)
    ensures
        forall|i: int|
            0 <= i < cleaner::kept_lines(t).len() ==> is_clean_line(
                #[trigger] cleaner::kept_lines(t)[i],
            ),
{
    let v = text::lines(t).map_values(|l: Seq<char>| text::trim(l));
    let ls = cleaner::kept_lines(t);
    text::lemma_lines_have_no_newline(t);
    assert forall|i: int| 0 <= i < ls.len() implies is_clean_line(#[trigger] ls[i]) by {
        let x = ls[i];
        assert(ls.contains(x));
        text::lemma_non_empty_members(v, x);
        let k = choose|k: int| 0 <= k < v.len() && v[k] == x;
        let l = text::lines(t)[k];
        assert(x == text::trim(l));
        text::lemma_trim_idempotent(l);
        text::lemma_trim_shape(l);
        let (a, b) = choose|a: int, b: int| 0 <= a <= b <= l.len() && text::trim(l) == l.subrange(a, b);
        if x.contains('\n') {
            let j = choose|j: int| 0 <= j < x.len() && x[j] == '\n';
            assert(l[a + j] == '\n');
            assert(l.contains('\n'));
        }
    }
}

/// Compaction gives lines joined by `\n` that are each non-empty, free of
/// surrounding whitespace and free of line feeds.
pub proof fn law_compact_lines_are_clean(t: Seq<char>)
    ensures
        exists|ls: Seq<Seq<char>>|
            cleaner::compact(t) == text::join(ls, "\n"@) && forall|i: int|
                0 <= i < ls.len() ==> is_clean_line(#[trigger] ls[i]),
{
    lemma_compact_parts(t);
    let ls = cleaner::kept_lines(t);
    assert(cleaner::compact(t) == text::join(ls, "\n"@));
}

/// A cleaned source text, too, is lines joined by `\n` that are each
/// non-empty, free of surrounding whitespace and free of line feeds.
pub proof fn law_cleaned_text_lines_are_clean(content: Seq<char>)
    ensures
        exists|ls: Seq<Seq<char>>|
            cleaner::cleaned(content) == text::join(ls, "\n"@) && forall|i: int|
                0 <= i < ls.len() ==> is_clean_line(#[trigger] ls[i]),
{
    let c = cleaner::cleaned(content);
    match crate::patterns::regex_replace_all(cleaner::BLOCK_COMMENT@, content, ""@) {
        Some(a) => match crate::patterns::regex_replace_all(cleaner::LINE_COMMENT@, a, ""@) {
            Some(b) => {
                law_compact_lines_are_clean(b);
            },
            None => {
                assert(text::join(Seq::<Seq<char>>::empty(), "\n"@) == c);
            },
        },
        None => {
            assert(text::join(Seq::<Seq<char>>::empty(), "\n"@) == c);
        },
    }
}

// ---------------------------------------------------------------------------
// Scanning
// ---------------------------------------------------------------------------

/// The stored hash of a cleaned text is two lowercase hexadecimal digits
/// per byte of its SHA-256 digest.
pub proof fn law_stored_hash_is_hex(cleaned: Seq<char>)
    ensures
        scanner::content_hash(cleaned).len() == 2 * scanner::sha256(
            vstd::utf8::encode_utf8(cleaned),
        ).len(),
        forall|i: int|
            0 <= i < scanner::content_hash(cleaned).len() ==> scanner::is_hex_digit(
                #[trigger] scanner::content_hash(cleaned)[i],
            ),
{
    scanner::lemma_hex_lower_shape(scanner::sha256(vstd::utf8::encode_utf8(cleaned)));
}

/// Sources that differ only in comments, blank lines or indentation get
/// the same cleaned text, hence the same stored hash, so they are not
/// stored again.
pub proof fn law_comment_edits_keep_the_hash(raw1: Seq<char>, raw2: Seq<char>)
    requires
        cleaner::cleaned(raw1) == cleaner::cleaned(raw2),
    ensures
        scanner::content_hash(cleaner::cleaned(raw1)) == scanner::content_hash(
            cleaner::cleaned(raw2),
        ),
{
}

/// Every file that the change filter keeps is one of the scanned files for
/// which the filter answered yes.
pub proof fn law_changed_files_are_answered_yes(
    files: Seq<FileRecord>,
    keep: Seq<bool>,
    f: FileRecord,
)
    requires
        keep.len() == files.len(),
        scanner::select(files, keep).contains(f),
    ensures
        exists|i: int| 0 <= i < files.len() && files[i] == f && keep[i],
    decreases files.len(),
{
    let rest = scanner::select(files.drop_last(), keep.drop_last());
    if keep.last() && f == files.last() {
        assert(files[files.len() - 1] == f);
    } else {
        if keep.last() {
            let j = choose|j: int| 0 <= j < rest.len() + 1 && rest.push(files.last())[j] == f;
            assert(rest[j] == f);
        }
        law_changed_files_are_answered_yes(files.drop_last(), keep.drop_last(), f);
        let i = choose|i: int|
            0 <= i < files.drop_last().len() && files.drop_last()[i] == f && keep.drop_last()[i];
        assert(files[i] == f && keep[i]);
    }
}

/// When the change filter answers yes for every file, every scanned file is
/// kept, in order; when it answers no for every file, none is.
pub proof fn law_change_filter_extremes(files: Seq<FileRecord>, keep: Seq<bool>)
    requires
        keep.len() == files.len(),
    ensures
        (forall|i: int| 0 <= i < keep.len() ==> keep[i]) ==> scanner::select(files, keep) == files,
        (forall|i: int| 0 <= i < keep.len() ==> !keep[i]) ==> scanner::select(files, keep).len()
            == 0,
    decreases files.len(),
{
    if files.len() > 0 {
        law_change_filter_extremes(files.drop_last(), keep.drop_last());
        if forall|i: int| 0 <= i < keep.len() ==> keep[i] {
            assert(forall|i: int| 0 <= i < keep.drop_last().len() ==> keep.drop_last()[i]);
            assert(keep[keep.len() - 1]);
            assert(files.drop_last().push(files.last()) =~= files);
        }
        if forall|i: int| 0 <= i < keep.len() ==> !keep[i] {
            assert(forall|i: int| 0 <= i < keep.drop_last().len() ==> !keep.drop_last()[i]);
            assert(!keep[keep.len() - 1]);
        }
    }
}

// ---------------------------------------------------------------------------
// Skeletons
// ---------------------------------------------------------------------------

/// Every skeleton line is two spaces, a non-empty signature without
/// surrounding whitespace, and `...`.
pub proof fn law_skeleton_lines_are_signatures(matches: Seq<Seq<char>>)
    ensures
        exists|sigs: Seq<Seq<char>>|
            skeleton::skeleton(matches) == text::join(#[trigger] skeleton::entries(sigs), "\n"@)
                && forall|i: int|
                0 <= i < sigs.len() ==> (#[trigger] sigs[i]).len() > 0 && text::trim(sigs[i])
                    == sigs[i],
{
    let all = matches.map_values(|m: Seq<char>| skeleton::signature_of(m));
    let sigs = text::non_empty(all);
    assert forall|i: int| 0 <= i < sigs.len() implies (#[trigger] sigs[i]).len() > 0
        && text::trim(sigs[i]) == sigs[i] by {
        let x = sigs[i];
        assert(sigs.contains(x));
        text::lemma_non_empty_members(all, x);
        let k = choose|k: int| 0 <= k < all.len() && all[k] == x;
        text::lemma_split_char_len(text::trim(matches[k]), '{');
        text::lemma_trim_idempotent(text::split_char(text::trim(matches[k]), '{')[0]);
    }
    assert(skeleton::skeleton(matches) == text::join(skeleton::entries(sigs), "\n"@));
}

// ---------------------------------------------------------------------------
// Relevant files and conversation
// ---------------------------------------------------------------------------

/// The relevant entries are exactly the entries of the relevant files: each
/// entry shows a relevant file, and each relevant file is shown.
pub proof fn law_relevant_entries_are_the_relevant_files(
    q: Seq<char>,
    files: Seq<FileRecord>,
    i: int,
)
    requires
        0 <= i < files.len(),
    ensures
        memory::is_relevant(q, files[i]) ==> memory::relevant_entries(q, files).contains(
            memory::relevant_entry(files[i]),
        ),
        memory::relevant_entries(q, files).len() <= files.len(),
    decreases files.len(),
{
    let rest = memory::relevant_entries(q, files.drop_last());
    if i < files.len() - 1 {
        law_relevant_entries_are_the_relevant_files(q, files.drop_last(), i);
        assert(files.drop_last()[i] == files[i]);
        if memory::is_relevant(q, files[i]) {
            let j = choose|j: int| 0 <= j < rest.len() && rest[j] == memory::relevant_entry(files[i]);
            if memory::is_relevant(q, files.last()) {
                assert(rest.push(memory::relevant_entry(files.last()))[j] == rest[j]);
            }
        }
    } else {
        if files.len() > 1 {
            law_relevant_entries_are_the_relevant_files(q, files.drop_last(), 0);
        }
        assert(files[i] == files.last());
        if memory::is_relevant(q, files.last()) {
            assert(rest.push(memory::relevant_entry(files.last()))[rest.len() as int]
                == memory::relevant_entry(files[i]));
        }
    }
}

/// Every entry shown as relevant is the entry of a relevant file.
pub proof fn law_relevant_entries_show_relevant_files(
    q: Seq<char>,
    files: Seq<FileRecord>,
    e: Seq<char>,
)
    requires
        memory::relevant_entries(q, files).contains(e),
    ensures
        exists|i: int|
            0 <= i < files.len() && memory::is_relevant(q, files[i]) && #[trigger] memory::relevant_entry(
                files[i],
            ) == e,
    decreases files.len(),
{
    let rest = memory::relevant_entries(q, files.drop_last());
    if memory::is_relevant(q, files.last()) && e == memory::relevant_entry(files.last()) {
        assert(files[files.len() - 1] == files.last());
    } else {
        if memory::is_relevant(q, files.last()) {
            let j = choose|j: int| 0 <= j < rest.len() + 1 && rest.push(memory::relevant_entry(files.last()))[j] == e;
            assert(rest[j] == e);
        }
        law_relevant_entries_show_relevant_files(q, files.drop_last(), e);
        let i = choose|i: int|
            0 <= i < files.drop_last().len() && memory::is_relevant(q, files.drop_last()[i])
                && #[trigger] memory::relevant_entry(files.drop_last()[i]) == e;
        assert(files[i] == files.drop_last()[i]);
    }
}

/// The conversation is shown oldest first: of `n` recent messages given
/// newest first, the `i`-th line shows message `n - 1 - i`.
pub proof fn law_conversation_is_chronological(recent: Seq<ChatMessage>, i: int)
    requires
        0 <= i < recent.len(),
    ensures
        memory::oldest_first(recent).len() == recent.len(),
        memory::oldest_first(recent)[i] == memory::chat_line(recent[recent.len() - 1 - i]),
    decreases recent.len(),
{
    lemma_oldest_first_len(recent);
    if i < recent.len() - 1 {
        law_conversation_is_chronological(recent.drop_first(), i);
        assert(recent.drop_first()[recent.len() - 2 - i] == recent[recent.len() - 1 - i]);
    }
}

proof fn lemma_oldest_first_len(recent: Seq<ChatMessage>)
    ensures
        memory::oldest_first(recent).len() == recent.len(),
    decreases recent.len(),
{
    if recent.len() > 0 {
        lemma_oldest_first_len(recent.drop_first());
    }
}

// ---------------------------------------------------------------------------
// Chat and requests
// ---------------------------------------------------------------------------

/// Lines that are not `task:` lines leave the pinned task as it was.
pub proof fn law_other_lines_keep_the_task(task: Option<Seq<char>>, lines: Seq<Seq<char>>)
    requires
        forall|i: int| 0 <= i < lines.len() ==> !chat::is_task(#[trigger] lines[i]),
    ensures
        chat::task_after(task, lines) == task,
    decreases lines.len(),
{
    if lines.len() > 0 {
        assert(!chat::is_task(lines[lines.len() - 1]));
        law_other_lines_keep_the_task(task, lines.drop_last());
    }
}

/// After a `task:` line, its task stays pinned until the next `task:` line.
pub proof fn law_task_stays_pinned(
    task: Option<Seq<char>>,
    before: Seq<Seq<char>>,
    line: Seq<char>,
    after: Seq<Seq<char>>,
)
    requires
        chat::is_task(line),
        forall|i: int| 0 <= i < after.len() ==> !chat::is_task(#[trigger] after[i]),
    ensures
        chat::task_after(task, before.push(line) + after) == Some(chat::task_of(line)),
    decreases after.len(),
{
    if after.len() == 0 {
        assert(before.push(line) + after =~= before.push(line));
        assert(before.push(line).drop_last() =~= before);
    } else {
        assert((before.push(line) + after).drop_last() =~= before.push(line) + after.drop_last());
        assert(!chat::is_task(after[after.len() - 1]));
        law_task_stays_pinned(task, before, line, after.drop_last());
    }
}

/// How many times a request is sent when the attempts have these outcomes,
/// starting at attempt number `attempt`: failed sends and rejected replies
/// are retried while attempts are left; any other outcome ends the request.
pub open spec fn sends(attempt: nat, outcomes: Seq<AttemptOutcome>) -> nat
    decreases outcomes.len(),
{
    if attempt > api::MAX_RETRIES || outcomes.len() == 0 {
        0
    } else {
        match outcomes[0] {
            AttemptOutcome::SendFailed(_) | AttemptOutcome::Rejected { .. } => 1 + sends(
                attempt + 1,
                outcomes.drop_first(),
            ),
            _ => 1,
        }
    }
}

/// A request is sent at most `MAX_RETRIES` times, whatever its attempts
/// bring.
pub proof fn law_request_sent_at_most_max_retries(outcomes: Seq<AttemptOutcome>)
    ensures
        sends(1, outcomes) <= api::MAX_RETRIES,
{
    lemma_sends_bound(1, outcomes);
}

proof fn lemma_sends_bound(attempt: nat, outcomes: Seq<AttemptOutcome>)
    requires
        attempt >= 1,
    ensures
        sends(attempt, outcomes) <= if attempt > api::MAX_RETRIES {
            0
        } else {
            api::MAX_RETRIES + 1 - attempt
        },
    decreases outcomes.len(),
{
    if attempt <= api::MAX_RETRIES && outcomes.len() > 0 {
        lemma_sends_bound(attempt + 1, outcomes.drop_first());
    }
}

// ---------------------------------------------------------------------------
// What each operation is for, stated on the characters themselves
// ---------------------------------------------------------------------------

/// Only the line `exit`, up to surrounding whitespace, ends the chat; a line
/// that merely starts with `exit` does not.
pub proof fn law_only_exact_exit_ends_the_chat(line: Seq<char>)
    ensures
        chat::is_exit(line) <==> text::trim(line) == "exit"@,
{
}

/// A line pins a task exactly when, trimmed, it is not `exit` and begins
/// with `task:`; the task is what follows `task:`, trimmed. Every other line
/// is a question: the line, trimmed.
pub proof fn law_task_lines_are_the_task_prefixed_ones(line: Seq<char>)
    ensures
        chat::is_task(line) <==> (text::trim(line) != "exit"@ && "task:"@.len() <= text::trim(
            line,
        ).len() && text::trim(line).take("task:"@.len() as int) == "task:"@),
        chat::is_task(line) ==> chat::task_of(line) == text::trim(
            text::trim(line).skip("task:"@.len() as int),
        ),
{
}

/// A walked entry is scanned exactly when it is a file, its extension is
/// `rs`, and `target` occurs nowhere in its path.
pub proof fn law_scanned_entries_are_rust_files_outside_target(
    is_file: bool,
    extension: Option<Seq<char>>,
    path: Seq<char>,
)
    ensures
        scanner::is_source_file(is_file, extension, path) <==> (is_file && extension == Some(
            "rs"@,
        ) && !(exists|i: int|
            0 <= i && i + "target"@.len() <= path.len() && #[trigger] path.subrange(
                i,
                i + "target"@.len(),
            ) == "target"@)),
{
    text::lemma_contains_occurs(path, "target"@);
}

/// The skeleton of a source is built from exactly the matches of the
/// signature pattern, whatever item keyword each one starts with; without
/// a compiled pattern it is empty.
pub proof fn law_skeleton_comes_from_every_match(content: Seq<char>)
    ensures
        match crate::patterns::regex_find_all(skeleton::SIGNATURE@, content) {
            Some(ms) => skeleton::signatures(content) == skeleton::skeleton(ms),
            None => skeleton::signatures(content).len() == 0,
        },
{
}

/// No matches give an empty skeleton.
pub proof fn law_skeleton_of_no_matches()
    ensures
        skeleton::skeleton(Seq::empty()).len() == 0,
{
    assert(Seq::<Seq<char>>::empty().map_values(|m: Seq<char>| skeleton::signature_of(m))
        =~= Seq::<Seq<char>>::empty());
}

proof fn lemma_join_empty(parts: Seq<Seq<char>>, sep: Seq<char>)
    requires
        forall|i: int| 0 <= i < parts.len() ==> (#[trigger] parts[i]).len() > 0,
    ensures
        text::join(parts, sep).len() == 0 <==> parts.len() == 0,
{
    if parts.len() == 1 {
        assert(parts[0].len() > 0);
    } else if parts.len() > 1 {
        assert(parts[parts.len() - 1].len() > 0);
    }
}

/// Each further match whose signature (trimmed, cut at `{`, trimmed again)
/// is not empty adds one line: two spaces, the signature, and `...`, after
/// a line feed when lines came before. A match with an empty signature adds
/// nothing.
pub proof fn law_each_match_adds_its_line(ms: Seq<Seq<char>>, m: Seq<char>)
    ensures
        ({
            let c = text::trim(text::split_char(text::trim(m), '{')[0]);
            let line = "  "@ + c + "..."@;
            skeleton::skeleton(ms.push(m)) == if c.len() == 0 {
                skeleton::skeleton(ms)
            } else if skeleton::skeleton(ms).len() == 0 {
                line
            } else {
                skeleton::skeleton(ms) + "\n"@ + line
            }
        }),
{
    let f = |m: Seq<char>| skeleton::signature_of(m);
    let all = ms.map_values(f);
    assert(ms.push(m).map_values(f) =~= all.push(skeleton::signature_of(m)));
    assert(ms.push(m).map_values(f).drop_last() =~= all);
    let ne = text::non_empty(all);
    let es = skeleton::entries(ne);
    assert forall|i: int| 0 <= i < es.len() implies (#[trigger] es[i]).len() > 0 by {
        assert(ne.contains(ne[i]));
        text::lemma_non_empty_members(all, ne[i]);
    }
    lemma_join_empty(es, "\n"@);
    let c = skeleton::signature_of(m);
    if c.len() > 0 {
        let line = "  "@ + c + "..."@;
        assert(skeleton::entries(ne.push(c)) =~= es.push(line));
        assert(es.push(line).drop_last() =~= es);
        if es.len() == 0 {
            assert(text::join(es.push(line), "\n"@) == line);
        }
    }
}

/// The project-structure section without files is its heading and an
/// empty line.
pub proof fn law_structure_of_no_files()
    ensures
        memory::structure_section(Seq::empty()) == "### PROJECT STRUCTURE (SKELETON) ###\n"@
            + seq!['\n'],
{
    assert(Seq::<FileRecord>::empty().map_values(|f: FileRecord| memory::structure_entry(f))
        =~= Seq::<Seq<char>>::empty());
    assert("### PROJECT STRUCTURE (SKELETON) ###\n"@ + Seq::<char>::empty()
        =~= "### PROJECT STRUCTURE (SKELETON) ###\n"@);
}

/// Each further stored file adds, before the closing line feed of the
/// project-structure section, its path and skeleton when its skeleton is
/// not empty, and nothing otherwise.
pub proof fn law_each_file_adds_its_skeleton(files: Seq<FileRecord>, f: FileRecord)
    ensures
        ({
            let sigs = skeleton::signatures(f.content@);
            let entry = if sigs.len() == 0 {
                Seq::<char>::empty()
            } else {
                "File: "@ + f.path@ + "\n"@ + sigs + "\n"@
            };
            memory::structure_section(files.push(f)) == memory::structure_section(files).drop_last()
                + entry + seq!['\n']
        }),
{
    let g = |x: FileRecord| memory::structure_entry(x);
    let es = files.map_values(g);
    assert(files.push(f).map_values(g) =~= es.push(memory::structure_entry(f)));
    assert(es.push(memory::structure_entry(f)).drop_last() =~= es);
    let h = "### PROJECT STRUCTURE (SKELETON) ###\n"@;
    assert((h + text::concat(es) + seq!['\n']).drop_last() =~= h + text::concat(es));
    assert(h + (text::concat(es) + memory::structure_entry(f)) + seq!['\n'] =~= (h + text::concat(
        es,
    )) + memory::structure_entry(f) + seq!['\n']);
}

proof fn lemma_concat_split(p: Seq<Seq<char>>, i: int)
    requires
        0 <= i < p.len(),
    ensures
        text::concat(p) == text::concat(p.take(i)) + p[i] + text::concat(p.skip(i + 1)),
    decreases p.len(),
{
    if i == p.len() - 1 {
        assert(p.drop_last() =~= p.take(i));
        assert(p.skip(i + 1) =~= Seq::<Seq<char>>::empty());
        assert(text::concat(p.take(i)) + p[i] + Seq::<char>::empty() =~= text::concat(p.take(i))
            + p[i]);
    } else {
        let d = p.drop_last();
        lemma_concat_split(d, i);
        assert(d.take(i) =~= p.take(i));
        assert(p.skip(i + 1).drop_last() =~= d.skip(i + 1));
        assert(p.skip(i + 1).last() == p.last());
        assert(text::concat(p.take(i)) + p[i] + (text::concat(d.skip(i + 1)) + p.last())
            =~= (text::concat(p.take(i)) + p[i] + text::concat(d.skip(i + 1))) + p.last());
    }
}

/// Every stored file with a non-empty skeleton appears in the context with
/// its path and skeleton, whatever else the context holds.
pub proof fn law_every_skeleton_is_in_the_context(
    window_size: usize,
    task: Option<Seq<char>>,
    check: Option<crate::error_context::ErrorContext>,
    summary: Option<Seq<char>>,
    files: Seq<FileRecord>,
    question: Option<Seq<char>>,
    recent: Seq<ChatMessage>,
    i: int,
)
    requires
        0 <= i < files.len(),
        skeleton::signatures(files[i].content@).len() > 0,
    ensures
        ({
            let ctx = memory::context_text(
                window_size,
                task,
                check,
                summary,
                files,
                question,
                recent,
            );
            let entry = "File: "@ + files[i].path@ + "\n"@ + skeleton::signatures(files[i].content@)
                + "\n"@;
            exists|a: int|
                0 <= a && a + entry.len() <= ctx.len() && #[trigger] ctx.subrange(a, a + entry.len())
                    == entry
        }),
{
    let g = |x: FileRecord| memory::structure_entry(x);
    let es = files.map_values(g);
    let entry = "File: "@ + files[i].path@ + "\n"@ + skeleton::signatures(files[i].content@) + "\n"@;
    assert(es[i] == entry);
    lemma_concat_split(es, i);
    let before = memory::task_section(task) + memory::check_section(check) + memory::summary_section(
        summary,
    ) + memory::relevant_section(question, files) + "### PROJECT STRUCTURE (SKELETON) ###\n"@
        + text::concat(es.take(i));
    let after = text::concat(es.skip(i + 1)) + seq!['\n'] + memory::conversation_section(
        window_size,
        recent,
    );
    let ctx = memory::context_text(window_size, task, check, summary, files, question, recent);
    assert(ctx =~= before + entry + after);
    let a = before.len() as int;
    assert(ctx.subrange(a, a + entry.len()) =~= entry);
}

/// Word `k` of line `j` of the skeleton of a text: the line trimmed and
/// stripped of trailing `...`, split at whitespace.
pub open spec fn skeleton_word(content: Seq<char>, j: int, k: int) -> Seq<char> {
    text::words(
        text::trim_end_matches(text::trim(text::lines(skeleton::signatures(content))[j]), "..."@),
    )[k]
}

/// A file is found for a question when any word of any line of its
/// skeleton — lowercased, longer than two bytes, and none of `fn`, `pub`,
/// `let`, `mut`, `impl`, `struct`, `enum` — occurs in the lowercased
/// question; the file is then shown with its path and text.
pub proof fn law_any_skeleton_word_finds_the_file(
    question: Seq<char>,
    files: Seq<FileRecord>,
    i: int,
    j: int,
    k: int,
)
    requires
        0 <= i < files.len(),
        0 <= j < text::lines(skeleton::signatures(files[i].content@)).len(),
        0 <= k < text::words(
            text::trim_end_matches(
                text::trim(text::lines(skeleton::signatures(files[i].content@))[j]),
                "..."@,
            ),
        ).len(),
        vstd::utf8::encode_utf8(
            text::lowercase(skeleton_word(files[i].content@, j, k)),
        ).len() > 2,
        ({
            let w = text::lowercase(skeleton_word(files[i].content@, j, k));
            &&& w != "fn"@
            &&& w != "pub"@
            &&& w != "let"@
            &&& w != "mut"@
            &&& w != "impl"@
            &&& w != "struct"@
            &&& w != "enum"@
        }),
        exists|a: int|
            0 <= a && a + text::lowercase(skeleton_word(files[i].content@, j, k)).len()
                <= text::lowercase(question).len() && #[trigger] text::lowercase(question).subrange(
                a,
                a + text::lowercase(skeleton_word(files[i].content@, j, k)).len(),
            ) == text::lowercase(skeleton_word(files[i].content@, j, k)),
    ensures
        memory::relevant_entries(text::lowercase(question), files).contains(
            "=== "@ + files[i].path@ + " ===\n"@ + files[i].content@,
        ),
{
    let q = text::lowercase(question);
    let c = files[i].content@;
    let sigs = skeleton::signatures(c);
    let w = text::lowercase(skeleton_word(c, j, k));
    text::lemma_contains_occurs(q, w);
    assert(text::contains(q, w));
    assert(memory::line_words(text::lines(sigs)[j])[k] == skeleton_word(c, j, k));
    assert(memory::word_hits(q, memory::line_words(text::lines(sigs)[j])[k]));
    assert(memory::skeleton_hits(q, sigs));
    assert(memory::is_relevant(q, files[i]));
    law_relevant_entries_are_the_relevant_files(q, files, i);
}

} // verus!
