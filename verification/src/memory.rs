//! Choosing the files a question is about, and composing the prompt
//! context from the stored project state.

use vstd::prelude::*;
use crate::error_context::{self, ErrorContext, format_for_context};
use crate::models::{ChatMessage, FileRecord};
use crate::skeleton::{self, extract_signatures};
use crate::text::{
    self, chars_eq, chars_of, contains_chars, lines_of, push_char, push_chars, replace_chars,
    split_on, string_of, to_lowercase, trim_end_matches_of, trimmed, words_of,
};

verus! {

/// Words too common in signatures to point at a file.
pub open spec fn is_keyword(w: Seq<char>) -> bool {
    ||| w == "fn"@
    ||| w == "pub"@
    ||| w == "let"@
    ||| w == "mut"@
    ||| w == "impl"@
    ||| w == "struct"@
    ||| w == "enum"@
}

/// A word of a signature points at its file when, lowercased, it is longer
/// than two bytes, is no keyword, and occurs in the lowercased question.
pub open spec fn word_hits(q: Seq<char>, word: Seq<char>) -> bool {
    let w = text::lowercase(word);
    &&& !(vstd::utf8::encode_utf8(w).len() <= 2 || is_keyword(w))
    &&& text::contains(q, w)
}

/// The words of a skeleton line: trimmed, without trailing `...`.
pub open spec fn line_words(line: Seq<char>) -> Seq<Seq<char>> {
    text::words(text::trim_end_matches(text::trim(line), "..."@))
}

/// Some word of some line of the skeleton `sigs` points at its file.
pub open spec fn skeleton_hits(q: Seq<char>, sigs: Seq<char>) -> bool {
    exists|j: int, k: int|
        0 <= j < text::lines(sigs).len() && 0 <= k < line_words(text::lines(sigs)[j]).len()
            && #[trigger] word_hits(q, line_words(text::lines(sigs)[j])[k])
}

/// The name of a file without directories and without `.rs`.
pub open spec fn file_stem(lower_path: Seq<char>) -> Seq<char> {
    text::replace_all(text::split_char(lower_path, '/').last(), ".rs"@, ""@)
}

/// A file is relevant to the lowercased question `q` when `q` mentions its
/// stem or its path, or a word of its skeleton.
pub open spec fn is_relevant(q: Seq<char>, file: FileRecord) -> bool {
    let lower = text::lowercase(file.path@);
    ||| text::contains(q, file_stem(lower))
    ||| text::contains(q, lower)
    ||| skeleton_hits(q, skeleton::signatures(file.content@))
}

/// How a relevant file is shown: a header with its path, then its text.
pub open spec fn relevant_entry(file: FileRecord) -> Seq<char> {
    "=== "@ + file.path@ + " ===\n"@ + file.content@
}

/// The entries of the files relevant to the lowercased question `q`, in
/// file order.
pub open spec fn relevant_entries(q: Seq<char>, files: Seq<FileRecord>) -> Seq<Seq<char>>
    decreases files.len(),
{
    if files.len() == 0 {
        Seq::empty()
    } else {
        let r = relevant_entries(q, files.drop_last());
        if is_relevant(q, files.last()) {
            r.push(relevant_entry(files.last()))
        } else {
            r
        }
    }
}

fn is_keyword_of(w: &[char]) -> (r: bool)
    ensures
        r == is_keyword(w@),
{
    chars_eq(w, chars_of("fn").as_slice()) || chars_eq(w, chars_of("pub").as_slice()) || chars_eq(
        w,
        chars_of("let").as_slice(),
    ) || chars_eq(w, chars_of("mut").as_slice()) || chars_eq(w, chars_of("impl").as_slice())
        || chars_eq(w, chars_of("struct").as_slice()) || chars_eq(
        w,
        chars_of("enum").as_slice(),
    )
}

proof fn lemma_encode_len(s: Seq<char>)
    ensures
        vstd::utf8::encode_utf8(s).len() >= s.len(),
    decreases s.len(),
{
    if s.len() > 0 {
        lemma_encode_len(s.drop_first());
    }
}

fn utf8_width_one(c: char) -> (r: bool)
    ensures
        r == (vstd::utf8::encode_scalar(c as u32).len() == 1),
{
    (c as u32) <= 0x7f
}

fn utf8_width_at_most_two(c: char) -> (r: bool)
    ensures
        r == (vstd::utf8::encode_scalar(c as u32).len() <= 2),
{
    (c as u32) <= 0x7ff
}

/// Whether the UTF-8 encoding of `s` has at most two bytes.
fn utf8_len_at_most_two(s: &[char]) -> (r: bool)
    ensures
        r == (vstd::utf8::encode_utf8(s@).len() <= 2),
{
    proof {
        lemma_encode_len(s@);
        reveal_with_fuel(vstd::utf8::encode_utf8, 3);
    }
    if s.len() == 0 {
        true
    } else if s.len() == 1 {
        assert(s@.drop_first() =~= Seq::<char>::empty());
        utf8_width_at_most_two(s[0])
    } else if s.len() == 2 {
        assert(s@.drop_first().drop_first() =~= Seq::<char>::empty());
        utf8_width_one(s[0]) && utf8_width_one(s[1])
    } else {
        false
    }
}

fn word_hits_of(q: &[char], word: &[char]) -> (r: bool)
    ensures
        r == word_hits(q@, word@),
{
    let w = to_lowercase(string_of(word).as_str());
    let wc = chars_of(w.as_str());
    if utf8_len_at_most_two(wc.as_slice()) {
        return false;
    }
    if is_keyword_of(wc.as_slice()) {
        return false;
    }
    contains_chars(q, wc.as_slice())
}

/// Whether some word of some line of the skeleton `sigs` points at its file.
pub fn skeleton_hits_of(q: &[char], sigs: &str) -> (r: bool)
    ensures
        r == skeleton_hits(q@, sigs@),
{
    let ls = lines_of(chars_of(sigs).as_slice());
    let dots = chars_of("...");
    let n = ls.len();
    for j in 0..n
        invariant
            n == ls@.len(),
            text::views(ls@) == text::lines(sigs@),
            dots@ == "..."@,
            forall|jj: int, k: int|
                0 <= jj < j && 0 <= k < line_words(text::lines(sigs@)[jj]).len() ==> !word_hits(
                    q@,
                    #[trigger] line_words(text::lines(sigs@)[jj])[k],
                ),
    {
        let t = trimmed(ls[j].as_slice());
        let stripped = trim_end_matches_of(t.as_slice(), dots.as_slice());
        let ws = words_of(stripped.as_slice());
        assert(text::lines(sigs@)[j as int] == ls@[j as int]@);
        assert(text::views(ws@) == line_words(text::lines(sigs@)[j as int]));
        let m = ws.len();
        for k in 0..m
            invariant
                m == ws@.len(),
                j < n == ls@.len(),
                text::views(ls@) == text::lines(sigs@),
                text::views(ws@) == line_words(text::lines(sigs@)[j as int]),
                forall|kk: int| 0 <= kk < k ==> !word_hits(q@, #[trigger] text::views(ws@)[kk]),
        {
            assert(text::views(ws@)[k as int] == ws@[k as int]@);
            if word_hits_of(q, ws[k].as_slice()) {
                assert(word_hits(q@, line_words(text::lines(sigs@)[j as int])[k as int]));
                return true;
            }
        }
    }
    false
}

/// Whether a file is relevant to the lowercased question `q`.
pub fn is_relevant_file(q: &[char], file: &FileRecord) -> (r: bool)
    ensures
        r == is_relevant(q@, *file),
{
    let lower = to_lowercase(file.path.as_str());
    let lc = chars_of(lower.as_str());
    let pieces = split_on(lc.as_slice(), '/');
    proof {
        text::lemma_split_char_len(lc@, '/');
    }
    let last = pieces.len() - 1;
    assert(pieces@[last as int]@ == text::split_char(lc@, '/').last());
    let stem = replace_chars(pieces[last].as_slice(), chars_of(".rs").as_slice(), chars_of("").as_slice());
    if contains_chars(q, stem.as_slice()) {
        return true;
    }
    if contains_chars(q, lc.as_slice()) {
        return true;
    }
    let sigs = extract_signatures(file.content.as_str());
    skeleton_hits_of(q, sigs.as_str())
}

fn relevant_entry_of(file: &FileRecord) -> (r: Vec<char>)
    ensures
        r@ == relevant_entry(*file),
{
    let mut e = String::new();
    e.append("=== ");
    e.append(file.path.as_str());
    e.append(" ===\n");
    e.append(file.content.as_str());
    chars_of(e.as_str())
}

/// The files a question is about, each shown with a header naming its path
/// followed by its text, in file order.
pub fn find_relevant_files(question: &str, files: &Vec<FileRecord>) -> (r: Vec<String>)
    ensures
        text::string_views(r@) == relevant_entries(text::lowercase(question@), files@),
{
    let q = to_lowercase(question);
    let qc = chars_of(q.as_str());
    let mut out: Vec<String> = Vec::new();
    let n = files.len();
    for i in 0..n
        invariant
            n == files@.len(),
            qc@ == text::lowercase(question@),
            text::string_views(out@) == relevant_entries(qc@, files@.take(i as int)),
    {
        assert(files@.take(i + 1).drop_last() =~= files@.take(i as int));
        if is_relevant_file(qc.as_slice(), &files[i]) {
            let ghost old_out = out@;
            let e = string_of(relevant_entry_of(&files[i]).as_slice());
            out.push(e);
            assert(text::string_views(out@) =~= text::string_views(old_out).push(e@));
        }
    }
    assert(files@.take(n as int) =~= files@);
    out
}

/// A conversation line: the role, a colon, and the text.
pub open spec fn chat_line(m: ChatMessage) -> Seq<char> {
    m.role@ + ": "@ + m.content@
}

/// The conversation lines of `recent`, given newest first, oldest first.
pub open spec fn oldest_first(recent: Seq<ChatMessage>) -> Seq<Seq<char>>
    decreases recent.len(),
{
    if recent.len() == 0 {
        Seq::empty()
    } else {
        oldest_first(recent.drop_first()).push(chat_line(recent[0]))
    }
}

/// The conversation lines of `recent`, given newest first, oldest first.
pub fn chat_lines(recent: &Vec<ChatMessage>) -> (r: Vec<Vec<char>>)
    ensures
        text::views(r@) == oldest_first(recent@),
{
    let mut out: Vec<Vec<char>> = Vec::new();
    let n = recent.len();
    let mut j = n;
    assert(recent@.skip(n as int) =~= Seq::<ChatMessage>::empty());
    while j > 0
        invariant
            j <= n == recent@.len(),
            text::views(out@) == oldest_first(recent@.skip(j as int)),
        decreases j,
    {
        let ghost old_out = out@;
        let m = &recent[j - 1];
        let mut line = String::new();
        line.append(m.role.as_str());
        line.append(": ");
        line.append(m.content.as_str());
        let lc = chars_of(line.as_str());
        out.push(lc);
        assert(recent@.skip(j - 1).drop_first() =~= recent@.skip(j as int));
        assert(recent@.skip(j - 1)[0] == recent@[j - 1]);
        assert(text::views(out@) =~= text::views(old_out).push(lc@));
        j = j - 1;
    }
    assert(recent@.skip(0) =~= recent@);
    out
}

/// The task section.
pub open spec fn task_section(task: Option<Seq<char>>) -> Seq<char> {
    match task {
        Some(t) => "### CURRENT TASK ###\n"@ + t + "\n\n"@,
        None => Seq::empty(),
    }
}

/// The `cargo check` section, where a check was run.
pub open spec fn check_section(check: Option<ErrorContext>) -> Seq<char> {
    match check {
        Some(c) => error_context::context_section(
            c.has_errors,
            c.output@,
            text::string_views(c.affected_files@),
        ) + seq!['\n'],
        None => Seq::empty(),
    }
}

/// The summary section; without a stored summary it says so.
pub open spec fn summary_section(summary: Option<Seq<char>>) -> Seq<char> {
    let s = match summary {
        Some(s) => s,
        None => "No previous summary."@,
    };
    "### OVERALL PROJECT SUMMARY ###\n"@ + s + "\n\n"@
}

/// The section with the files relevant to the question, where there is a
/// question and some file is relevant.
pub open spec fn relevant_section(question: Option<Seq<char>>, files: Seq<FileRecord>) -> Seq<
    char,
> {
    match question {
        Some(q) => {
            let rel = relevant_entries(text::lowercase(q), files);
            if rel.len() == 0 {
                Seq::empty()
            } else {
                "### RELEVANT FILE CONTENTS ###\n"@ + text::concat(
                    rel.map_values(|e: Seq<char>| e + "\n\n"@),
                )
            }
        },
        None => Seq::empty(),
    }
}

/// One file of the project structure: its path and skeleton, where the
/// skeleton is not empty.
pub open spec fn structure_entry(file: FileRecord) -> Seq<char> {
    let sigs = skeleton::signatures(file.content@);
    if sigs.len() == 0 {
        Seq::empty()
    } else {
        "File: "@ + file.path@ + "\n"@ + sigs + "\n"@
    }
}

/// The project structure section.
pub open spec fn structure_section(files: Seq<FileRecord>) -> Seq<char> {
    "### PROJECT STRUCTURE (SKELETON) ###\n"@ + text::concat(
        files.map_values(|f: FileRecord| structure_entry(f)),
    ) + seq!['\n']
}

/// The recent conversation, oldest first, where a window was asked for.
pub open spec fn conversation_section(window_size: usize, recent: Seq<ChatMessage>) -> Seq<char> {
    if window_size > 0 {
        "### RECENT CONVERSATION ###\n"@ + text::concat(
            oldest_first(recent).map_values(|l: Seq<char>| l + "\n"@),
        )
    } else {
        Seq::empty()
    }
}

/// The whole context, section by section.
pub open spec fn context_text(
    window_size: usize,
    task: Option<Seq<char>>,
    check: Option<ErrorContext>,
    summary: Option<Seq<char>>,
    files: Seq<FileRecord>,
    question: Option<Seq<char>>,
    recent: Seq<ChatMessage>,
) -> Seq<char> {
    task_section(task) + check_section(check) + summary_section(summary) + relevant_section(
        question,
        files,
    ) + structure_section(files) + conversation_section(window_size, recent)
}

proof fn lemma_concat_push(parts: Seq<Seq<char>>, x: Seq<char>)
    ensures
        text::concat(parts.push(x)) == text::concat(parts) + x,
{
    assert(parts.push(x).drop_last() =~= parts);
}

fn append_relevant(prompt: &mut String, question: Option<&str>, all_files: &Vec<FileRecord>)
    ensures
        final(prompt)@ == old(prompt)@ + relevant_section(text::opt_view(question), all_files@),
{
    if let Some(q) = question {
        let relevant = find_relevant_files(q, all_files);
        let ghost rel = text::string_views(relevant@);
        if relevant.len() > 0 {
            prompt.append("### RELEVANT FILE CONTENTS ###\n");
            let ghost base = prompt@;
            let n = relevant.len();
            for i in 0..n
                invariant
                    n == relevant@.len(),
                    rel == text::string_views(relevant@),
                    prompt@ == base + text::concat(
                        rel.take(i as int).map_values(|e: Seq<char>| e + "\n\n"@),
                    ),
            {
                proof {
                    assert(rel.take(i + 1).map_values(|e: Seq<char>| e + "\n\n"@) =~= rel.take(
                        i as int,
                    ).map_values(|e: Seq<char>| e + "\n\n"@).push(rel[i as int] + "\n\n"@));
                    lemma_concat_push(
                        rel.take(i as int).map_values(|e: Seq<char>| e + "\n\n"@),
                        rel[i as int] + "\n\n"@,
                    );
                }
                prompt.append(relevant[i].as_str());
                prompt.append("\n\n");
            }
            assert(rel.take(n as int) =~= rel);
        }
    }
}

fn append_structure(prompt: &mut String, all_files: &Vec<FileRecord>)
    ensures
        final(prompt)@ == old(prompt)@ + structure_section(all_files@),
{
    prompt.append("### PROJECT STRUCTURE (SKELETON) ###\n");
    let ghost base = prompt@;
    let n = all_files.len();
    for i in 0..n
        invariant
            n == all_files@.len(),
            prompt@ == base + text::concat(
                all_files@.take(i as int).map_values(|f: FileRecord| structure_entry(f)),
            ),
    {
        let ghost before = prompt@;
        let file = &all_files[i];
        let sigs = extract_signatures(file.content.as_str());
        if !sigs.as_str().is_empty() {
            prompt.append("File: ");
            prompt.append(file.path.as_str());
            prompt.append("\n");
            prompt.append(sigs.as_str());
            prompt.append("\n");
        }
        proof {
            assert(prompt@ =~= before + structure_entry(all_files@[i as int]));
            assert(all_files@.take(i + 1).map_values(|f: FileRecord| structure_entry(f))
                =~= all_files@.take(i as int).map_values(|f: FileRecord| structure_entry(f)).push(
                structure_entry(all_files@[i as int]),
            ));
            lemma_concat_push(
                all_files@.take(i as int).map_values(|f: FileRecord| structure_entry(f)),
                structure_entry(all_files@[i as int]),
            );
        }
    }
    assert(all_files@.take(n as int) =~= all_files@);
    push_char(prompt, '\n');
}

fn append_conversation(prompt: &mut String, window_size: usize, recent: &Vec<ChatMessage>)
    ensures
        final(prompt)@ == old(prompt)@ + conversation_section(window_size, recent@),
{
    if window_size > 0 {
        prompt.append("### RECENT CONVERSATION ###\n");
        let ghost base = prompt@;
        let lines = chat_lines(recent);
        let ghost ls = text::views(lines@);
        let m = lines.len();
        for i in 0..m
            invariant
                m == lines@.len(),
                ls == text::views(lines@),
                prompt@ == base + text::concat(
                    ls.take(i as int).map_values(|l: Seq<char>| l + "\n"@),
                ),
        {
            proof {
                assert(ls.take(i + 1).map_values(|l: Seq<char>| l + "\n"@) =~= ls.take(
                    i as int,
                ).map_values(|l: Seq<char>| l + "\n"@).push(ls[i as int] + "\n"@));
                lemma_concat_push(
                    ls.take(i as int).map_values(|l: Seq<char>| l + "\n"@),
                    ls[i as int] + "\n"@,
                );
                assert(ls[i as int] == lines@[i as int]@);
            }
            push_chars(prompt, lines[i].as_slice());
            prompt.append("\n");
        }
        assert(ls.take(m as int) =~= ls);
    }
}

/// Composes the prompt context: the task, the outcome of `cargo check`, the
/// stored summary, the files relevant to the question, the skeleton of every
/// file, and the recent conversation (given newest first) when
/// `window_size` is positive.
pub fn assemble_context(
    window_size: usize,
    task: Option<&str>,
    check: &Option<ErrorContext>,
    summary: Option<String>,
    all_files: &Vec<FileRecord>,
    question: Option<&str>,
    recent: &Vec<ChatMessage>,
) -> (r: String)
    ensures
        r@ == context_text(
            window_size,
            text::opt_view(task),
            *check,
            match summary {
                Some(s) => Some(s@),
                None => None,
            },
            all_files@,
            text::opt_view(question),
            recent@,
        ),
{
    let mut prompt = String::new();
    if let Some(t) = task {
        prompt.append("### CURRENT TASK ###\n");
        prompt.append(t);
        prompt.append("\n\n");
    }
    if let Some(ctx) = check {
        let section = format_for_context(ctx);
        prompt.append(section.as_str());
        push_char(&mut prompt, '\n');
    }
    let ghost p2 = prompt@;
    assert(p2 =~= task_section(text::opt_view(task)) + check_section(*check));
    prompt.append("### OVERALL PROJECT SUMMARY ###\n");
    match &summary {
        Some(s) => prompt.append(s.as_str()),
        None => prompt.append("No previous summary."),
    }
    prompt.append("\n\n");
    let ghost sv = match summary {
        Some(s) => Some(s@),
        None => None,
    };
    assert(prompt@ =~= p2 + summary_section(sv));
    append_relevant(&mut prompt, question, all_files);
    append_structure(&mut prompt, all_files);
    append_conversation(&mut prompt, window_size, recent);
    assert(prompt@ =~= context_text(
        window_size,
        text::opt_view(task),
        *check,
        sv,
        all_files@,
        text::opt_view(question),
        recent@,
    ));
    prompt
}

} // verus!
