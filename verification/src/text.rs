//! Character-level text operations and their mathematical meaning.
//!
//! Every string is modelled by its sequence of characters (`Seq<char>`).
//! The spec functions here say what std's `str` methods compute
//! (`split`, `split_whitespace`, `lines`, `trim`, `contains`, `replace`, ...),
//! and the executable functions compute them on `Vec<char>` buffers.

use vstd::prelude::*;

verus! {

// ---------------------------------------------------------------------------
// Conversions between `str`/`String` and character buffers
// ---------------------------------------------------------------------------

/// Appends one character to a `String` (std's `String::push`).
/// Trusted: the new contents are the old contents followed by `c`.
#[verifier::external_body]
pub fn push_char(s: &mut String, c: char)
    ensures
        final(s)@ == old(s)@.push(c),
{
    s.push(c);
}

/// The views of a sequence of character buffers.
pub open spec fn views(v: Seq<Vec<char>>) -> Seq<Seq<char>> {
    v.map_values(|x: Vec<char>| x@)
}

/// The views of a sequence of strings.
pub open spec fn string_views(v: Seq<String>) -> Seq<Seq<char>> {
    v.map_values(|x: String| x@)
}

/// The characters of `s`, in order.
pub fn chars_of(s: &str) -> (v: Vec<char>)
    ensures
        v@ == s@,
{
    let mut v: Vec<char> = Vec::new();
    for c in it: s.chars()
        invariant
            v@ == it.seq().take(it.index() as int),
    {
        v.push(c);
    }
    v
}

/// A `String` holding exactly the characters of `v`.
pub fn string_of(v: &[char]) -> (s: String)
    ensures
        s@ == v@,
{
    let mut s = String::new();
    let n = v.len();
    for i in 0..n
        invariant
            n == v@.len(),
            s@ == v@.take(i as int),
    {
        push_char(&mut s, v[i]);
        assert(v@.take(i + 1) =~= v@.take(i as int).push(v@[i as int]));
    }
    assert(v@.take(n as int) =~= v@);
    s
}

/// Appends the characters of `v` to `s`.
pub fn push_chars(s: &mut String, v: &[char])
    ensures
        final(s)@ == old(s)@ + v@,
{
    let n = v.len();
    for i in 0..n
        invariant
            n == v@.len(),
            s@ == old(s)@ + v@.take(i as int),
    {
        push_char(s, v[i]);
        assert(v@.take(i + 1) =~= v@.take(i as int).push(v@[i as int]));
    }
    assert(v@.take(n as int) =~= v@);
}

/// A copy of `s[lo..hi]`.
pub fn slice_of(s: &[char], lo: usize, hi: usize) -> (r: Vec<char>)
    requires
        lo <= hi <= s@.len(),
    ensures
        r@ == s@.subrange(lo as int, hi as int),
{
    let mut r: Vec<char> = Vec::new();
    let mut i = lo;
    while i < hi
        invariant
            lo <= i <= hi <= s@.len(),
            r@ == s@.subrange(lo as int, i as int),
        decreases hi - i,
    {
        r.push(s[i]);
        assert(s@.subrange(lo as int, i + 1) =~= s@.subrange(lo as int, i as int).push(s@[i as int]));
        i = i + 1;
    }
    r
}

/// Whether two character sequences are equal.
pub fn chars_eq(a: &[char], b: &[char]) -> (r: bool)
    ensures
        r == (a@ == b@),
{
    if a.len() != b.len() {
        return false;
    }
    let n = a.len();
    for i in 0..n
        invariant
            n == a@.len() == b@.len(),
            forall|j: int| 0 <= j < i ==> a@[j] == b@[j],
    {
        if a[i] != b[i] {
            return false;
        }
    }
    assert(a@ =~= b@);
    true
}

// ---------------------------------------------------------------------------
// Whitespace
// ---------------------------------------------------------------------------

/// Unicode `White_Space` (what `char::is_whitespace` tests).
pub open spec fn is_ws(c: char) -> bool {
    ||| ('\u{9}' <= c && c <= '\u{d}')
    ||| c == ' '
    ||| c == '\u{85}'
    ||| c == '\u{a0}'
    ||| c == '\u{1680}'
    ||| ('\u{2000}' <= c && c <= '\u{200a}')
    ||| c == '\u{2028}'
    ||| c == '\u{2029}'
    ||| c == '\u{202f}'
    ||| c == '\u{205f}'
    ||| c == '\u{3000}'
}

pub fn is_whitespace(c: char) -> (b: bool)
    ensures
        b == is_ws(c),
{
    ('\u{9}' <= c && c <= '\u{d}') || c == ' ' || c == '\u{85}' || c == '\u{a0}' || c
        == '\u{1680}' || ('\u{2000}' <= c && c <= '\u{200a}') || c == '\u{2028}' || c
        == '\u{2029}' || c == '\u{202f}' || c == '\u{205f}' || c == '\u{3000}'
}

/// `s` without its leading whitespace.
pub open spec fn trim_start(s: Seq<char>) -> Seq<char>
    decreases s.len(),
{
    if s.len() > 0 && is_ws(s[0]) {
        trim_start(s.drop_first())
    } else {
        s
    }
}

/// `s` without its trailing whitespace.
pub open spec fn trim_end(s: Seq<char>) -> Seq<char>
    decreases s.len(),
{
    if s.len() > 0 && is_ws(s.last()) {
        trim_end(s.drop_last())
    } else {
        s
    }
}

/// `s` without leading and trailing whitespace (`str::trim`).
pub open spec fn trim(s: Seq<char>) -> Seq<char> {
    trim_end(trim_start(s))
}

/// `trim(s)` is `s[lo..hi]` for the bounds returned.
pub fn trim_bounds(s: &[char]) -> (r: (usize, usize))
    ensures
        r.0 <= r.1 <= s@.len(),
        trim(s@) == s@.subrange(r.0 as int, r.1 as int),
{
    let n = s.len();
    let mut a: usize = 0;
    assert(s@.subrange(0, n as int) =~= s@);
    while a < n && is_whitespace(s[a])
        invariant
            a <= n == s@.len(),
            trim_start(s@) == trim_start(s@.subrange(a as int, n as int)),
        decreases n - a,
    {
        assert(s@.subrange(a as int, n as int).drop_first() =~= s@.subrange(a + 1, n as int));
        a = a + 1;
    }
    let mut b: usize = n;
    while b > a && is_whitespace(s[b - 1])
        invariant
            a <= b <= n == s@.len(),
            trim_end(s@.subrange(a as int, n as int)) == trim_end(
                s@.subrange(a as int, b as int),
            ),
        decreases b - a,
    {
        assert(s@.subrange(a as int, b as int).drop_last() =~= s@.subrange(a as int, b - 1));
        b = b - 1;
    }
    (a, b)
}

/// A copy of `trim(s)`.
pub fn trimmed(s: &[char]) -> (r: Vec<char>)
    ensures
        r@ == trim(s@),
{
    let (a, b) = trim_bounds(s);
    slice_of(s, a, b)
}

// ---------------------------------------------------------------------------
// Splitting
// ---------------------------------------------------------------------------

/// The pieces of `s` between occurrences of `sep`, as `str::split(sep)` yields
/// them (always at least one piece).
pub open spec fn split_char(s: Seq<char>, sep: char) -> Seq<Seq<char>>
    decreases s.len(),
{
    if s.len() == 0 {
        seq![Seq::<char>::empty()]
    } else {
        let p = split_char(s.drop_last(), sep);
        if s.last() == sep {
            p.push(Seq::<char>::empty())
        } else {
            p.update(p.len() - 1, p.last().push(s.last()))
        }
    }
}

/// The pieces of `s` between whitespace characters, empty pieces included.
pub open spec fn split_ws(s: Seq<char>) -> Seq<Seq<char>>
    decreases s.len(),
{
    if s.len() == 0 {
        seq![Seq::<char>::empty()]
    } else {
        let p = split_ws(s.drop_last());
        if is_ws(s.last()) {
            p.push(Seq::<char>::empty())
        } else {
            p.update(p.len() - 1, p.last().push(s.last()))
        }
    }
}

/// The non-empty members of `v`, in order.
pub open spec fn non_empty(v: Seq<Seq<char>>) -> Seq<Seq<char>>
    decreases v.len(),
{
    if v.len() == 0 {
        v
    } else if v.last().len() > 0 {
        non_empty(v.drop_last()).push(v.last())
    } else {
        non_empty(v.drop_last())
    }
}

/// The words of `s` (`str::split_whitespace`).
pub open spec fn words(s: Seq<char>) -> Seq<Seq<char>> {
    non_empty(split_ws(s))
}

pub proof fn lemma_split_char_len(s: Seq<char>, sep: char)
    ensures
        split_char(s, sep).len() >= 1,
    decreases s.len(),
{
    if s.len() > 0 {
        lemma_split_char_len(s.drop_last(), sep);
    }
}

/// The pieces of `s` between occurrences of `sep`.
pub fn split_on(s: &[char], sep: char) -> (r: Vec<Vec<char>>)
    ensures
        views(r@) == split_char(s@, sep),
{
    let n = s.len();
    let mut out: Vec<Vec<char>> = Vec::new();
    let mut cur: Vec<char> = Vec::new();
    assert(s@.take(0) =~= Seq::<char>::empty());
    assert(views(out@).push(cur@) =~= split_char(s@.take(0), sep));
    for i in 0..n
        invariant
            n == s@.len(),
            views(out@).push(cur@) == split_char(s@.take(i as int), sep),
    {
        let ghost old_out = out@;
        let ghost old_cur = cur@;
        proof {
            assert(s@.take(i + 1).drop_last() =~= s@.take(i as int));
            assert(s@.take(i + 1).last() == s@[i as int]);
        }
        if s[i] == sep {
            out.push(cur);
            cur = Vec::new();
            assert(views(out@) =~= views(old_out).push(old_cur));
            assert(views(out@).push(cur@) =~= views(old_out).push(old_cur).push(
                Seq::<char>::empty(),
            ));
        } else {
            cur.push(s[i]);
            assert(views(out@).push(cur@) =~= views(old_out).push(old_cur).update(
                views(old_out).len() as int,
                old_cur.push(s@[i as int]),
            ));
        }
    }
    out.push(cur);
    assert(s@.take(n as int) =~= s@);
    assert(views(out@) =~= views(out@.drop_last()).push(out@.last()@));
    out
}

/// The pieces of `s` between whitespace characters, empty pieces included.
pub fn split_on_ws(s: &[char]) -> (r: Vec<Vec<char>>)
    ensures
        views(r@) == split_ws(s@),
{
    let n = s.len();
    let mut out: Vec<Vec<char>> = Vec::new();
    let mut cur: Vec<char> = Vec::new();
    assert(s@.take(0) =~= Seq::<char>::empty());
    assert(views(out@).push(cur@) =~= split_ws(s@.take(0)));
    for i in 0..n
        invariant
            n == s@.len(),
            views(out@).push(cur@) == split_ws(s@.take(i as int)),
    {
        let ghost old_out = out@;
        let ghost old_cur = cur@;
        proof {
            assert(s@.take(i + 1).drop_last() =~= s@.take(i as int));
            assert(s@.take(i + 1).last() == s@[i as int]);
        }
        if is_whitespace(s[i]) {
            out.push(cur);
            cur = Vec::new();
            assert(views(out@) =~= views(old_out).push(old_cur));
            assert(views(out@).push(cur@) =~= views(old_out).push(old_cur).push(
                Seq::<char>::empty(),
            ));
        } else {
            cur.push(s[i]);
            assert(views(out@).push(cur@) =~= views(old_out).push(old_cur).update(
                views(old_out).len() as int,
                old_cur.push(s@[i as int]),
            ));
        }
    }
    out.push(cur);
    assert(s@.take(n as int) =~= s@);
    assert(views(out@) =~= views(out@.drop_last()).push(out@.last()@));
    out
}

/// The words of `s`.
pub fn words_of(s: &[char]) -> (r: Vec<Vec<char>>)
    ensures
        views(r@) == words(s@),
{
    let pieces = split_on_ws(s);
    let mut out: Vec<Vec<char>> = Vec::new();
    let n = pieces.len();
    for i in 0..n
        invariant
            n == pieces@.len(),
            views(out@) == non_empty(views(pieces@).take(i as int)),
    {
        let ghost old_out = out@;
        proof {
            assert(views(pieces@).take(i + 1).drop_last() =~= views(pieces@).take(i as int));
        }
        if pieces[i].len() > 0 {
            out.push(slice_of(pieces[i].as_slice(), 0, pieces[i].len()));
            assert(pieces@[i as int]@.subrange(0, pieces@[i as int]@.len() as int)
                =~= pieces@[i as int]@);
            assert(views(out@) =~= views(old_out).push(pieces@[i as int]@));
        }
    }
    assert(views(pieces@).take(n as int) =~= views(pieces@));
    out
}

// ---------------------------------------------------------------------------
// Lines
// ---------------------------------------------------------------------------

/// `l` without one trailing carriage return.
pub open spec fn drop_cr(l: Seq<char>) -> Seq<char> {
    if l.len() > 0 && l.last() == '\r' {
        l.drop_last()
    } else {
        l
    }
}

/// The lines of `s` (`str::lines`): split at `\n`, a `\r` just before a `\n`
/// is dropped, and a final empty line is not a line.
pub open spec fn lines(s: Seq<char>) -> Seq<Seq<char>> {
    let p = split_char(s, '\n');
    let ended = p.drop_last().map_values(|l: Seq<char>| drop_cr(l));
    if p.last().len() == 0 {
        ended
    } else {
        ended.push(p.last())
    }
}

pub fn drop_cr_of(l: &[char]) -> (r: Vec<char>)
    ensures
        r@ == drop_cr(l@),
{
    if l.len() > 0 && l[l.len() - 1] == '\r' {
        slice_of(l, 0, l.len() - 1)
    } else {
        slice_of(l, 0, l.len())
    }
}

/// The lines of `s`.
pub fn lines_of(s: &[char]) -> (r: Vec<Vec<char>>)
    ensures
        views(r@) == lines(s@),
{
    let pieces = split_on(s, '\n');
    proof {
        lemma_split_char_len(s@, '\n');
    }
    let n = pieces.len();
    let ghost p = views(pieces@);
    let mut out: Vec<Vec<char>> = Vec::new();
    for i in 0..n - 1
        invariant
            n == pieces@.len() >= 1,
            p == views(pieces@),
            views(out@) == p.take(i as int).map_values(|l: Seq<char>| drop_cr(l)),
    {
        let ghost old_out = out@;
        let line = drop_cr_of(pieces[i].as_slice());
        assert(p[i as int] == pieces@[i as int]@);
        out.push(line);
        assert(views(out@) =~= views(old_out).push(line@));
        assert(p.take(i + 1).map_values(|l: Seq<char>| drop_cr(l)) =~= p.take(
            i as int,
        ).map_values(|l: Seq<char>| drop_cr(l)).push(drop_cr(p[i as int])));
    }
    assert(p.take(n - 1) =~= p.drop_last());
    if pieces[n - 1].len() > 0 {
        let ghost before = out@;
        let last = slice_of(pieces[n - 1].as_slice(), 0, pieces[n - 1].len());
        assert(last@ =~= pieces@[n - 1]@);
        assert(p.last() == pieces@[n - 1]@);
        out.push(last);
        assert(views(out@) =~= views(before).push(p.last()));
    }
    out
}

// ---------------------------------------------------------------------------
// Substrings
// ---------------------------------------------------------------------------

/// `s` begins with `p`.
pub open spec fn starts_with(s: Seq<char>, p: Seq<char>) -> bool {
    p.len() <= s.len() && s.take(p.len() as int) == p
}

/// `s` ends with `p`.
pub open spec fn ends_with(s: Seq<char>, p: Seq<char>) -> bool {
    p.len() <= s.len() && s.skip(s.len() - p.len()) == p
}

/// `p` occurs in `s` (`str::contains`).
pub open spec fn contains(s: Seq<char>, p: Seq<char>) -> bool
    decreases s.len(),
{
    starts_with(s, p) || (s.len() > 0 && contains(s.drop_first(), p))
}

/// What comes before the first occurrence of `p` in `s`, or all of `s`
/// (the first item of `str::split(p)`).
pub open spec fn before_first(s: Seq<char>, p: Seq<char>) -> Seq<char>
    decreases s.len(),
{
    if s.len() == 0 || starts_with(s, p) {
        Seq::empty()
    } else {
        seq![s[0]] + before_first(s.drop_first(), p)
    }
}

/// `s` with every occurrence of `p`, taken from the left without overlap,
/// replaced by `r` (`str::replace`).
pub open spec fn replace_all(s: Seq<char>, p: Seq<char>, r: Seq<char>) -> Seq<char>
    decreases s.len(),
{
    if p.len() == 0 || s.len() == 0 {
        s
    } else if starts_with(s, p) {
        r + replace_all(s.skip(p.len() as int), p, r)
    } else {
        seq![s[0]] + replace_all(s.drop_first(), p, r)
    }
}

/// `s` with every trailing repetition of `p` removed (`str::trim_end_matches`).
pub open spec fn trim_end_matches(s: Seq<char>, p: Seq<char>) -> Seq<char>
    decreases s.len(),
{
    if p.len() > 0 && ends_with(s, p) {
        trim_end_matches(s.take(s.len() - p.len()), p)
    } else {
        s
    }
}

/// Whether `p` occurs in `s` at position `i`.
pub fn matches_at(s: &[char], i: usize, p: &[char]) -> (r: bool)
    requires
        i <= s@.len(),
    ensures
        r == starts_with(s@.skip(i as int), p@),
{
    let n = s.len();
    let m = p.len();
    if m > n - i {
        return false;
    }
    for j in 0..m
        invariant
            n == s@.len(),
            m == p@.len(),
            i + m <= n,
            forall|k: int| 0 <= k < j ==> s@[i + k] == p@[k],
    {
        if s[i + j] != p[j] {
            assert(s@.skip(i as int).take(m as int)[j as int] == s@[i + j]);
            return false;
        }
    }
    assert(s@.skip(i as int).take(m as int) =~= p@);
    true
}

/// Whether `p` occurs in `s`.
pub fn contains_chars(s: &[char], p: &[char]) -> (r: bool)
    ensures
        r == contains(s@, p@),
{
    let n = s.len();
    let mut i: usize = 0;
    assert(s@.skip(0) =~= s@);
    loop
        invariant
            i <= n == s@.len(),
            contains(s@, p@) == contains(s@.skip(i as int), p@),
        decreases n - i,
    {
        if matches_at(s, i, p) {
            return true;
        }
        if i == n {
            return false;
        }
        assert(s@.skip(i as int).drop_first() =~= s@.skip(i + 1));
        i = i + 1;
    }
}

/// What comes before the first occurrence of `p` in `s`, or all of `s`.
pub fn before_first_of(s: &[char], p: &[char]) -> (r: Vec<char>)
    ensures
        r@ == before_first(s@, p@),
{
    let n = s.len();
    let mut i: usize = 0;
    assert(s@.skip(0) =~= s@);
    loop
        invariant
            i <= n == s@.len(),
            before_first(s@, p@) == s@.take(i as int) + before_first(s@.skip(i as int), p@),
        decreases n - i,
    {
        if i == n || matches_at(s, i, p) {
            assert(s@.take(i as int) + Seq::<char>::empty() =~= s@.take(i as int));
            return slice_of(s, 0, i);
        }
        assert(s@.skip(i as int).drop_first() =~= s@.skip(i + 1));
        assert(s@.take(i as int) + (seq![s@[i as int]] + before_first(s@.skip(i + 1), p@))
            =~= s@.take(i + 1) + before_first(s@.skip(i + 1), p@));
        i = i + 1;
    }
}

/// `s` with every occurrence of `p` replaced by `r`.
pub fn replace_chars(s: &[char], p: &[char], r: &[char]) -> (out: Vec<char>)
    ensures
        out@ == replace_all(s@, p@, r@),
{
    let n = s.len();
    if p.len() == 0 {
        return slice_of(s, 0, n);
    }
    let mut out: Vec<char> = Vec::new();
    let mut i: usize = 0;
    assert(s@.skip(0) =~= s@);
    while i < n
        invariant
            i <= n == s@.len(),
            p@.len() > 0,
            replace_all(s@, p@, r@) == out@ + replace_all(s@.skip(i as int), p@, r@),
        decreases n - i,
    {
        let ghost old_out = out@;
        if matches_at(s, i, p) {
            let m = p.len();
            for k in 0..r.len()
                invariant
                    out@ == old_out + r@.take(k as int),
            {
                out.push(r[k]);
                assert(r@.take(k + 1) =~= r@.take(k as int).push(r@[k as int]));
            }
            assert(r@.take(r@.len() as int) =~= r@);
            assert(s@.skip(i as int).skip(m as int) =~= s@.skip(i + m));
            assert(old_out + (r@ + replace_all(s@.skip(i + m), p@, r@)) =~= out@
                + replace_all(s@.skip(i + m), p@, r@));
            i = i + m;
        } else {
            out.push(s[i]);
            assert(s@.skip(i as int).drop_first() =~= s@.skip(i + 1));
            assert(old_out + (seq![s@[i as int]] + replace_all(s@.skip(i + 1), p@, r@))
                =~= out@ + replace_all(s@.skip(i + 1), p@, r@));
            i = i + 1;
        }
    }
    assert(out@ + s@.skip(n as int) =~= out@);
    out
}

/// `s` with every trailing repetition of `p` removed.
pub fn trim_end_matches_of(s: &[char], p: &[char]) -> (r: Vec<char>)
    ensures
        r@ == trim_end_matches(s@, p@),
{
    let n = s.len();
    let m = p.len();
    let mut e: usize = n;
    assert(s@.take(n as int) =~= s@);
    if m == 0 {
        return slice_of(s, 0, n);
    }
    loop
        invariant
            e <= n == s@.len(),
            m == p@.len() > 0,
            trim_end_matches(s@, p@) == trim_end_matches(s@.take(e as int), p@),
        decreases e,
    {
        if e < m || !matches_at(s, e - m, p) {
            proof {
                if m <= e {
                    assert(s@.skip(e - m).take(m as int) =~= s@.take(e as int).skip(e - m));
                }
            }
            assert(s@.take(e as int) =~= s@.subrange(0, e as int));
            return slice_of(s, 0, e);
        }
        assert(s@.skip(e - m).take(m as int) =~= s@.take(e as int).skip(e - m));
        assert(s@.take(e as int).take(e - m) =~= s@.take(e - m));
        e = e - m;
    }
}

// ---------------------------------------------------------------------------
// Joining
// ---------------------------------------------------------------------------

/// The members of `parts` with `sep` between each two (`[T]::join`).
pub open spec fn join(parts: Seq<Seq<char>>, sep: Seq<char>) -> Seq<char>
    decreases parts.len(),
{
    if parts.len() == 0 {
        Seq::empty()
    } else if parts.len() == 1 {
        parts[0]
    } else {
        join(parts.drop_last(), sep) + sep + parts.last()
    }
}

/// The members of `parts` joined by `sep`.
pub fn join_chars(parts: &Vec<Vec<char>>, sep: &str) -> (r: String)
    ensures
        r@ == join(views(parts@), sep@),
{
    let mut r = String::new();
    let n = parts.len();
    for i in 0..n
        invariant
            n == parts@.len(),
            r@ == join(views(parts@).take(i as int), sep@),
    {
        assert(views(parts@).take(i + 1).drop_last() =~= views(parts@).take(i as int));
        if i > 0 {
            r.append(sep);
        }
        push_chars(&mut r, parts[i].as_slice());
        proof {
            if i == 0 {
                assert(r@ =~= views(parts@).take(1)[0]);
            }
        }
    }
    assert(views(parts@).take(n as int) =~= views(parts@));
    r
}

// ---------------------------------------------------------------------------
// Case
// ---------------------------------------------------------------------------

/// What `str::to_lowercase` returns for a string with these characters.
pub uninterp spec fn lowercase(s: Seq<char>) -> Seq<char>;

/// std's `str::to_lowercase`. Trusted: the result is `lowercase(s@)`, a
/// function of the characters of `s` alone; nothing more is stated of it.
#[verifier::external_body]
pub fn to_lowercase(s: &str) -> (r: String)
    ensures
        r@ == lowercase(s@),
{
    s.to_lowercase()
}

} // verus!

verus! {

/// The view of an optional string slice.
pub open spec fn opt_view(o: Option<&str>) -> Option<Seq<char>> {
    match o {
        Some(s) => Some(s@),
        None => None,
    }
}

/// The view of an optional string.
pub open spec fn opt_string_view(o: Option<String>) -> Option<Seq<char>> {
    match o {
        Some(s) => Some(s@),
        None => None,
    }
}

/// The members of `parts`, one after another.
pub open spec fn concat(parts: Seq<Seq<char>>) -> Seq<char>
    decreases parts.len(),
{
    if parts.len() == 0 {
        Seq::empty()
    } else {
        concat(parts.drop_last()) + parts.last()
    }
}

} // verus!

verus! {

// ---------------------------------------------------------------------------
// Facts about the operations above
// ---------------------------------------------------------------------------

/// `trim_start(s)` is a suffix of `s` that is empty or starts with a
/// character other than whitespace.
pub proof fn lemma_trim_start_shape(s: Seq<char>)
    ensures
        exists|k: int| 0 <= k <= s.len() && trim_start(s) == s.skip(k),
        trim_start(s).len() == 0 || !is_ws(trim_start(s)[0]),
    decreases s.len(),
{
    if s.len() > 0 && is_ws(s[0]) {
        lemma_trim_start_shape(s.drop_first());
        let k = choose|k: int|
            0 <= k <= s.drop_first().len() && trim_start(s.drop_first()) == s.drop_first().skip(k);
        assert(s.drop_first().skip(k) =~= s.skip(k + 1));
    } else {
        assert(s.skip(0) =~= s);
    }
}

/// `trim_end(s)` is a prefix of `s` that is empty or ends with a character
/// other than whitespace.
pub proof fn lemma_trim_end_shape(s: Seq<char>)
    ensures
        exists|k: int| 0 <= k <= s.len() && trim_end(s) == s.take(k),
        trim_end(s).len() == 0 || !is_ws(trim_end(s).last()),
    decreases s.len(),
{
    if s.len() > 0 && is_ws(s.last()) {
        lemma_trim_end_shape(s.drop_last());
        let k = choose|k: int|
            0 <= k <= s.drop_last().len() && trim_end(s.drop_last()) == s.drop_last().take(k);
        assert(s.drop_last().take(k) =~= s.take(k));
    } else {
        assert(s.take(s.len() as int) =~= s);
    }
}

/// `trim(s)` is a part of `s` that is empty or begins and ends with
/// characters other than whitespace.
pub proof fn lemma_trim_shape(s: Seq<char>)
    ensures
        exists|a: int, b: int| 0 <= a <= b <= s.len() && trim(s) == s.subrange(a, b),
        trim(s).len() == 0 || (!is_ws(trim(s)[0]) && !is_ws(trim(s).last())),
{
    lemma_trim_start_shape(s);
    let t = trim_start(s);
    let a = choose|k: int| 0 <= k <= s.len() && trim_start(s) == s.skip(k);
    lemma_trim_end_shape(t);
    let b = choose|k: int| 0 <= k <= t.len() && trim_end(t) == t.take(k);
    assert(t.take(b) =~= s.subrange(a, a + b));
    if trim(s).len() > 0 {
        assert(trim(s)[0] == t[0]);
    }
}

/// A text that is empty or begins and ends with characters other than
/// whitespace is its own trim.
pub proof fn lemma_trim_fixed(s: Seq<char>)
    requires
        s.len() == 0 || (!is_ws(s[0]) && !is_ws(s.last())),
    ensures
        trim(s) == s,
{
}

/// Trimming twice is trimming once.
pub proof fn lemma_trim_idempotent(s: Seq<char>)
    ensures
        trim(trim(s)) == trim(s),
{
    lemma_trim_shape(s);
    lemma_trim_fixed(trim(s));
}

/// No piece of `split_char(s, sep)` contains `sep`.
pub proof fn lemma_split_char_pieces(s: Seq<char>, sep: char)
    ensures
        forall|i: int|
            0 <= i < split_char(s, sep).len() ==> !(#[trigger] split_char(s, sep)[i]).contains(sep),
    decreases s.len(),
{
    if s.len() > 0 {
        lemma_split_char_pieces(s.drop_last(), sep);
        lemma_split_char_len(s.drop_last(), sep);
        let p = split_char(s.drop_last(), sep);
        if s.last() != sep {
            let l = p.last().push(s.last());
            assert forall|j: int| 0 <= j < l.len() implies l[j] != sep by {
                if j < l.len() - 1 {
                    assert(l[j] == p.last()[j]);
                    assert(p[p.len() - 1] == p.last());
                }
            }
        }
    }
}

/// No line of `s` contains a line feed.
pub proof fn lemma_lines_have_no_newline(s: Seq<char>)
    ensures
        forall|i: int| 0 <= i < lines(s).len() ==> !(#[trigger] lines(s)[i]).contains('\n'),
{
    let p = split_char(s, '\n');
    lemma_split_char_pieces(s, '\n');
    lemma_split_char_len(s, '\n');
    assert forall|i: int| 0 <= i < lines(s).len() implies !(#[trigger] lines(s)[i]).contains('\n') by {
        if i < p.len() - 1 {
            let l = p[i];
            assert(lines(s)[i] == drop_cr(l));
            if drop_cr(l).contains('\n') {
                let j = choose|j: int| 0 <= j < drop_cr(l).len() && drop_cr(l)[j] == '\n';
                assert(l[j] == '\n');
            }
        } else {
            assert(lines(s)[i] == p[p.len() - 1]);
        }
    }
}

/// The members of `non_empty(v)` are the non-empty members of `v`.
pub proof fn lemma_non_empty_members(v: Seq<Seq<char>>, x: Seq<char>)
    ensures
        non_empty(v).contains(x) <==> (v.contains(x) && x.len() > 0),
    decreases v.len(),
{
    if v.len() > 0 {
        lemma_non_empty_members(v.drop_last(), x);
        let r = non_empty(v.drop_last());
        if v.drop_last().contains(x) {
            let i = choose|i: int| 0 <= i < v.drop_last().len() && v.drop_last()[i] == x;
            assert(v[i] == x);
        }
        if v.contains(x) && x != v.last() {
            let i = choose|i: int| 0 <= i < v.len() && v[i] == x;
            assert(v.drop_last()[i] == x);
        }
        if v.last().len() > 0 {
            assert(r.push(v.last())[r.len() as int] == v.last());
            if r.contains(x) {
                let i = choose|i: int| 0 <= i < r.len() && r[i] == x;
                assert(r.push(v.last())[i] == x);
            }
            if r.push(v.last()).contains(x) && x != v.last() {
                let i = choose|i: int| 0 <= i < r.len() + 1 && r.push(v.last())[i] == x;
                assert(r[i] == x);
            }
        }
        assert(v[v.len() - 1] == v.last());
    }
}

/// `p` occurs in `s` exactly when some part of `s` equals `p`.
pub proof fn lemma_contains_occurs(s: Seq<char>, p: Seq<char>)
    ensures
        contains(s, p) <==> exists|i: int|
            0 <= i && i + p.len() <= s.len() && #[trigger] s.subrange(i, i + p.len()) == p,
    decreases s.len(),
{
    if starts_with(s, p) {
        let z: int = 0;
        assert(s.subrange(z, z + p.len()) =~= s.take(p.len() as int));
    } else if s.len() > 0 {
        let t = s.drop_first();
        lemma_contains_occurs(t, p);
        if contains(t, p) {
            let i = choose|i: int| 0 <= i && i + p.len() <= t.len() && #[trigger] t.subrange(i, i + p.len()) == p;
            assert(s.subrange(i + 1, i + 1 + p.len()) =~= t.subrange(i, i + p.len()));
        }
        if exists|i: int| 0 <= i && i + p.len() <= s.len() && #[trigger] s.subrange(i, i + p.len()) == p {
            let i = choose|i: int| 0 <= i && i + p.len() <= s.len() && #[trigger] s.subrange(i, i + p.len()) == p;
            if i == 0 {
                assert(s.take(p.len() as int) == s.subrange(0, p.len() as int));
            } else {
                assert(t.subrange(i - 1, i - 1 + p.len()) =~= s.subrange(i, i + p.len()));
            }
        }
    } else {
        if exists|i: int| 0 <= i && i + p.len() <= s.len() && #[trigger] s.subrange(i, i + p.len()) == p {
            assert(p.len() == 0);
            assert(s.take(0) =~= p);
        }
    }
}

} // verus!
