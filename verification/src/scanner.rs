//! Turning source files into stored records, and choosing which to store.

use vstd::prelude::*;
use sha2::Digest;
use crate::cleaner::{self, trim_fat};
use crate::models::FileRecord;
use crate::text::{self, chars_eq, chars_of, contains_chars, push_char};

verus! {

/// What `sha2::Sha256::digest` returns for these bytes.
pub uninterp spec fn sha256(data: Seq<u8>) -> Seq<u8>;

/// The SHA-256 digest of `data`, computed by `sha2::Sha256`. Trusted: the
/// result is `sha256(data@)` and has the 32 bytes of `Sha256`'s output size.
#[verifier::external_body]
pub fn sha256_digest(data: &[u8]) -> (r: Vec<u8>)
    ensures
        r@ == sha256(data@),
        r@.len() == 32,
{
    sha2::Sha256::digest(data).to_vec()
}

/// The lowercase hexadecimal digit for `d` (below 16).
pub open spec fn hex_digit(d: u8) -> char {
    if d < 10 {
        ((d + 48) as u8) as char
    } else {
        ((d + 87) as u8) as char
    }
}

/// Two lowercase hexadecimal digits per byte, high half first.
pub open spec fn hex_lower(bytes: Seq<u8>) -> Seq<char>
    decreases bytes.len(),
{
    if bytes.len() == 0 {
        Seq::empty()
    } else {
        hex_lower(bytes.drop_last()) + seq![hex_digit(bytes.last() / 16), hex_digit(bytes.last() % 16)]
    }
}

/// The hash stored for a cleaned text: the lowercase hexadecimal SHA-256 of
/// its UTF-8 bytes.
pub open spec fn content_hash(cleaned: Seq<char>) -> Seq<char> {
    hex_lower(sha256(vstd::utf8::encode_utf8(cleaned)))
}

/// A lowercase hexadecimal digit.
pub open spec fn is_hex_digit(c: char) -> bool {
    ('0' <= c && c <= '9') || ('a' <= c && c <= 'f')
}

/// The text of `bytes` has two digits per byte, each a lowercase
/// hexadecimal digit.
pub proof fn lemma_hex_lower_shape(bytes: Seq<u8>)
    ensures
        hex_lower(bytes).len() == 2 * bytes.len(),
        forall|i: int| 0 <= i < hex_lower(bytes).len() ==> is_hex_digit(#[trigger] hex_lower(bytes)[i]),
    decreases bytes.len(),
{
    if bytes.len() > 0 {
        lemma_hex_lower_shape(bytes.drop_last());
        let pre = hex_lower(bytes.drop_last());
        let b = bytes.last();
        assert(is_hex_digit(hex_digit(b / 16)));
        assert(is_hex_digit(hex_digit(b % 16)));
        assert forall|i: int| 0 <= i < hex_lower(bytes).len() implies is_hex_digit(
            #[trigger] hex_lower(bytes)[i],
        ) by {
            if i < pre.len() {
                assert(hex_lower(bytes)[i] == pre[i]);
            }
        }
    }
}

fn hex_char(d: u8) -> (c: char)
    requires
        d < 16,
    ensures
        c == hex_digit(d),
{
    if d < 10 {
        (d + 48) as char
    } else {
        (d + 87) as char
    }
}

/// The lowercase hexadecimal text of `bytes`.
pub fn hex_string(bytes: &[u8]) -> (r: String)
    ensures
        r@ == hex_lower(bytes@),
{
    let mut r = String::new();
    let n = bytes.len();
    for i in 0..n
        invariant
            n == bytes@.len(),
            r@ == hex_lower(bytes@.take(i as int)),
    {
        let b = bytes[i];
        push_char(&mut r, hex_char(b / 16));
        push_char(&mut r, hex_char(b % 16));
        assert(bytes@.take(i + 1).drop_last() =~= bytes@.take(i as int));
        assert(r@ =~= hex_lower(bytes@.take(i + 1)));
    }
    assert(bytes@.take(n as int) =~= bytes@);
    r
}

/// The record for a source file: its text cleaned, and the hash of the
/// cleaned text.
pub fn file_record(path: String, raw_content: &str) -> (r: FileRecord)
    ensures
        r.id is None,
        r.path == path,
        r.content@ == cleaner::cleaned(raw_content@),
        r.hash@ == content_hash(r.content@),
        r.hash@.len() == 64,
{
    let cleaned = trim_fat(raw_content);
    let digest = sha256_digest(cleaned.as_str().as_bytes());
    proof {
        lemma_hex_lower_shape(digest@);
    }
    let hash = hex_string(digest.as_slice());
    FileRecord { id: None, path, hash, content: cleaned }
}

/// A walked directory entry is scanned when it is a file with extension
/// `rs` and its path does not contain `target`.
pub open spec fn is_source_file(is_file: bool, extension: Option<Seq<char>>, path: Seq<char>) -> bool {
    &&& is_file
    &&& extension == Some("rs"@)
    &&& !text::contains(path, "target"@)
}

/// Whether a walked directory entry is a source file to scan.
pub fn is_source_entry(is_file: bool, extension: Option<&str>, path: &str) -> (r: bool)
    ensures
        r == is_source_file(
            is_file,
            match extension {
                Some(e) => Some(e@),
                None => None,
            },
            path@,
        ),
{
    if !is_file {
        return false;
    }
    match extension {
        None => false,
        Some(ext) => {
            let rs = chars_of("rs");
            if !chars_eq(chars_of(ext).as_slice(), rs.as_slice()) {
                return false;
            }
            let target = chars_of("target");
            !contains_chars(chars_of(path).as_slice(), target.as_slice())
        },
    }
}

/// A scanned file is stored again when no hash is stored for its path or
/// the stored hash differs from its own.
pub fn needs_update(stored: &Option<String>, hash: &str) -> (r: bool)
    ensures
        r == match stored {
            None => true,
            Some(h) => h@ != hash@,
        },
{
    match stored {
        None => true,
        Some(h) => !chars_eq(chars_of(h.as_str()).as_slice(), chars_of(hash).as_slice()),
    }
}

/// The records of `files` whose flag in `keep` is set, in order.
pub open spec fn select(files: Seq<FileRecord>, keep: Seq<bool>) -> Seq<FileRecord>
    decreases files.len(),
{
    if files.len() == 0 || keep.len() == 0 {
        Seq::empty()
    } else if keep.last() {
        select(files.drop_last(), keep.drop_last()).push(files.last())
    } else {
        select(files.drop_last(), keep.drop_last())
    }
}

/// `is_changed`, called with the path and hash of `file`, may answer `b`.
pub open spec fn answers<F: Fn(&str, &str) -> bool>(is_changed: F, file: FileRecord, b: bool) -> bool {
    exists|p: &str, h: &str|
        p@ == file.path@ && h@ == file.hash@ && #[trigger] call_ensures(is_changed, (p, h), b)
}

/// `keep` is what `is_changed` answered for each file of `files`, called
/// with the file's path and hash.
pub open spec fn answered<F: Fn(&str, &str) -> bool>(
    is_changed: F,
    files: Seq<FileRecord>,
    keep: Seq<bool>,
) -> bool {
    &&& keep.len() == files.len()
    &&& forall|i: int| 0 <= i < files.len() ==> #[trigger] answers(is_changed, files[i], keep[i])
}

/// The scanned files for which `is_changed(path, hash)` holds, in order.
pub fn scan_changed<F: Fn(&str, &str) -> bool>(files: Vec<FileRecord>, is_changed: F) -> (r: Vec<
    FileRecord,
>)
    requires
        forall|p: &str, h: &str| #[trigger] is_changed.requires((p, h)),
    ensures
        exists|keep: Seq<bool>| answered(is_changed, files@, keep) && r@ == select(files@, keep),
{
    let ghost all = files@;
    let mut rest = files;
    let mut out: Vec<FileRecord> = Vec::new();
    let ghost mut keep: Seq<bool> = Seq::empty();
    let n = rest.len();
    let mut i: usize = 0;
    while i < n
        invariant
            n == all.len(),
            i <= n,
            rest@ == all.skip(i as int),
            keep.len() == i,
            answered(is_changed, all.take(i as int), keep),
            out@ == select(all.take(i as int), keep),
            forall|p: &str, h: &str| #[trigger] is_changed.requires((p, h)),
        decreases n - i,
    {
        let f = rest.remove(0);
        assert(f == all[i as int]);
        let p = f.path.as_str();
        let h = f.hash.as_str();
        let changed = is_changed(p, h);
        let ghost old_keep = keep;
        proof {
            keep = keep.push(changed);
            assert(all.take(i + 1).drop_last() =~= all.take(i as int));
            assert(keep.drop_last() =~= old_keep);
            assert(all.skip(i as int).remove(0) =~= all.skip(i + 1));
            assert forall|j: int| 0 <= j < i + 1 implies #[trigger] answers(
                is_changed,
                all.take(i + 1)[j],
                keep[j],
            ) by {
                if j < i {
                    assert(all.take(i + 1)[j] == all.take(i as int)[j]);
                    assert(keep[j] == old_keep[j]);
                } else {
                    assert(call_ensures(is_changed, (p, h), keep[j]));
                }
            }
        }
        if changed {
            out.push(f);
        }
        i = i + 1;
    }
    assert(all.take(n as int) =~= all);
    out
}

} // verus!
