use brain::text::{
    before_first_of, chars_of, contains_chars, join_chars, lines_of, replace_chars, split_on,
    string_of, to_lowercase, trim_end_matches_of, trimmed, words_of,
};

fn s(v: &[char]) -> String {
    v.iter().collect()
}

fn all(v: &[Vec<char>]) -> Vec<String> {
    v.iter().map(|x| s(x)).collect()
}

#[test]
fn lines_split_at_newlines_and_drop_carriage_returns() {
    let v = lines_of(&chars_of("a\r\nb\n\nc"));
    assert_eq!(all(&v), vec!["a", "b", "", "c"]);
    let v = lines_of(&chars_of("a\n"));
    assert_eq!(all(&v), vec!["a"]);
    let v = lines_of(&chars_of(""));
    assert!(v.is_empty());
    let v = lines_of(&chars_of("x\r"));
    assert_eq!(all(&v), vec!["x\r"]);
}

#[test]
fn lines_agree_with_std() {
    for t in ["", "\n", "a", "a\nb", "a\r\nb\r\n", "\n\nx\n", "p\rq\n"] {
        let ours = all(&lines_of(&chars_of(t)));
        let std: Vec<String> = t.lines().map(|l| l.to_string()).collect();
        assert_eq!(ours, std, "input {:?}", t);
    }
}

#[test]
fn split_keeps_empty_pieces() {
    let v = split_on(&chars_of("a//b/"), '/');
    assert_eq!(all(&v), vec!["a", "", "b", ""]);
    let v = split_on(&chars_of(""), '/');
    assert_eq!(all(&v), vec![""]);
}

#[test]
fn words_skip_runs_of_whitespace() {
    let v = words_of(&chars_of("  pub fn\tscan_project  "));
    assert_eq!(all(&v), vec!["pub", "fn", "scan_project"]);
    let v = words_of(&chars_of(" \u{3000} "));
    assert!(v.is_empty());
}

#[test]
fn trim_removes_unicode_whitespace() {
    assert_eq!(s(&trimmed(&chars_of("\u{a0} x y \t\n"))), "x y");
    assert_eq!(s(&trimmed(&chars_of("   "))), "");
}

#[test]
fn contains_and_prefix_before_pattern() {
    assert!(contains_chars(&chars_of("src/main.rs:3:5"), &chars_of(".rs:")));
    assert!(!contains_chars(&chars_of("src/main.rs"), &chars_of(".rs:")));
    assert!(contains_chars(&chars_of("abc"), &chars_of("")));
    assert_eq!(s(&before_first_of(&chars_of("a.rs:b.rs:c"), &chars_of(".rs:"))), "a");
    assert_eq!(s(&before_first_of(&chars_of("abc"), &chars_of(".rs:"))), "abc");
}

#[test]
fn replace_takes_occurrences_from_the_left() {
    assert_eq!(s(&replace_chars(&chars_of("a.rs.rsb"), &chars_of(".rs"), &[])), "ab");
    assert_eq!(s(&replace_chars(&chars_of("aaa"), &chars_of("aa"), &chars_of("b"))), "ba");
}

#[test]
fn trailing_repetitions_are_trimmed() {
    assert_eq!(s(&trim_end_matches_of(&chars_of("fn x......."), &chars_of("..."))), "fn x.");
    assert_eq!(s(&trim_end_matches_of(&chars_of("fn x"), &chars_of("..."))), "fn x");
}

#[test]
fn join_puts_separator_between_parts() {
    let parts = vec![chars_of("a"), chars_of("b"), chars_of("c")];
    assert_eq!(join_chars(&parts, ", "), "a, b, c");
    assert_eq!(join_chars(&Vec::new(), ", "), "");
    assert_eq!(string_of(&chars_of("héllo")), "héllo");
}

#[test]
fn lowercase_is_std_lowercase() {
    assert_eq!(to_lowercase("Scanner.RS"), "scanner.rs");
    assert_eq!(to_lowercase("ΣΑΣ"), "σας");
}
