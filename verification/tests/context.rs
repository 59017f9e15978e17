use brain::error_context::ErrorContext;
use brain::memory::{assemble_context, find_relevant_files};
use brain::models::{ChatMessage, FileRecord};

fn file(path: &str, content: &str) -> FileRecord {
    FileRecord { id: None, path: path.to_string(), hash: String::new(), content: content.to_string() }
}

fn msg(role: &str, content: &str) -> ChatMessage {
    ChatMessage { id: None, role: role.to_string(), content: content.to_string(), timestamp: None }
}

#[test]
fn file_named_in_question_is_relevant() {
    let files = vec![
        file("./src/processor/Scanner.rs", "pub fn scan_project(dir: &str) {}"),
        file("./src/db.rs", "pub struct DbManager {"),
    ];
    let r = find_relevant_files("How does the SCANNER work?", &files);
    assert_eq!(r, vec!["=== ./src/processor/Scanner.rs ===\npub fn scan_project(dir: &str) {}"]);
}

#[test]
fn signature_word_in_question_makes_file_relevant() {
    let files = vec![
        file("./src/db.rs", "pub fn get_file_hash(path: &str) {}"),
        file("./src/other.rs", "fn helper() {}"),
    ];
    let r = find_relevant_files("what does get_file_hash return", &files);
    assert_eq!(r, vec!["=== ./src/db.rs ===\npub fn get_file_hash(path: &str) {}"]);
}

#[test]
fn keywords_and_short_words_do_not_count() {
    let files = vec![file("./src/z.rs", "pub fn ab() {}\nstruct Xy {}\nenum Q {}")];
    assert!(find_relevant_files("pub fn struct enum ab xy q", &files).is_empty());
}

#[test]
fn whole_path_in_question_is_relevant() {
    let files = vec![file("a/b.rs", "let x = 1;")];
    assert_eq!(find_relevant_files("see a/b.rs please", &files), vec!["=== a/b.rs ===\nlet x = 1;"]);
}

#[test]
fn context_has_every_section_in_order() {
    let files = vec![file("./src/db.rs", "pub fn get_file_hash(path: &str) {}"), file("./src/empty.rs", "let x = 1;")];
    let check = Some(ErrorContext { has_errors: false, output: String::new(), affected_files: vec![] });
    let recent = vec![msg("assistant", "second"), msg("user", "first")];
    let out = assemble_context(
        5,
        Some("fix db"),
        &check,
        None,
        &files,
        Some("get_file_hash?"),
        &recent,
    );
    assert_eq!(
        out,
        "### CURRENT TASK ###\nfix db\n\n\
         ### CARGO CHECK ###\n✅ No errors found.\n\n\
         ### OVERALL PROJECT SUMMARY ###\nNo previous summary.\n\n\
         ### RELEVANT FILE CONTENTS ###\n=== ./src/db.rs ===\npub fn get_file_hash(path: &str) {}\n\n\
         ### PROJECT STRUCTURE (SKELETON) ###\nFile: ./src/db.rs\n  pub fn get_file_hash...\n\n\
         ### RECENT CONVERSATION ###\nuser: first\nassistant: second\n"
    );
}

#[test]
fn context_without_options_has_summary_and_structure_only() {
    let out = assemble_context(0, None, &None, Some("Bob likes Rust.".to_string()), &Vec::new(), None, &vec![msg("user", "hi")]);
    assert_eq!(
        out,
        "### OVERALL PROJECT SUMMARY ###\nBob likes Rust.\n\n### PROJECT STRUCTURE (SKELETON) ###\n\n"
    );
}
