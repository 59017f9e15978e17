use brain::error_context::{
    affected_files_of, context_from_launch_failure, context_from_output, format_for_context,
    ErrorContext,
};

#[test]
fn clean_check_is_reported_without_output() {
    let ctx = ErrorContext {
        has_errors: false,
        output: "warning: unused variable".to_string(),
        affected_files: vec!["src/a.rs".to_string()],
    };
    assert_eq!(format_for_context(&ctx), "### CARGO CHECK ###\n✅ No errors found.\n");
}

#[test]
fn failed_check_lists_output_and_files() {
    let ctx = ErrorContext {
        has_errors: true,
        output: "src/a.rs:1:1: error: boom".to_string(),
        affected_files: vec!["src/a.rs".to_string(), "src/b.rs".to_string()],
    };
    assert_eq!(
        format_for_context(&ctx),
        "### CARGO CHECK ERRORS ###\nsrc/a.rs:1:1: error: boom\n### AFFECTED FILES ###\n  - src/a.rs\n  - src/b.rs\n"
    );
}

#[test]
fn failed_check_without_files_has_no_file_section() {
    let ctx = ErrorContext { has_errors: true, output: "boom".to_string(), affected_files: vec![] };
    assert_eq!(format_for_context(&ctx), "### CARGO CHECK ERRORS ###\nboom\n");
}

#[test]
fn affected_files_come_from_diagnostic_lines_once_each() {
    let stderr = "src/main.rs:3:5: error[E0425]: cannot find value `x`\n\
                  src/main.rs:7:1: error: expected item\n\
                  warning: build failed\n\
                  \x20 --> src/db.rs:10:2\r\n\
                  error: could not compile `brain` (bin \"brain\") due to 2 previous errors\n";
    assert_eq!(affected_files_of(stderr), vec!["src/main.rs", "src/db.rs"]);
}

#[test]
fn affected_file_is_taken_after_the_last_space() {
    assert_eq!(affected_files_of("error in my dir/src/x.rs:1"), vec!["dir/src/x.rs"]);
    assert_eq!(affected_files_of("  x.rs:"), vec!["x.rs"]);
    assert!(affected_files_of("no diagnostics here\n").is_empty());
}

#[test]
fn finished_run_reports_errors_when_it_failed() {
    let ctx = context_from_output(false, "src/lib.rs:1:1: error: x".to_string());
    assert!(ctx.has_errors);
    assert_eq!(ctx.output, "src/lib.rs:1:1: error: x");
    assert_eq!(ctx.affected_files, vec!["src/lib.rs"]);
    let ok = context_from_output(true, String::new());
    assert!(!ok.has_errors);
    assert!(ok.affected_files.is_empty());
}

#[test]
fn launch_failure_is_no_error() {
    let ctx = context_from_launch_failure("No such file or directory (os error 2)");
    assert!(!ctx.has_errors);
    assert_eq!(ctx.output, "Could not run cargo check: No such file or directory (os error 2)");
    assert!(ctx.affected_files.is_empty());
    assert_eq!(format_for_context(&ctx), "### CARGO CHECK ###\n✅ No errors found.\n");
}
