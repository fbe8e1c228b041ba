use vibesnap::repo::{
    format_initial_diff, parse_changed_files, repo_precheck, rollback_outcome,
    setup_complete_outcome, setup_step_outcome, target_error_message, validate_rollback,
    validate_target, SetupStep, TargetError,
};
use vibesnap::text::{split_lines, str_contains, str_starts_with, str_trim, usize_to_string};

#[test]
fn target_validation() {
    assert_eq!(validate_target(false, false), Some(TargetError::InvalidRoot));
    assert_eq!(validate_target(true, false), Some(TargetError::NotVersioned));
    assert_eq!(validate_target(true, true), None);
    assert_eq!(target_error_message(TargetError::InvalidRoot), "project path does not exist");
    assert_eq!(
        target_error_message(TargetError::NotVersioned),
        "project is not under version control"
    );
}

#[test]
fn precheck_distinguishes_ready_from_needs_init() {
    let missing = repo_precheck(false, false).unwrap();
    assert!(!missing.success);
    assert_eq!(missing.message, "project path does not exist".to_string());
    let ready = repo_precheck(true, true).unwrap();
    assert!(ready.success);
    assert!(!ready.was_initialized);
    assert_eq!(ready.message, "project linked; repository ready".to_string());
    assert!(repo_precheck(true, false).is_none());
}

#[test]
fn setup_steps_classify_failures() {
    assert!(setup_step_outcome(SetupStep::Init, true, true, "").is_none());
    let init_failed = setup_step_outcome(SetupStep::Init, true, false, "permission denied").unwrap();
    assert_eq!(init_failed.message, "initialization failed".to_string());
    assert!(!init_failed.was_initialized);
    assert_eq!(init_failed.underlying_error.as_deref(), Some("permission denied"));
    let stage_failed = setup_step_outcome(SetupStep::Stage, true, false, "boom").unwrap();
    assert_eq!(stage_failed.message, "staging failed".to_string());
    assert!(stage_failed.was_initialized);
    let commit_failed = setup_step_outcome(SetupStep::InitialCommit, false, false, "gone").unwrap();
    assert_eq!(commit_failed.message, "initial commit failed".to_string());
    assert!(commit_failed.was_initialized);
    let done = setup_complete_outcome();
    assert!(done.success && done.was_initialized);
}

#[test]
fn rollback_validation_and_outcomes() {
    let blank = validate_rollback(true, true, "  ").unwrap();
    assert_eq!(blank.message, "revision identifier must not be blank".to_string());
    assert!(validate_rollback(true, true, "abc123").is_none());
    let missing = validate_rollback(false, true, "abc123").unwrap();
    assert_eq!(missing.message, "project path does not exist".to_string());

    let ok = rollback_outcome(true, true, "", "abc123");
    assert!(ok.success);
    assert_eq!(ok.message, "rolled back to version abc123".to_string());
    let failed = rollback_outcome(true, false, "unknown revision", "abc123");
    assert!(!failed.success);
    assert_eq!(failed.message, "rollback failed".to_string());
    assert_eq!(failed.underlying_error.as_deref(), Some("unknown revision"));
}

#[test]
fn changed_files_are_trimmed_and_blanks_dropped() {
    let files = parse_changed_files("src/a.rs\n\n  src/b.rs  \n   \nREADME.md");
    assert_eq!(files, vec!["src/a.rs".to_string(), "src/b.rs".to_string(), "README.md".to_string()]);
}

#[test]
fn initial_diff_text_is_exact() {
    let text = format_initial_diff("0123456789abcdef", "src/x.rs", "line a\nline b");
    assert_eq!(
        text,
        "--- initial snapshot 01234567\n+++ src/x.rs\n@@ -0,0 +1,2 @@\n+line a\n+line b".to_string()
    );
}

#[test]
fn initial_diff_keeps_short_revisions_whole() {
    let text = format_initial_diff("ab12", "f", "only");
    assert_eq!(text, "--- initial snapshot ab12\n+++ f\n@@ -0,0 +1,1 @@\n+only".to_string());
}

#[test]
fn text_helpers() {
    assert_eq!(split_lines("a\nb\r\nc\n"), vec!["a".to_string(), "b".to_string(), "c".to_string()]);
    assert_eq!(split_lines(""), Vec::<String>::new());
    assert_eq!(usize_to_string(0), "0".to_string());
    assert_eq!(usize_to_string(90210), "90210".to_string());
    assert_eq!(str_trim("  padded \t"), "padded");
    assert!(str_contains("working tree clean", "tree"));
    assert!(!str_contains("working", "worse"));
    assert!(str_starts_with("+++ b/file", "+++"));
    assert!(!str_starts_with("+x", "+++"));
}
