use vibesnap::commit::{
    auto_commit_success_message, classify_commit_step, commit_message_for, commit_outcome,
    plan_commit, resolve_label, stage_outcome, CommitClass,
};

#[test]
fn clean_tree_commit_is_benign_not_a_failure() {
    let diag = "On branch main\nnothing to commit, working tree clean\n";
    assert_eq!(classify_commit_step(true, false, diag), CommitClass::BenignNoOp);
    let outcome = commit_outcome(true, false, diag, "snapshot saved");
    assert!(!outcome.succeeded);
    assert_eq!(outcome.message, "no changes detected".to_string());
}

#[test]
fn no_changes_added_phrasing_is_benign_too() {
    let diag = "no changes added to commit (use \"git add\")";
    assert_eq!(classify_commit_step(true, false, diag), CommitClass::BenignNoOp);
}

#[test]
fn other_commit_failures_keep_the_diagnostic() {
    let diag = "fatal: unable to write new index file";
    assert_eq!(classify_commit_step(true, false, diag), CommitClass::SubprocessFailure);
    let outcome = commit_outcome(true, false, diag, "snapshot saved");
    assert!(!outcome.succeeded);
    assert_eq!(outcome.message, "commit failed".to_string());
    assert_eq!(outcome.underlying_error.as_deref(), Some(diag));
}

#[test]
fn successful_commit_carries_the_given_message() {
    assert_eq!(classify_commit_step(true, true, ""), CommitClass::Success);
    let outcome = commit_outcome(true, true, "", "snapshot saved");
    assert!(outcome.succeeded);
    assert_eq!(outcome.message, "snapshot saved".to_string());
    assert_eq!(outcome.underlying_error, None);
}

#[test]
fn unlaunchable_tool_is_an_execution_failure() {
    assert_eq!(classify_commit_step(false, false, "no such file"), CommitClass::ExecutionFailure);
    let outcome = commit_outcome(false, false, "no such file", "snapshot saved");
    assert!(!outcome.succeeded);
    assert_eq!(outcome.message, "could not run the version control tool".to_string());
}

#[test]
fn plan_rejects_each_violation_distinctly() {
    let missing = plan_commit(false, false, "label").unwrap_err();
    assert_eq!(missing.message, "project path does not exist".to_string());
    let unversioned = plan_commit(true, false, "label").unwrap_err();
    assert_eq!(unversioned.message, "project is not under version control".to_string());
    let blank = plan_commit(true, true, "   ").unwrap_err();
    assert_eq!(blank.message, "snapshot label must not be blank".to_string());
    assert!(!missing.succeeded && !unversioned.succeeded && !blank.succeeded);
}

#[test]
fn plan_embeds_the_trimmed_label() {
    let message = plan_commit(true, true, "  fix the bug  ").unwrap();
    assert_eq!(message, "[Vibe] AI Prompt: fix the bug".to_string());
}

#[test]
fn message_template_embeds_label() {
    assert_eq!(commit_message_for("do things"), "[Vibe] AI Prompt: do things".to_string());
}

#[test]
fn staging_failure_aborts_with_diagnostic() {
    assert!(stage_outcome(true, true, "").is_none());
    let failed = stage_outcome(true, false, "fatal: pathspec").unwrap();
    assert_eq!(failed.message, "staging failed".to_string());
    assert_eq!(failed.underlying_error.as_deref(), Some("fatal: pathspec"));
    let unlaunched = stage_outcome(false, false, "not found").unwrap();
    assert_eq!(unlaunched.message, "could not run the version control tool".to_string());
}

#[test]
fn label_resolution_prefers_last_nonblank_line() {
    assert_eq!(
        resolve_label(Some("first instruction\nsecond instruction\n\n   \n")),
        "second instruction".to_string()
    );
    assert_eq!(resolve_label(Some("  only line  ")), "only line".to_string());
}

#[test]
fn label_resolution_falls_back_to_default() {
    assert_eq!(resolve_label(None), "automatic commit: content changed".to_string());
    assert_eq!(resolve_label(Some("")), "automatic commit: content changed".to_string());
    assert_eq!(resolve_label(Some("   \n\t\n")), "automatic commit: content changed".to_string());
}

#[test]
fn auto_success_message_names_the_label() {
    assert_eq!(
        auto_commit_success_message("refactor parser"),
        "automatic snapshot created: refactor parser".to_string()
    );
}
