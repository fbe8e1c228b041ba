//! Snapshot committing: request validation, label resolution from the
//! instruction log, and classification of the version-control tool's
//! replies into structured outcomes. A failed commit whose diagnostic
//! shows that nothing changed is a benign no-op, not an error.

use vstd::prelude::*;
use vstd::string::*;

use crate::text::{
    contains_spec, is_blank_spec, lines_spec, split_lines, str_contains, str_is_blank, str_trim,
    trim_spec,
};

verus! {

/// The result of one commit attempt: a short human-readable message and
/// an optional technical diagnostic.
#[derive(Clone, Debug)]
pub struct CommitOutcome {
    pub succeeded: bool,
    pub message: String,
    pub underlying_error: Option<String>,
}

/// Mathematical model of a commit outcome.
pub struct CommitOutcomeModel {
    pub succeeded: bool,
    pub message: Seq<char>,
    pub underlying_error: Option<Seq<char>>,
}

impl View for CommitOutcome {
    type V = CommitOutcomeModel;

    open spec fn view(&self) -> CommitOutcomeModel {
        CommitOutcomeModel {
            succeeded: self.succeeded,
            message: self.message@,
            underlying_error: match self.underlying_error {
                Some(ref e) => Some(e@),
                None => None,
            },
        }
    }
}

pub open spec fn failure_outcome(message: Seq<char>, diag: Option<Seq<char>>) -> CommitOutcomeModel {
    CommitOutcomeModel { succeeded: false, message, underlying_error: diag }
}

pub open spec fn success_outcome(message: Seq<char>) -> CommitOutcomeModel {
    CommitOutcomeModel { succeeded: true, message, underlying_error: None }
}

/// The watched root does not exist.
pub open spec fn invalid_root_outcome() -> CommitOutcomeModel {
    failure_outcome("project path does not exist"@, None)
}

/// The watched root has no version-control metadata directory.
pub open spec fn not_versioned_outcome() -> CommitOutcomeModel {
    failure_outcome("project is not under version control"@, None)
}

/// The required label was blank.
pub open spec fn blank_label_outcome() -> CommitOutcomeModel {
    failure_outcome("snapshot label must not be blank"@, None)
}

/// The tool ran but staging the working tree failed.
pub open spec fn staging_failure_outcome(diag: Seq<char>) -> CommitOutcomeModel {
    failure_outcome("staging failed"@, Some(diag))
}

/// Committing failed with no staged changes: a benign no-op.
pub open spec fn benign_no_op_outcome() -> CommitOutcomeModel {
    failure_outcome("no changes detected"@, None)
}

/// Committing failed for some other reason; the raw diagnostic is kept.
pub open spec fn commit_failure_outcome(diag: Seq<char>) -> CommitOutcomeModel {
    failure_outcome("commit failed"@, Some(diag))
}

/// The version-control tool could not be launched at all.
pub open spec fn launch_failure_outcome(diag: Seq<char>) -> CommitOutcomeModel {
    failure_outcome("could not run the version control tool"@, Some(diag))
}

/// The message template that embeds a snapshot label.
pub open spec fn commit_message_spec(label: Seq<char>) -> Seq<char> {
    "[Vibe] AI Prompt: "@ + label
}

/// The commit message embedding `label`.
pub fn commit_message_for(label: &str) -> (m: String)
    ensures
        m@ == commit_message_spec(label@),
{
    let mut m = String::from_str("[Vibe] AI Prompt: ");
    m.append(label);
    m
}

/// Validates a snapshot request and, when it is acceptable, yields the
/// commit message for the trimmed label; each violation yields its own
/// distinct failure outcome.
pub fn plan_commit(root_exists: bool, is_versioned: bool, label: &str) -> (r: Result<
    String,
    CommitOutcome,
>)
    ensures
        !root_exists ==> (r matches Err(o) && o@ == invalid_root_outcome()),
        root_exists && !is_versioned ==> (r matches Err(o) && o@ == not_versioned_outcome()),
        root_exists && is_versioned && is_blank_spec(label@) ==> (r matches Err(o) && o@
            == blank_label_outcome()),
        root_exists && is_versioned && !is_blank_spec(label@) ==> (r matches Ok(m) && m@
            == commit_message_spec(trim_spec(label@))),
{
    if !root_exists {
        Err(
            CommitOutcome {
                succeeded: false,
                message: String::from_str("project path does not exist"),
                underlying_error: None,
            },
        )
    } else if !is_versioned {
        Err(
            CommitOutcome {
                succeeded: false,
                message: String::from_str("project is not under version control"),
                underlying_error: None,
            },
        )
    } else if str_is_blank(label) {
        Err(
            CommitOutcome {
                succeeded: false,
                message: String::from_str("snapshot label must not be blank"),
                underlying_error: None,
            },
        )
    } else {
        Ok(commit_message_for(str_trim(label)))
    }
}

/// The diagnostic phrasing with which the tool reports that there was
/// nothing to commit.
pub open spec fn no_changes_diag(d: Seq<char>) -> bool {
    contains_spec(d, "nothing to commit"@) || contains_spec(d, "no changes added to commit"@)
}

/// How one commit attempt ended.
#[derive(Clone, Copy, PartialEq, Eq, Structural, Debug)]
pub enum CommitClass {
    /// The tool ran and reported success.
    Success,
    /// The tool refused because nothing changed: benign, not an error.
    BenignNoOp,
    /// The tool ran and reported some other failure.
    SubprocessFailure,
    /// The tool could not be launched.
    ExecutionFailure,
}

pub open spec fn classify_commit_spec(launched: bool, exit_ok: bool, diag: Seq<char>) -> CommitClass {
    if !launched {
        CommitClass::ExecutionFailure
    } else if exit_ok {
        CommitClass::Success
    } else if no_changes_diag(diag) {
        CommitClass::BenignNoOp
    } else {
        CommitClass::SubprocessFailure
    }
}

/// Classifies the reply of one commit invocation: `launched` says whether
/// the tool could be started, `exit_ok` whether it reported success, and
/// `diag` is its diagnostic text.
pub fn classify_commit_step(launched: bool, exit_ok: bool, diag: &str) -> (c: CommitClass)
    ensures
        c == classify_commit_spec(launched, exit_ok, diag@),
{
    if !launched {
        CommitClass::ExecutionFailure
    } else if exit_ok {
        CommitClass::Success
    } else if str_contains(diag, "nothing to commit") || str_contains(
        diag,
        "no changes added to commit",
    ) {
        CommitClass::BenignNoOp
    } else {
        CommitClass::SubprocessFailure
    }
}

/// The outcome of the staging step; `None` means staging succeeded and
/// the commit step may run.
pub fn stage_outcome(launched: bool, exit_ok: bool, diag: &str) -> (r: Option<CommitOutcome>)
    ensures
        launched && exit_ok ==> r is None,
        !launched ==> (r matches Some(o) && o@ == launch_failure_outcome(diag@)),
        launched && !exit_ok ==> (r matches Some(o) && o@ == staging_failure_outcome(diag@)),
{
    if !launched {
        Some(
            CommitOutcome {
                succeeded: false,
                message: String::from_str("could not run the version control tool"),
                underlying_error: Some(String::from_str(diag)),
            },
        )
    } else if !exit_ok {
        Some(
            CommitOutcome {
                succeeded: false,
                message: String::from_str("staging failed"),
                underlying_error: Some(String::from_str(diag)),
            },
        )
    } else {
        None
    }
}

/// The outcome of the commit step, built from the tool's reply; on
/// success the outcome carries `success_message`.
pub fn commit_outcome(launched: bool, exit_ok: bool, diag: &str, success_message: &str) -> (r:
    CommitOutcome)
    ensures
        classify_commit_spec(launched, exit_ok, diag@) == CommitClass::Success ==> r@
            == success_outcome(success_message@),
        classify_commit_spec(launched, exit_ok, diag@) == CommitClass::BenignNoOp ==> r@
            == benign_no_op_outcome(),
        classify_commit_spec(launched, exit_ok, diag@) == CommitClass::SubprocessFailure ==> r@
            == commit_failure_outcome(diag@),
        classify_commit_spec(launched, exit_ok, diag@) == CommitClass::ExecutionFailure ==> r@
            == launch_failure_outcome(diag@),
{
    match classify_commit_step(launched, exit_ok, diag) {
        CommitClass::Success => CommitOutcome {
            succeeded: true,
            message: String::from_str(success_message),
            underlying_error: None,
        },
        CommitClass::BenignNoOp => CommitOutcome {
            succeeded: false,
            message: String::from_str("no changes detected"),
            underlying_error: None,
        },
        CommitClass::SubprocessFailure => CommitOutcome {
            succeeded: false,
            message: String::from_str("commit failed"),
            underlying_error: Some(String::from_str(diag)),
        },
        CommitClass::ExecutionFailure => CommitOutcome {
            succeeded: false,
            message: String::from_str("could not run the version control tool"),
            underlying_error: Some(String::from_str(diag)),
        },
    }
}

/// The label used when no instruction log is configured or it holds no
/// usable line.
pub open spec fn default_label() -> Seq<char> {
    "automatic commit: content changed"@
}

/// The last line of `ls` that is not blank.
pub open spec fn last_nonblank(ls: Seq<Seq<char>>) -> Option<Seq<char>>
    decreases ls.len(),
{
    if ls.len() == 0 {
        None
    } else if !is_blank_spec(ls.last()) {
        Some(ls.last())
    } else {
        last_nonblank(ls.drop_last())
    }
}

/// The label an instruction log resolves to: its last non-blank line,
/// trimmed, or the fixed default.
pub open spec fn resolve_label_spec(content: Seq<char>) -> Seq<char> {
    match last_nonblank(lines_spec(content)) {
        Some(l) => trim_spec(l),
        None => default_label(),
    }
}

/// Resolves the auto-commit label from the instruction log's content,
/// when one was configured and readable.
pub fn resolve_label(log_content: Option<&str>) -> (r: String)
    ensures
        log_content matches Some(c) ==> r@ == resolve_label_spec(c@),
        log_content is None ==> r@ == default_label(),
{
    match log_content {
        None => String::from_str("automatic commit: content changed"),
        Some(c) => {
            let ls = split_lines(c);
            let ghost lsv = lines_spec(c@);
            let n = ls.len();
            proof {
                assert(n == lsv.len());
            }
            let mut j: usize = n;
            proof {
                assert(lsv.take(n as int) =~~= lsv);
            }
            while j > 0
                invariant
                    0 <= j <= n,
                    n == lsv.len(),
                    ls.deep_view() == lsv,
                    log_content == Some(c),
                    lsv == lines_spec(c@),
                    last_nonblank(lsv) == last_nonblank(lsv.take(j as int)),
                decreases j,
            {
                let line = ls[j - 1].as_str();
                proof {
                    assert(line@ == lsv[j - 1]);
                    assert(lsv.take(j as int).last() == lsv[j - 1]);
                    assert(lsv.take(j as int).drop_last() =~~= lsv.take(j - 1));
                }
                if !str_is_blank(line) {
                    proof {
                        assert(lsv.take(j as int).len() == j);
                        assert(last_nonblank(lsv.take(j as int)) == Some(lsv[j - 1]));
                    }
                    return String::from_str(str_trim(line));
                }
                j -= 1;
            }
            proof {
                assert(lsv.take(0) =~~= Seq::<Seq<char>>::empty());
            }
            String::from_str("automatic commit: content changed")
        },
    }
}

/// The message announcing a completed automatic snapshot with its label.
pub fn auto_commit_success_message(label: &str) -> (m: String)
    ensures
        m@ == "automatic snapshot created: "@ + label@,
{
    let mut m = String::from_str("automatic snapshot created: ");
    m.append(label);
    m
}

} // verus!
