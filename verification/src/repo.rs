//! Repository plumbing decisions: validating a query target, preparing a
//! directory as a repository step by step, classifying a rollback, listing
//! the files a snapshot touched, and synthesising the raw diff text shown
//! for a file's first snapshot.

use vstd::prelude::*;
use vstd::string::*;

use crate::text::{
    dec_spec, is_blank_spec, lines_spec, split_lines, str_is_blank, str_trim, trim_spec,
    usize_to_string,
};

verus! {

/// Why a repository-directed request is refused before any tool runs.
#[derive(Clone, Copy, PartialEq, Eq, Structural, Debug)]
pub enum TargetError {
    /// The requested root does not exist.
    InvalidRoot,
    /// The root has no version-control metadata directory.
    NotVersioned,
}

/// Validates the target of a repository query; `None` means the query
/// may proceed.
pub fn validate_target(root_exists: bool, is_versioned: bool) -> (r: Option<TargetError>)
    ensures
        !root_exists ==> r == Some(TargetError::InvalidRoot),
        root_exists && !is_versioned ==> r == Some(TargetError::NotVersioned),
        root_exists && is_versioned ==> r is None,
{
    if !root_exists {
        Some(TargetError::InvalidRoot)
    } else if !is_versioned {
        Some(TargetError::NotVersioned)
    } else {
        None
    }
}

/// The message a refused target reports.
pub fn target_error_message(e: TargetError) -> (s: &'static str)
    ensures
        e is InvalidRoot ==> s@ == "project path does not exist"@,
        e is NotVersioned ==> s@ == "project is not under version control"@,
{
    match e {
        TargetError::InvalidRoot => "project path does not exist",
        TargetError::NotVersioned => "project is not under version control",
    }
}

/// The result of preparing a directory as a repository.
#[derive(Clone, Debug)]
pub struct RepoSetupOutcome {
    pub success: bool,
    pub message: String,
    pub was_initialized: bool,
    pub underlying_error: Option<String>,
}

/// Mathematical model of a setup outcome.
pub struct RepoSetupOutcomeModel {
    pub success: bool,
    pub message: Seq<char>,
    pub was_initialized: bool,
    pub underlying_error: Option<Seq<char>>,
}

impl View for RepoSetupOutcome {
    type V = RepoSetupOutcomeModel;

    open spec fn view(&self) -> RepoSetupOutcomeModel {
        RepoSetupOutcomeModel {
            success: self.success,
            message: self.message@,
            was_initialized: self.was_initialized,
            underlying_error: match self.underlying_error {
                Some(ref e) => Some(e@),
                None => None,
            },
        }
    }
}

pub open spec fn setup_ready_outcome(was_initialized: bool) -> RepoSetupOutcomeModel {
    RepoSetupOutcomeModel {
        success: true,
        message: "project linked; repository ready"@,
        was_initialized,
        underlying_error: None,
    }
}

pub open spec fn setup_invalid_root_outcome() -> RepoSetupOutcomeModel {
    RepoSetupOutcomeModel {
        success: false,
        message: "project path does not exist"@,
        was_initialized: false,
        underlying_error: None,
    }
}

/// Decides whether repository preparation is needed: a missing root ends
/// it, present metadata means the project is already a repository, and
/// `None` means initialization must run.
pub fn repo_precheck(root_exists: bool, metadata_present: bool) -> (r: Option<RepoSetupOutcome>)
    ensures
        !root_exists ==> (r matches Some(o) && o@ == setup_invalid_root_outcome()),
        root_exists && metadata_present ==> (r matches Some(o) && o@ == setup_ready_outcome(
            false,
        )),
        root_exists && !metadata_present ==> r is None,
{
    if !root_exists {
        Some(
            RepoSetupOutcome {
                success: false,
                message: String::from_str("project path does not exist"),
                was_initialized: false,
                underlying_error: None,
            },
        )
    } else if metadata_present {
        Some(
            RepoSetupOutcome {
                success: true,
                message: String::from_str("project linked; repository ready"),
                was_initialized: false,
                underlying_error: None,
            },
        )
    } else {
        None
    }
}

/// The steps of preparing a fresh repository, in order: initialize it,
/// stage the whole tree, record the first snapshot.
#[derive(Clone, Copy, PartialEq, Eq, Structural, Debug)]
pub enum SetupStep {
    Init,
    Stage,
    InitialCommit,
}

/// The message a failed setup step reports.
pub open spec fn setup_step_message(step: SetupStep) -> Seq<char> {
    match step {
        SetupStep::Init => "initialization failed"@,
        SetupStep::Stage => "staging failed"@,
        SetupStep::InitialCommit => "initial commit failed"@,
    }
}

pub open spec fn setup_step_failure_outcome(step: SetupStep, diag: Seq<char>) -> RepoSetupOutcomeModel {
    RepoSetupOutcomeModel {
        success: false,
        message: setup_step_message(step),
        was_initialized: !(step is Init),
        underlying_error: Some(diag),
    }
}

/// Classifies the reply of one setup step: `None` lets the next step
/// run; a failure carries the step's message, whether the repository had
/// already been initialized, and the raw diagnostic.
pub fn setup_step_outcome(step: SetupStep, launched: bool, exit_ok: bool, diag: &str) -> (r: Option<
    RepoSetupOutcome,
>)
    ensures
        launched && exit_ok ==> r is None,
        !(launched && exit_ok) ==> (r matches Some(o) && o@ == setup_step_failure_outcome(
            step,
            diag@,
        )),
{
    if launched && exit_ok {
        None
    } else {
        let message = match step {
            SetupStep::Init => String::from_str("initialization failed"),
            SetupStep::Stage => String::from_str("staging failed"),
            SetupStep::InitialCommit => String::from_str("initial commit failed"),
        };
        let was_initialized = match step {
            SetupStep::Init => false,
            _ => true,
        };
        Some(
            RepoSetupOutcome {
                success: false,
                message,
                was_initialized,
                underlying_error: Some(String::from_str(diag)),
            },
        )
    }
}

/// The outcome after every setup step succeeded.
pub fn setup_complete_outcome() -> (r: RepoSetupOutcome)
    ensures
        r@ == setup_ready_outcome(true),
{
    RepoSetupOutcome {
        success: true,
        message: String::from_str("project linked; repository ready"),
        was_initialized: true,
        underlying_error: None,
    }
}

/// The result of one rollback attempt.
#[derive(Clone, Debug)]
pub struct RollbackOutcome {
    pub success: bool,
    pub message: String,
    pub underlying_error: Option<String>,
}

/// Mathematical model of a rollback outcome.
pub struct RollbackOutcomeModel {
    pub success: bool,
    pub message: Seq<char>,
    pub underlying_error: Option<Seq<char>>,
}

impl View for RollbackOutcome {
    type V = RollbackOutcomeModel;

    open spec fn view(&self) -> RollbackOutcomeModel {
        RollbackOutcomeModel {
            success: self.success,
            message: self.message@,
            underlying_error: match self.underlying_error {
                Some(ref e) => Some(e@),
                None => None,
            },
        }
    }
}

pub open spec fn rollback_refused_outcome(message: Seq<char>) -> RollbackOutcomeModel {
    RollbackOutcomeModel { success: false, message, underlying_error: None }
}

/// Validates a rollback request; `None` means the rollback may run.
pub fn validate_rollback(root_exists: bool, is_versioned: bool, revision: &str) -> (r: Option<
    RollbackOutcome,
>)
    ensures
        !root_exists ==> (r matches Some(o) && o@ == rollback_refused_outcome(
            "project path does not exist"@,
        )),
        root_exists && !is_versioned ==> (r matches Some(o) && o@ == rollback_refused_outcome(
            "project is not under version control"@,
        )),
        root_exists && is_versioned && is_blank_spec(revision@) ==> (r matches Some(o) && o@
            == rollback_refused_outcome("revision identifier must not be blank"@)),
        root_exists && is_versioned && !is_blank_spec(revision@) ==> r is None,
{
    if !root_exists {
        Some(
            RollbackOutcome {
                success: false,
                message: String::from_str("project path does not exist"),
                underlying_error: None,
            },
        )
    } else if !is_versioned {
        Some(
            RollbackOutcome {
                success: false,
                message: String::from_str("project is not under version control"),
                underlying_error: None,
            },
        )
    } else if str_is_blank(revision) {
        Some(
            RollbackOutcome {
                success: false,
                message: String::from_str("revision identifier must not be blank"),
                underlying_error: None,
            },
        )
    } else {
        None
    }
}

/// The outcome of the rollback invocation itself: success names the
/// revision rolled back to; a failure keeps the raw diagnostic.
pub fn rollback_outcome(launched: bool, exit_ok: bool, diag: &str, revision: &str) -> (r:
    RollbackOutcome)
    ensures
        launched && exit_ok ==> r@ == (RollbackOutcomeModel {
            success: true,
            message: "rolled back to version "@ + revision@,
            underlying_error: None,
        }),
        launched && !exit_ok ==> r@ == (RollbackOutcomeModel {
            success: false,
            message: "rollback failed"@,
            underlying_error: Some(diag@),
        }),
        !launched ==> r@ == (RollbackOutcomeModel {
            success: false,
            message: "could not run the version control tool"@,
            underlying_error: Some(diag@),
        }),
{
    if launched && exit_ok {
        let mut m = String::from_str("rolled back to version ");
        m.append(revision);
        RollbackOutcome { success: true, message: m, underlying_error: None }
    } else if launched {
        RollbackOutcome {
            success: false,
            message: String::from_str("rollback failed"),
            underlying_error: Some(String::from_str(diag)),
        }
    } else {
        RollbackOutcome {
            success: false,
            message: String::from_str("could not run the version control tool"),
            underlying_error: Some(String::from_str(diag)),
        }
    }
}

/// The nonblank lines of `ls`, each trimmed, in order: how a listing of
/// touched files is cleaned.
pub open spec fn nonblank_trimmed(ls: Seq<Seq<char>>) -> Seq<Seq<char>>
    decreases ls.len(),
{
    if ls.len() == 0 {
        seq![]
    } else {
        (if is_blank_spec(ls[0]) {
            seq![]
        } else {
            seq![trim_spec(ls[0])]
        }) + nonblank_trimmed(ls.skip(1))
    }
}

proof fn lemma_nonblank_trimmed_snoc(ls: Seq<Seq<char>>, l: Seq<char>)
    ensures
        nonblank_trimmed(ls.push(l)) == nonblank_trimmed(ls) + (if is_blank_spec(l) {
            seq![]
        } else {
            seq![trim_spec(l)]
        }),
    decreases ls.len(),
{
    let step = (if is_blank_spec(l) {
        seq![]
    } else {
        seq![trim_spec(l)]
    });
    if ls.len() == 0 {
        assert(ls.push(l)[0] == l);
        assert(ls.push(l).skip(1) =~~= Seq::<Seq<char>>::empty());
        assert(nonblank_trimmed(ls) =~~= Seq::<Seq<char>>::empty());
        assert(nonblank_trimmed(ls.push(l).skip(1)) =~~= Seq::<Seq<char>>::empty());
        assert(nonblank_trimmed(ls.push(l)) == step + nonblank_trimmed(ls.push(l).skip(1)));
        assert(nonblank_trimmed(ls.push(l)) =~~= nonblank_trimmed(ls) + step);
    } else {
        let h = ls[0];
        assert(ls.push(l)[0] == h);
        assert(ls.push(l).skip(1) =~~= ls.skip(1).push(l));
        lemma_nonblank_trimmed_snoc(ls.skip(1), l);
        let hstep = (if is_blank_spec(h) {
            seq![]
        } else {
            seq![trim_spec(h)]
        });
        assert(nonblank_trimmed(ls.push(l)) == hstep + (nonblank_trimmed(ls.skip(1)) + step));
        assert(hstep + (nonblank_trimmed(ls.skip(1)) + step) =~~= (hstep + nonblank_trimmed(
            ls.skip(1),
        )) + step);
    }
}

/// The files a snapshot touched, read from the tool's listing: one path
/// per nonblank line, trimmed, in the listing's order.
pub fn parse_changed_files(text: &str) -> (r: Vec<String>)
    ensures
        r.deep_view() == nonblank_trimmed(lines_spec(text@)),
{
    let ls = split_lines(text);
    let ghost lsv = lines_spec(text@);
    let n = ls.len();
    proof {
        assert(n == lsv.len());
    }
    let mut r: Vec<String> = Vec::new();
    let mut i: usize = 0;
    proof {
        assert(lsv.take(0) =~~= Seq::<Seq<char>>::empty());
        assert(r.deep_view() =~~= nonblank_trimmed(lsv.take(0)));
    }
    while i < n
        invariant
            0 <= i <= n,
            n == lsv.len(),
            ls.deep_view() == lsv,
            r.deep_view() == nonblank_trimmed(lsv.take(i as int)),
        decreases n - i,
    {
        let line = ls[i].as_str();
        let ghost old_dv = r.deep_view();
        proof {
            assert(line@ == lsv[i as int]);
            assert(lsv.take(i + 1) =~~= lsv.take(i as int).push(lsv[i as int]));
            lemma_nonblank_trimmed_snoc(lsv.take(i as int), lsv[i as int]);
        }
        if !str_is_blank(line) {
            r.push(String::from_str(str_trim(line)));
            proof {
                assert(r.deep_view() =~~= old_dv.push(trim_spec(lsv[i as int])));
                assert(r.deep_view() =~~= nonblank_trimmed(lsv.take(i + 1)));
            }
        } else {
            proof {
                assert(r.deep_view() =~~= nonblank_trimmed(lsv.take(i + 1)));
            }
        }
        i += 1;
    }
    proof {
        assert(lsv.take(n as int) =~~= lsv);
    }
    r
}

/// The first eight characters of a revision identifier, or all of it
/// when it is shorter.
pub open spec fn short_hash_spec(h: Seq<char>) -> Seq<char> {
    if h.len() >= 8 {
        h.take(8)
    } else {
        h
    }
}

/// The content lines each prefixed with `+` and joined with newlines:
/// the body of a synthesised first-snapshot diff.
pub open spec fn plus_joined(ls: Seq<Seq<char>>) -> Seq<char>
    decreases ls.len(),
{
    if ls.len() == 0 {
        seq![]
    } else if ls.len() == 1 {
        seq!['+'] + ls[0]
    } else {
        seq!['+'] + ls[0] + seq!['\n'] + plus_joined(ls.skip(1))
    }
}

proof fn lemma_plus_joined_snoc(ls: Seq<Seq<char>>, l: Seq<char>)
    ensures
        ls.len() == 0 ==> plus_joined(ls.push(l)) == seq!['+'] + l,
        ls.len() > 0 ==> plus_joined(ls.push(l)) == plus_joined(ls) + seq!['\n'] + seq!['+'] + l,
    decreases ls.len(),
{
    if ls.len() == 0 {
        assert(ls.push(l)[0] == l);
        assert(plus_joined(ls.push(l)) =~= seq!['+'] + l);
    } else if ls.len() == 1 {
        assert(ls.push(l)[0] == ls[0]);
        assert(ls.push(l).skip(1) =~~= ls.skip(1).push(l));
        assert(ls.skip(1).len() == 0);
        lemma_plus_joined_snoc(ls.skip(1), l);
        assert(plus_joined(ls.push(l)) =~= plus_joined(ls) + seq!['\n'] + seq!['+'] + l);
    } else {
        assert(ls.push(l)[0] == ls[0]);
        assert(ls.push(l).skip(1) =~~= ls.skip(1).push(l));
        lemma_plus_joined_snoc(ls.skip(1), l);
        assert(plus_joined(ls.push(l)) =~= plus_joined(ls) + seq!['\n'] + seq!['+'] + l);
    }
}

/// The synthesised raw diff shown for a file's first snapshot: a header
/// naming the shortened revision and the path, a hunk header with the
/// line count, then every content line marked added.
pub open spec fn initial_diff_spec(h: Seq<char>, p: Seq<char>, c: Seq<char>) -> Seq<char> {
    "--- initial snapshot "@ + short_hash_spec(h) + "\n+++ "@ + p + "\n@@ -0,0 +1,"@ + dec_spec(
        lines_spec(c).len() as int,
    ) + " @@\n"@ + plus_joined(lines_spec(c))
}

/// Builds the synthesised raw diff for a file's first snapshot.
pub fn format_initial_diff(revision: &str, file_path: &str, content: &str) -> (r: String)
    ensures
        r@ == initial_diff_spec(revision@, file_path@, content@),
{
    let mut s = String::from_str("--- initial snapshot ");
    let hn = revision.unicode_len();
    if hn >= 8 {
        s.append(revision.substring_char(0, 8));
    } else {
        s.append(revision);
    }
    s.append("\n+++ ");
    s.append(file_path);
    s.append("\n@@ -0,0 +1,");
    let ls = split_lines(content);
    let ghost lsv = lines_spec(content@);
    let count = usize_to_string(ls.len());
    s.append(count.as_str());
    s.append(" @@\n");
    let ghost head = s@;
    let n = ls.len();
    proof {
        assert(n == lsv.len());
        assert(lsv.take(0) =~~= Seq::<Seq<char>>::empty());
        assert(s@ =~= head + plus_joined(lsv.take(0)));
    }
    let mut i: usize = 0;
    while i < n
        invariant
            0 <= i <= n,
            n == lsv.len(),
            ls.deep_view() == lsv,
            s@ == head + plus_joined(lsv.take(i as int)),
        decreases n - i,
    {
        let line = ls[i].as_str();
        proof {
            reveal_strlit("\n");
            reveal_strlit("+");
            assert(line@ == lsv[i as int]);
            assert(lsv.take(i + 1) =~~= lsv.take(i as int).push(lsv[i as int]));
            lemma_plus_joined_snoc(lsv.take(i as int), lsv[i as int]);
            assert("\n"@ =~= seq!['\n']);
            assert("+"@ =~= seq!['+']);
        }
        if i > 0 {
            s.append("\n");
        }
        s.append("+");
        s.append(line);
        proof {
            assert(s@ =~= head + plus_joined(lsv.take(i + 1)));
        }
        i += 1;
    }
    proof {
        assert(lsv.take(n as int) =~~= lsv);
        assert(s@ =~= initial_diff_spec(revision@, file_path@, content@));
    }
    s
}

} // verus!
