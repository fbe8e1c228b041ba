//! Debounced change detection: a watch session consumes file-system
//! change events, discards those that are irrelevant, and arms one quiet
//! timer per burst of accepted events. Arming a new timer supersedes the
//! previous one: every timer carries the generation it was armed with,
//! and only a timer whose generation still matches the session's settles.
//! A settled timer is the one signal per burst on which an automatic
//! snapshot is attempted.

use vstd::prelude::*;

use crate::text::{contains_spec, str_contains};

verus! {

/// The coarse kind of a file-system change event.
#[derive(Clone, Copy, PartialEq, Eq, Structural, Debug)]
pub enum ChangeKind {
    Created,
    Modified,
    Removed,
    Other,
}

/// One raw file-system event: a path and what happened to it.
#[derive(Clone, Debug)]
pub struct ChangeEvent {
    pub path: String,
    pub kind: ChangeKind,
}

/// Mathematical model of a change event.
pub struct ChangeEventModel {
    pub path: Seq<char>,
    pub kind: ChangeKind,
}

impl View for ChangeEvent {
    type V = ChangeEventModel;

    open spec fn view(&self) -> ChangeEventModel {
        ChangeEventModel { path: self.path@, kind: self.kind }
    }
}

/// The version-control metadata directory segment: events under it are
/// feedback from the session's own commits and never count.
pub open spec fn is_metadata_path(p: Seq<char>) -> bool {
    contains_spec(p, ".git"@)
}

/// An event counts only when it is a content modification outside the
/// metadata directory.
pub open spec fn spec_accepts(e: ChangeEventModel) -> bool {
    e.kind is Modified && !is_metadata_path(e.path)
}

/// Whether `e` counts as a relevant modification.
pub fn event_accepted(e: &ChangeEvent) -> (b: bool)
    ensures
        b == spec_accepts(e@),
{
    match e.kind {
        ChangeKind::Modified => !str_contains(e.path.as_str(), ".git"),
        _ => false,
    }
}

/// The lifecycle phase of a watch session.
#[derive(Clone, Copy, PartialEq, Eq, Structural, Debug)]
pub enum SessionStatus {
    /// No timer pending and no commit in flight.
    Idle,
    /// An accepted event armed a timer that has not yet fired.
    WaitingForQuiet,
    /// A timer settled; the snapshot commit is in flight.
    Committing,
}

/// The handle a newly armed quiet timer carries: its generation must
/// still match the session's when it fires, else it was superseded.
#[derive(Clone, Copy, PartialEq, Eq, Structural, Debug)]
pub struct TimerToken {
    pub generation: u64,
}

/// Mathematical model of a watch session.
pub struct SessionModel {
    pub watched_root: Seq<char>,
    pub instruction_log_path: Option<Seq<char>>,
    pub quiet_interval_ms: u64,
    pub generation: nat,
    pub pending: bool,
    pub status: SessionStatus,
    pub failed: bool,
}

/// One watch session: the debounce coalescer's state.
#[derive(Clone, Debug)]
pub struct WatchSession {
    pub watched_root: String,
    pub instruction_log_path: Option<String>,
    pub quiet_interval_ms: u64,
    pub timer_generation: u64,
    pub timer_pending: bool,
    pub status: SessionStatus,
    pub failed: bool,
}

impl View for WatchSession {
    type V = SessionModel;

    open spec fn view(&self) -> SessionModel {
        SessionModel {
            watched_root: self.watched_root@,
            instruction_log_path: match self.instruction_log_path {
                Some(ref p) => Some(p@),
                None => None,
            },
            quiet_interval_ms: self.quiet_interval_ms,
            generation: self.timer_generation as nat,
            pending: self.timer_pending,
            status: self.status,
            failed: self.failed,
        }
    }
}

/// A pending timer always belongs to a live session that waits for quiet.
pub open spec fn session_wf(m: SessionModel) -> bool {
    m.pending ==> (m.status is WaitingForQuiet && !m.failed)
}

/// Observing one event: an accepted event on a live session supersedes
/// any pending timer and arms a new one, whose generation is returned;
/// anything else changes nothing.
pub open spec fn spec_observe(m: SessionModel, e: ChangeEventModel) -> (SessionModel, Option<nat>) {
    if m.failed || !spec_accepts(e) {
        (m, None)
    } else {
        (
            SessionModel {
                generation: m.generation + 1,
                pending: true,
                status: SessionStatus::WaitingForQuiet,
                ..m
            },
            Some(m.generation + 1),
        )
    }
}

/// A timer of generation `g` firing: it settles exactly when the session
/// is live and still waiting on that same generation; a settled session
/// moves to committing, a stale timer changes nothing.
pub open spec fn spec_fire(m: SessionModel, g: nat) -> (SessionModel, bool) {
    if !m.failed && m.pending && g == m.generation {
        (SessionModel { pending: false, status: SessionStatus::Committing, ..m }, true)
    } else {
        (m, false)
    }
}

/// The commit a settle started has finished: the session returns to
/// waiting when a newer timer was armed meanwhile, else to idle.
pub open spec fn spec_commit_finished(m: SessionModel) -> SessionModel {
    if m.status is Committing {
        SessionModel {
            status: if m.pending {
                SessionStatus::WaitingForQuiet
            } else {
                SessionStatus::Idle
            },
            ..m
        }
    } else {
        m
    }
}

/// The watch primitive reported an error: the session is terminal and
/// produces no further settles until restarted.
pub open spec fn spec_fail(m: SessionModel) -> SessionModel {
    SessionModel { pending: false, status: SessionStatus::Idle, failed: true, ..m }
}

impl WatchSession {
    /// A fresh session on `watched_root` with the given quiet interval.
    pub fn new(watched_root: String, instruction_log_path: Option<String>, quiet_interval_ms: u64) -> (s:
        WatchSession)
        ensures
            s@.watched_root == watched_root@,
            s@.instruction_log_path == (match instruction_log_path {
                Some(p) => Some(p@),
                None => None::<Seq<char>>,
            }),
            s@.quiet_interval_ms == quiet_interval_ms,
            s@.generation == 0,
            !s@.pending,
            s@.status is Idle,
            !s@.failed,
            session_wf(s@),
    {
        WatchSession {
            watched_root,
            instruction_log_path,
            quiet_interval_ms,
            timer_generation: 0,
            timer_pending: false,
            status: SessionStatus::Idle,
            failed: false,
        }
    }

    /// Consumes one raw event; when it is accepted, the returned token
    /// names the newly armed quiet timer, which supersedes any earlier one.
    pub fn observe(&mut self, e: &ChangeEvent) -> (t: Option<TimerToken>)
        requires
            old(self).timer_generation < u64::MAX,
        ensures
            final(self)@ == spec_observe(old(self)@, e@).0,
            (t matches Some(tok) ==> spec_observe(old(self)@, e@).1 == Some(
                tok.generation as nat,
            )),
            (t is None <==> spec_observe(old(self)@, e@).1 is None),
            session_wf(old(self)@) ==> session_wf(final(self)@),
    {
        if self.failed {
            return None;
        }
        if !event_accepted(e) {
            return None;
        }
        self.timer_generation = self.timer_generation + 1;
        self.timer_pending = true;
        self.status = SessionStatus::WaitingForQuiet;
        Some(TimerToken { generation: self.timer_generation })
    }

    /// A quiet timer with token `t` fired; the result says whether it
    /// settles, that is, whether it is still the session's current timer.
    pub fn timer_fired(&mut self, t: &TimerToken) -> (settle: bool)
        ensures
            final(self)@ == spec_fire(old(self)@, t.generation as nat).0,
            settle == spec_fire(old(self)@, t.generation as nat).1,
            session_wf(old(self)@) ==> session_wf(final(self)@),
    {
        if !self.failed && self.timer_pending && t.generation == self.timer_generation {
            self.timer_pending = false;
            self.status = SessionStatus::Committing;
            true
        } else {
            false
        }
    }

    /// The commit a settle started has finished.
    pub fn commit_finished(&mut self)
        ensures
            final(self)@ == spec_commit_finished(old(self)@),
            session_wf(old(self)@) ==> session_wf(final(self)@),
    {
        match self.status {
            SessionStatus::Committing => {
                self.status = if self.timer_pending {
                    SessionStatus::WaitingForQuiet
                } else {
                    SessionStatus::Idle
                };
            },
            _ => {},
        }
    }

    /// The watch primitive failed: the session becomes terminal.
    pub fn watch_failed(&mut self)
        ensures
            final(self)@ == spec_fail(old(self)@),
            session_wf(final(self)@),
    {
        self.timer_pending = false;
        self.status = SessionStatus::Idle;
        self.failed = true;
    }
}

/// The session after observing every event of `es` in order.
pub open spec fn observe_trace(m: SessionModel, es: Seq<ChangeEventModel>) -> SessionModel
    decreases es.len(),
{
    if es.len() == 0 {
        m
    } else {
        observe_trace(spec_observe(m, es[0]).0, es.skip(1))
    }
}

/// The timer generations issued while observing `es` in order.
pub open spec fn issued_tokens(m: SessionModel, es: Seq<ChangeEventModel>) -> Seq<nat>
    decreases es.len(),
{
    if es.len() == 0 {
        seq![]
    } else {
        (match spec_observe(m, es[0]).1 {
            Some(g) => seq![g],
            None => seq![],
        }) + issued_tokens(spec_observe(m, es[0]).0, es.skip(1))
    }
}

/// How many of the timers in `gens`, firing in order with no events in
/// between, settle.
pub open spec fn settle_count(m: SessionModel, gens: Seq<nat>) -> nat
    decreases gens.len(),
{
    if gens.len() == 0 {
        0
    } else {
        (if spec_fire(m, gens[0]).1 {
            1nat
        } else {
            0nat
        }) + settle_count(spec_fire(m, gens[0]).0, gens.skip(1))
    }
}

/// A session with no pending timer settles nothing, whatever fires.
pub proof fn lemma_no_pending_no_settle(m: SessionModel, gens: Seq<nat>)
    requires
        !m.pending,
    ensures
        settle_count(m, gens) == 0,
    decreases gens.len(),
{
    if gens.len() > 0 {
        lemma_no_pending_no_settle(m, gens.skip(1));
    }
}

/// Law: between two observed events, at most one timer settles — firing
/// can only consume the one pending timer, never arm another. With each
/// settle committing once, at most one commit attempt follows a burst.
pub proof fn lemma_at_most_one_settle(m: SessionModel, gens: Seq<nat>)
    ensures
        settle_count(m, gens) <= 1,
    decreases gens.len(),
{
    if gens.len() > 0 {
        if spec_fire(m, gens[0]).1 {
            lemma_no_pending_no_settle(spec_fire(m, gens[0]).0, gens.skip(1));
        } else {
            lemma_at_most_one_settle(m, gens.skip(1));
        }
    }
}

/// After a burst of accepted events on a live session, the session waits
/// on the last issued generation, and the issued generations are the
/// consecutive ones after the starting generation.
pub proof fn lemma_burst_state(m: SessionModel, es: Seq<ChangeEventModel>)
    requires
        !m.failed,
        es.len() > 0,
        forall|i: int| 0 <= i < es.len() ==> spec_accepts(#[trigger] es[i]),
    ensures
        observe_trace(m, es) == (SessionModel {
            generation: m.generation + es.len(),
            pending: true,
            status: SessionStatus::WaitingForQuiet,
            ..m
        }),
        issued_tokens(m, es) == Seq::new(es.len(), |k: int| (m.generation + 1 + k) as nat),
    decreases es.len(),
{
    let m2 = spec_observe(m, es[0]).0;
    assert(spec_accepts(es[0]));
    if es.len() == 1 {
        assert(es.skip(1).len() == 0);
        assert(observe_trace(m2, es.skip(1)) == m2);
        assert(issued_tokens(m2, es.skip(1)) == Seq::<nat>::empty());
        assert(issued_tokens(m, es) == seq![(m.generation + 1) as nat] + Seq::<nat>::empty());
        assert(issued_tokens(m, es) =~= Seq::new(es.len(), |k: int| (m.generation + 1 + k) as nat));
    } else {
        assert forall|i: int| 0 <= i < es.skip(1).len() implies spec_accepts(
            #[trigger] es.skip(1)[i],
        ) by {
            assert(es.skip(1)[i] == es[i + 1]);
        }
        lemma_burst_state(m2, es.skip(1));
        assert(issued_tokens(m, es) =~= Seq::new(es.len(), |k: int| (m.generation + 1 + k) as nat));
    }
}

proof fn lemma_stale_then_match(m: SessionModel, gens: Seq<nat>)
    requires
        m.pending,
        !m.failed,
        gens.len() > 0,
        forall|k: int| 0 <= k < gens.len() - 1 ==> #[trigger] gens[k] != m.generation,
        gens[gens.len() - 1] == m.generation,
    ensures
        settle_count(m, gens) == 1,
    decreases gens.len(),
{
    if gens.len() == 1 {
        let m2 = spec_fire(m, gens[0]).0;
        assert(settle_count(m2, gens.skip(1)) == 0);
    } else {
        assert(gens[0] != m.generation);
        assert(spec_fire(m, gens[0]).0 == m);
        assert forall|k: int| 0 <= k < gens.skip(1).len() - 1 implies #[trigger] gens.skip(1)[k]
            != m.generation by {
            assert(gens.skip(1)[k] == gens[k + 1]);
        }
        assert(gens.skip(1)[gens.skip(1).len() - 1] == gens[gens.len() - 1]);
        lemma_stale_then_match(m, gens.skip(1));
    }
}

/// Law: a burst of accepted events arriving faster than the quiet
/// interval — modeled as every event observed before any of the armed
/// timers fires — produces exactly one settle, and so exactly one commit
/// attempt, once all the issued timers have fired in order.
pub proof fn lemma_burst_exactly_one_settle(m: SessionModel, es: Seq<ChangeEventModel>)
    requires
        !m.failed,
        es.len() > 0,
        forall|i: int| 0 <= i < es.len() ==> spec_accepts(#[trigger] es[i]),
    ensures
        settle_count(observe_trace(m, es), issued_tokens(m, es)) == 1,
{
    lemma_burst_state(m, es);
    let mf = observe_trace(m, es);
    let gens = issued_tokens(m, es);
    assert(gens.len() == es.len());
    assert forall|k: int| 0 <= k < gens.len() - 1 implies #[trigger] gens[k] != mf.generation by {
        assert(gens[k] == m.generation + 1 + k);
    }
    assert(gens[gens.len() - 1] == mf.generation);
    lemma_stale_then_match(mf, gens);
}

/// Law: events under the version-control metadata directory are ignored
/// outright — they change no state and arm no timer.
pub proof fn lemma_metadata_events_ignored(m: SessionModel, es: Seq<ChangeEventModel>)
    requires
        forall|i: int| 0 <= i < es.len() ==> is_metadata_path((#[trigger] es[i]).path),
    ensures
        observe_trace(m, es) == m,
        issued_tokens(m, es) == Seq::<nat>::empty(),
    decreases es.len(),
{
    if es.len() > 0 {
        assert(!spec_accepts(es[0]));
        assert forall|i: int| 0 <= i < es.skip(1).len() implies is_metadata_path(
            (#[trigger] es.skip(1)[i]).path,
        ) by {
            assert(es.skip(1)[i] == es[i + 1]);
        }
        lemma_metadata_events_ignored(m, es.skip(1));
        assert(issued_tokens(m, es) =~= Seq::<nat>::empty());
    }
}

/// Law: a quiet session fed only metadata-directory events never
/// settles, whatever timers fire afterwards.
pub proof fn lemma_metadata_events_no_settle(
    m: SessionModel,
    es: Seq<ChangeEventModel>,
    gens: Seq<nat>,
)
    requires
        !m.pending,
        forall|i: int| 0 <= i < es.len() ==> is_metadata_path((#[trigger] es[i]).path),
    ensures
        settle_count(observe_trace(m, es), gens) == 0,
{
    lemma_metadata_events_ignored(m, es);
    lemma_no_pending_no_settle(m, gens);
}

/// The externally reported state of the watcher controller.
#[derive(Clone, Copy, PartialEq, Eq, Structural, Debug)]
pub enum ControllerState {
    Stopped,
    Starting,
    Watching,
}

/// Why a watch session could not start.
#[derive(Clone, Copy, PartialEq, Eq, Structural, Debug)]
pub enum StartError {
    /// The requested root does not exist.
    InvalidRoot,
    /// The root has no version-control metadata directory.
    NotVersioned,
    /// A session is already watching; only one may be active.
    AlreadyWatching,
}

/// A snapshot of the controller's configuration and state.
#[derive(Clone, Debug)]
pub struct WatchStatus {
    pub is_watching: bool,
    pub watched_root: Option<String>,
    pub instruction_log_path: Option<String>,
    pub quiet_interval_ms: Option<u64>,
}

/// Composes the event source and the coalescer into a start/stop
/// lifecycle; at most one session is active at a time.
pub struct WatcherController {
    pub session: Option<WatchSession>,
}

impl WatcherController {
    /// A controller with no active session.
    pub fn new() -> (c: WatcherController)
        ensures
            c.session is None,
    {
        WatcherController { session: None }
    }

    pub open spec fn state_spec(&self) -> ControllerState {
        if self.session is Some {
            ControllerState::Watching
        } else {
            ControllerState::Stopped
        }
    }

    /// Starts watching `root`: refused when a session is already active,
    /// when the root does not exist, or when it is not version-controlled;
    /// otherwise the fresh session's configuration is returned.
    pub fn start(
        &mut self,
        root: String,
        root_exists: bool,
        is_versioned: bool,
        instruction_log_path: Option<String>,
        quiet_interval_ms: u64,
    ) -> (r: Result<WatchStatus, StartError>)
        ensures
            old(self).session is Some ==> r == Err::<WatchStatus, StartError>(
                StartError::AlreadyWatching,
            ) && *final(self) == *old(self),
            old(self).session is None && !root_exists ==> r == Err::<WatchStatus, StartError>(
                StartError::InvalidRoot,
            ) && *final(self) == *old(self),
            old(self).session is None && root_exists && !is_versioned ==> r == Err::<
                WatchStatus,
                StartError,
            >(StartError::NotVersioned) && *final(self) == *old(self),
            old(self).session is None && root_exists && is_versioned ==> {
                &&& final(self).session matches Some(s)
                &&& s@.watched_root == root@
                &&& s@.instruction_log_path == (match instruction_log_path {
                    Some(p) => Some(p@),
                    None => None::<Seq<char>>,
                })
                &&& s@.quiet_interval_ms == quiet_interval_ms
                &&& !s@.pending
                &&& s@.generation == 0
                &&& !s@.failed
                &&& s@.status is Idle
                &&& (r matches Ok(st) && st.is_watching && (st.watched_root matches Some(w)
                    && w@ == root@) && st.quiet_interval_ms == Some(quiet_interval_ms))
            },
    {
        match self.session {
            Some(_) => Err(StartError::AlreadyWatching),
            None => {
                if !root_exists {
                    Err(StartError::InvalidRoot)
                } else if !is_versioned {
                    Err(StartError::NotVersioned)
                } else {
                    let status = WatchStatus {
                        is_watching: true,
                        watched_root: Some(root.clone()),
                        instruction_log_path: match instruction_log_path {
                            Some(ref p) => Some(p.clone()),
                            None => None,
                        },
                        quiet_interval_ms: Some(quiet_interval_ms),
                    };
                    self.session = Some(
                        WatchSession::new(root, instruction_log_path, quiet_interval_ms),
                    );
                    Ok(status)
                }
            },
        }
    }

    /// Stops watching: any active session is dropped, with its pending
    /// timer; stopping an already-stopped controller is a no-op. Always
    /// reports the stopped state.
    pub fn stop(&mut self) -> (st: ControllerState)
        ensures
            final(self).session is None,
            st == ControllerState::Stopped,
            old(self).session is None ==> *final(self) == *old(self),
    {
        self.session = None;
        ControllerState::Stopped
    }

    /// The current configuration and state, without side effects.
    pub fn status(&self) -> (st: WatchStatus)
        ensures
            st.is_watching == (self.session is Some),
            self.session matches Some(s) ==> (st.watched_root matches Some(w) && w@
                == s@.watched_root) && st.quiet_interval_ms == Some(s.quiet_interval_ms),
            self.session is None ==> st.watched_root is None && st.instruction_log_path is None
                && st.quiet_interval_ms is None,
    {
        match self.session {
            Some(ref s) => WatchStatus {
                is_watching: true,
                watched_root: Some(s.watched_root.clone()),
                instruction_log_path: match s.instruction_log_path {
                    Some(ref p) => Some(p.clone()),
                    None => None,
                },
                quiet_interval_ms: Some(s.quiet_interval_ms),
            },
            None => WatchStatus {
                is_watching: false,
                watched_root: None,
                instruction_log_path: None,
                quiet_interval_ms: None,
            },
        }
    }
}

/// A lifecycle notice forwarded to the observer.
#[derive(Clone, Copy, PartialEq, Eq, Structural, Debug)]
pub enum WatchNotice {
    /// The watcher started and waits for changes.
    Watching,
    /// Changes were seen; a quiet timer is pending before the commit.
    PendingCommit,
    /// The automatic snapshot was recorded.
    Committed,
    /// The automatic snapshot failed.
    CommitFailed,
}

/// The status string an observer receives for each lifecycle notice.
pub fn notice_label(n: WatchNotice) -> (s: &'static str)
    ensures
        n is Watching ==> s@ == "watching"@,
        n is PendingCommit ==> s@ == "pending commit"@,
        n is Committed ==> s@ == "committed"@,
        n is CommitFailed ==> s@ == "commit failed"@,
{
    match n {
        WatchNotice::Watching => "watching",
        WatchNotice::PendingCommit => "pending commit",
        WatchNotice::Committed => "committed",
        WatchNotice::CommitFailed => "commit failed",
    }
}

} // verus!
