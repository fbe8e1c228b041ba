use vibesnap::watch::{
    event_accepted, notice_label, ChangeEvent, ChangeKind, ControllerState, SessionStatus,
    StartError, WatchNotice, WatchSession, WatcherController,
};

fn modified(path: &str) -> ChangeEvent {
    ChangeEvent { path: path.to_string(), kind: ChangeKind::Modified }
}

#[test]
fn burst_settles_exactly_once() {
    let mut session = WatchSession::new("/project".to_string(), None, 2000);
    let t1 = session.observe(&modified("/project/a.rs")).unwrap();
    let t2 = session.observe(&modified("/project/b.rs")).unwrap();
    let t3 = session.observe(&modified("/project/c.rs")).unwrap();
    // The timers of a burst fire in arming order; only the last settles.
    assert!(!session.timer_fired(&t1));
    assert!(!session.timer_fired(&t2));
    assert!(session.timer_fired(&t3));
    // Nothing settles twice.
    assert!(!session.timer_fired(&t3));
}

#[test]
fn metadata_directory_events_never_arm_a_timer() {
    let mut session = WatchSession::new("/project".to_string(), None, 2000);
    assert!(session.observe(&modified("/project/.git/index")).is_none());
    assert!(session.observe(&modified("/project/.git/objects/ab")).is_none());
    assert!(!session.timer_pending);
}

#[test]
fn only_modifications_count() {
    let mut session = WatchSession::new("/project".to_string(), None, 2000);
    let created = ChangeEvent { path: "/project/new.rs".to_string(), kind: ChangeKind::Created };
    let removed = ChangeEvent { path: "/project/old.rs".to_string(), kind: ChangeKind::Removed };
    let other = ChangeEvent { path: "/project/x.rs".to_string(), kind: ChangeKind::Other };
    assert!(session.observe(&created).is_none());
    assert!(session.observe(&removed).is_none());
    assert!(session.observe(&other).is_none());
    assert!(!event_accepted(&created));
    assert!(event_accepted(&modified("/project/x.rs")));
}

#[test]
fn superseded_timer_never_settles_even_out_of_order() {
    let mut session = WatchSession::new("/project".to_string(), None, 500);
    let t1 = session.observe(&modified("/project/a.rs")).unwrap();
    let t2 = session.observe(&modified("/project/b.rs")).unwrap();
    assert!(session.timer_fired(&t2));
    assert!(!session.timer_fired(&t1));
}

#[test]
fn settle_moves_to_committing_and_back() {
    let mut session = WatchSession::new("/project".to_string(), None, 500);
    let t = session.observe(&modified("/project/a.rs")).unwrap();
    assert_eq!(session.status, SessionStatus::WaitingForQuiet);
    assert!(session.timer_fired(&t));
    assert_eq!(session.status, SessionStatus::Committing);
    session.commit_finished();
    assert_eq!(session.status, SessionStatus::Idle);
}

#[test]
fn event_during_commit_keeps_waiting_after_finish() {
    let mut session = WatchSession::new("/project".to_string(), None, 500);
    let t = session.observe(&modified("/project/a.rs")).unwrap();
    assert!(session.timer_fired(&t));
    let t2 = session.observe(&modified("/project/b.rs")).unwrap();
    session.commit_finished();
    assert_eq!(session.status, SessionStatus::WaitingForQuiet);
    assert!(session.timer_fired(&t2));
}

#[test]
fn failed_watch_is_terminal() {
    let mut session = WatchSession::new("/project".to_string(), None, 500);
    session.watch_failed();
    assert!(session.observe(&modified("/project/a.rs")).is_none());
}

#[test]
fn stop_is_idempotent() {
    let mut controller = WatcherController::new();
    controller
        .start("/project".to_string(), true, true, None, 2000)
        .unwrap();
    assert_eq!(controller.stop(), ControllerState::Stopped);
    // Stopping an already-stopped controller is a no-op and still reports
    // the stopped state.
    assert_eq!(controller.stop(), ControllerState::Stopped);
    assert!(!controller.status().is_watching);
}

#[test]
fn start_validates_root_and_exclusivity() {
    let mut controller = WatcherController::new();
    assert_eq!(
        controller
            .start("/missing".to_string(), false, false, None, 2000)
            .unwrap_err(),
        StartError::InvalidRoot
    );
    assert_eq!(
        controller
            .start("/plain".to_string(), true, false, None, 2000)
            .unwrap_err(),
        StartError::NotVersioned
    );
    let status = controller
        .start("/project".to_string(), true, true, Some("/log.txt".to_string()), 1500)
        .unwrap();
    assert!(status.is_watching);
    assert_eq!(status.watched_root.as_deref(), Some("/project"));
    assert_eq!(status.instruction_log_path.as_deref(), Some("/log.txt"));
    assert_eq!(status.quiet_interval_ms, Some(1500));
    assert_eq!(
        controller
            .start("/other".to_string(), true, true, None, 2000)
            .unwrap_err(),
        StartError::AlreadyWatching
    );
}

#[test]
fn status_reports_the_active_configuration() {
    let mut controller = WatcherController::new();
    controller
        .start("/project".to_string(), true, true, None, 250)
        .unwrap();
    let status = controller.status();
    assert!(status.is_watching);
    assert_eq!(status.watched_root.as_deref(), Some("/project"));
    assert_eq!(status.quiet_interval_ms, Some(250));
}

#[test]
fn observer_status_strings() {
    assert_eq!(notice_label(WatchNotice::Watching), "watching");
    assert_eq!(notice_label(WatchNotice::PendingCommit), "pending commit");
    assert_eq!(notice_label(WatchNotice::Committed), "committed");
    assert_eq!(notice_label(WatchNotice::CommitFailed), "commit failed");
}
