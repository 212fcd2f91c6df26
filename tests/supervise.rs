use uefi_run::{Fault, KillOutcome, Phase, Step, Supervisor, GRACE_MS, POLL_INTERVAL_MS, POST_KILL_MS};

#[test]
fn natural_exit_is_reported_by_the_poll_that_sees_it() {
    let mut s = Supervisor::new();
    assert_eq!(s.step(), Step::Wait(500));
    for _ in 0..4 {
        assert_eq!(s.on_wait(None, false), Step::Wait(POLL_INTERVAL_MS));
        assert_eq!(s.phase(), Phase::Watching);
    }
    assert_eq!(s.on_wait(Some(3), false), Step::Finish(3));
    assert_eq!(s.phase(), Phase::Exited(3));
}

#[test]
fn cancellation_escalates_to_kill() {
    let mut s = Supervisor::new();
    assert_eq!(s.on_wait(None, true), Step::Wait(GRACE_MS));
    assert_eq!(s.on_wait(None, true), Step::Kill);
    assert_eq!(s.on_kill(KillOutcome::Sent), Step::Wait(POST_KILL_MS));
    assert_eq!(s.on_wait(Some(137), true), Step::Finish(137));
    assert_eq!(GRACE_MS + POST_KILL_MS, 2000);
}

#[test]
fn exit_during_grace_needs_no_kill() {
    let mut s = Supervisor::new();
    assert_eq!(s.on_wait(None, true), Step::Wait(1000));
    assert_eq!(s.on_wait(Some(0), false), Step::Finish(0));
}

#[test]
fn kill_of_exited_process_counts_as_success() {
    let mut s = Supervisor::new();
    s.on_wait(None, true);
    s.on_wait(None, false);
    assert_eq!(s.on_kill(KillOutcome::AlreadyExited), Step::Wait(1000));
    assert_eq!(s.phase(), Phase::AfterKill);
}

#[test]
fn kill_failure_is_fatal() {
    let mut s = Supervisor::new();
    s.on_wait(None, true);
    s.on_wait(None, true);
    assert_eq!(s.on_kill(KillOutcome::Failed), Step::Fail(Fault::KillFailed));
}

#[test]
fn no_exit_after_kill_is_unresponsive() {
    let mut s = Supervisor::new();
    s.on_wait(None, true);
    s.on_wait(None, true);
    s.on_kill(KillOutcome::Sent);
    assert_eq!(s.on_wait(None, true), Step::Fail(Fault::Unresponsive));
}

#[test]
fn exit_code_never_changes() {
    let mut s = Supervisor::new();
    s.on_wait(Some(7), false);
    assert_eq!(s.on_wait(Some(9), true), Step::Finish(7));
    assert_eq!(s.on_kill(KillOutcome::Sent), Step::Finish(7));
    assert_eq!(s.phase(), Phase::Exited(7));
}
