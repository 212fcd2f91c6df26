use vstd::prelude::*;

verus! {

/// How long one poll of the running emulator waits, in milliseconds.
pub const POLL_INTERVAL_MS: u64 = 500;

/// How long the emulator may take to exit after a cancellation, in milliseconds.
pub const GRACE_MS: u64 = 1000;

/// How long to wait for the exit code after the kill request, in milliseconds.
pub const POST_KILL_MS: u64 = 1000;

/// Why supervision ended without an exit code.
#[derive(Clone, Copy, Debug, PartialEq, Eq, Structural)]
pub enum Fault {
    /// The kill request failed for a reason other than "already exited".
    KillFailed,
    /// No exit code came even after the kill request.
    Unresponsive,
}

/// Where the supervised process stands.
#[derive(Clone, Copy, Debug, PartialEq, Eq, Structural)]
pub enum Phase {
    /// Running; polled at a fixed interval until it exits or a cancellation comes.
    Watching,
    /// Cancelled; granted one bounded wait to exit on its own.
    Grace,
    /// Still running after the grace wait; a kill request is due.
    Killing,
    /// Kill requested; one more bounded wait for the exit code.
    AfterKill,
    /// Terminated with this exit code, which never changes again.
    Exited(i32),
    /// Supervision failed.
    Failed(Fault),
}

/// What the caller does next.
#[derive(Clone, Copy, Debug, PartialEq, Eq, Structural)]
pub enum Step {
    /// Wait for the process to exit, for at most this many milliseconds.
    Wait(u64),
    /// Ask the operating system to kill the process.
    Kill,
    /// Supervision is over: this is the process's exit code.
    Finish(i32),
    /// Supervision is over without an exit code.
    Fail(Fault),
}

/// What a kill request came to.
#[derive(Clone, Copy, Debug, PartialEq, Eq, Structural)]
pub enum KillOutcome {
    Sent,
    /// The process had exited already; as good as a kill.
    AlreadyExited,
    Failed,
}

/// The step that a phase calls for.
pub open spec fn pending(phase: Phase) -> Step {
    match phase {
        Phase::Watching => Step::Wait(POLL_INTERVAL_MS),
        Phase::Grace => Step::Wait(GRACE_MS),
        Phase::Killing => Step::Kill,
        Phase::AfterKill => Step::Wait(POST_KILL_MS),
        Phase::Exited(c) => Step::Finish(c),
        Phase::Failed(f) => Step::Fail(f),
    }
}

/// The phase after a wait that returned `result`, with the cancellation flag
/// read as `cancelled` right after it.
pub open spec fn after_wait(phase: Phase, result: Option<i32>, cancelled: bool) -> Phase {
    match phase {
        Phase::Watching | Phase::Grace | Phase::AfterKill => match result {
            Some(c) => Phase::Exited(c),
            None => match phase {
                Phase::Watching => if cancelled {
                    Phase::Grace
                } else {
                    Phase::Watching
                },
                Phase::Grace => Phase::Killing,
                _ => Phase::Failed(Fault::Unresponsive),
            },
        },
        _ => phase,
    }
}

/// The phase after a kill request that came to `outcome`.
pub open spec fn after_kill(phase: Phase, outcome: KillOutcome) -> Phase {
    match phase {
        Phase::Killing => match outcome {
            KillOutcome::Failed => Phase::Failed(Fault::KillFailed),
            _ => Phase::AfterKill,
        },
        _ => phase,
    }
}

/// The phases reached by a run of waits, and the step called for after each.
pub open spec fn watch(phase: Phase, waits: Seq<(Option<i32>, bool)>) -> Seq<Step>
    decreases waits.len(),
{
    if waits.len() == 0 {
        Seq::empty()
    } else {
        let next = after_wait(phase, waits[0].0, waits[0].1);
        seq![pending(next)] + watch(next, waits.drop_first())
    }
}

/// The supervision of one emulator process.
pub struct Supervisor {
    phase: Phase,
}

impl View for Supervisor {
    type V = Phase;

    closed spec fn view(&self) -> Phase {
        self.phase
    }
}

impl Supervisor {
    /// A supervisor for a process that was just spawned.
    pub fn new() -> (r: Supervisor)
        ensures
            r@ == Phase::Watching,
    {
        Supervisor { phase: Phase::Watching }
    }

    pub fn phase(&self) -> (r: Phase)
        ensures
            r == self@,
    {
        self.phase
    }

    /// The step that the current phase calls for.
    pub fn step(&self) -> (r: Step)
        ensures
            r == pending(self@),
    {
        match self.phase {
            Phase::Watching => Step::Wait(POLL_INTERVAL_MS),
            Phase::Grace => Step::Wait(GRACE_MS),
            Phase::Killing => Step::Kill,
            Phase::AfterKill => Step::Wait(POST_KILL_MS),
            Phase::Exited(c) => Step::Finish(c),
            Phase::Failed(f) => Step::Fail(f),
        }
    }

    /// Records the result of a wait and the cancellation flag read after it,
    /// and returns the next step.
    pub fn on_wait(&mut self, result: Option<i32>, cancelled: bool) -> (r: Step)
        ensures
            final(self)@ == after_wait(old(self)@, result, cancelled),
            r == pending(final(self)@),
    {
        let next = match self.phase {
            Phase::Watching | Phase::Grace | Phase::AfterKill => match result {
                Some(c) => Phase::Exited(c),
                None => match self.phase {
                    Phase::Watching => if cancelled {
                        Phase::Grace
                    } else {
                        Phase::Watching
                    },
                    Phase::Grace => Phase::Killing,
                    _ => Phase::Failed(Fault::Unresponsive),
                },
            },
            _ => self.phase,
        };
        self.phase = next;
        self.step()
    }

    /// Records what the kill request came to, and returns the next step.
    pub fn on_kill(&mut self, outcome: KillOutcome) -> (r: Step)
        ensures
            final(self)@ == after_kill(old(self)@, outcome),
            r == pending(final(self)@),
    {
        if matches!(self.phase, Phase::Killing) {
            self.phase = match outcome {
                KillOutcome::Failed => Phase::Failed(Fault::KillFailed),
                _ => Phase::AfterKill,
            };
        }
        self.step()
    }
}

/// Polls that find the process running, with no cancellation, each call for
/// one more poll of the fixed interval; the poll that sees it exit finishes
/// supervision with its exit code. No exit code is reported before a poll has
/// returned it.
pub proof fn lemma_watch_until_exit(n: nat, code: i32, cancelled: bool)
    ensures
        watch(Phase::Watching, Seq::new(n, |i: int| (None::<i32>, false)).push((Some(code), cancelled)))
            == Seq::new(n, |i: int| Step::Wait(POLL_INTERVAL_MS)).push(Step::Finish(code)),
    decreases n,
{
    let w = Seq::new(n, |i: int| (None::<i32>, false)).push((Some(code), cancelled));
    let s = Seq::new(n, |i: int| Step::Wait(POLL_INTERVAL_MS)).push(Step::Finish(code));
    if n == 0 {
        assert(w[0] == (Some(code), cancelled));
        assert(w.drop_first() =~= Seq::<(Option<i32>, bool)>::empty());
        assert(watch(Phase::Exited(code), w.drop_first()) =~= Seq::<Step>::empty());
        assert(watch(Phase::Watching, w) =~= s);
    } else {
        lemma_watch_until_exit((n - 1) as nat, code, cancelled);
        let w1 = Seq::new((n - 1) as nat, |i: int| (None::<i32>, false)).push((Some(code), cancelled));
        let s1 = Seq::new((n - 1) as nat, |i: int| Step::Wait(POLL_INTERVAL_MS)).push(Step::Finish(code));
        assert(w[0] == (None::<i32>, false));
        assert(w.drop_first() =~= w1);
        assert(s =~= seq![Step::Wait(POLL_INTERVAL_MS)] + s1);
    }
}

/// A process that never exits on its own: once the cancellation flag is seen,
/// supervision waits the grace period, requests a kill, waits the post-kill
/// period and then ends with the exit code that wait returns, so the total
/// wait after the cancellation is the grace period plus the post-kill period.
pub proof fn lemma_cancel_escalation(grace_flag: bool, outcome: KillOutcome, code: i32)
    requires
        !(outcome is Failed),
    ensures
        after_wait(Phase::Watching, None, true) == Phase::Grace,
        pending(Phase::Grace) == Step::Wait(GRACE_MS),
        after_wait(Phase::Grace, None, grace_flag) == Phase::Killing,
        pending(Phase::Killing) == Step::Kill,
        after_kill(Phase::Killing, outcome) == Phase::AfterKill,
        pending(Phase::AfterKill) == Step::Wait(POST_KILL_MS),
        after_wait(Phase::AfterKill, Some(code), grace_flag) == Phase::Exited(code),
        pending(Phase::Exited(code)) == Step::Finish(code),
        GRACE_MS + POST_KILL_MS == 2000,
{
}

/// Once an exit code is observed it never changes, whatever comes after.
pub proof fn lemma_exit_code_final(code: i32, result: Option<i32>, cancelled: bool, outcome: KillOutcome)
    ensures
        after_wait(Phase::Exited(code), result, cancelled) == Phase::Exited(code),
        after_kill(Phase::Exited(code), outcome) == Phase::Exited(code),
{
}

} // verus!
