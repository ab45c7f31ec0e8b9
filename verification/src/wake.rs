//! Waiting for the backend. The probes are also what wakes it.
use crate::probe::PROBE_TIMEOUT_SECS;
use vstd::prelude::*;

verus! {

/// How long a wake task goes on before it gives up.
pub const WAKE_DEADLINE_SECS: u64 = 120;

/// How long to rest between two probes.
pub const PAUSE_SECS: u64 = 1;

/// What happened to one who waits.
#[derive(Clone, Copy, Debug, PartialEq, Eq, Structural)]
pub enum WaitEvent {
    /// A probe found the backend serving, or not.
    Probed(bool),
    /// A rest is over.
    Rested,
}

/// How far the wait has got. It has no end of its own but the backend's being
/// ready: who waits sets the deadline.
#[derive(Clone, Copy, Debug, PartialEq, Eq, Structural)]
pub enum Wait {
    /// The backend is to be probed.
    Probing,
    /// A rest of [`PAUSE_SECS`] is to be taken.
    Resting,
    /// The backend serves.
    Ready,
}

/// What one who waits asks for.
#[derive(Clone, Copy, Debug, PartialEq, Eq, Structural)]
pub enum WaitAction {
    /// Probe the backend, within this many seconds.
    Probe(u64),
    /// Rest for this many seconds.
    Rest(u64),
    /// Stop waiting.
    Stop,
}

impl Wait {
    /// What is to be done next.
    pub open spec fn asks(self) -> WaitAction {
        match self {
            Wait::Probing => WaitAction::Probe(PROBE_TIMEOUT_SECS),
            Wait::Resting => WaitAction::Rest(PAUSE_SECS),
            Wait::Ready => WaitAction::Stop,
        }
    }

    /// What is to be done next.
    pub fn action(&self) -> (action: WaitAction)
        ensures
            action == self.asks(),
    {
        match self {
            Wait::Probing => WaitAction::Probe(PROBE_TIMEOUT_SECS),
            Wait::Resting => WaitAction::Rest(PAUSE_SECS),
            Wait::Ready => WaitAction::Stop,
        }
    }

    /// The wait after an event. One that does not answer what was to be done
    /// changes nothing.
    pub open spec fn after(self, event: WaitEvent) -> Wait {
        match (self, event) {
            (Wait::Probing, WaitEvent::Probed(true)) => Wait::Ready,
            (Wait::Probing, WaitEvent::Probed(false)) => Wait::Resting,
            (Wait::Resting, WaitEvent::Rested) => Wait::Probing,
            _ => self,
        }
    }

    /// Goes on after an event.
    pub fn step(self, event: WaitEvent) -> (next: Wait)
        ensures
            next == self.after(event),
    {
        match (self, event) {
            (Wait::Probing, WaitEvent::Probed(true)) => Wait::Ready,
            (Wait::Probing, WaitEvent::Probed(false)) => Wait::Resting,
            (Wait::Resting, WaitEvent::Rested) => Wait::Probing,
            _ => self,
        }
    }
}

/// The wait after a series of events.
pub open spec fn wait_after(events: Seq<WaitEvent>) -> Wait
    decreases events.len(),
{
    if events.len() == 0 {
        Wait::Probing
    } else {
        wait_after(events.drop_last()).after(events.last())
    }
}

/// The wait is over only once a probe has found the backend serving.
pub proof fn law_wait_ends_with_ready_probe(events: Seq<WaitEvent>)
    ensures
        wait_after(events) == Wait::Ready ==> events.contains(WaitEvent::Probed(true)),
    decreases events.len(),
{
    if events.len() > 0 && wait_after(events) == Wait::Ready {
        let before = events.drop_last();
        law_wait_ends_with_ready_probe(before);
        if wait_after(before) == Wait::Ready {
            let i = choose|i: int|
                0 <= i < before.len() && before[i] == WaitEvent::Probed(true);
            assert(events[i] == WaitEvent::Probed(true));
        } else {
            assert(events[events.len() - 1] == WaitEvent::Probed(true));
        }
    }
}

/// This many probes that found the backend not serving, each followed by a rest.
pub open spec fn failed_rounds(n: nat) -> Seq<WaitEvent>
    decreases n,
{
    if n == 0 {
        Seq::empty()
    } else {
        failed_rounds((n - 1) as nat).push(WaitEvent::Probed(false)).push(WaitEvent::Rested)
    }
}

/// However often the backend was found not serving, it is probed again: the wait
/// rests after each failure, and the first probe that finds it serving ends it.
pub proof fn law_wait_goes_on_until_ready(n: nat)
    ensures
        wait_after(failed_rounds(n)).asks() == WaitAction::Probe(PROBE_TIMEOUT_SECS),
        wait_after(failed_rounds(n).push(WaitEvent::Probed(false))).asks() == WaitAction::Rest(
            PAUSE_SECS,
        ),
        wait_after(failed_rounds(n).push(WaitEvent::Probed(true))).asks() == WaitAction::Stop,
    decreases n,
{
    let rounds = failed_rounds(n);
    if n > 0 {
        let before = failed_rounds((n - 1) as nat);
        law_wait_goes_on_until_ready((n - 1) as nat);
        assert(rounds.drop_last() =~= before.push(WaitEvent::Probed(false)));
    }
    assert(rounds.push(WaitEvent::Probed(false)).drop_last() =~= rounds);
    assert(rounds.push(WaitEvent::Probed(true)).drop_last() =~= rounds);
}

/// Only what was asked for counts: a rest does not end a probe, a probe does not end a
/// rest, and nothing restarts a wait that is over.
pub proof fn law_wait_heeds_answers_only(wait: Wait, event: WaitEvent)
    ensures
        wait.asks() is Probe && event is Rested ==> wait.after(event) == wait,
        wait.asks() is Rest && event is Probed ==> wait.after(event) == wait,
        wait.asks() is Rest && event is Rested ==> wait.after(event).asks() == WaitAction::Probe(2),
        wait.asks() is Stop ==> wait.after(event).asks() is Stop,
        wait_after(Seq::empty()).asks() == WaitAction::Probe(2),
        wait_after(seq![WaitEvent::Probed(false)]).asks() == WaitAction::Rest(1),
{
    let failed = seq![WaitEvent::Probed(false)];
    assert(failed.drop_last() =~= Seq::<WaitEvent>::empty());
    assert(wait_after(failed.drop_last()) == Wait::Probing);
}

} // verus!
