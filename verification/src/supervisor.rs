//! The supervisor that decides when the server has done its job.
//!
//! The supervisor itself never sleeps and never looks at the pending set. It
//! says what to wait for, is told what the wait ended in, and answers with
//! the next thing to do.

use crate::tracker::CompletionTracker;
use vstd::prelude::*;

verus! {

/// Time between two looks at the pending set, in milliseconds.
pub const POLL_INTERVAL_MS: u64 = 5000;

/// Where the supervisor stands.
#[derive(Clone, Copy, Debug, PartialEq, Eq, Structural)]
pub enum SupervisorState {
    /// Files are still pending, as far as the supervisor knows.
    Polling,
    /// The pending set was seen empty; the grace period is running.
    Draining,
    /// The grace period is over. There is no way back from here.
    Terminating,
}

/// What the supervisor asks its driver to do next.
#[derive(Clone, Copy, Debug, PartialEq, Eq, Structural)]
pub enum SupervisorAction {
    /// Sleep for `millis`, then look whether the pending set is empty and
    /// report it as `SupervisorEvent::Polled`.
    PollAfter { millis: u64 },
    /// Sleep for `millis`, then report `SupervisorEvent::GraceElapsed`
    /// without looking at the pending set again.
    DrainFor { millis: u64 },
    /// Stop serving at once and end the process.
    Terminate,
}

/// What the driver reports back.
#[derive(Clone, Copy, Debug, PartialEq, Eq, Structural)]
pub enum SupervisorEvent {
    /// A poll interval has passed, and this is what the tracker said.
    Polled { pending_empty: bool },
    /// The grace period has passed.
    GraceElapsed,
}

/// The state that follows `state` on `event`. An event that the state did
/// not ask for leaves it where it is.
pub open spec fn next_state(state: SupervisorState, event: SupervisorEvent) -> SupervisorState {
    match (state, event) {
        (SupervisorState::Polling, SupervisorEvent::Polled { pending_empty: true }) => {
            SupervisorState::Draining
        },
        (SupervisorState::Draining, SupervisorEvent::GraceElapsed) => SupervisorState::Terminating,
        _ => state,
    }
}

/// What there is to do in `state`, with a grace period of `grace_ms`.
pub open spec fn action_in(state: SupervisorState, grace_ms: u32) -> SupervisorAction {
    match state {
        SupervisorState::Polling => SupervisorAction::PollAfter { millis: POLL_INTERVAL_MS },
        SupervisorState::Draining => SupervisorAction::DrainFor { millis: grace_ms as u64 },
        SupervisorState::Terminating => SupervisorAction::Terminate,
    }
}

/// The state after the events of `events` were taken in, in order.
pub open spec fn state_after(state: SupervisorState, events: Seq<SupervisorEvent>) -> SupervisorState
    decreases events.len(),
{
    if events.len() == 0 {
        state
    } else {
        state_after(next_state(state, events[0]), events.drop_first())
    }
}

/// How many transitions lie between `state` and `Terminating`.
pub open spec fn transitions_left(state: SupervisorState) -> nat {
    match state {
        SupervisorState::Polling => 2,
        SupervisorState::Draining => 1,
        SupervisorState::Terminating => 0,
    }
}

/// The time, in milliseconds, at which a supervisor that is in `state` at
/// time `now` reaches `Terminating`, when its driver sleeps exactly as long as
/// it is asked to and the pending set is empty from time `empty_from` on.
pub open spec fn terminates_at(
    state: SupervisorState,
    grace_ms: u32,
    now: nat,
    empty_from: nat,
) -> nat
    decreases
            (if now < empty_from {
                empty_from - now
            } else {
                0
            }),
            transitions_left(state),
{
    match action_in(state, grace_ms) {
        SupervisorAction::PollAfter { millis } => {
            let woke = (now + millis) as nat;
            let event = SupervisorEvent::Polled { pending_empty: woke >= empty_from };
            terminates_at(next_state(state, event), grace_ms, woke, empty_from)
        },
        SupervisorAction::DrainFor { millis } => {
            let event = SupervisorEvent::GraceElapsed;
            terminates_at(next_state(state, event), grace_ms, (now + millis) as nat, empty_from)
        },
        SupervisorAction::Terminate => now,
    }
}

/// A supervisor that starts polling at time `started` terminates no earlier
/// than one grace period after the pending set has become empty, and no
/// later than one grace period and one poll interval after it. For a set
/// that was empty before the supervisor started, the start counts as the
/// moment it became empty.
pub proof fn lemma_termination_window(grace_ms: u32, started: nat, empty_from: nat)
    ensures
        ({
            let empty_seen_from = if started <= empty_from {
                empty_from
            } else {
                started
            };
            let end = terminates_at(SupervisorState::Polling, grace_ms, started, empty_from);
            empty_seen_from + grace_ms <= end <= empty_seen_from + grace_ms + POLL_INTERVAL_MS
        }),
    decreases
            (if started < empty_from {
                empty_from - started
            } else {
                0
            }),
{
    let woke = (started + POLL_INTERVAL_MS) as nat;
    if woke >= empty_from {
        let drained = (woke + grace_ms) as nat;
        assert(terminates_at(SupervisorState::Draining, grace_ms, woke, empty_from)
            == terminates_at(SupervisorState::Terminating, grace_ms, drained, empty_from));
    } else {
        lemma_termination_window(grace_ms, woke, empty_from);
    }
}

/// The number of the poll that first finds the pending set empty, counted
/// from one, for a supervisor that has made `done` polls so far, one poll
/// interval apart from time zero on, each of which found files pending.
proof fn lemma_first_empty_poll(grace_ms: u32, empty_from: nat, done: nat) -> (polls: nat)
    requires
        done == 0 || done * POLL_INTERVAL_MS < empty_from,
    ensures
        polls > done,
        polls * POLL_INTERVAL_MS >= empty_from,
        polls == done + 1 || (polls - 1) * POLL_INTERVAL_MS < empty_from,
        terminates_at(
            SupervisorState::Polling,
            grace_ms,
            (done * POLL_INTERVAL_MS) as nat,
            empty_from,
        ) == polls * POLL_INTERVAL_MS + grace_ms,
    decreases
            (if done * POLL_INTERVAL_MS < empty_from {
                empty_from - done * POLL_INTERVAL_MS
            } else {
                0
            }),
{
    let now = (done * POLL_INTERVAL_MS) as nat;
    let woke = (now + POLL_INTERVAL_MS) as nat;
    assert(woke == (done + 1) * POLL_INTERVAL_MS);
    if woke >= empty_from {
        let drained = (woke + grace_ms) as nat;
        assert(terminates_at(SupervisorState::Draining, grace_ms, woke, empty_from)
            == terminates_at(SupervisorState::Terminating, grace_ms, drained, empty_from));
        done + 1
    } else {
        lemma_first_empty_poll(grace_ms, empty_from, done + 1)
    }
}

/// A supervisor that starts at time zero terminates exactly one grace period
/// after the first poll that finds the pending set empty. Polls fall on the
/// multiples of the poll interval, the first of them one interval after the
/// start; the result is the number of that poll.
pub proof fn lemma_termination_time(grace_ms: u32, empty_from: nat) -> (polls: nat)
    ensures
        polls >= 1,
        polls * POLL_INTERVAL_MS >= empty_from,
        polls == 1 || (polls - 1) * POLL_INTERVAL_MS < empty_from,
        terminates_at(SupervisorState::Polling, grace_ms, 0, empty_from) == polls
            * POLL_INTERVAL_MS + grace_ms,
{
    lemma_first_empty_poll(grace_ms, empty_from, 0)
}

/// As long as no poll finds the pending set empty, the supervisor keeps
/// polling, whatever else it is told and however long this goes on.
pub proof fn lemma_polling_while_pending(events: Seq<SupervisorEvent>)
    requires
        forall|i: int|
            0 <= i < events.len() ==> events[i] != (SupervisorEvent::Polled {
                pending_empty: true,
            }),
    ensures
        state_after(SupervisorState::Polling, events) == SupervisorState::Polling,
    decreases events.len(),
{
    if events.len() > 0 {
        let rest = events.drop_first();
        assert forall|i: int| 0 <= i < rest.len() implies rest[i] != (SupervisorEvent::Polled {
            pending_empty: true,
        }) by {
            assert(rest[i] == events[i + 1]);
        }
        lemma_polling_while_pending(rest);
    }
}

/// Nothing leads out of `Terminating`.
pub proof fn lemma_terminating_is_final(events: Seq<SupervisorEvent>)
    ensures
        state_after(SupervisorState::Terminating, events) == SupervisorState::Terminating,
    decreases events.len(),
{
    if events.len() > 0 {
        lemma_terminating_is_final(events.drop_first());
    }
}

/// The background task's decisions, as a state machine.
#[derive(Debug)]
pub struct ShutdownSupervisor {
    state: SupervisorState,
    grace_ms: u32,
}

impl ShutdownSupervisor {
    /// The state, for contracts.
    pub closed spec fn spec_state(&self) -> SupervisorState {
        self.state
    }

    /// The grace period, for contracts.
    pub closed spec fn spec_grace_period_ms(&self) -> u32 {
        self.grace_ms
    }

    /// A supervisor that starts out polling and will, once the pending set is
    /// seen empty, wait `grace_period_ms` before it terminates.
    pub fn new(grace_period_ms: u32) -> (supervisor: Self)
        ensures
            supervisor.state() == SupervisorState::Polling,
            supervisor.grace_period_ms() == grace_period_ms,
    {
        ShutdownSupervisor { state: SupervisorState::Polling, grace_ms: grace_period_ms }
    }

    /// Where the supervisor stands.
    #[verifier::when_used_as_spec(spec_state)]
    pub fn state(&self) -> (state: SupervisorState)
        ensures
            state == self.spec_state(),
    {
        self.state
    }

    /// The grace period in milliseconds.
    #[verifier::when_used_as_spec(spec_grace_period_ms)]
    pub fn grace_period_ms(&self) -> (millis: u32)
        ensures
            millis == self.spec_grace_period_ms(),
    {
        self.grace_ms
    }

    /// What there is to do in the current state.
    pub fn action(&self) -> (action: SupervisorAction)
        ensures
            action == action_in(self.state(), self.grace_period_ms()),
    {
        match self.state {
            SupervisorState::Polling => SupervisorAction::PollAfter { millis: POLL_INTERVAL_MS },
            SupervisorState::Draining => SupervisorAction::DrainFor { millis: self.grace_ms as u64 },
            SupervisorState::Terminating => SupervisorAction::Terminate,
        }
    }

    /// Takes `event` in and says what to do next.
    pub fn step(&mut self, event: SupervisorEvent) -> (action: SupervisorAction)
        ensures
            final(self).state() == next_state(old(self).state(), event),
            final(self).grace_period_ms() == old(self).grace_period_ms(),
            action == action_in(final(self).state(), final(self).grace_period_ms()),
    {
        match (self.state, event) {
            (SupervisorState::Polling, SupervisorEvent::Polled { pending_empty }) => {
                if pending_empty {
                    self.state = SupervisorState::Draining;
                }
            },
            (SupervisorState::Draining, SupervisorEvent::GraceElapsed) => {
                self.state = SupervisorState::Terminating;
            },
            _ => {},
        }
        self.action()
    }

    /// Looks at `tracker` once a poll interval has passed and takes in what
    /// it shows.
    pub fn poll(&mut self, tracker: &CompletionTracker) -> (action: SupervisorAction)
        ensures
            final(self).state() == next_state(
                old(self).state(),
                SupervisorEvent::Polled { pending_empty: tracker@.len() == 0 },
            ),
            final(self).grace_period_ms() == old(self).grace_period_ms(),
            action == action_in(final(self).state(), final(self).grace_period_ms()),
    {
        let pending_empty = tracker.is_empty();
        self.step(SupervisorEvent::Polled { pending_empty })
    }
}

} // verus!
