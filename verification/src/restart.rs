//! The delayed restart.
//!
//! A scheduler holds at most one timer. Arming sets the instant at which the
//! restart is due; polling with the current time says whether the restart has
//! to happen now, and says so exactly once. Nothing here cancels a timer: the
//! clock and the restart itself belong to the caller.

use vstd::prelude::*;

verus! {

/// Milliseconds between a committed update and the restart.
pub const RESTART_DELAY_MS: u64 = 5000;

/// An armed timer, as a mathematical value.
pub struct TimerState {
    /// The instant at which the restart is due.
    pub fire_at: nat,
    /// Whether the restart was already handed out.
    pub fired: bool,
}

/// What a [`RestartScheduler`] knows, as a mathematical value.
pub struct SchedulerState {
    /// The timer, once one was armed.
    pub timer: Option<TimerState>,
}

impl SchedulerState {
    /// The scheduler that was never armed.
    pub open spec fn idle() -> SchedulerState {
        SchedulerState { timer: None }
    }

    /// The state after arming at `now` for `delay`: the new timer replaces
    /// whatever was there.
    pub open spec fn armed(self, now: nat, delay: nat) -> SchedulerState {
        SchedulerState { timer: Some(TimerState { fire_at: now + delay, fired: false }) }
    }

    /// Whether a timer is armed and has not fired yet.
    pub open spec fn pending(self) -> bool {
        self.timer matches Some(timer) && !timer.fired
    }

    /// Whether a poll at `now` hands out the restart.
    pub open spec fn fires(self, now: nat) -> bool {
        self.timer matches Some(timer) && !timer.fired && now >= timer.fire_at
    }

    /// The state after a poll at `now`.
    pub open spec fn polled(self, now: nat) -> SchedulerState {
        if self.fires(now) {
            SchedulerState { timer: Some(TimerState { fire_at: self.timer->0.fire_at, fired: true }) }
        } else {
            self
        }
    }

    /// The state after polls at each instant of `times`, in order.
    pub open spec fn polled_all(self, times: Seq<nat>) -> SchedulerState
        decreases times.len(),
    {
        if times.len() == 0 {
            self
        } else {
            self.polled_all(times.drop_last()).polled(times.last())
        }
    }

    /// How many of the polls at `times` hand out the restart.
    pub open spec fn fire_count(self, times: Seq<nat>) -> nat
        decreases times.len(),
    {
        if times.len() == 0 {
            0
        } else {
            self.fire_count(times.drop_last()) + if self.polled_all(times.drop_last()).fires(
                times.last(),
            ) {
                1nat
            } else {
                0nat
            }
        }
    }
}

/// An armed timer.
struct RestartTimer {
    fire_at: u64,
    fired: bool,
}

/// Owner of the one restart timer of the process.
pub struct RestartScheduler {
    timer: Option<RestartTimer>,
}

impl View for RestartScheduler {
    type V = SchedulerState;

    closed spec fn view(&self) -> SchedulerState {
        SchedulerState {
            timer: match self.timer {
                Some(timer) => Some(
                    TimerState { fire_at: timer.fire_at as nat, fired: timer.fired },
                ),
                None => None,
            },
        }
    }
}

impl RestartScheduler {
    /// A scheduler with nothing armed.
    pub fn new() -> (scheduler: RestartScheduler)
        ensures
            scheduler@ == SchedulerState::idle(),
    {
        RestartScheduler { timer: None }
    }

    /// Arms the restart for `delay` after `now`. A timer that is already there
    /// is replaced: the last call wins.
    pub fn arm(&mut self, now: u64, delay: u64)
        requires
            now + delay <= u64::MAX,
        ensures
            final(self)@ == old(self)@.armed(now as nat, delay as nat),
    {
        self.timer = Some(RestartTimer { fire_at: now + delay, fired: false });
    }

    /// Whether a timer is armed and has not fired yet.
    pub fn is_pending(&self) -> (pending: bool)
        ensures
            pending == self@.pending(),
    {
        match &self.timer {
            Some(timer) => !timer.fired,
            None => false,
        }
    }

    /// The instant at which the restart is due, once a timer was armed.
    pub fn fire_at(&self) -> (instant: Option<u64>)
        ensures
            match self@.timer {
                Some(timer) => instant == Some(timer.fire_at as u64) && timer.fire_at
                    <= u64::MAX,
                None => instant is None,
            },
    {
        match &self.timer {
            Some(timer) => Some(timer.fire_at),
            None => None,
        }
    }

    /// Says whether the restart has to happen at `now`: true on the first poll
    /// at or after the armed instant, false on every other.
    pub fn poll(&mut self, now: u64) -> (fire: bool)
        ensures
            fire == old(self)@.fires(now as nat),
            final(self)@ == old(self)@.polled(now as nat),
    {
        let due = match &self.timer {
            Some(timer) => !timer.fired && now >= timer.fire_at,
            None => false,
        };
        if due {
            let fire_at = match &self.timer {
                Some(timer) => timer.fire_at,
                None => 0,
            };
            self.timer = Some(RestartTimer { fire_at, fired: true });
        }
        due
    }
}

/// A timer armed at `now` is due exactly `delay` later, whatever was armed
/// before, and is pending.
pub proof fn lemma_arm_sets_fire_at(state: SchedulerState, now: nat, delay: nat)
    ensures
        state.armed(now, delay).timer == Some(TimerState { fire_at: now + delay, fired: false }),
        state.armed(now, delay).pending(),
        forall|at: nat| state.armed(now, delay).fires(at) <==> at >= now + delay,
{
}

/// Polling never arms, never cancels and never moves a timer.
pub proof fn lemma_poll_keeps_timer(state: SchedulerState, times: Seq<nat>)
    ensures
        state.polled_all(times).timer is Some <==> state.timer is Some,
        state.timer matches Some(timer) ==> state.polled_all(times).timer->0.fire_at
            == timer.fire_at,
        state.timer matches Some(timer) ==> (timer.fired ==> state.polled_all(times).timer->0.fired),
    decreases times.len(),
{
    if times.len() > 0 {
        lemma_poll_keeps_timer(state, times.drop_last());
    }
}

/// A timer fires exactly once: over any series of polls the restart is handed
/// out at most one time, and exactly one time if the timer was pending and some
/// poll came at or after the armed instant.
pub proof fn lemma_fires_exactly_once(state: SchedulerState, times: Seq<nat>)
    ensures
        state.fire_count(times) <= 1,
        !state.pending() ==> state.fire_count(times) == 0,
        state.fire_count(times) == 1 <==> state.pending() && exists|i: int|
            0 <= i < times.len() && #[trigger] times[i] >= state.timer->0.fire_at,
        state.fire_count(times) == 1 ==> !state.polled_all(times).pending(),
        state.fire_count(times) == 0 ==> state.polled_all(times) == state,
    decreases times.len(),
{
    if times.len() > 0 {
        let front = times.drop_last();
        lemma_fires_exactly_once(state, front);
        lemma_poll_keeps_timer(state, front);
        if state.pending() {
            let fire_at = state.timer->0.fire_at;
            if state.fire_count(front) == 1 {
                let i = choose|i: int| 0 <= i < front.len() && #[trigger] front[i] >= fire_at;
                assert(times[i] == front[i]);
            } else if times.last() >= fire_at {
                assert(times[times.len() - 1] >= fire_at);
            } else {
                if exists|i: int| 0 <= i < times.len() && #[trigger] times[i] >= fire_at {
                    let i = choose|i: int| 0 <= i < times.len() && #[trigger] times[i] >= fire_at;
                    assert(i < front.len());
                    assert(front[i] == times[i]);
                }
            }
        }
    }
}

} // verus!
