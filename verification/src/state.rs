//! The timer state machine: the phase of the current interval — Idle,
//! Running or Expired — as a pure function of the stored rows and an
//! injected clock reading.
//!
//! No phase is ever stored: each query recomputes it from `start`,
//! `duration` and `now`, so the machine is stateless and the same query on
//! unchanged data yields the same answer. The expiry boundary is inclusive:
//! a timer whose end equals `now` is Expired, not Running.

use vstd::prelude::*;

use crate::store::{
    Store, StoreModel, Timer, TimerModel, at_most_one_unattributed, some_unattributed,
};
use crate::timers::find_unattributed_index;

verus! {

/// The phase of the interval timer.
#[derive(Clone, Copy, Debug, PartialEq, Eq, Structural)]
pub enum TimerPhase {
    /// No unattributed timer row exists.
    Idle,
    /// The current interval's end lies strictly in the future.
    Running,
    /// The current interval's end has been reached or passed.
    Expired,
}

/// The moment a timer's interval ends: its start plus its duration in
/// minutes, on the engine's timeline of seconds.
pub open spec fn end_time(t: TimerModel) -> int {
    t.start + t.duration * 60
}

/// The phase a single timer row is in at clock reading `now`: Running
/// strictly before its end, Expired from its end on.
pub open spec fn spec_timer_phase(t: TimerModel, now: u64) -> TimerPhase {
    if (now as int) < end_time(t) {
        TimerPhase::Running
    } else {
        TimerPhase::Expired
    }
}

/// The phase of the store as a whole: Idle with no unattributed row, else
/// the phase of the unattributed row (unique under the store invariant).
pub open spec fn spec_current_phase(s: StoreModel, now: u64) -> TimerPhase {
    if some_unattributed(s.timers) {
        let i = choose|i: int| 0 <= i < s.timers.len() && #[trigger] s.timers[i].task is None;
        spec_timer_phase(s.timers[i], now)
    } else {
        TimerPhase::Idle
    }
}

/// Under the at-most-one-unattributed invariant, the phase of the store is
/// the phase of whichever unattributed row one has in hand: there is no
/// other.
pub proof fn lemma_current_phase_of(s: StoreModel, i: int, now: u64)
    requires
        at_most_one_unattributed(s.timers),
        0 <= i < s.timers.len(),
        s.timers[i].task is None,
    ensures
        spec_current_phase(s, now) == spec_timer_phase(s.timers[i], now),
{
    assert(some_unattributed(s.timers));
    let j = choose|j: int| 0 <= j < s.timers.len() && #[trigger] s.timers[j].task is None;
    if i < j {
        assert(!(s.timers[i].task is None && s.timers[j].task is None));
    } else if j < i {
        assert(!(s.timers[j].task is None && s.timers[i].task is None));
    }
}

/// The phase of one timer row at clock reading `now`. At the exact end —
/// `now == start + duration * 60` — the timer is Expired, not Running: the
/// boundary belongs to expiry.
pub fn timer_phase(timer: &Timer, now: u64) -> (p: TimerPhase)
    requires
        timer@.start + timer@.duration * 60 <= u64::MAX,
    ensures
        p == spec_timer_phase(timer@, now),
        (now as int) == end_time(timer@) ==> p == TimerPhase::Expired,
{
    let end = timer.start + timer.duration * 60;
    if now < end {
        TimerPhase::Running
    } else {
        TimerPhase::Expired
    }
}

/// Whether this row is an expired focus interval: the condition for
/// offering to attach it to a task. Breaks are never offered, whatever the
/// clock says.
pub fn is_timer_over(timer: &Timer, now: u64) -> (r: bool)
    requires
        timer@.start + timer@.duration * 60 <= u64::MAX,
    ensures
        r == (timer@.is_pomodoro && spec_timer_phase(timer@, now) == TimerPhase::Expired),
{
    timer.is_pomodoro && timer_phase(timer, now) == TimerPhase::Expired
}

/// Seconds left until the interval ends; zero once expired. A negative
/// remainder is never reported: the Expired phase supersedes the numeric
/// display.
pub fn remaining_seconds(timer: &Timer, now: u64) -> (r: u64)
    requires
        timer@.start + timer@.duration * 60 <= u64::MAX,
    ensures
        (now as int) < end_time(timer@) ==> r == end_time(timer@) - now,
        (now as int) >= end_time(timer@) ==> r == 0,
{
    let end = timer.start + timer.duration * 60;
    if now < end {
        end - now
    } else {
        0
    }
}

/// Split a remaining-seconds value for display as minutes and seconds.
pub fn remaining_display(remaining: u64) -> (r: (u64, u64))
    ensures
        r.0 == remaining / 60,
        r.1 == remaining % 60,
        r.1 < 60,
{
    (remaining / 60, remaining % 60)
}

/// The phase of the store's current interval at clock reading `now`.
pub fn current_phase(store: &Store, now: u64) -> (p: TimerPhase)
    requires
        store@.wf(),
    ensures
        p == spec_current_phase(store@, now),
{
    match find_unattributed_index(store) {
        Some(i) => {
            let t = store.timers[i];
            proof {
                lemma_current_phase_of(store@, i as int, now);
            }
            timer_phase(&t, now)
        },
        None => TimerPhase::Idle,
    }
}

/// The state query is idempotent: with no intervening mutation (the stored
/// data unchanged) and the same clock reading, two queries yield the same
/// phase. The machine keeps no state of its own.
pub proof fn lemma_phase_query_idempotent(s1: StoreModel, s2: StoreModel, now: u64)
    requires
        s1 == s2,
    ensures
        spec_current_phase(s1, now) == spec_current_phase(s2, now),
{
}

/// Whether the notification collaborator is due: exactly when the current
/// interval has expired and no notification was sent for it yet. The
/// one-shot flag is held by the caller and reset when a new interval
/// starts.
pub fn should_notify(phase: TimerPhase, already_notified: bool) -> (r: bool)
    ensures
        r == (phase == TimerPhase::Expired && !already_notified),
{
    phase == TimerPhase::Expired && !already_notified
}

/// Whether the presentation layer should poll again soon: only while an
/// interval exists, so expiry is noticed promptly; suppressed when Idle to
/// avoid needless wake-ups.
pub fn needs_fast_poll(phase: TimerPhase) -> (r: bool)
    ensures
        r == (phase != TimerPhase::Idle),
{
    phase != TimerPhase::Idle
}

} // verus!
