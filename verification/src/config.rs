//! Interval lengths, exposed as configuration rather than baked into the
//! callers: the recognized options are the focus length and the two break
//! lengths, in minutes.

use vstd::prelude::*;

verus! {

/// The stock focus-interval length, in minutes.
pub const FOCUS_MINUTES: u64 = 1;

/// The stock short-break length, in minutes.
pub const SHORT_BREAK_MINUTES: u64 = 1;

/// The stock long-break length, in minutes.
pub const LONG_BREAK_MINUTES: u64 = 2;

/// The interval lengths a session runs with.
#[derive(Clone, Copy, Debug, PartialEq, Eq, Structural)]
pub struct IntervalConfig {
    pub focus_minutes: u64,
    pub short_break_minutes: u64,
    pub long_break_minutes: u64,
}

impl Default for IntervalConfig {
    /// The stock lengths.
    fn default() -> (c: Self)
        ensures
            c.focus_minutes == FOCUS_MINUTES,
            c.short_break_minutes == SHORT_BREAK_MINUTES,
            c.long_break_minutes == LONG_BREAK_MINUTES,
    {
        IntervalConfig {
            focus_minutes: FOCUS_MINUTES,
            short_break_minutes: SHORT_BREAK_MINUTES,
            long_break_minutes: LONG_BREAK_MINUTES,
        }
    }
}

} // verus!
