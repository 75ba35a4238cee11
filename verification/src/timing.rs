use vstd::prelude::*;

verus! {

/// A duration measured in whole seconds.
#[derive(Clone, Copy, PartialEq, Eq, Structural, Debug)]
pub struct Second(pub u32);

/// A duration measured in milliseconds; the unit every countdown is armed in.
#[derive(Clone, Copy, PartialEq, Eq, Structural, Debug)]
pub struct Millisecond(pub u32);

impl Millisecond {
    /// Converts a duration in seconds to milliseconds.
    pub fn from(duration: Second) -> (r: Millisecond)
        requires
            duration.0 * 1000 <= u32::MAX,
        ensures
            r.0 == duration.0 * 1000,
    {
        Millisecond(duration.0 * 1000)
    }
}

/// A countdown timer which non-blockingly reports whether the countdown
/// armed by `start` has elapsed.
///
/// The driver owns one such timer for its whole lifetime; the caller's
/// hardware integration supplies the implementation, so nothing is promised
/// here about when the countdown elapses: every user of the timer must be
/// correct whatever `wait` reports.
pub trait LongTimer {
    /// Arms the countdown for the given duration.
    fn start(&mut self, duration: Millisecond);

    /// Polls the countdown: returns true once the armed duration has
    /// elapsed, and false while it is still running.
    fn wait(&mut self) -> bool;
}

} // verus!
