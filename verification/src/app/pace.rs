//! Scrolling along one axis at a time, and the double press that quits. Times are
//! in milliseconds.

use vstd::prelude::*;
use crate::draw::minus;

verus! {

/// An axis of scrolling.
#[derive(Clone, Copy, Debug, PartialEq, Eq, Structural)]
pub enum ScrollAxis {
    Vertical,
    Horizontal,
}

/// Keeps a gesture on the axis that it began on, so that a trackpad does not
/// scroll diagonally, until no scroll event comes for a while.
#[derive(Clone, Copy, Debug, PartialEq, Eq, Structural)]
pub struct ScrollAxisLock {
    pub axis: Option<ScrollAxis>,
    pub lastEvent: u64,
}

/// How long a gesture may pause.
pub const SCROLL_LOCK_TIMEOUT_MS: u64 = 150;

impl ScrollAxisLock {
    #[verifier::allow_in_spec]
    pub fn new(now: u64) -> ScrollAxisLock
        returns
            (ScrollAxisLock { axis: None, lastEvent: now }),
    {
        ScrollAxisLock { axis: None, lastEvent: now }
    }

    /// Whether an event along `incoming` counts at `now`.
    pub open spec fn allows(self, incoming: ScrollAxis, now: u64) -> bool {
        ||| minus(now as int, self.lastEvent as int) > SCROLL_LOCK_TIMEOUT_MS
        ||| self.axis is None
        ||| self.axis == Some(incoming)
    }

    /// The lock after an event along `incoming`. One that counts sets the axis; any
    /// other one keeps the gesture going too.
    pub open spec fn after(self, incoming: ScrollAxis, now: u64) -> ScrollAxisLock {
        ScrollAxisLock {
            axis: if self.allows(incoming, now) {
                Some(incoming)
            } else {
                self.axis
            },
            lastEvent: now,
        }
    }

    /// Whether an event along `incoming` counts. The gesture goes on either way: it
    /// ends when no event comes for a while.
    pub fn allow(&mut self, incoming: ScrollAxis, now: u64) -> (r: bool)
        ensures
            r == old(self).allows(incoming, now),
            *final(self) == old(self).after(incoming, now),
    {
        let expired = now.saturating_sub(self.lastEvent) > SCROLL_LOCK_TIMEOUT_MS;
        let same = match self.axis {
            None => true,
            Some(a) => a == incoming,
        };
        self.lastEvent = now;
        if expired || same {
            self.axis = Some(incoming);
            true
        } else {
            false
        }
    }
}

/// How long the second press of a double press may take.
pub const DOUBLE_PRESS_MS: u64 = 1000;

/// Whether a press at `now` follows the press `last` closely enough.
pub open spec fn presses_again(last: Option<u64>, now: u64) -> bool {
    last matches Some(t) && minus(now as int, t as int) < DOUBLE_PRESS_MS
}

/// Whether a press at `now` follows the press `last` closely enough.
pub fn pressesAgain(last: Option<u64>, now: u64) -> (r: bool)
    ensures
        r == presses_again(last, now),
{
    match last {
        Some(t) => now.saturating_sub(t) < DOUBLE_PRESS_MS,
        None => false,
    }
}

// ---- laws ----

/// Once a gesture scrolls along one axis, the other one is ignored until no event comes
/// for a while: an event that counts makes the next one along the other axis be
/// ignored, and so does every one that is ignored.
pub proof fn law_other_axis_is_swallowed(l: ScrollAxisLock, a: ScrollAxis, b: ScrollAxis, t: u64, u: u64)
    requires
        a != b,
        t <= u <= t + SCROLL_LOCK_TIMEOUT_MS,
    ensures
        l.allows(a, t) ==> !l.after(a, t).allows(b, u),
        !l.allows(b, t) ==> !l.after(b, t).allows(b, u),
{
}

} // verus!
