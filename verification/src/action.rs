//! What a task asks of the loop that drives it.

use vstd::prelude::*;

verus! {

/// What the driving loop does once a task has taken in an event.
#[derive(Clone, Copy, Debug, PartialEq, Eq, Structural)]
pub enum Action {
    /// The task's store has changed: ask the user interface to redraw, then wait for
    /// the next event.
    Refresh,
    /// The task has ended: leave the loop. Its store has not changed.
    Stop,
}

} // verus!
