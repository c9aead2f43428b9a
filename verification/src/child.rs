//! Stopping the player's process group: SIGTERM, then SIGKILL once the
//! grace period has run out.

use vstd::prelude::*;

verus! {

/// The next step in stopping a process group.
#[derive(Clone, Copy, Debug, PartialEq, Eq)]
pub enum StopStep {
    /// The group is gone; nothing more to do.
    Done,
    /// Send SIGTERM to the group.
    Term,
    /// Look again a little later.
    Wait,
    /// The grace period is over: send SIGKILL to the group.
    Kill,
}

/// The next step at `now` (milliseconds), given whether the group is
/// `alive`, when SIGTERM went out (`None`: not yet) and the `grace` period.
pub open spec fn next_stop_step(alive: bool, termed_at: Option<u64>, now: u64, grace: u64) -> StopStep {
    match termed_at {
        None => if alive { StopStep::Term } else { StopStep::Done },
        Some(t) => if now >= t + grace {
            StopStep::Kill
        } else if alive {
            StopStep::Wait
        } else {
            StopStep::Done
        },
    }
}

pub fn stop_step(alive: bool, termed_at: Option<u64>, now: u64, grace: u64) -> (s: StopStep)
    ensures
        s == next_stop_step(alive, termed_at, now, grace),
{
    match termed_at {
        None => if alive { StopStep::Term } else { StopStep::Done },
        Some(t) => {
            let over = now >= t && now - t >= grace;
            if over {
                StopStep::Kill
            } else if alive {
                StopStep::Wait
            } else {
                StopStep::Done
            }
        },
    }
}

/// The escalation: a group that is gone needs nothing; a live group first
/// gets SIGTERM; after SIGTERM at `t`, a live group is waited for until the
/// grace period has run out (`now < t + grace`), and SIGKILL comes exactly
/// once it has, never before.
pub proof fn lemma_stop_escalation(alive: bool, termed_at: Option<u64>, now: u64, grace: u64)
    ensures
        termed_at is None ==> next_stop_step(alive, termed_at, now, grace) == if alive {
            StopStep::Term
        } else {
            StopStep::Done
        },
        termed_at is Some && now < termed_at->0 + grace && alive ==> next_stop_step(alive, termed_at, now, grace)
            == StopStep::Wait,
        termed_at is Some && now < termed_at->0 + grace && !alive ==> next_stop_step(alive, termed_at, now, grace)
            == StopStep::Done,
        termed_at is Some && now >= termed_at->0 + grace ==> next_stop_step(alive, termed_at, now, grace)
            == StopStep::Kill,
        next_stop_step(alive, termed_at, now, grace) == StopStep::Kill ==> (termed_at is Some
            && now >= termed_at->0 + grace),
        next_stop_step(alive, termed_at, now, grace) == StopStep::Term ==> termed_at is None && alive,
{
}

} // verus!
