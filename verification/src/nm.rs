//! NetworkManager's connectivity states, as its D-Bus property reports them.

use vstd::prelude::*;

verus! {

/// `NM_CONNECTIVITY_FULL`.
pub const FULL: u32 = 4;

/// The name of connectivity state `c`.
pub open spec fn state_name(c: u32) -> Seq<char> {
    if c == 1 {
        "none"@
    } else if c == 2 {
        "portal"@
    } else if c == 3 {
        "limited"@
    } else if c == 4 {
        "full"@
    } else {
        "unknown"@
    }
}

pub fn name(c: u32) -> (r: &'static str)
    ensures
        r@ == state_name(c),
{
    match c {
        1 => "none",
        2 => "portal",
        3 => "limited",
        4 => "full",
        _ => "unknown",
    }
}

/// Whether connectivity state `state` is full; `None` while it is unknown.
pub open spec fn is_full(state: Option<u32>) -> Option<bool> {
    match state {
        Some(c) => Some(c == FULL),
        None => None,
    }
}

pub fn full(state: Option<u32>) -> (r: Option<bool>)
    ensures
        r == is_full(state),
{
    match state {
        Some(c) => Some(c == FULL),
        None => None,
    }
}

/// How connectivity state `state` reads in the log; `None` while it cannot
/// be read.
pub fn label(state: Option<u32>) -> (r: &'static str)
    ensures
        r@ == match state {
            Some(c) => state_name(c),
            None => "unreadable"@,
        },
{
    match state {
        Some(c) => name(c),
        None => "unreadable",
    }
}

/// The watcher's decision on a new reading `now` after the last reported
/// one `last` (`None` before the first report): the reading to remember,
/// and whether to report it, which happens only when it changed.
pub fn report(last: Option<Option<u32>>, now: Option<u32>) -> (r: (Option<Option<u32>>, bool))
    ensures
        r.0 == Some(now),
        r.1 == (last != Some(now)),
{
    let changed = match last {
        Some(Some(a)) => match now {
            Some(b) => a != b,
            None => true,
        },
        Some(None) => now.is_some(),
        None => true,
    };
    (Some(now), changed)
}

} // verus!
