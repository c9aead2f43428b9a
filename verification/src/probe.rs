//! The chumby.com probe's verdict on an HTTP answer.

use vstd::prelude::*;

verus! {

/// The probe succeeds on a 2xx answer; `None`: no answer came.
pub fn probe_ok(status: Option<u16>) -> (r: bool)
    ensures
        r == (status matches Some(s) && 200 <= s <= 299),
{
    match status {
        Some(s) => 200 <= s && s <= 299,
        None => false,
    }
}

} // verus!
