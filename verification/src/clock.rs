//! The one look at the wall clock the scheduler needs, reduced to plain
//! values.
use vstd::prelude::*;

use chrono::Timelike;

verus! {

/// Relies on chrono's `Local::now`, `Timelike::hour` ("the hour number
/// from 0 to 23") and `DateTime::format` with `%Y-%m-%d`: the current
/// local calendar date as text and the current hour of day. The date text
/// depends on the moment of the call, so nothing is promised of it.
#[verifier::external_body]
pub fn local_today_and_hour() -> (r: (String, u32))
    ensures
        r.1 < 24,
{
    let now = chrono::Local::now();
    (now.format("%Y-%m-%d").to_string(), now.hour())
}

} // verus!
