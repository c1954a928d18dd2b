//! The wall clock, from `chrono`.

use vstd::prelude::*;

verus! {

/// `chrono::Utc::now().timestamp()`: the seconds since the Unix epoch.
#[verifier::external_body]
pub(crate) fn unix_time_now() -> (r: i64)
{
    chrono::Utc::now().timestamp()
}

} // verus!
