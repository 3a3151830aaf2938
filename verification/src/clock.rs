//! The system clock.

use chrono::NaiveDateTime;
use vstd::prelude::*;

verus! {

/// `chrono::Utc::now` followed by `DateTime::naive_utc`: the date and time
/// of the system clock in UTC. Nothing is claimed of the moment that comes
/// back. chrono panics where the system clock stands before 1970.
#[verifier::external_body]
pub(crate) fn utc_now() -> NaiveDateTime {
    chrono::Utc::now().naive_utc()
}

} // verus!
