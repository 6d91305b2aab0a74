//! The wall clock.

use crate::model::Timestamp;
use vstd::prelude::*;

verus! {

/// `chrono::Utc::now`, as microseconds since the Unix epoch. Nothing is
/// promised of the value: two readings may come in any order.
#[verifier::external_body]
pub(crate) fn now() -> (t: Timestamp) {
    Timestamp { micros: chrono::Utc::now().timestamp_micros() }
}

} // verus!
