//! The time and fresh identifiers.
use vstd::prelude::*;

use crate::ids::Id;

verus! {

/// A point in time: the whole seconds since the start of 1970, and the nanoseconds
/// behind them.
#[derive(Clone, Copy, Debug, PartialEq, Eq, Structural)]
pub struct Time {
    pub seconds: i64,
    pub nanoseconds: u32,
}

impl Time {
    /// Where the time stands among all times.
    pub open spec fn rank(self) -> int {
        self.seconds * 0x1_0000_0000 + self.nanoseconds
    }

    /// Where the time stands among all times.
    pub fn ranked(self) -> (result: i128)
        ensures
            result == self.rank(),
    {
        (self.seconds as i128) * 0x1_0000_0000 + (self.nanoseconds as i128)
    }
}

/// Times are ordered by their seconds, and within a second by the nanoseconds.
pub proof fn law_time_order(a: Time, b: Time)
    ensures
        a.rank() < b.rank() <==> a.seconds < b.seconds || (a.seconds == b.seconds && a.nanoseconds
            < b.nanoseconds),
        a.rank() == b.rank() <==> a == b,
{
}

/// The present time from `chrono::Utc::now`, as its `timestamp` and its
/// `timestamp_subsec_nanos`. Of the value only this is claimed: the nanoseconds
/// make less than a second. That a later call gives a later time is not.
#[verifier::external_body]
pub(crate) fn current_time() -> (result: Time)
    ensures
        result.nanoseconds < 1_000_000_000,
{
    let now = chrono::Utc::now();
    Time { seconds: now.timestamp(), nanoseconds: now.timestamp_subsec_nanos() }
}

/// A random identifier from `uuid::Uuid::new_v4`, as its 128 bits. Of the value
/// only this is claimed: the version, four bits, is 4, and the variant, two bits,
/// is binary 10. That two calls differ is not.
#[verifier::external_body]
pub(crate) fn fresh_id() -> (result: Id)
    ensures
        (result >> 76) & 0xf == 4,
        (result >> 62) & 0x3 == 2,
{
    uuid::Uuid::new_v4().as_u128()
}

} // verus!
