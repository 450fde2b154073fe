//! Points in time, in milliseconds since the Unix epoch.
use vstd::prelude::*;
use crate::text::{decimal, format_i64};

verus! {

/// The current time in milliseconds since the Unix epoch
/// (`chrono::Utc::now().timestamp_millis()`); it depends on the clock, so
/// nothing is stated of it.
#[verifier::external_body]
pub(crate) fn current_time_millis() -> i64 {
    chrono::Utc::now().timestamp_millis()
}

/// A point in time, in milliseconds since the Unix epoch.
#[derive(Debug, Clone, Copy, PartialEq, Eq, Structural, PartialOrd, Ord)]
pub struct Timestamp(pub i64);

impl Timestamp {
    pub fn new(timestamp: i64) -> (r: Self)
        ensures
            r.0 == timestamp,
    {
        Timestamp(timestamp)
    }

    /// The current time.
    pub fn now() -> Self {
        Timestamp(current_time_millis())
    }

    pub fn value(&self) -> (r: i64)
        ensures
            r == self.0,
    {
        self.0
    }

    /// The milliseconds in decimal, as `Display` writes them.
    #[allow(clippy::inherent_to_string)]
    pub fn to_string(&self) -> (r: String)
        ensures
            r@ == decimal(self.0 as int),
    {
        format_i64(self.0)
    }
}

} // verus!
