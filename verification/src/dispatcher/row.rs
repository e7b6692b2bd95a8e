//! Rows of data as dispatchers keep them.

use vstd::prelude::*;
use crate::binary64::Real;
use crate::datetime;
use crate::datetime::{fmt_time, UtcTime};

verus! {

/// One row of data.
#[derive(Debug)]
pub struct Row {
    /// Wall-clock time.
    pub system_time: String,
    /// Nanoseconds since the start of the run.
    pub timestamp: i64,
    /// Values in the order of the channels.
    pub channel_values: Vec<Real>,
}

impl Default for Row {
    fn default() -> (r: Self)
        ensures
            r.system_time@.len() == 0,
            r.timestamp == 0,
            r.channel_values@.len() == 0,
    {
        Row { system_time: String::new(), timestamp: 0, channel_values: Vec::new() }
    }
}

impl Row {
    /// A row of a time.
    pub fn new(time: UtcTime, timestamp: i64, channel_values: Vec<Real>) -> (r: Self)
        requires
            time.valid(),
        ensures
            r.system_time@ == datetime::rfc3339_nanos_text(time.secs, time.nanos),
            r.timestamp == timestamp,
            r.channel_values == channel_values,
    {
        Row { system_time: fmt_time(time), timestamp, channel_values }
    }
}

} // verus!
