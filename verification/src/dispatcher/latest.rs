//! Keeps the latest row available.

use vstd::prelude::*;
use crate::binary64::Real;
use crate::datetime;
use crate::datetime::UtcTime;
use crate::text;
use super::lines;
use super::lines::header_columns;
use super::row::Row;

verus! {

/// The bits of a number that is none.
pub const NAN_BITS: u64 = 0x7ff8_0000_0000_0000;

/// The latest row and the channel names that go with it.
#[derive(Debug)]
pub struct LatestValueDispatcher {
    pub row: Row,
    pub channel_names: Vec<String>,
    pub initialized: bool,
}

impl LatestValueDispatcher {
    /// No row yet.
    pub fn new() -> (r: Self)
        ensures
            r.row.system_time@.len() == 0,
            r.row.timestamp == 0,
            r.row.channel_values@.len() == 0,
            r.channel_names@.len() == 0,
            !r.initialized,
    {
        LatestValueDispatcher { row: Row::default(), channel_names: Vec::new(), initialized: false }
    }

    /// Starts a run with a placeholder row of the right length, so that readers
    /// can rely on the shape.
    pub fn init(&mut self, channel_names: Vec<String>)
        ensures
            final(self).initialized,
            final(self).channel_names == channel_names,
            final(self).row.timestamp == 0,
            final(self).row.system_time@ == datetime::rfc3339_nanos_text(0, 0),
            final(self).row.channel_values@ == Seq::new(
                channel_names@.len(),
                |i: int| Real { bits: NAN_BITS },
            ),
    {
        let mut values: Vec<Real> = Vec::new();
        let mut i: usize = 0;
        while i < channel_names.len()
            invariant
                i <= channel_names@.len(),
                values@ == Seq::new(i as nat, |i: int| Real { bits: NAN_BITS }),
            decreases channel_names@.len() - i,
        {
            values.push(Real::from_bits(NAN_BITS));
            i = i + 1;
            assert(values@ =~= Seq::new(i as nat, |i: int| Real { bits: NAN_BITS }));
        }
        self.row = Row::new(UtcTime { secs: 0, nanos: 0 }, 0, values);
        self.channel_names = channel_names;
        self.initialized = true;
    }

    /// Replaces the row with a new snapshot.
    pub fn store(&mut self, row: Row)
        ensures
            final(self).row == row,
            final(self).channel_names == old(self).channel_names,
            final(self).initialized == old(self).initialized,
    {
        self.row = row;
    }

    /// Takes a row.
    pub fn consume(&mut self, time: UtcTime, timestamp: i64, channel_values: Vec<Real>) -> (r: Result<
        (),
        String,
    >)
        requires
            time.valid(),
        ensures
            final(self).channel_names == old(self).channel_names,
            final(self).initialized == old(self).initialized,
            match r {
                Ok(()) => {
                    &&& old(self).initialized
                    &&& final(self).row.system_time@ == datetime::rfc3339_nanos_text(
                        time.secs,
                        time.nanos,
                    )
                    &&& final(self).row.timestamp == timestamp
                    &&& final(self).row.channel_values == channel_values
                },
                Err(e) => {
                    &&& !old(self).initialized
                    &&& final(self).row == old(self).row
                    &&& e@ == "Dispatcher must be initialized before consuming data"@
                },
            },
    {
        if !self.initialized {
            return Err("Dispatcher must be initialized before consuming data".to_owned());
        }
        self.row = Row::new(time, timestamp, channel_values);
        Ok(())
    }

    /// The header strings including the time indices and channel names.
    pub fn headers(&self) -> (v: Vec<String>)
        ensures
            text::texts(v@) == lines::header_texts(text::texts(self.channel_names@)),
    {
        header_columns(self.channel_names.as_slice())
    }

    /// Ends a run. The latest row stays available.
    pub fn terminate(&mut self)
        ensures
            !final(self).initialized,
            final(self).row == old(self).row,
            final(self).channel_names == old(self).channel_names,
    {
        self.initialized = false;
    }
}

} // verus!
