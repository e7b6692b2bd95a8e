//! Push-based reporting of rows to operator consoles.
//!
//! Sends are non-blocking: a frame that cannot be sent is counted and dropped, and
//! reporting goes on. Times are nanoseconds of a monotonic clock.

use vstd::prelude::*;
use crate::binary64::Real;
use crate::datetime;
use crate::datetime::{fmt_time, UtcTime};
use crate::text;
use super::wire;
use super::wire::ReportingMessage;

verus! {

/// UDP payload budget before IP fragmentation: 1500 bytes less the headers.
pub const MTU_PAYLOAD_BUDGET: usize = 1458;

/// Bytes of a value in a row.
pub const BYTES_PER_CHANNEL: usize = 8;

/// Bytes of a row besides its values.
pub const ROW_OVERHEAD_BYTES: usize = 64;

/// Shortest time between two logged send errors.
pub const ERROR_LOG_RATE_LIMIT_NS: u64 = 1_000_000_000;

/// The projected size of a row where it would be fragmented.
pub fn oversized_row(channels: usize) -> (r: Option<usize>)
    requires
        BYTES_PER_CHANNEL * channels + ROW_OVERHEAD_BYTES <= usize::MAX,
    ensures
        r == if BYTES_PER_CHANNEL * channels + ROW_OVERHEAD_BYTES > MTU_PAYLOAD_BUDGET {
            Some((BYTES_PER_CHANNEL * channels + ROW_OVERHEAD_BYTES) as usize)
        } else {
            None
        },
{
    let projected: usize = BYTES_PER_CHANNEL * channels + ROW_OVERHEAD_BYTES;
    if projected > MTU_PAYLOAD_BUDGET {
        Some(projected)
    } else {
        None
    }
}

/// What came of sending a frame.
#[derive(Debug, Clone, Copy, PartialEq, Eq, Structural)]
pub enum SendOutcome {
    Sent,
    WouldBlock,
    Failed,
}

/// The schema of a run.
#[derive(Debug)]
pub struct Schema {
    pub channel_names: Vec<String>,
    pub channel_units: Vec<Option<String>>,
    pub monotonic_epoch_ns: u64,
}

impl Schema {
    /// The message of the schema.
    pub open spec fn message(self, end: bool) -> wire::Message {
        wire::Message::Schema {
            channel_names: text::texts(self.channel_names@),
            channel_units: wire::option_texts(self.channel_units@),
            monotonic_epoch_ns: self.monotonic_epoch_ns,
            is_session_end: end,
        }
    }
}

/// Serializes rows for a multicast group.
#[derive(Debug)]
pub struct ReportingDispatcher {
    /// How often the schema is sent again while operating.
    pub schema_period_ns: u64,
    /// Data rows that were dropped. The count survives the end of a run.
    pub dropped_frames: u64,
    /// Built at the start of a run.
    pub stored_schema: Option<Schema>,
    /// Counts the rows of a run.
    pub seq: u64,
    pub last_schema_sent: Option<u64>,
    pub last_error_log_at: Option<u64>,
}

/// Whether a span has passed since a time, or there was none.
pub open spec fn due(last: Option<u64>, now: u64, span: u64) -> bool {
    match last {
        None => true,
        Some(last) => (if now >= last {
            now - last
        } else {
            0
        }) >= span,
    }
}

fn is_due(last: Option<u64>, now: u64, span: u64) -> (r: bool)
    ensures
        r == due(last, now, span),
{
    match last {
        None => true,
        Some(last) => {
            let passed: u64 = if now >= last {
                now - last
            } else {
                0
            };
            passed >= span
        },
    }
}

impl ReportingDispatcher {
    /// A dispatcher that has not started.
    pub fn new(schema_period_ns: u64) -> (r: Self)
        ensures
            r.schema_period_ns == schema_period_ns,
            r.dropped_frames == 0,
            r.stored_schema is None,
            r.seq == 0,
            r.last_schema_sent is None,
            r.last_error_log_at is None,
    {
        ReportingDispatcher {
            schema_period_ns,
            dropped_frames: 0,
            stored_schema: None,
            seq: 0,
            last_schema_sent: None,
            last_error_log_at: None,
        }
    }

    /// The number of data rows that were dropped.
    pub fn dropped_frames(&self) -> (r: u64)
        ensures
            r == self.dropped_frames,
    {
        self.dropped_frames
    }

    /// Starts a run: everything is reset, and the schema is stored.
    pub fn init(&mut self, schema: Schema)
        ensures
            final(self).schema_period_ns == old(self).schema_period_ns,
            final(self).dropped_frames == 0,
            final(self).stored_schema == Some(schema),
            final(self).seq == 0,
            final(self).last_schema_sent is None,
            final(self).last_error_log_at is None,
    {
        self.dropped_frames = 0;
        self.stored_schema = Some(schema);
        self.seq = 0;
        self.last_schema_sent = None;
        self.last_error_log_at = None;
    }

    /// Whether the schema is to be sent before the next row: on the first row of
    /// a run and whenever the period has passed.
    pub open spec fn schema_due(self, now: u64) -> bool {
        self.stored_schema is Some && due(self.last_schema_sent, now, self.schema_period_ns)
    }

    /// The dispatcher once the schema was made ready to be sent, where it is due.
    pub open spec fn after_schema_frame(self, now: u64) -> Self {
        if self.schema_due(now) {
            ReportingDispatcher { last_schema_sent: Some(now), ..self }
        } else {
            self
        }
    }

    /// The frame of the schema, where it is due. The time is taken before the
    /// send, so that any outcome waits a full period.
    pub fn schema_frame(&mut self, now_ns: u64) -> (r: Option<Vec<u8>>)
        ensures
            *final(self) == old(self).after_schema_frame(now_ns),
            match r {
                Some(frame) => {
                    &&& old(self).schema_due(now_ns)
                    &&& frame@ == wire::message_bytes(
                        old(self).stored_schema->Some_0.message(false),
                    )
                },
                None => !old(self).schema_due(now_ns),
            },
    {
        if !is_due(self.last_schema_sent, now_ns, self.schema_period_ns) {
            return None;
        }
        match &self.stored_schema {
            None => None,
            Some(schema) => {
                let frame = encode_schema(schema, false);
                self.last_schema_sent = Some(now_ns);
                Some(frame)
            },
        }
    }

    /// Whether a send error is logged: failures are, but not too often.
    pub open spec fn logs(self, outcome: SendOutcome, now: u64) -> bool {
        outcome == SendOutcome::Failed && due(self.last_error_log_at, now, ERROR_LOG_RATE_LIMIT_NS)
    }

    /// The dispatcher with the outcome of sending the schema. Nothing is counted.
    pub open spec fn after_schema_sent(self, outcome: SendOutcome, now: u64) -> Self {
        if self.logs(outcome, now) {
            ReportingDispatcher { last_error_log_at: Some(now), ..self }
        } else {
            self
        }
    }

    /// The dispatcher once a row was made ready to be sent.
    pub open spec fn after_row_frame(self) -> Self {
        ReportingDispatcher { seq: (self.seq + 1) as u64, ..self }
    }

    /// The dispatcher with the outcome of sending a row. One that was not sent is
    /// counted.
    pub open spec fn after_row_sent(self, outcome: SendOutcome, now: u64) -> Self {
        let logged = self.after_schema_sent(outcome, now);
        if outcome == SendOutcome::Sent {
            logged
        } else if self.dropped_frames == u64::MAX {
            ReportingDispatcher { dropped_frames: 0, ..logged }
        } else {
            ReportingDispatcher { dropped_frames: (self.dropped_frames + 1) as u64, ..logged }
        }
    }

    /// Takes the outcome of sending the schema, and says whether it is logged.
    /// Schema failures are not counted as dropped frames.
    pub fn schema_sent(&mut self, outcome: SendOutcome, now_ns: u64) -> (log: bool)
        ensures
            log == old(self).logs(outcome, now_ns),
            *final(self) == old(self).after_schema_sent(outcome, now_ns),
    {
        self.log_failure(outcome, now_ns)
    }

    fn log_failure(&mut self, outcome: SendOutcome, now_ns: u64) -> (log: bool)
        ensures
            log == old(self).logs(outcome, now_ns),
            *final(self) == old(self).after_schema_sent(outcome, now_ns),
    {
        let log = outcome == SendOutcome::Failed && is_due(
            self.last_error_log_at,
            now_ns,
            ERROR_LOG_RATE_LIMIT_NS,
        );
        if log {
            self.last_error_log_at = Some(now_ns);
        }
        log
    }

    /// The frame of a row. The sequence number advances before the send, so that
    /// a viewer sees a gap even where the send fails.
    pub fn row_frame(&mut self, time: UtcTime, timestamp_s: Real, values: Vec<Real>) -> (frame: Vec<
        u8,
    >)
        requires
            time.valid(),
            old(self).seq < u64::MAX,
        ensures
            frame@ == wire::message_bytes(
                wire::Message::Row {
                    seq: old(self).seq,
                    timestamp: timestamp_s.bits,
                    system_time: datetime::rfc3339_nanos_text(time.secs, time.nanos),
                    values: wire::bits_of(values@),
                },
            ),
            *final(self) == old(self).after_row_frame(),
    {
        let message = ReportingMessage::Row {
            seq: self.seq,
            timestamp: timestamp_s,
            system_time: fmt_time(time),
            values,
        };
        let mut frame: Vec<u8> = Vec::new();
        let _ = message.encode_into(&mut frame);
        assert(frame@ =~= wire::message_bytes(message.message()));
        self.seq = self.seq + 1;
        frame
    }

    /// Takes the outcome of sending a row, and says whether it is logged. A row
    /// that was not sent is counted.
    pub fn row_sent(&mut self, outcome: SendOutcome, now_ns: u64) -> (log: bool)
        ensures
            log == old(self).logs(outcome, now_ns),
            *final(self) == old(self).after_row_sent(outcome, now_ns),
    {
        if outcome != SendOutcome::Sent {
            self.dropped_frames = self.dropped_frames.wrapping_add(1);
        }
        self.log_failure(outcome, now_ns)
    }

    /// Ends a run, and gives the frame of the final schema. The count of dropped
    /// frames survives.
    pub fn terminate(&mut self) -> (r: Option<Vec<u8>>)
        ensures
            match r {
                Some(frame) => old(self).stored_schema matches Some(s) && frame@
                    == wire::message_bytes(s.message(true)),
                None => old(self).stored_schema is None,
            },
            final(self).schema_period_ns == old(self).schema_period_ns,
            final(self).dropped_frames == old(self).dropped_frames,
            final(self).stored_schema is None,
            final(self).seq == 0,
            final(self).last_schema_sent is None,
            final(self).last_error_log_at is None,
    {
        let frame = match &self.stored_schema {
            None => None,
            Some(schema) => Some(encode_schema(schema, true)),
        };
        self.stored_schema = None;
        self.seq = 0;
        self.last_schema_sent = None;
        self.last_error_log_at = None;
        frame
    }
}

fn copy_units(units: &Vec<Option<String>>) -> (v: Vec<Option<String>>)
    ensures
        wire::option_texts(v@) == wire::option_texts(units@),
{
    let mut v: Vec<Option<String>> = Vec::new();
    let mut i: usize = 0;
    while i < units.len()
        invariant
            i <= units@.len(),
            wire::option_texts(v@) == wire::option_texts(units@).take(i as int),
        decreases units@.len() - i,
    {
        let unit = match &units[i] {
            Some(s) => Some(s.as_str().to_owned()),
            None => None,
        };
        let ghost before = wire::option_texts(v@);
        assert(wire::option_text(unit) == wire::option_text(units@[i as int]));
        v.push(unit);
        assert(wire::option_texts(v@) =~= before.push(wire::option_text(unit)));
        assert(wire::option_texts(v@) =~= wire::option_texts(units@).take(i + 1));
        i = i + 1;
    }
    assert(wire::option_texts(units@).take(units@.len() as int) =~= wire::option_texts(units@));
    v
}

fn copy_names(names: &Vec<String>) -> (v: Vec<String>)
    ensures
        text::texts(v@) == text::texts(names@),
{
    let mut v: Vec<String> = Vec::new();
    let mut i: usize = 0;
    assert(text::texts(v@) =~= text::texts(names@).take(0));
    while i < names.len()
        invariant
            i <= names@.len(),
            text::texts(v@) == text::texts(names@).take(i as int),
        decreases names@.len() - i,
    {
        text::push_text(&mut v, names[i].as_str());
        assert(text::texts(v@) =~= text::texts(names@).take(i + 1));
        i = i + 1;
    }
    assert(text::texts(names@).take(names@.len() as int) =~= text::texts(names@));
    v
}

fn encode_schema(schema: &Schema, end: bool) -> (frame: Vec<u8>)
    ensures
        frame@ == wire::message_bytes(schema.message(end)),
{
    let message = ReportingMessage::Schema {
        channel_names: copy_names(&schema.channel_names),
        channel_units: copy_units(&schema.channel_units),
        monotonic_epoch_ns: schema.monotonic_epoch_ns,
        is_session_end: end,
    };
    let mut frame: Vec<u8> = Vec::new();
    let _ = message.encode_into(&mut frame);
    assert(frame@ =~= wire::message_bytes(message.message()));
    frame
}

/// The schema is sent before the first row of a run, and then not again until a
/// full period has passed.
pub proof fn law_schema_is_sent_periodically(d: ReportingDispatcher, now: u64, later: u64)
    requires
        d.stored_schema is Some,
    ensures
        d.last_schema_sent is None ==> d.schema_due(now),
        d.last_schema_sent == Some(now) && now <= later ==> (d.schema_due(later) <==> later - now
            >= d.schema_period_ns),
{
}

/// One row that is consumed: the time, and what came of sending the schema, where
/// it was due, and the row.
pub ghost struct Call {
    pub now: u64,
    pub schema_outcome: SendOutcome,
    pub row_outcome: SendOutcome,
}

/// The dispatcher after a row was consumed.
pub open spec fn after_call(d: ReportingDispatcher, call: Call) -> ReportingDispatcher {
    let offered = d.after_schema_frame(call.now);
    let told = if d.schema_due(call.now) {
        offered.after_schema_sent(call.schema_outcome, call.now)
    } else {
        offered
    };
    told.after_row_frame().after_row_sent(call.row_outcome, call.now)
}

/// The dispatcher after some rows were consumed.
pub open spec fn after_calls(d: ReportingDispatcher, calls: Seq<Call>) -> ReportingDispatcher
    decreases calls.len(),
{
    if calls.len() == 0 {
        d
    } else {
        after_call(after_calls(d, calls.drop_last()), calls.last())
    }
}

/// The number of rows that were not sent.
pub open spec fn rows_lost(calls: Seq<Call>) -> nat
    decreases calls.len(),
{
    if calls.len() == 0 {
        0
    } else {
        rows_lost(calls.drop_last()) + if calls.last().row_outcome == SendOutcome::Sent {
            0nat
        } else {
            1
        }
    }
}

/// The time at which the schema was last offered: that of the first row of a run,
/// and then of each row by which a period has passed since the one before.
pub open spec fn schema_offered_at(calls: Seq<Call>, period: u64) -> Option<u64>
    decreases calls.len(),
{
    if calls.len() == 0 {
        None
    } else {
        let last = schema_offered_at(calls.drop_last(), period);
        if due(last, calls.last().now, period) {
            Some(calls.last().now)
        } else {
            last
        }
    }
}

/// From the start of a run on, whatever the sends give: the row of each call has
/// the number of calls before it as its sequence number, the schema comes before
/// the first row and whenever its period has passed since it was last offered, and
/// each row that was not sent is counted, but no schema is.
pub proof fn law_each_call_offers_one_row(d: ReportingDispatcher, calls: Seq<Call>, now: u64)
    requires
        d.stored_schema is Some,
        d.seq == 0,
        d.dropped_frames == 0,
        d.last_schema_sent is None,
        calls.len() < u64::MAX,
    ensures
        after_calls(d, calls).seq == calls.len(),
        after_calls(d, calls).dropped_frames == rows_lost(calls),
        after_calls(d, calls).stored_schema == d.stored_schema,
        after_calls(d, calls).last_schema_sent == schema_offered_at(calls, d.schema_period_ns),
        after_calls(d, calls).schema_due(now) <==> due(
            schema_offered_at(calls, d.schema_period_ns),
            now,
            d.schema_period_ns,
        ),
        schema_offered_at(calls, d.schema_period_ns) is None <==> calls.len() == 0,
{
    lemma_after_calls(d, calls);
}

proof fn lemma_after_calls(d: ReportingDispatcher, calls: Seq<Call>)
    requires
        d.stored_schema is Some,
        d.seq == 0,
        d.dropped_frames == 0,
        d.last_schema_sent is None,
        calls.len() < u64::MAX,
    ensures
        after_calls(d, calls).seq == calls.len(),
        after_calls(d, calls).dropped_frames == rows_lost(calls),
        rows_lost(calls) <= calls.len(),
        after_calls(d, calls).stored_schema == d.stored_schema,
        after_calls(d, calls).schema_period_ns == d.schema_period_ns,
        after_calls(d, calls).last_schema_sent == schema_offered_at(calls, d.schema_period_ns),
        schema_offered_at(calls, d.schema_period_ns) is None <==> calls.len() == 0,
    decreases calls.len(),
{
    if calls.len() > 0 {
        lemma_after_calls(d, calls.drop_last());
    }
}

/// A failed send is logged, but not again before the rate limit of a second is over. Sends
/// that did not fail are never logged.
pub proof fn law_failures_are_logged_at_most_once_per_period(
    d: ReportingDispatcher,
    outcome: SendOutcome,
    now: u64,
    later: u64,
)
    requires
        now <= later,
        d.last_error_log_at is None,
    ensures
        d.logs(SendOutcome::Failed, now),
        outcome != SendOutcome::Failed ==> !d.logs(outcome, now),
        d.after_schema_sent(SendOutcome::Failed, now).logs(SendOutcome::Failed, later) <==> later
            - now >= 1_000_000_000,
{
}

} // verus!
