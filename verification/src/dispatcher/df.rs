//! In-memory data collection in a simple library-agnostic format.

use vstd::prelude::*;
use crate::binary64::Real;
use crate::datetime;
use crate::datetime::UtcTime;
use crate::text;
use super::decimation;
use super::lines;
use super::lines::{header_columns, Overflow};
use super::row::Row;

verus! {

/// The most bytes that a row takes in a vector, apart from what its time and its
/// values hold elsewhere.
pub const ROW_BYTES: usize = 56;

/// Rows of data with the names of their channels.
#[derive(Debug)]
pub struct SimpleDataFrame {
    pub channel_names: Vec<String>,
    pub rows: Vec<Row>,
}

impl SimpleDataFrame {
    /// Makes an empty dataframe that can hold `capacity` rows without reallocating.
    pub fn new(channel_names: Vec<String>, capacity: usize) -> (r: Self)
        requires
            capacity * ROW_BYTES <= isize::MAX,
        ensures
            r.channel_names == channel_names,
            r.rows@.len() == 0,
    {
        SimpleDataFrame { channel_names, rows: Vec::with_capacity(capacity) }
    }

    /// Pushes a new row to the end of the list.
    pub fn push(&mut self, row: Row)
        ensures
            final(self).channel_names == old(self).channel_names,
            final(self).rows@ == old(self).rows@.push(row),
    {
        self.rows.push(row);
    }

    /// Places a new row at the target index, overwriting existing data. Where the
    /// index is out of bounds, the row goes to the end.
    pub fn put(&mut self, row: Row, loc: usize)
        ensures
            final(self).channel_names == old(self).channel_names,
            final(self).rows@ == placed(old(self).rows@, row, loc as int),
    {
        if loc >= self.rows.len() {
            self.rows.push(row);
        } else {
            self.rows.set(loc, row);
        }
    }

    /// The current number of rows stored.
    pub fn len(&self) -> (r: usize)
        ensures
            r == self.rows@.len(),
    {
        self.rows.len()
    }

    /// The column header names including the two time columns.
    pub fn headers(&self) -> (v: Vec<String>)
        ensures
            text::texts(v@) == lines::header_texts(text::texts(self.channel_names@)),
    {
        header_columns(self.channel_names.as_slice())
    }

    /// The stored rows.
    pub fn rows(&self) -> (r: &[Row])
        ensures
            r@ == self.rows@,
    {
        self.rows.as_slice()
    }

    /// The values of one channel, for each row that has them.
    pub fn column(&self, channel: usize) -> (v: Vec<Real>)
        ensures
            v@ == column_of(self.rows@, channel as int),
    {
        let mut v: Vec<Real> = Vec::new();
        let mut i: usize = 0;
        assert(self.rows@.take(0) =~= Seq::<Row>::empty());
        while i < self.rows.len()
            invariant
                i <= self.rows@.len(),
                v@ == column_of(self.rows@.take(i as int), channel as int),
            decreases self.rows@.len() - i,
        {
            assert(self.rows@.take(i + 1).drop_last() =~= self.rows@.take(i as int));
            if channel < self.rows[i].channel_values.len() {
                v.push(self.rows[i].channel_values[channel]);
            }
            i = i + 1;
        }
        assert(self.rows@.take(self.rows@.len() as int) =~= self.rows@);
        v
    }

    /// The time column for all rows.
    pub fn time(&self) -> (v: Vec<String>)
        ensures
            text::texts(v@) == Seq::new(
                self.rows@.len(),
                |i: int| self.rows@[i].system_time@,
            ),
    {
        broadcast use text::lemma_texts_push;

        let mut v: Vec<String> = Vec::new();
        let mut i: usize = 0;
        assert(text::texts(v@) =~= Seq::new(0, |i: int| self.rows@[i].system_time@));
        while i < self.rows.len()
            invariant
                i <= self.rows@.len(),
                text::texts(v@) == Seq::new(i as nat, |i: int| self.rows@[i].system_time@),
            decreases self.rows@.len() - i,
        {
            text::push_text(&mut v, self.rows[i].system_time.as_str());
            i = i + 1;
            assert(text::texts(v@) =~= Seq::new(i as nat, |i: int| self.rows@[i].system_time@));
        }
        v
    }

    /// The timestamp column for all rows.
    pub fn timestamp(&self) -> (v: Vec<i64>)
        ensures
            v@ == Seq::new(self.rows@.len(), |i: int| self.rows@[i].timestamp),
    {
        let mut v: Vec<i64> = Vec::new();
        let mut i: usize = 0;
        while i < self.rows.len()
            invariant
                i <= self.rows@.len(),
                v@ == Seq::new(i as nat, |i: int| self.rows@[i].timestamp),
            decreases self.rows@.len() - i,
        {
            v.push(self.rows[i].timestamp);
            i = i + 1;
            assert(v@ =~= Seq::new(i as nat, |i: int| self.rows@[i].timestamp));
        }
        v
    }
}

/// Rows with a new one at an index, or at the end.
pub open spec fn placed(rows: Seq<Row>, row: Row, loc: int) -> Seq<Row> {
    if loc >= rows.len() {
        rows.push(row)
    } else {
        rows.update(loc, row)
    }
}

/// The values of one channel, for each row that has them.
pub open spec fn column_of(rows: Seq<Row>, channel: int) -> Seq<Real>
    decreases rows.len(),
{
    if rows.len() == 0 {
        Seq::empty()
    } else {
        let before = column_of(rows.drop_last(), channel);
        if channel < rows.last().channel_values@.len() {
            before.push(rows.last().channel_values@[channel])
        } else {
            before
        }
    }
}

/// Length of the time text of a row.
pub const TIME_SIZE: usize = 30;

/// The number of rows that a size allows: the time, the timestamp and each value
/// of a row are counted.
pub open spec fn row_limit(max_size_megabytes: int, channels: int) -> int {
    max_size_megabytes * 1024 * 1024 / (TIME_SIZE + (1 + channels) * 8)
}

/// Stores collected data in memory. The dataframe is cleared at the start of each
/// run.
#[derive(Debug)]
pub struct DataFrameDispatcher {
    pub max_size_megabytes: usize,
    pub overflow_behavior: Overflow,
    pub nrows: usize,
    pub row_index: usize,
    pub df: SimpleDataFrame,
}

impl DataFrameDispatcher {
    /// Creating a new file is no overflow behavior of a dataframe, and the next
    /// row goes behind the stored ones or over one of them.
    pub open spec fn wf(self) -> bool {
        &&& self.overflow_behavior != Overflow::NewFile
        &&& self.row_index <= self.df.rows@.len()
    }

    /// The stored rows are within the limit. It is so from the start of a run on.
    pub open spec fn fits(self) -> bool {
        self.df.rows@.len() <= self.capacity()
    }

    /// The number of rows that can be stored. Wrapping keeps at least the last row.
    pub open spec fn capacity(self) -> nat {
        if self.nrows == 0 && self.overflow_behavior == Overflow::Wrap {
            1
        } else {
            self.nrows as nat
        }
    }

    /// Creates a dispatcher that stores data of a fixed maximum size. Above that
    /// amount, additional writes either wrap, overwriting data starting with the
    /// oldest, or produce an error.
    pub fn new(max_size_megabytes: usize, overflow_behavior: Overflow) -> (r: Self)
        requires
            overflow_behavior != Overflow::NewFile,
        ensures
            r.wf(),
            r.fits(),
            r.max_size_megabytes == max_size_megabytes,
            r.overflow_behavior == overflow_behavior,
            r.nrows == 0,
            r.row_index == 0,
            r.df.rows@.len() == 0,
            r.df.channel_names@.len() == 0,
    {
        DataFrameDispatcher {
            max_size_megabytes,
            overflow_behavior,
            nrows: 0,
            row_index: 0,
            df: SimpleDataFrame::new(Vec::new(), 0),
        }
    }

    /// Starts a run with a fresh dataframe.
    pub fn init(&mut self, channel_names: Vec<String>)
        requires
            old(self).wf(),
            old(self).max_size_megabytes * 1024 * 1024 <= usize::MAX,
            TIME_SIZE + (1 + channel_names.len()) * 8 <= usize::MAX,
            row_limit(old(self).max_size_megabytes as int, channel_names@.len() as int) * ROW_BYTES
                <= isize::MAX,
        ensures
            final(self).wf(),
            final(self).fits(),
            final(self).max_size_megabytes == old(self).max_size_megabytes,
            final(self).overflow_behavior == old(self).overflow_behavior,
            final(self).nrows == row_limit(
                old(self).max_size_megabytes as int,
                channel_names@.len() as int,
            ),
            final(self).row_index == 0,
            final(self).df.rows@.len() == 0,
            final(self).df.channel_names == channel_names,
    {
        self.row_index = 0;
        let row_size: usize = TIME_SIZE + (1 + channel_names.len()) * 8;
        self.nrows = (self.max_size_megabytes * 1024 * 1024) / row_size;
        self.df = SimpleDataFrame::new(channel_names, self.nrows);
    }

    /// Where the next row goes: behind the last one, or at the start where the
    /// dataframe is full.
    pub open spec fn next_index(self) -> int {
        if self.row_index >= self.nrows {
            0
        } else {
            self.row_index as int
        }
    }

    /// Whether `after` is the dispatcher with one more row stored.
    pub open spec fn stores(self, row: Row, after: Self) -> bool {
        &&& after.max_size_megabytes == self.max_size_megabytes
        &&& after.overflow_behavior == self.overflow_behavior
        &&& after.nrows == self.nrows
        &&& after.df.channel_names == self.df.channel_names
        &&& after.row_index == self.next_index() + 1
        &&& after.df.rows@ == placed(self.df.rows@, row, self.next_index())
    }

    /// Stores a row.
    pub fn consume(&mut self, time: UtcTime, timestamp: i64, channel_values: Vec<Real>) -> (r: Result<
        (),
        String,
    >)
        requires
            old(self).wf(),
            time.valid(),
        ensures
            final(self).wf(),
            old(self).fits() ==> final(self).fits(),
            final(self).max_size_megabytes == old(self).max_size_megabytes,
            final(self).overflow_behavior == old(self).overflow_behavior,
            final(self).nrows == old(self).nrows,
            final(self).df.channel_names == old(self).df.channel_names,
            match r {
                Err(e) => {
                    &&& old(self).overflow_behavior == Overflow::Error
                    &&& old(self).row_index >= old(self).nrows
                    &&& final(self).df == old(self).df
                    &&& final(self).row_index == old(self).row_index
                    &&& e@ == "DataFrame out of memory"@
                },
                Ok(()) => {
                    &&& old(self).overflow_behavior == Overflow::Wrap || old(self).row_index < old(
                        self,
                    ).nrows
                    &&& exists|row: Row|
                        {
                            &&& row.system_time@ == datetime::rfc3339_nanos_text(
                                time.secs,
                                time.nanos,
                            )
                            &&& row.timestamp == timestamp
                            &&& row.channel_values == channel_values
                            &&& #[trigger] old(self).stores(row, *final(self))
                        }
                },
            },
    {
        if self.row_index >= self.nrows {
            match self.overflow_behavior {
                Overflow::Error => {
                    return Err("DataFrame out of memory".to_owned());
                },
                _ => {
                    self.row_index = 0;
                },
            }
        }
        let row = Row::new(time, timestamp, channel_values);
        let i = self.row_index;
        self.df.put(row, i);
        self.row_index = self.row_index + 1;
        assert(old(self).stores(row, *self));
        Ok(())
    }

    /// Ends a run. The dataframe stays available.
    pub fn terminate(&mut self)
        requires
            old(self).wf(),
        ensures
            final(self).wf(),
            final(self).max_size_megabytes == old(self).max_size_megabytes,
            final(self).overflow_behavior == old(self).overflow_behavior,
            final(self).df == old(self).df,
            final(self).row_index == 0,
            final(self).nrows == 0,
    {
        self.nrows = 0;
        self.row_index = 0;
    }
}

/// A stored row overwrites at most one other row: all others stay as they are.
pub proof fn law_other_rows_stay(rows: Seq<Row>, row: Row, loc: int, i: int)
    requires
        0 <= loc,
        0 <= i < rows.len(),
        i != loc,
    ensures
        placed(rows, row, loc)[i] == rows[i],
        rows.len() <= placed(rows, row, loc).len() <= rows.len() + 1,
{
}

/// The stored rows and the index of the next one, where some rows have been written
/// to a fresh dataframe that wraps behind `nrows` rows.
pub open spec fn frame_after(written: Seq<Row>, nrows: nat) -> (Seq<Row>, nat)
    decreases written.len(),
{
    if written.len() == 0 {
        (Seq::empty(), 0)
    } else {
        let (rows, index) = frame_after(written.drop_last(), nrows);
        let at: nat = if index >= nrows {
            0
        } else {
            index
        };
        (placed(rows, written.last(), at as int), at + 1)
    }
}

/// A dataframe that wraps holds the last rows that were written, as many as fit:
/// each write beyond the limit goes over the oldest row.
pub proof fn law_oldest_row_is_overwritten(written: Seq<Row>, nrows: nat, i: int)
    requires
        nrows > 0,
        0 <= i < written.len() <= i + nrows,
    ensures
        frame_after(written, nrows).0.len() == if written.len() < nrows {
            written.len()
        } else {
            nrows
        },
        frame_after(written, nrows).0[i % nrows as int] == written[i],
{
    lemma_frame_after(written, nrows);
}

/// From the start of a run on, a dataframe that wraps holds at most as many rows as
/// its size allows, and these are the most recent ones: a full frame overwrites its
/// oldest row first. `frames` are the dispatcher at the start and behind each row.
pub proof fn law_frame_holds_the_last_rows(
    frames: Seq<DataFrameDispatcher>,
    written: Seq<Row>,
    i: int,
)
    requires
        frames.len() == written.len() + 1,
        frames[0].overflow_behavior == Overflow::Wrap,
        frames[0].row_index == 0,
        frames[0].df.rows@.len() == 0,
        frames[0].nrows == row_limit(
            frames[0].max_size_megabytes as int,
            frames[0].df.channel_names@.len() as int,
        ),
        frames[0].nrows >= 1,
        forall|k: int|
            0 <= k < written.len() ==> frames[k].stores(#[trigger] written[k], frames[k + 1]),
        0 <= i < written.len() <= i + frames[0].nrows,
    ensures
        frames.last().df.rows@.len() == if written.len() < frames[0].nrows {
            written.len()
        } else {
            frames[0].nrows as nat
        },
        frames.last().df.rows@.len() * (TIME_SIZE + (1 + frames[0].df.channel_names@.len()) * 8)
            <= frames[0].max_size_megabytes * 1024 * 1024,
        frames.last().df.rows@[i % frames[0].nrows as int] == written[i],
{
    lemma_frames(frames, written);
    law_oldest_row_is_overwritten(written, frames[0].nrows as nat, i);
    let size = frames[0].max_size_megabytes * 1024 * 1024;
    let row_size = TIME_SIZE + (1 + frames[0].df.channel_names@.len()) * 8;
    vstd::arithmetic::div_mod::lemma_fundamental_div_mod(size, row_size);
    vstd::arithmetic::div_mod::lemma_mod_bound(size, row_size);
    let n = frames.last().df.rows@.len() as int;
    assert(n * row_size <= size) by (nonlinear_arith)
        requires
            n <= size / row_size,
            size == row_size * (size / row_size) + size % row_size,
            0 <= size % row_size,
            row_size > 0,
    ;
}

/// The rows of a run are those of a fresh dataframe.
proof fn lemma_frames(frames: Seq<DataFrameDispatcher>, written: Seq<Row>)
    requires
        frames.len() == written.len() + 1,
        frames[0].row_index == 0,
        frames[0].df.rows@.len() == 0,
        forall|k: int|
            0 <= k < written.len() ==> frames[k].stores(#[trigger] written[k], frames[k + 1]),
    ensures
        frames.last().nrows == frames[0].nrows,
        frames.last().df.rows@ == frame_after(written, frames[0].nrows as nat).0,
        frames.last().row_index == frame_after(written, frames[0].nrows as nat).1,
    decreases written.len(),
{
    if written.len() > 0 {
        let before = written.drop_last();
        assert forall|k: int| 0 <= k < before.len() implies frames.drop_last()[k].stores(
            #[trigger] before[k],
            frames.drop_last()[k + 1],
        ) by {
            assert(before[k] == written[k]);
        }
        lemma_frames(frames.drop_last(), before);
        assert(frames[written.len() - 1].stores(written[written.len() - 1], frames.last()));
    } else {
        assert(frames[0].df.rows@ =~= Seq::empty());
    }
}

proof fn lemma_frame_after(written: Seq<Row>, nrows: nat)
    requires
        nrows > 0,
    ensures
        frame_after(written, nrows).0.len() == if written.len() < nrows {
            written.len()
        } else {
            nrows
        },
        frame_after(written, nrows).1 == if written.len() == 0 {
            0
        } else {
            (written.len() - 1) as nat % nrows + 1
        },
        forall|i: int|
            0 <= i < written.len() <= i + nrows ==> frame_after(written, nrows).0[i % nrows as int]
                == #[trigger] written[i],
    decreases written.len(),
{
    if written.len() > 0 {
        let before = written.drop_last();
        let n = before.len();
        lemma_frame_after(before, nrows);
        let (rows, index) = frame_after(before, nrows);
        let at: nat = if index >= nrows {
            0
        } else {
            index
        };
        if n == 0 {
            vstd::arithmetic::div_mod::lemma_small_mod(0, nrows);
        } else {
            decimation::lemma_next_mod((n - 1) as nat, nrows);
        }
        assert(at == n % nrows);
        vstd::arithmetic::div_mod::lemma_mod_bound(n as int, nrows as int);
        if n < nrows {
            vstd::arithmetic::div_mod::lemma_small_mod(n, nrows);
        }
        assert forall|i: int| 0 <= i < written.len() <= i + nrows implies frame_after(
            written,
            nrows,
        ).0[i % nrows as int] == #[trigger] written[i] by {
            vstd::arithmetic::div_mod::lemma_mod_bound(i, nrows as int);
            if i < n {
                assert(before[i] == written[i]);
                if i % nrows as int == at {
                    vstd::arithmetic::div_mod::lemma_fundamental_div_mod(i, nrows as int);
                    vstd::arithmetic::div_mod::lemma_fundamental_div_mod(n as int, nrows as int);
                    let a = i / nrows as int;
                    let b = n as int / nrows as int;
                    assert(false) by (nonlinear_arith)
                        requires
                            0 < n - i < nrows,
                            n - i == nrows * b - nrows * a,
                            nrows > 0,
                    ;
                }
                if n < nrows {
                    vstd::arithmetic::div_mod::lemma_small_mod(i as nat, nrows);
                }
            }
        }
    }
}

/// The column of a channel holds the value of that channel of each row, in the order
/// of the rows.
pub proof fn law_column_holds_each_row(rows: Seq<Row>, channel: int)
    requires
        0 <= channel,
        forall|i: int|
            0 <= i < rows.len() ==> channel < (#[trigger] rows[i]).channel_values@.len(),
    ensures
        column_of(rows, channel).len() == rows.len(),
        forall|i: int|
            0 <= i < rows.len() ==> column_of(rows, channel)[i] == (
            #[trigger] rows[i]).channel_values@[channel],
    decreases rows.len(),
{
    if rows.len() > 0 {
        let front = rows.drop_last();
        assert forall|i: int| 0 <= i < front.len() implies channel < (
        #[trigger] front[i]).channel_values@.len() by {
            assert(front[i] == rows[i]);
        }
        law_column_holds_each_row(front, channel);
        assert(channel < rows[rows.len() - 1].channel_values@.len());
        assert forall|i: int| 0 <= i < rows.len() implies column_of(rows, channel)[i] == (
        #[trigger] rows[i]).channel_values@[channel] by {
            if i < front.len() {
                assert(front[i] == rows[i]);
            }
        }
    }
}

/// A frame has as many rows as fit in its megabytes, and no more: a row takes thirty
/// bytes for its time, and eight for its timestamp and each channel.
pub proof fn law_rows_fill_the_megabytes(megabytes: int, channels: int)
    requires
        0 <= megabytes,
        0 <= channels,
    ensures
        ({
            let size = 30 + (1 + channels) * 8;
            let n = row_limit(megabytes, channels);
            n * size <= megabytes * 1_048_576 < (n + 1) * size
        }),
{
    let size = TIME_SIZE + (1 + channels) * 8;
    let all = megabytes * 1024 * 1024;
    let n = row_limit(megabytes, channels);
    vstd::arithmetic::div_mod::lemma_fundamental_div_mod(all, size);
    vstd::arithmetic::div_mod::lemma_mod_bound(all, size);
    assert(n * size <= all < (n + 1) * size) by (nonlinear_arith)
        requires
            all == size * n + all % size,
            0 <= all % size < size,
    ;
}

} // verus!
