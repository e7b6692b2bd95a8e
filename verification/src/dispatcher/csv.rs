//! Plain-text CSV files with fixed-width rows: where the rows go, and how a file
//! is loaded.

use vstd::prelude::*;
use crate::binary64::Real;
use crate::datetime;
use crate::datetime::{parse_time, UtcTime};
use crate::text;
use crate::text::{parse_int, push_nat, push_text, same_text, trim};
use super::lines::Overflow;

verus! {

/// In-memory contents of a dispatcher CSV file.
#[derive(Debug)]
pub struct LoadedCsv {
    /// Names of the data channels, without the time columns.
    pub channel_names: Vec<String>,
    /// Rows in file order.
    pub rows: Vec<LoadedCsvRow>,
}

/// One loaded CSV row.
#[derive(Debug)]
pub struct LoadedCsvRow {
    /// Wall-clock time.
    pub time: UtcTime,
    /// Controller-relative timestamp in nanoseconds.
    pub timestamp: i64,
    /// Values in the order of the channel names.
    pub channel_values: Vec<Real>,
}

/// The index of the first text that equals a name, from index `i` on.
pub open spec fn index_from(names: Seq<Seq<char>>, name: Seq<char>, i: int) -> Option<int>
    decreases names.len() - i,
{
    if i < 0 || i >= names.len() {
        None
    } else if names[i] == name {
        Some(i)
    } else {
        index_from(names, name, i + 1)
    }
}

fn find(names: &[String], name: &str) -> (r: Option<usize>)
    ensures
        match r {
            Some(i) => i < names@.len() && index_from(text::texts(names@), name@, 0) == Some(
                i as int,
            ),
            None => index_from(text::texts(names@), name@, 0) is None,
        },
{
    let mut i: usize = 0;
    while i < names.len()
        invariant
            i <= names@.len(),
            index_from(text::texts(names@), name@, 0) == index_from(
                text::texts(names@),
                name@,
                i as int,
            ),
        decreases names@.len() - i,
    {
        assert(text::texts(names@)[i as int] == names@[i as int]@);
        if same_text(names[i].as_str(), name) {
            return Some(i);
        }
        i = i + 1;
    }
    None
}

impl LoadedCsv {
    /// Names of loaded data channels, excluding the time columns.
    pub fn channel_names(&self) -> (r: &[String])
        ensures
            r@ == self.channel_names@,
    {
        self.channel_names.as_slice()
    }

    /// Loaded CSV rows in file order.
    pub fn rows(&self) -> (r: &[LoadedCsvRow])
        ensures
            r@ == self.rows@,
    {
        self.rows.as_slice()
    }

    /// Finds one channel by exact name.
    pub fn channel_index(&self, name: &str) -> (r: Option<usize>)
        ensures
            match r {
                Some(i) => index_from(text::texts(self.channel_names@), name@, 0) == Some(i as int),
                None => index_from(text::texts(self.channel_names@), name@, 0) is None,
            },
    {
        find(self.channel_names.as_slice(), name)
    }

    /// Resolves a set of required channels to row-value indices.
    pub fn required_channel_indices(&self, names: &[String]) -> (r: Result<Vec<usize>, String>)
        ensures
            match r {
                Ok(v) => {
                    &&& v@.len() == names@.len()
                    &&& forall|k: int|
                        0 <= k < v@.len() ==> index_from(
                            text::texts(self.channel_names@),
                            names@[k]@,
                            0,
                        ) == Some(#[trigger] v@[k] as int)
                },
                Err(e) => exists|k: int|
                    {
                        &&& 0 <= k < names@.len()
                        &&& index_from(
                            text::texts(self.channel_names@),
                            (#[trigger] names@[k])@,
                            0,
                        ) is None
                        &&& forall|j: int|
                            0 <= j < k ==> index_from(
                                text::texts(self.channel_names@),
                                (#[trigger] names@[j])@,
                                0,
                            ) is Some
                        &&& e@ == "CSV is missing required channel `"@ + names@[k]@ + "`"@
                    },
            },
    {
        let mut v: Vec<usize> = Vec::new();
        let mut i: usize = 0;
        while i < names.len()
            invariant
                i <= names@.len(),
                v@.len() == i,
                forall|k: int|
                    0 <= k < i ==> index_from(
                        text::texts(self.channel_names@),
                        (#[trigger] names@[k])@,
                        0,
                    ) == Some(v@[k] as int),
            decreases names@.len() - i,
        {
            match self.channel_index(names[i].as_str()) {
                Some(index) => {
                    v.push(index);
                },
                None => {
                    let mut e = "CSV is missing required channel `".to_owned();
                    e.push_str(names[i].as_str());
                    e.push_str("`");
                    assert(index_from(
                        text::texts(self.channel_names@),
                        names@[i as int]@,
                        0,
                    ) is None);
                    return Err(e);
                },
            }
            i = i + 1;
        }
        assert forall|k: int| 0 <= k < v@.len() implies index_from(
            text::texts(self.channel_names@),
            names@[k]@,
            0,
        ) == Some(#[trigger] v@[k] as int) by {
            assert(names@[k]@ == names@[k]@);
        }
        Ok(v)
    }
}

/// A record, by texts, or why it could not be read.
pub open spec fn record_text(r: Result<Vec<String>, String>) -> Result<Seq<Seq<char>>, Seq<char>> {
    match r {
        Ok(v) => Ok(text::texts(v@)),
        Err(e) => Err(e@),
    }
}

/// The records, by texts.
pub open spec fn record_texts(v: Seq<Result<Vec<String>, String>>) -> Seq<
    Result<Seq<Seq<char>>, Seq<char>>,
> {
    v.map_values(|r: Result<Vec<String>, String>| record_text(r))
}

/// The header that the csv crate reads at the start of some bytes.
pub uninterp spec fn header_reading(bytes: Seq<u8>) -> Result<Seq<Seq<char>>, Seq<char>>;

/// The records that the csv crate reads behind the header of some bytes.
pub uninterp spec fn records_reading(bytes: Seq<u8>) -> Seq<Result<Seq<Seq<char>>, Seq<char>>>;

/// A character that stands in a field as it is: ASCII, and neither a comma nor a
/// quote nor a line ending.
pub open spec fn plain_char(c: char) -> bool {
    text::ascii(c) && c != ',' && c != '"' && c != '\n' && c != '\r'
}

/// A field that stands in a file as it is.
pub open spec fn plain_field(s: Seq<char>) -> bool {
    forall|i: int| 0 <= i < s.len() ==> plain_char(#[trigger] s[i])
}

/// A record of a number of plain fields.
pub open spec fn plain_record(fields: Seq<Seq<char>>, n: nat) -> bool {
    fields.len() == n && forall|k: int| 0 <= k < n ==> plain_field(#[trigger] fields[k])
}

/// A table with a header: all records have as many fields as the first, two at
/// least, and all fields are plain.
pub open spec fn plain_table(records: Seq<Seq<Seq<char>>>) -> bool {
    &&& records.len() > 0
    &&& records[0].len() >= 2
    &&& forall|i: int|
        0 <= i < records.len() ==> plain_record(#[trigger] records[i], records[0].len())
}

/// The lines of a table: commas between the fields, and a line feed behind each
/// record.
pub open spec fn table_text(records: Seq<Seq<Seq<char>>>) -> Seq<char>
    decreases records.len(),
{
    if records.len() == 0 {
        Seq::empty()
    } else {
        table_text(records.drop_last()) + text::joined(records.last(), ","@) + "\n"@
    }
}

/// The header of a table, read without an error.
pub open spec fn header_of(records: Seq<Seq<Seq<char>>>) -> Result<Seq<Seq<char>>, Seq<char>> {
    Ok(records[0])
}

/// The records of a table behind its header, all of them read without an error.
pub open spec fn rows_of(records: Seq<Seq<Seq<char>>>) -> Seq<Result<Seq<Seq<char>>, Seq<char>>> {
    records.skip(1).map_values(|r: Seq<Seq<char>>| Ok::<Seq<Seq<char>>, Seq<char>>(r))
}

/// Calls `headers` of a csv `Reader` over bytes. The header depends on the bytes
/// alone, and that of a table of plain fields is its first record.
#[verifier::external_body]
fn read_header(bytes: &[u8]) -> (r: Result<Vec<String>, String>)
    ensures
        record_text(r) == header_reading(bytes@),
        forall|t: Seq<Seq<Seq<char>>>|
            plain_table(t) && bytes@ == #[trigger] text::ascii_bytes(table_text(t))
                ==> record_text(r) == header_of(t),
{
    let mut reader = csv::ReaderBuilder::new().has_headers(true).from_reader(bytes);
    match reader.headers() {
        Ok(record) => Ok(record.iter().map(|s| s.to_owned()).collect()),
        Err(e) => Err(e.to_string()),
    }
}

/// Calls `records` of a csv `Reader` over bytes, up to the end of the bytes. The
/// records depend on the bytes alone, and those of a table of plain fields are the
/// records behind its first.
#[verifier::external_body]
fn read_records(bytes: &[u8]) -> (v: Vec<Result<Vec<String>, String>>)
    ensures
        record_texts(v@) == records_reading(bytes@),
        forall|t: Seq<Seq<Seq<char>>>|
            plain_table(t) && bytes@ == #[trigger] text::ascii_bytes(table_text(t))
                ==> record_texts(v@) == rows_of(t),
{
    let mut reader = csv::ReaderBuilder::new().has_headers(true).from_reader(bytes);
    reader.records()
        .map(|record| match record {
            Ok(record) => Ok(record.iter().map(|s| s.to_owned()).collect()),
            Err(e) => Err(e.to_string()),
        })
        .collect()
}

/// A load of a CSV file that is on its way: the caller reads the numbers of each
/// row from their texts.
#[derive(Debug)]
pub struct CsvLoader {
    pub path: String,
    pub timestamp_idx: usize,
    pub time_idx: usize,
    pub channel_names: Vec<String>,
    pub channel_indices: Vec<usize>,
    pub records: Vec<Result<Vec<String>, String>>,
    pub rows: Vec<LoadedCsvRow>,
}

/// The error of a fixed column that is not there.
pub open spec fn missing_column(name: Seq<char>) -> Seq<char> {
    "CSV is missing required column `"@ + name + "`"@
}

/// Why a file cannot be loaded, as far as its header tells.
pub open spec fn header_fault(path: Seq<char>, header: Result<Seq<Seq<char>>, Seq<char>>) -> Option<
    Seq<char>,
> {
    match header {
        Err(e) => Some("Failed to read CSV header from "@ + path + ": "@ + e),
        Ok(columns) => if index_from(columns, "timestamp"@, 0) is None {
            Some(missing_column("timestamp"@))
        } else if index_from(columns, "time"@, 0) is None {
            Some(missing_column("time"@))
        } else {
            None
        },
    }
}

/// The columns of a header that are channels: all but the two of time.
pub open spec fn channel_columns(columns: Seq<Seq<char>>, n: int) -> Seq<int>
    decreases n,
{
    if n <= 0 {
        Seq::empty()
    } else {
        let before = channel_columns(columns, n - 1);
        if Some(n - 1) == index_from(columns, "timestamp"@, 0) || Some(n - 1) == index_from(
            columns,
            "time"@,
            0,
        ) {
            before
        } else {
            before.push(n - 1)
        }
    }
}

/// Whether indices and names are those of some columns of a header.
pub open spec fn stand_for(
    indices: Seq<usize>,
    names: Seq<Seq<char>>,
    columns: Seq<Seq<char>>,
    at: Seq<int>,
) -> bool {
    &&& indices.len() == at.len()
    &&& names.len() == at.len()
    &&& forall|k: int|
        0 <= k < at.len() ==> (#[trigger] at[k]) == indices[k] && 0 <= at[k] < columns.len()
            && names[k] == columns[at[k]]
}

fn column_error(name: &str) -> (e: String)
    ensures
        e@ == missing_column(name@),
{
    let mut e = "CSV is missing required column `".to_owned();
    e.push_str(name);
    e.push_str("`");
    e
}

/// The texts of a row: timestamp and time are read, the values are to be read as
/// numbers. `missing` is the error of the first value that is not there.
#[derive(Debug)]
pub struct RowFields {
    pub timestamp: i64,
    pub time: UtcTime,
    pub values: Vec<String>,
    pub missing: Option<String>,
}

/// The error of a value that is not there.
pub open spec fn missing_field(row: nat, name: Seq<char>) -> Seq<char> {
    "CSV row "@ + text::nat_text(row) + " is missing column `"@ + name + "`"@
}

fn field_error(row: usize, name: &str) -> (e: String)
    ensures
        e@ == missing_field(row as nat, name@),
{
    let mut e = "CSV row ".to_owned();
    push_nat(&mut e, row as u128);
    e.push_str(" is missing column `");
    e.push_str(name);
    e.push_str("`");
    e
}

/// Why a row cannot be loaded, before its values are looked at.
pub open spec fn row_fault(
    path: Seq<char>,
    timestamp_idx: int,
    time_idx: int,
    record: Result<Seq<Seq<char>>, Seq<char>>,
    row: nat,
) -> Option<Seq<char>> {
    match record {
        Err(e) => Some("Failed to read CSV row "@ + text::nat_text(row) + " from "@ + path + ": "@
            + e),
        Ok(fields) => if timestamp_idx >= fields.len() {
            Some(missing_field(row, "timestamp"@))
        } else if !text::int_numeral(text::trimmed(fields[timestamp_idx])) {
            Some("Invalid CSV timestamp on row "@ + text::nat_text(row) + ": "@ + text::int_error(
                text::trimmed(fields[timestamp_idx]),
            ))
        } else if time_idx >= fields.len() {
            Some(missing_field(row, "time"@))
        } else {
            match datetime::rfc3339_reading(text::trimmed(fields[time_idx])) {
                Err(e) => Some("Invalid CSV wall-clock time on row "@ + text::nat_text(row) + ": "@
                    + e),
                Ok(_) => None,
            }
        },
    }
}

/// How many of some columns a record has, from the first on.
pub open spec fn present(indices: Seq<usize>, len: int, k: int) -> int
    decreases indices.len() - k,
{
    if k < 0 || k >= indices.len() || indices[k] >= len {
        k
    } else {
        present(indices, len, k + 1)
    }
}

/// The error of a value that is no number.
pub open spec fn value_error(name: Seq<char>, row: nat, why: Seq<char>) -> Seq<char> {
    "Invalid CSV value for `"@ + name + "` on row "@ + text::nat_text(row) + ": "@ + why
}

/// The first of some numbers that could not be read, from index `k` on.
pub open spec fn first_bad(numbers: Seq<Result<Real, String>>, k: int) -> Option<int>
    decreases numbers.len() - k,
{
    if k < 0 || k >= numbers.len() {
        None
    } else if numbers[k] is Err {
        Some(k)
    } else {
        first_bad(numbers, k + 1)
    }
}

impl CsvLoader {
    /// Names and columns of the channels go together.
    pub open spec fn wf(self) -> bool {
        self.channel_names@.len() == self.channel_indices@.len()
    }

    /// Everything but the loaded rows is unchanged.
    pub open spec fn same_file(self, other: Self) -> bool {
        self.path == other.path && self.timestamp_idx == other.timestamp_idx && self.time_idx
            == other.time_idx && self.channel_names == other.channel_names && self.channel_indices
            == other.channel_indices && self.records == other.records
    }

    /// Whether the loader is for a file with these columns.
    pub open spec fn has_columns(self, columns: Seq<Seq<char>>) -> bool {
        &&& index_from(columns, "timestamp"@, 0) == Some(self.timestamp_idx as int)
        &&& index_from(columns, "time"@, 0) == Some(self.time_idx as int)
        &&& stand_for(
            self.channel_indices@,
            text::texts(self.channel_names@),
            columns,
            channel_columns(columns, columns.len() as int),
        )
    }

    /// Whether these are the texts of a row with the given fields, which has its
    /// timestamp and its time.
    pub open spec fn takes_from(self, fields: Seq<Seq<char>>, row: nat, f: RowFields) -> bool {
        let count = present(self.channel_indices@, fields.len() as int, 0);
        &&& f.timestamp == text::signed_value(text::trimmed(fields[self.timestamp_idx as int]))
        &&& datetime::rfc3339_reading(text::trimmed(fields[self.time_idx as int])) == Ok::<
            (i64, u32),
            Seq<char>,
        >((f.time.secs, f.time.nanos))
        &&& 0 <= count <= self.channel_indices@.len()
        &&& text::texts(f.values@) == Seq::new(
            count as nat,
            |k: int| text::trimmed(fields[self.channel_indices@[k] as int]),
        )
        &&& match f.missing {
            None => count == self.channel_indices@.len(),
            Some(e) => count < self.channel_indices@.len() && e@ == missing_field(
                row,
                self.channel_names@[count]@,
            ),
        }
    }

    /// Starts the load of a file with its header and records. Every column but
    /// the two of time is a channel.
    pub fn from_parts(
        path: &str,
        header: Result<Vec<String>, String>,
        records: Vec<Result<Vec<String>, String>>,
    ) -> (r: Result<Self, String>)
        ensures
            match r {
                Err(e) => header_fault(path@, record_text(header)) == Some(e@),
                Ok(l) => {
                    &&& header_fault(path@, record_text(header)) is None
                    &&& l.wf()
                    &&& l.path@ == path@
                    &&& l.records == records
                    &&& l.rows@.len() == 0
                    &&& header matches Ok(columns) && l.has_columns(text::texts(columns@))
                },
            },
    {
        let headers = match header {
            Ok(headers) => headers,
            Err(why) => {
                let mut e = "Failed to read CSV header from ".to_owned();
                e.push_str(path);
                e.push_str(": ");
                e.push_str(why.as_str());
                return Err(e);
            },
        };
        let ghost columns = text::texts(headers@);
        let timestamp_idx = match find(headers.as_slice(), "timestamp") {
            Some(i) => i,
            None => {
                return Err(column_error("timestamp"));
            },
        };
        let time_idx = match find(headers.as_slice(), "time") {
            Some(i) => i,
            None => {
                return Err(column_error("time"));
            },
        };
        let mut channel_names: Vec<String> = Vec::new();
        let mut channel_indices: Vec<usize> = Vec::new();
        let mut i: usize = 0;
        while i < headers.len()
            invariant
                i <= headers@.len(),
                columns == text::texts(headers@),
                index_from(columns, "timestamp"@, 0) == Some(timestamp_idx as int),
                index_from(columns, "time"@, 0) == Some(time_idx as int),
                stand_for(
                    channel_indices@,
                    text::texts(channel_names@),
                    columns,
                    channel_columns(columns, i as int),
                ),
            decreases headers@.len() - i,
        {
            if i != timestamp_idx && i != time_idx {
                let ghost names = text::texts(channel_names@);
                let ghost indices = channel_indices@;
                let ghost at = channel_columns(columns, i as int);
                push_text(&mut channel_names, headers[i].as_str());
                channel_indices.push(i);
                proof {
                    let now = channel_columns(columns, i + 1);
                    assert(now == at.push(i as int));
                    assert forall|k: int| 0 <= k < now.len() implies (#[trigger] now[k])
                        == channel_indices@[k] && 0 <= now[k] < columns.len() && text::texts(
                        channel_names@,
                    )[k] == columns[now[k]] by {
                        if k < at.len() {
                            assert(now[k] == at[k]);
                            assert(indices[k] == channel_indices@[k]);
                            assert(names[k] == text::texts(channel_names@)[k]);
                        }
                    }
                }
            }
            i = i + 1;
        }
        assert(text::texts(channel_names@).len() == channel_names@.len());
        Ok(
            CsvLoader {
                path: path.to_owned(),
                timestamp_idx,
                time_idx,
                channel_names,
                channel_indices,
                records,
                rows: Vec::new(),
            },
        )
    }

    /// Starts the load of a file with these bytes.
    pub fn open(path: &str, bytes: &[u8]) -> (r: Result<Self, String>)
        ensures
            match r {
                Err(e) => header_fault(path@, header_reading(bytes@)) == Some(e@),
                Ok(l) => {
                    &&& header_fault(path@, header_reading(bytes@)) is None
                    &&& l.wf()
                    &&& l.path@ == path@
                    &&& record_texts(l.records@) == records_reading(bytes@)
                    &&& l.rows@.len() == 0
                    &&& header_reading(bytes@) matches Ok(columns) && l.has_columns(columns)
                },
            },
            forall|t: Seq<Seq<Seq<char>>>|
                plain_table(t) && bytes@ == #[trigger] text::ascii_bytes(table_text(t))
                    ==> header_reading(bytes@) == header_of(t)
                    && records_reading(bytes@) == rows_of(t),
    {
        let header = read_header(bytes);
        let records = read_records(bytes);
        CsvLoader::from_parts(path, header, records)
    }

    /// The texts of the next row. There is none behind the last one.
    pub fn next_row(&self) -> (r: Option<Result<RowFields, String>>)
        requires
            self.wf(),
        ensures
            match r {
                None => self.rows@.len() >= self.records@.len(),
                Some(result) => {
                    let row = self.rows@.len();
                    let record = record_text(self.records@[row as int]);
                    let fault = row_fault(
                        self.path@,
                        self.timestamp_idx as int,
                        self.time_idx as int,
                        record,
                        row,
                    );
                    &&& self.rows@.len() < self.records@.len()
                    &&& match result {
                        Err(e) => fault == Some(e@),
                        Ok(f) => fault is None && self.takes_from(record->Ok_0, row, f),
                    }
                },
            },
    {
        let row = self.rows.len();
        if row >= self.records.len() {
            return None;
        }
        Some(self.row_fields(&self.records[row], row))
    }

    fn row_fields(&self, record: &Result<Vec<String>, String>, row: usize) -> (r: Result<
        RowFields,
        String,
    >)
        requires
            self.wf(),
        ensures
            ({
                let text = record_text(*record);
                let fault = row_fault(
                    self.path@,
                    self.timestamp_idx as int,
                    self.time_idx as int,
                    text,
                    row as nat,
                );
                match r {
                    Err(e) => fault == Some(e@),
                    Ok(f) => fault is None && self.takes_from(text->Ok_0, row as nat, f),
                }
            }),
    {
        let fields = match record {
            Ok(fields) => fields,
            Err(why) => {
                let mut e = "Failed to read CSV row ".to_owned();
                push_nat(&mut e, row as u128);
                e.push_str(" from ");
                e.push_str(self.path.as_str());
                e.push_str(": ");
                e.push_str(why.as_str());
                return Err(e);
            },
        };
        let ghost all = text::texts(fields@);
        assert(all.len() == fields@.len());
        if self.timestamp_idx >= fields.len() {
            return Err(field_error(row, "timestamp"));
        }
        assert(all[self.timestamp_idx as int] == fields@[self.timestamp_idx as int]@);
        let timestamp = match parse_int(trim(fields[self.timestamp_idx].as_str()).as_str()) {
            Ok(n) => n,
            Err(why) => {
                let mut e = "Invalid CSV timestamp on row ".to_owned();
                push_nat(&mut e, row as u128);
                e.push_str(": ");
                e.push_str(why.as_str());
                return Err(e);
            },
        };
        if self.time_idx >= fields.len() {
            return Err(field_error(row, "time"));
        }
        assert(all[self.time_idx as int] == fields@[self.time_idx as int]@);
        let time = match parse_time(trim(fields[self.time_idx].as_str()).as_str()) {
            Ok(t) => t,
            Err(why) => {
                let mut e = "Invalid CSV wall-clock time on row ".to_owned();
                push_nat(&mut e, row as u128);
                e.push_str(": ");
                e.push_str(why.as_str());
                return Err(e);
            },
        };
        let mut values: Vec<String> = Vec::new();
        let mut k: usize = 0;
        let ghost want = |k: int| text::trimmed(all[self.channel_indices@[k] as int]);
        assert(text::texts(values@) =~= Seq::new(0, want));
        while k < self.channel_indices.len() && self.channel_indices[k] < fields.len()
            invariant
                k <= self.channel_indices@.len(),
                all == text::texts(fields@),
                all.len() == fields@.len(),
                want == (|k: int| text::trimmed(all[self.channel_indices@[k] as int])),
                text::texts(values@) == Seq::new(k as nat, want),
                present(self.channel_indices@, all.len() as int, 0) == present(
                    self.channel_indices@,
                    all.len() as int,
                    k as int,
                ),
            decreases self.channel_indices@.len() - k,
        {
            let index = self.channel_indices[k];
            assert(all[index as int] == fields@[index as int]@);
            push_text(&mut values, trim(fields[index].as_str()).as_str());
            assert(want(k as int) == text::trimmed(all[index as int]));
            k = k + 1;
            assert(text::texts(values@) =~= Seq::new(k as nat, want));
        }
        assert(text::texts(values@) =~= Seq::new(
            k as nat,
            |k: int| text::trimmed(all[self.channel_indices@[k] as int]),
        ));
        let missing = if k < self.channel_indices.len() {
            Some(field_error(row, self.channel_names[k].as_str()))
        } else {
            None
        };
        Ok(RowFields { timestamp, time, values, missing })
    }

    /// Stores the next row with its values read as numbers. `numbers` says for
    /// each text what number it is, or why it is none.
    pub fn store(&mut self, fields: RowFields, numbers: Vec<Result<Real, String>>) -> (r: Result<
        (),
        String,
    >)
        requires
            old(self).wf(),
            numbers@.len() == fields.values@.len(),
            fields.values@.len() <= old(self).channel_names@.len(),
        ensures
            final(self).wf(),
            final(self).same_file(*old(self)),
            match first_bad(numbers@, 0) {
                Some(k) => {
                    &&& r matches Err(e) && e@ == value_error(
                        old(self).channel_names@[k]@,
                        old(self).rows@.len(),
                        numbers@[k]->Err_0@,
                    )
                    &&& final(self).rows@ == old(self).rows@
                },
                None => match fields.missing {
                    Some(e) => r == Err::<(), String>(e) && final(self).rows@ == old(self).rows@,
                    None => {
                        &&& r is Ok
                        &&& final(self).rows@.len() == old(self).rows@.len() + 1
                        &&& final(self).rows@.drop_last() == old(self).rows@
                        &&& final(self).rows@.last().time == fields.time
                        &&& final(self).rows@.last().timestamp == fields.timestamp
                        &&& final(self).rows@.last().channel_values@ == Seq::new(
                            numbers@.len(),
                            |k: int| numbers@[k]->Ok_0,
                        )
                    },
                },
            },
    {
        let mut channel_values: Vec<Real> = Vec::new();
        let mut k: usize = 0;
        while k < numbers.len()
            invariant
                k <= numbers@.len(),
                numbers@.len() == fields.values@.len(),
                fields.values@.len() <= self.channel_names@.len(),
                *self == *old(self),
                self.wf(),
                first_bad(numbers@, 0) == first_bad(numbers@, k as int),
                channel_values@ == Seq::new(k as nat, |k: int| numbers@[k]->Ok_0),
            decreases numbers@.len() - k,
        {
            match &numbers[k] {
                Ok(x) => {
                    channel_values.push(*x);
                },
                Err(why) => {
                    let mut e = "Invalid CSV value for `".to_owned();
                    e.push_str(self.channel_names[k].as_str());
                    e.push_str("` on row ");
                    push_nat(&mut e, self.rows.len() as u128);
                    e.push_str(": ");
                    e.push_str(why.as_str());
                    return Err(e);
                },
            }
            k = k + 1;
            assert(channel_values@ =~= Seq::new(k as nat, |k: int| numbers@[k]->Ok_0));
        }
        if let Some(e) = fields.missing {
            return Err(e);
        }
        self.rows.push(
            LoadedCsvRow { time: fields.time, timestamp: fields.timestamp, channel_values },
        );
        assert(self.rows@.drop_last() =~= old(self).rows@);
        Ok(())
    }

    /// What was loaded.
    pub fn finish(self) -> (r: LoadedCsv)
        ensures
            r.channel_names == self.channel_names,
            r.rows == self.rows,
    {
        LoadedCsv { channel_names: self.channel_names, rows: self.rows }
    }
}

/// Settings of a dispatcher that writes files of a fixed size.
#[derive(Debug)]
pub struct CsvDispatcher {
    /// Size per file.
    pub chunk_size_megabytes: usize,
    /// Choice of behavior when the current file is full.
    pub overflow_behavior: Overflow,
    /// Suffix appended to the op name for the output file stem.
    pub op_name_suffix: Option<String>,
}

/// The file stem of an op: its name, with a suffix behind an underscore.
pub open spec fn stem(op_name: Seq<char>, suffix: Option<Seq<char>>) -> Seq<char> {
    match suffix {
        Some(suffix) => op_name + "_"@ + suffix,
        None => op_name,
    }
}

impl CsvDispatcher {
    /// The suffix, by its text.
    pub open spec fn suffix(self) -> Option<Seq<char>> {
        match self.op_name_suffix {
            Some(s) => Some(s@),
            None => None,
        }
    }

    /// Settings without a suffix.
    pub fn new(chunk_size_megabytes: usize, overflow_behavior: Overflow) -> (r: Self)
        ensures
            r.chunk_size_megabytes == chunk_size_megabytes,
            r.overflow_behavior == overflow_behavior,
            r.op_name_suffix is None,
    {
        CsvDispatcher { chunk_size_megabytes, overflow_behavior, op_name_suffix: None }
    }

    /// Overrides the file stem by appending `_{suffix}` to the op name. An empty
    /// suffix is none.
    pub fn with_op_name_suffix(self, suffix: &str) -> (r: Self)
        ensures
            r.chunk_size_megabytes == self.chunk_size_megabytes,
            r.overflow_behavior == self.overflow_behavior,
            r.suffix() == if suffix@.len() == 0 {
                None
            } else {
                Some(suffix@)
            },
    {
        let op_name_suffix = if suffix.is_empty() {
            None
        } else {
            Some(suffix.to_owned())
        };
        CsvDispatcher {
            chunk_size_megabytes: self.chunk_size_megabytes,
            overflow_behavior: self.overflow_behavior,
            op_name_suffix,
        }
    }

    /// The file stem for an op.
    pub fn file_stem(&self, op_name: &str) -> (s: String)
        ensures
            s@ == stem(op_name@, self.suffix()),
    {
        let mut s = op_name.to_owned();
        if let Some(suffix) = &self.op_name_suffix {
            s.push_str("_");
            s.push_str(suffix.as_str());
        }
        s
    }
}

/// Where a row goes.
#[derive(Debug)]
pub enum RowPlace {
    /// At the current position.
    Here,
    /// At the start of the rows, over the oldest data.
    Start { position: usize },
    /// In a new file with this name, behind its header.
    NewFile { name: String },
    /// Nowhere: the file is full, and writing ends.
    Full,
}

/// The positions of a writer in its files.
#[derive(Debug)]
pub struct CsvWriter {
    pub stem: String,
    pub header_len: usize,
    pub total_size: usize,
    pub overflow_behavior: Overflow,
    pub shard_number: u64,
    /// Position in the current file.
    pub position: usize,
    /// Position behind the furthest write to the current file.
    pub file_size: usize,
}

impl CsvWriter {
    /// A writer behind the header of its first file.
    pub fn new(stem: String, header_len: usize, total_size: usize, overflow_behavior: Overflow) -> (r:
        Self)
        ensures
            r.stem == stem,
            r.header_len == header_len,
            r.total_size == total_size,
            r.overflow_behavior == overflow_behavior,
            r.shard_number == 0,
            r.position == header_len,
            r.file_size == header_len,
    {
        CsvWriter {
            stem,
            header_len,
            total_size,
            overflow_behavior,
            shard_number: 0,
            position: header_len,
            file_size: header_len,
        }
    }

    /// The settings are unchanged.
    pub open spec fn same_settings(self, other: Self) -> bool {
        self.stem == other.stem && self.header_len == other.header_len && self.total_size
            == other.total_size && self.overflow_behavior == other.overflow_behavior
    }

    /// Whether a row fits behind the current position.
    pub open spec fn fits(self, n: int) -> bool {
        self.position + n <= self.total_size
    }

    /// Whether this is where a row of `n` bytes goes, and `after` the writer there.
    pub open spec fn takes_row_to(self, n: int, place: RowPlace, after: Self) -> bool {
        &&& after.same_settings(self)
        &&& match place {
            RowPlace::Here => {
                &&& self.fits(n)
                &&& after.position == self.position
                &&& after.file_size == self.file_size
                &&& after.shard_number == self.shard_number
            },
            RowPlace::Start { position } => {
                &&& !self.fits(n) && self.overflow_behavior == Overflow::Wrap
                &&& position == self.header_len
                &&& after.position == self.header_len
                &&& after.file_size == self.file_size
                &&& after.shard_number == self.shard_number
            },
            RowPlace::NewFile { name } => {
                &&& !self.fits(n) && self.overflow_behavior == Overflow::NewFile
                &&& name@ == self.stem@ + "_"@ + text::nat_text((self.shard_number + 1) as nat)
                    + ".csv"@
                &&& after.position == self.header_len
                &&& after.file_size == self.header_len
                &&& after.shard_number == self.shard_number + 1
            },
            RowPlace::Full => {
                &&& !self.fits(n) && self.overflow_behavior == Overflow::Error
                &&& after.position == self.position
                &&& after.file_size == self.file_size
                &&& after.shard_number == self.shard_number
            },
        }
    }

    /// Whether `after` is the writer behind a row of `n` bytes at its position.
    pub open spec fn goes_behind(self, n: int, after: Self) -> bool {
        &&& after.same_settings(self)
        &&& after.shard_number == self.shard_number
        &&& after.position == self.position + n
        &&& after.file_size == if self.position + n > self.file_size {
            self.position + n
        } else {
            self.file_size as int
        }
    }

    /// Decides where a row of `n` bytes goes, and takes the writer there.
    pub fn place(&mut self, n: usize) -> (r: RowPlace)
        requires
            old(self).position + n <= usize::MAX,
            !old(self).fits(n as int) && old(self).overflow_behavior == Overflow::NewFile ==> old(
                self,
            ).shard_number < u64::MAX,
        ensures
            old(self).takes_row_to(n as int, r, *final(self)),
    {
        if self.position + n <= self.total_size {
            return RowPlace::Here;
        }
        match self.overflow_behavior {
            Overflow::Wrap => {
                self.position = self.header_len;
                RowPlace::Start { position: self.header_len }
            },
            Overflow::Error => RowPlace::Full,
            Overflow::NewFile => {
                self.shard_number = self.shard_number + 1;
                let mut name = self.stem.as_str().to_owned();
                name.push_str("_");
                push_nat(&mut name, self.shard_number as u128);
                name.push_str(".csv");
                self.position = self.header_len;
                self.file_size = self.header_len;
                RowPlace::NewFile { name }
            },
        }
    }

    /// Takes the writer behind a row of `n` bytes that was written.
    pub fn written(&mut self, n: usize)
        requires
            old(self).position + n <= usize::MAX,
        ensures
            old(self).goes_behind(n as int, *final(self)),
    {
        self.position = self.position + n;
        if self.position > self.file_size {
            self.file_size = self.position;
        }
    }

    /// The length that the current file is cut to when writing ends: up to the
    /// furthest byte that was written. Behind it is only reserved space.
    pub fn final_len(&self) -> (r: u64)
        ensures
            r == self.file_size,
    {
        self.file_size as u64
    }
}

/// A row that is written, in place or elsewhere, stays within the size of the
/// file and behind its header, where header and row fit into a file at all.
pub proof fn law_rows_stay_in_the_file(w: CsvWriter, position: int, n: int)
    requires
        0 <= n,
        w.header_len + n <= w.total_size,
        w.header_len <= w.position,
        position == if w.fits(n) {
            w.position as int
        } else {
            w.header_len as int
        },
    ensures
        w.header_len <= position,
        position + n <= w.total_size,
{
}

/// How a thread panicked.
#[derive(Debug)]
pub enum PanicPayload {
    Text(String),
    Other,
}

/// The message of a panic.
pub fn panic_message(payload: PanicPayload) -> (s: String)
    ensures
        s@ == match payload {
            PanicPayload::Text(message) => message@,
            PanicPayload::Other => "unknown panic payload"@,
        },
{
    match payload {
        PanicPayload::Text(message) => message,
        PanicPayload::Other => "unknown panic payload".to_owned(),
    }
}

/// A header is good exactly where it could be read and both time columns are among its
/// columns.
pub proof fn law_good_headers_have_both_times(
    path: Seq<char>,
    header: Result<Seq<Seq<char>>, Seq<char>>,
)
    ensures
        header_fault(path, header) is None <==> (header matches Ok(columns) && columns.contains(
            "timestamp"@,
        ) && columns.contains("time"@)),
{
    if let Ok(columns) = header {
        lemma_index_is_first(columns, "timestamp"@, 0);
        lemma_index_is_first(columns, "time"@, 0);
    }
}

/// A name is found at its first place in a list, and not found exactly where it is not
/// in it.
pub proof fn law_first_place_of_a_name_is_found(names: Seq<Seq<char>>, name: Seq<char>, i: int)
    requires
        0 <= i < names.len(),
    ensures
        index_from(names, name, 0) == Some(i) <==> names[i] == name && forall|k: int|
            0 <= k < i ==> #[trigger] names[k] != name,
        index_from(names, name, 0) is None ==> names[i] != name,
{
    lemma_index_is_first(names, name, 0);
}

proof fn lemma_index_is_first(names: Seq<Seq<char>>, name: Seq<char>, from: int)
    requires
        0 <= from <= names.len(),
    ensures
        match index_from(names, name, from) {
            Some(i) => from <= i < names.len() && names[i] == name && forall|k: int|
                from <= k < i ==> #[trigger] names[k] != name,
            None => forall|k: int| from <= k < names.len() ==> #[trigger] names[k] != name,
        },
        from == 0 ==> (index_from(names, name, 0) is Some <==> names.contains(name)),
    decreases names.len() - from,
{
    if from < names.len() && names[from] != name {
        lemma_index_is_first(names, name, from + 1);
    }
}

/// Every column but the two of the times is that of a channel, in the order of the
/// columns.
pub proof fn law_other_columns_are_channels(columns: Seq<Seq<char>>, n: int)
    requires
        0 <= n <= columns.len(),
    ensures
        ({
            let at = channel_columns(columns, n);
            &&& forall|k: int|
                at.contains(k) <==> 0 <= k < n && index_from(columns, "timestamp"@, 0) != Some(k)
                    && index_from(columns, "time"@, 0) != Some(k)
            &&& forall|a: int, b: int| 0 <= a < b < at.len() ==> #[trigger] at[a] < #[trigger] at[b]
        }),
    decreases n,
{
    let at = channel_columns(columns, n);
    if n > 0 {
        law_other_columns_are_channels(columns, n - 1);
        let before = channel_columns(columns, n - 1);
        assert forall|a: int| 0 <= a < before.len() implies #[trigger] before[a] < n - 1 by {
            assert(before.contains(before[a]));
        }
        assert forall|k: int|
            at.contains(k) <==> 0 <= k < n && index_from(columns, "timestamp"@, 0) != Some(k)
                && index_from(columns, "time"@, 0) != Some(k) by {
            if before.contains(k) {
                let a = choose|a: int| 0 <= a < before.len() && before[a] == k;
                assert(at[a] == k);
            }
            if at.contains(k) && k != n - 1 {
                let a = choose|a: int| 0 <= a < at.len() && at[a] == k;
                if a < before.len() {
                    assert(before[a] == k);
                } else {
                    assert(at[a] == n - 1);
                }
            }
            if k == n - 1 && at.len() > before.len() {
                assert(at[before.len() as int] == n - 1);
            }
        }
    }
}

/// A row is faulty at its first value that is not a number.
pub proof fn law_first_bad_value_is_told(numbers: Seq<Result<Real, String>>, i: int)
    requires
        0 <= i < numbers.len(),
    ensures
        first_bad(numbers, 0) == Some(i) <==> numbers[i] is Err && forall|k: int|
            0 <= k < i ==> #[trigger] numbers[k] is Ok,
        first_bad(numbers, 0) is None ==> numbers[i] is Ok,
{
    lemma_first_bad(numbers, 0);
}

proof fn lemma_first_bad(numbers: Seq<Result<Real, String>>, from: int)
    requires
        0 <= from <= numbers.len(),
    ensures
        match first_bad(numbers, from) {
            Some(i) => from <= i < numbers.len() && numbers[i] is Err && forall|k: int|
                from <= k < i ==> #[trigger] numbers[k] is Ok,
            None => forall|k: int| from <= k < numbers.len() ==> #[trigger] numbers[k] is Ok,
        },
    decreases numbers.len() - from,
{
    if from < numbers.len() && numbers[from] is Ok {
        lemma_first_bad(numbers, from + 1);
    }
}

/// A record of a file gives one value for each channel, the trimmed field of the
/// channel's column, exactly where it has all of these columns. Else it gives those
/// before the first missing column, which it names.
pub proof fn law_records_give_their_channels(
    loader: CsvLoader,
    fields: Seq<Seq<char>>,
    row: nat,
    f: RowFields,
    k: int,
)
    requires
        loader.takes_from(fields, row, f),
        0 <= k < loader.channel_indices@.len(),
    ensures
        f.missing is None <==> forall|i: int|
            0 <= i < loader.channel_indices@.len() ==> #[trigger] loader.channel_indices@[i]
                < fields.len(),
        f.missing is None ==> f.values@.len() == loader.channel_indices@.len() && f.values@[k]@
            == text::trimmed(fields[loader.channel_indices@[k] as int]),
        f.missing is Some ==> f.values@.len() < loader.channel_indices@.len()
            && loader.channel_indices@[f.values@.len() as int] >= fields.len(),
        f.timestamp == text::signed_value(text::trimmed(fields[loader.timestamp_idx as int])),
{
    lemma_present(loader.channel_indices@, fields.len() as int, 0);
    assert(text::texts(f.values@).len() == f.values@.len());
    if f.missing is None {
        assert(text::texts(f.values@)[k] == f.values@[k]@);
    }
}

proof fn lemma_present(indices: Seq<usize>, len: int, from: int)
    requires
        0 <= from <= indices.len(),
    ensures
        from <= present(indices, len, from) <= indices.len(),
        forall|i: int|
            from <= i < present(indices, len, from) ==> #[trigger] indices[i] < len,
        present(indices, len, from) < indices.len() ==> indices[present(indices, len, from)] >= len,
    decreases indices.len() - from,
{
    if from < indices.len() && indices[from] < len {
        lemma_present(indices, len, from + 1);
    }
}

} // verus!
