//! What a load gives back of the rows that were written to a file.

use vstd::prelude::*;
use crate::datetime;
use crate::datetime::UtcTime;
use crate::text;
use super::csv;
use super::lines;
use super::row_files;

verus! {

/// A row as it is written: its time and the text of it, its timestamp, and the
/// texts of its values.
pub ghost struct WrittenRow {
    pub time: UtcTime,
    pub time_text: Seq<char>,
    pub timestamp: int,
    pub values: Seq<Seq<char>>,
}

impl WrittenRow {
    /// The fields of the row.
    pub open spec fn fields(self) -> Seq<Seq<char>> {
        seq![lines::fixed_int(self.timestamp), self.time_text] + lines::fixed_floats(self.values)
    }

    /// The line of the row.
    pub open spec fn line(self) -> Seq<char> {
        lines::fixed_row(self.time_text, self.timestamp, self.values)
    }

    /// A row of a number of channels: the timestamp has 64 bits, the text of the
    /// time is one of a year of four digits, and the texts of the values are plain.
    pub open spec fn wf(self, channels: nat) -> bool {
        &&& i64::MIN <= self.timestamp <= i64::MAX
        &&& self.time.has_text(self.time_text)
        &&& csv::plain_record(self.values, channels)
    }
}

/// The text of a file: the header, and the line of each row.
pub open spec fn file_text(names: Seq<Seq<char>>, rows: Seq<WrittenRow>) -> Seq<char>
    decreases rows.len(),
{
    if rows.len() == 0 {
        text::joined(lines::header_texts(names), ","@) + "\n"@
    } else {
        file_text(names, rows.drop_last()) + rows.last().line()
    }
}

/// The records of a file: the header columns, and the fields of each row.
pub open spec fn file_table(names: Seq<Seq<char>>, rows: Seq<WrittenRow>) -> Seq<Seq<Seq<char>>> {
    seq![lines::header_texts(names)] + rows.map_values(|r: WrittenRow| r.fields())
}

/// Fields behind two others, joined by commas.
proof fn lemma_joined(a: Seq<char>, b: Seq<char>, fields: Seq<Seq<char>>)
    ensures
        text::joined(seq![a, b] + fields, ","@) == a + ","@ + b + lines::comma_fields(fields),
    decreases fields.len(),
{
    let all = seq![a, b] + fields;
    if fields.len() == 0 {
        assert(all =~= seq![a, b]);
        assert(all.drop_last() =~= seq![a]);
        assert(text::joined(seq![a], ","@) == a);
        assert(text::joined(all, ","@) =~= a + ","@ + b + lines::comma_fields(fields));
    } else {
        lemma_joined(a, b, fields.drop_last());
        assert(all.drop_last() =~= seq![a, b] + fields.drop_last());
        assert(text::joined(all, ","@) =~= a + ","@ + b + lines::comma_fields(fields));
    }
}

/// A file is the table of its records.
proof fn lemma_file_is_table(names: Seq<Seq<char>>, rows: Seq<WrittenRow>)
    ensures
        csv::table_text(file_table(names, rows)) == file_text(names, rows),
    decreases rows.len(),
{
    let table = file_table(names, rows);
    if rows.len() == 0 {
        assert(table =~= seq![lines::header_texts(names)]);
        assert(table.drop_last() =~= Seq::empty());
        assert(csv::table_text(table.drop_last()) =~= Seq::<char>::empty());
        assert(csv::table_text(table) =~= file_text(names, rows));
    } else {
        lemma_file_is_table(names, rows.drop_last());
        assert(table.drop_last() =~= file_table(names, rows.drop_last()));
        let row = rows.last();
        assert(table.last() == row.fields());
        lemma_joined(
            lines::fixed_int(row.timestamp),
            row.time_text,
            lines::fixed_floats(row.values),
        );
        assert(csv::table_text(table) =~= file_text(names, rows));
    }
}

/// A timestamp of fixed width is plain and reads back.
proof fn lemma_timestamp(i: int)
    requires
        i64::MIN <= i <= i64::MAX,
    ensures
        csv::plain_field(lines::fixed_int(i)),
        text::trimmed(lines::fixed_int(i)) == lines::fixed_int(i),
        text::int_numeral(lines::fixed_int(i)),
        text::signed_value(lines::fixed_int(i)) == i,
{
    reveal_strlit("+");
    reveal_strlit("-");
    let magnitude = if i >= 0 {
        i as nat
    } else {
        (-i) as nat
    };
    let digits = text::zero_padded(text::nat_text(magnitude), 20);
    let s = lines::fixed_int(i);
    text::lemma_zero_padded_value(magnitude, 20);
    assert(s.skip(1) =~= digits);
    assert(text::without_sign(s) == digits);
    assert forall|k: int| 0 <= k < s.len() implies csv::plain_char(#[trigger] s[k]) by {
        if k > 0 {
            assert(s[k] == digits[k - 1]);
        }
    }
    assert(s.last() == digits.last());
    text::lemma_trimmed_already(s);
}

/// The text of a time is plain and needs no trimming.
proof fn lemma_time(time: UtcTime, s: Seq<char>)
    requires
        time.has_text(s),
    ensures
        csv::plain_field(s),
        text::trimmed(s) == s,
{
    assert forall|k: int| 0 <= k < s.len() implies csv::plain_char(#[trigger] s[k]) by {
        assert(datetime::rfc3339_char(s[k]));
    }
    assert(datetime::rfc3339_char(s[0]) && datetime::rfc3339_char(s.last()));
    text::lemma_trimmed_already(s);
}

/// A number of fixed width is plain where its text is.
proof fn lemma_number(s: Seq<char>)
    requires
        csv::plain_field(s),
    ensures
        csv::plain_field(lines::fixed_float(s)),
{
    reveal_strlit("+");
    reveal_strlit("e+");
    reveal_strlit("e-");
    let i = lines::exponent_index(s);
    text::lemma_next_index(s, 'e', 0);
    if i < s.len() {
        let exponent = s.skip(i + 1);
        assert forall|k: int| 0 <= k < exponent.len() implies csv::plain_char(
            #[trigger] exponent[k],
        ) by {
            assert(exponent[k] == s[i + 1 + k]);
        }
        let digits = if exponent.len() > 0 && exponent[0] == '-' {
            exponent.skip(1)
        } else {
            exponent
        };
        assert forall|k: int| 0 <= k < digits.len() implies csv::plain_char(#[trigger] digits[k]) by {
            if exponent.len() > 0 && exponent[0] == '-' {
                assert(digits[k] == exponent[k + 1]);
            }
        }
        let padded = text::zero_padded(digits, 3);
        assert forall|k: int| 0 <= k < padded.len() implies csv::plain_char(#[trigger] padded[k]) by {
            if digits.len() < 3 && k >= 3 - digits.len() {
                assert(padded[k] == digits[k - (3 - digits.len())]);
            }
        }
        let tail = lines::fixed_exponent(exponent);
        assert(csv::plain_field(tail)) by {
            assert forall|k: int| 0 <= k < tail.len() implies csv::plain_char(#[trigger] tail[k]) by {
                if k >= 2 {
                    assert(tail[k] == padded[k - 2]);
                }
            }
        }
        let front = s.take(i);
        assert(csv::plain_field(front)) by {
            assert forall|k: int| 0 <= k < front.len() implies csv::plain_char(
                #[trigger] front[k],
            ) by {
                assert(front[k] == s[k]);
            }
        }
        let r = lines::fixed_float(s);
        let sign = if s.len() > 0 && s[0] == '-' {
            Seq::<char>::empty()
        } else {
            "+"@
        };
        assert(r =~= sign + front + tail);
        assert forall|k: int| 0 <= k < r.len() implies csv::plain_char(#[trigger] r[k]) by {
            if k < sign.len() {
                assert(r[k] == sign[k]);
            } else if k < sign.len() + front.len() {
                assert(r[k] == front[k - sign.len()]);
            } else {
                assert(r[k] == tail[k - sign.len() - front.len()]);
            }
        }
    } else {
        let r = lines::fixed_float(s);
        assert forall|k: int| 0 <= k < r.len() implies csv::plain_char(#[trigger] r[k]) by {
            if r.len() > s.len() {
                if k > 0 {
                    assert(r[k] == s[k - 1]);
                }
            } else {
                assert(r[k] == s[k]);
            }
        }
    }
}

/// The fields of a row are plain, and there are two more than channels.
proof fn lemma_row_is_plain(row: WrittenRow, channels: nat)
    requires
        row.wf(channels),
    ensures
        csv::plain_record(row.fields(), channels + 2),
{
    let fields = row.fields();
    lemma_timestamp(row.timestamp);
    lemma_time(row.time, row.time_text);
    assert forall|k: int| 0 <= k < fields.len() implies csv::plain_field(#[trigger] fields[k]) by {
        if k >= 2 {
            assert(csv::plain_field(row.values[k - 2]));
            lemma_number(row.values[k - 2]);
            assert(fields[k] == lines::fixed_float(row.values[k - 2]));
        }
    }
}

/// The channels of a file are the columns behind the first two.
proof fn lemma_channel_columns(names: Seq<Seq<char>>, n: int)
    requires
        0 <= n <= names.len() + 2,
    ensures
        csv::index_from(lines::header_texts(names), "timestamp"@, 0) == Some(0int),
        csv::index_from(lines::header_texts(names), "time"@, 0) == Some(1int),
        csv::channel_columns(lines::header_texts(names), n) == Seq::new(
            if n >= 2 {
                (n - 2) as nat
            } else {
                0
            },
            |k: int| k + 2,
        ),
    decreases n,
{
    reveal_strlit("timestamp");
    reveal_strlit("time");
    let columns = lines::header_texts(names);
    assert(columns[0] == "timestamp"@ && columns[1] == "time"@);
    assert("timestamp"@.len() != "time"@.len());
    reveal_with_fuel(csv::index_from, 2);
    if n > 0 {
        lemma_channel_columns(names, n - 1);
        assert(csv::channel_columns(columns, n) =~= Seq::new(
            if n >= 2 {
                (n - 2) as nat
            } else {
                0
            },
            |k: int| k + 2,
        ));
    } else {
        assert(csv::channel_columns(columns, n) =~= Seq::new(0, |k: int| k + 2));
    }
}

/// A load gives back what was written: the header of a file names the channels,
/// each row has the timestamp and the time that it was written with, and the text
/// of each value stands in the column of its channel. This is so of plain channel
/// names and plain texts of values, in years of four digits.
pub proof fn law_written_rows_read_back(
    path: Seq<char>,
    names: Seq<Seq<char>>,
    rows: Seq<WrittenRow>,
    i: int,
)
    requires
        csv::plain_record(names, names.len()),
        forall|k: int| 0 <= k < rows.len() ==> (#[trigger] rows[k]).wf(names.len()),
        0 <= i < rows.len(),
    ensures
        csv::plain_table(file_table(names, rows)),
        csv::table_text(file_table(names, rows)) == file_text(names, rows),
        csv::header_of(file_table(names, rows)) == Ok::<Seq<Seq<char>>, Seq<char>>(
            lines::header_texts(names),
        ),
        csv::header_fault(path, csv::header_of(file_table(names, rows))) is None,
        csv::index_from(lines::header_texts(names), "timestamp"@, 0) == Some(0int),
        csv::index_from(lines::header_texts(names), "time"@, 0) == Some(1int),
        csv::channel_columns(lines::header_texts(names), (names.len() + 2) as int) == Seq::new(
            names.len(),
            |k: int| k + 2,
        ),
        csv::rows_of(file_table(names, rows)).len() == rows.len(),
        csv::rows_of(file_table(names, rows))[i] == Ok::<Seq<Seq<char>>, Seq<char>>(
            rows[i].fields(),
        ),
        csv::row_fault(path, 0, 1, csv::rows_of(file_table(names, rows))[i], i as nat) is None,
        text::signed_value(text::trimmed(rows[i].fields()[0])) == rows[i].timestamp,
        datetime::rfc3339_reading(text::trimmed(rows[i].fields()[1])) == Ok::<
            (i64, u32),
            Seq<char>,
        >((rows[i].time.secs, rows[i].time.nanos)),
        forall|k: int|
            0 <= k < names.len() ==> (#[trigger] rows[i].fields()[k + 2]) == lines::fixed_float(
                rows[i].values[k],
            ),
{
    let table = file_table(names, rows);
    reveal_strlit("timestamp");
    reveal_strlit("time");
    assert(table[0] == lines::header_texts(names));
    assert forall|k: int| 0 <= k < table.len() implies csv::plain_record(
        #[trigger] table[k],
        names.len() + 2,
    ) by {
        if k == 0 {
            let columns = lines::header_texts(names);
            assert forall|c: int| 0 <= c < columns.len() implies csv::plain_field(
                #[trigger] columns[c],
            ) by {
                if c >= 2 {
                    assert(columns[c] == names[c - 2]);
                }
            }
        } else {
            assert(table[k] == rows[k - 1].fields());
            lemma_row_is_plain(rows[k - 1], names.len());
        }
    }
    lemma_file_is_table(names, rows);
    lemma_channel_columns(names, (names.len() + 2) as int);
    assert(table.skip(1)[i] == rows[i].fields());
    lemma_timestamp(rows[i].timestamp);
    lemma_time(rows[i].time, rows[i].time_text);
}

/// The bytes of the header of a file.
pub open spec fn header_bytes(names: Seq<Seq<char>>) -> Seq<u8> {
    text::ascii_bytes(text::joined(lines::header_texts(names), ","@) + "\n"@)
}

/// The bytes of the lines of some rows.
pub open spec fn line_bytes(rows: Seq<WrittenRow>) -> Seq<Seq<u8>> {
    rows.map_values(|r: WrittenRow| text::ascii_bytes(r.line()))
}

/// The bytes of a file are those of its lines.
proof fn lemma_file_bytes(names: Seq<Seq<char>>, rows: Seq<WrittenRow>)
    ensures
        row_files::in_sequence(header_bytes(names), line_bytes(rows)) == text::ascii_bytes(
            file_text(names, rows),
        ),
    decreases rows.len(),
{
    if rows.len() > 0 {
        lemma_file_bytes(names, rows.drop_last());
        assert(line_bytes(rows).drop_last() =~= line_bytes(rows.drop_last()));
        let before = file_text(names, rows.drop_last());
        let line = rows.last().line();
        assert(text::ascii_bytes(before + line) =~= text::ascii_bytes(before)
            + text::ascii_bytes(line));
    }
}

/// A number of fixed width needs no trimming.
proof fn lemma_number_is_trimmed(s: Seq<char>)
    requires
        lines::scientific_number(s),
    ensures
        text::trimmed(lines::fixed_float(s)) == lines::fixed_float(s),
{
    reveal_strlit("+");
    reveal_strlit("e+");
    reveal_strlit("e-");
    lines::law_numbers_have_fixed_width(s);
    let r = lines::fixed_float(s);
    let exponent = s.skip(lines::exponent_index(s) + 1);
    let digits = text::without_sign(exponent);
    text::lemma_zero_padded(digits, 3);
    let padded = text::zero_padded(digits, 3);
    assert(r.last() == padded.last());
    assert(text::ascii_digit(padded[padded.len() - 1]));
    text::lemma_trimmed_already(r);
}

/// Rows that are written to a file and fit in it load back: the file, cut to the
/// length that its writer ends with, is the table of the header and the rows, in
/// the order in which they were written, and the text of each value says the number
/// that it was written with.
pub proof fn law_rows_that_fit_load_back(
    names: Seq<Seq<char>>,
    rows: Seq<WrittenRow>,
    total_size: int,
    i: int,
    k: int,
)
    requires
        csv::plain_record(names, names.len()),
        forall|j: int| 0 <= j < rows.len() ==> (#[trigger] rows[j]).wf(names.len()),
        file_text(names, rows).len() <= total_size,
        0 <= i < rows.len(),
        0 <= k < names.len(),
        lines::scientific_number(rows[i].values[k]),
    ensures
        csv::plain_table(file_table(names, rows)),
        row_files::file_after(header_bytes(names), line_bytes(rows), total_size).0
            == text::ascii_bytes(csv::table_text(file_table(names, rows))),
        csv::rows_of(file_table(names, rows)).len() == rows.len(),
        csv::rows_of(file_table(names, rows))[i] == Ok::<Seq<Seq<char>>, Seq<char>>(
            rows[i].fields(),
        ),
        lines::number_parts(text::trimmed(rows[i].fields()[k + 2])) == lines::number_parts(
            rows[i].values[k],
        ),
{
    law_written_rows_read_back(Seq::empty(), names, rows, i);
    lemma_file_bytes(names, rows);
    row_files::law_rows_that_fit_stay_in_order(header_bytes(names), line_bytes(rows), total_size);
    assert(rows[i].fields()[k + 2] == lines::fixed_float(rows[i].values[k]));
    lemma_number_is_trimmed(rows[i].values[k]);
    lines::law_fixed_width_keeps_the_number(rows[i].values[k]);
}

/// A loader that was opened on a written file has its channel names, has a record
/// for each row, in the order in which they were written, and takes from it the
/// timestamp, the time and the text of each value that the row was written with.
pub proof fn law_loader_takes_what_was_written(
    l: csv::CsvLoader,
    names: Seq<Seq<char>>,
    rows: Seq<WrittenRow>,
    i: int,
    f: csv::RowFields,
)
    requires
        csv::plain_record(names, names.len()),
        forall|k: int| 0 <= k < rows.len() ==> (#[trigger] rows[k]).wf(names.len()),
        l.has_columns(lines::header_texts(names)),
        csv::record_texts(l.records@) == csv::rows_of(file_table(names, rows)),
        0 <= i < rows.len(),
        l.takes_from(rows[i].fields(), i as nat, f),
    ensures
        text::texts(l.channel_names@) == names,
        l.records@.len() == rows.len(),
        csv::record_text(l.records@[i]) == Ok::<Seq<Seq<char>>, Seq<char>>(rows[i].fields()),
        csv::row_fault(
            l.path@,
            l.timestamp_idx as int,
            l.time_idx as int,
            csv::record_text(l.records@[i]),
            i as nat,
        ) is None,
        f.timestamp == rows[i].timestamp,
        f.time == rows[i].time,
        f.missing is None,
        text::texts(f.values@) == Seq::new(
            names.len(),
            |k: int| text::trimmed(lines::fixed_float(rows[i].values[k])),
        ),
{
    law_written_rows_read_back(l.path@, names, rows, i);
    let columns = lines::header_texts(names);
    let at = csv::channel_columns(columns, columns.len() as int);
    let fields = rows[i].fields();
    assert forall|k: int| 0 <= k < names.len() implies #[trigger] l.channel_indices@[k] == k
        + 2 by {
        assert(at[k] == k + 2);
    }
    assert forall|k: int| 0 <= k < names.len() implies #[trigger] text::texts(
        l.channel_names@,
    )[k] == names[k] by {
        assert(at[k] == k + 2);
        assert(columns[k + 2] == names[k]);
    }
    assert(text::texts(l.channel_names@) =~= names);
    assert(csv::record_texts(l.records@)[i] == csv::record_text(l.records@[i]));
    assert(csv::record_texts(l.records@).len() == l.records@.len());
    lemma_all_present(l.channel_indices@, fields.len() as int, 0);
    assert forall|k: int| 0 <= k < names.len() implies #[trigger] text::texts(f.values@)[k]
        == text::trimmed(lines::fixed_float(rows[i].values[k])) by {
        assert(l.channel_indices@[k] == k + 2);
        assert(fields[k + 2] == lines::fixed_float(rows[i].values[k]));
    }
    assert(text::texts(f.values@) =~= Seq::new(
        names.len(),
        |k: int| text::trimmed(lines::fixed_float(rows[i].values[k])),
    ));
}

/// Columns that a record has are all present.
proof fn lemma_all_present(indices: Seq<usize>, len: int, k: int)
    requires
        0 <= k <= indices.len(),
        forall|j: int| 0 <= j < indices.len() ==> #[trigger] indices[j] < len,
    ensures
        csv::present(indices, len, k) == indices.len(),
    decreases indices.len() - k,
{
    if k < indices.len() {
        lemma_all_present(indices, len, k + 1);
    }
}

} // verus!
