//! Header and row formats that the dispatchers share.
//!
//! Numbers of channels come in as text: in scientific notation with 17 digits
//! behind the point for rows of fixed width, in shortest notation for others.

use vstd::prelude::*;
use crate::datetime;
use crate::datetime::{fmt_time, UtcTime};
use crate::text;
use crate::text::{chars_of, join, nat_string, push_int, push_text, push_zero_padded, substring};

verus! {

/// Choice of behavior when the current file is full.
#[derive(Debug, Clone, Copy, PartialEq, Eq, Structural)]
pub enum Overflow {
    /// Wrap back to the beginning of the file and overwrite, starting with the
    /// oldest data.
    Wrap,
    /// Create a new file.
    NewFile,
    /// Error on overflow if neither wrapping nor creating a new file is viable.
    Error,
}

impl Default for Overflow {
    fn default() -> (r: Self)
        ensures
            r == Overflow::Wrap,
    {
        Overflow::Wrap
    }
}

/// The header columns: the time indices, then the channels.
pub open spec fn header_texts(channel_names: Seq<Seq<char>>) -> Seq<Seq<char>> {
    seq!["timestamp"@, "time"@] + channel_names
}

/// Generates header strings including the time indices given some channel names.
pub fn header_columns(channel_names: &[String]) -> (out: Vec<String>)
    ensures
        text::texts(out@) == header_texts(text::texts(channel_names@)),
{
    let mut out: Vec<String> = Vec::new();
    push_text(&mut out, "timestamp");
    push_text(&mut out, "time");
    let ghost all = header_texts(text::texts(channel_names@));
    let mut i: usize = 0;
    assert(text::texts(out@) =~= all.take(2));
    while i < channel_names.len()
        invariant
            i <= channel_names@.len(),
            all == header_texts(text::texts(channel_names@)),
            text::texts(out@) == all.take(i + 2),
        decreases channel_names@.len() - i,
    {
        push_text(&mut out, channel_names[i].as_str());
        assert(text::texts(out@) =~= all.take(i + 3));
        i = i + 1;
    }
    assert(all.take(i + 2) =~= all);
    out
}

/// Generates the CSV header row given some channel names.
pub fn csv_header(channel_names: &[String]) -> (s: String)
    ensures
        s@ == text::joined(header_texts(text::texts(channel_names@)), ","@) + "\n"@,
{
    let mut s = join(header_columns(channel_names).as_slice(), ",");
    s.push_str("\n");
    s
}

/// The index of the first `e`, or the length where there is none.
pub open spec fn exponent_index(s: Seq<char>) -> int {
    text::next_index(s, 'e', 0)
}

/// The sign and the padded digits of an exponent.
pub open spec fn fixed_exponent(exponent: Seq<char>) -> Seq<char> {
    if exponent.len() > 0 && exponent[0] == '-' {
        "e-"@ + text::zero_padded(exponent.skip(1), 3)
    } else {
        "e+"@ + text::zero_padded(exponent, 3)
    }
}

/// A number in scientific notation with both signs and three digits of exponent.
/// A text without an exponent only gets its sign.
pub open spec fn fixed_float(s: Seq<char>) -> Seq<char> {
    let sign = if s.len() > 0 && s[0] == '-' {
        Seq::empty()
    } else {
        "+"@
    };
    let i = exponent_index(s);
    if i < s.len() {
        sign + s.take(i) + fixed_exponent(s.skip(i + 1))
    } else {
        sign + s
    }
}

/// Fixed-width formatting of a number in scientific notation.
pub fn fmt_f64(number: &str) -> (s: String)
    ensures
        s@ == fixed_float(number@),
{
    let chars = chars_of(number);
    let n = chars.len();
    let mut s = String::new();
    if !(n > 0 && chars[0] == '-') {
        s.push_str("+");
    }
    let ghost sign = s@;
    assert(sign =~= if number@.len() > 0 && number@[0] == '-' {
        Seq::empty()
    } else {
        "+"@
    });
    let mut i: usize = 0;
    while i < n && chars[i] != 'e'
        invariant
            i <= n,
            n == chars@.len(),
            text::next_index(chars@, 'e', 0) == text::next_index(chars@, 'e', i as int),
        decreases n - i,
    {
        i = i + 1;
    }
    assert(i == exponent_index(chars@));
    if i == n {
        s.push_str(number);
        return s;
    }
    s.push_str(substring(chars.as_slice(), 0, i).as_str());
    assert(chars@.subrange(0, i as int) =~= number@.take(i as int));
    let ghost exponent = number@.skip(i + 1);
    let ghost front = s@;
    if i + 1 < n && chars[i + 1] == '-' {
        assert(exponent[0] == '-');
        s.push_str("e-");
        let digits = substring(chars.as_slice(), i + 2, n);
        assert(digits@ =~= exponent.skip(1));
        push_zero_padded(&mut s, digits.as_str(), 3);
    } else {
        s.push_str("e+");
        let digits = substring(chars.as_slice(), i + 1, n);
        assert(digits@ =~= exponent);
        push_zero_padded(&mut s, digits.as_str(), 3);
    }
    assert(s@ =~= front + fixed_exponent(exponent));
    s
}

/// A timestamp with its sign and twenty digits.
pub open spec fn fixed_int(i: int) -> Seq<char> {
    if i >= 0 {
        "+"@ + text::zero_padded(text::nat_text(i as nat), 20)
    } else {
        "-"@ + text::zero_padded(text::nat_text((-i) as nat), 20)
    }
}

/// Fixed-width formatting of an integer value for the timestamp.
pub fn fmt_i64(num: i64) -> (s: String)
    ensures
        s@ == fixed_int(num as int),
{
    let magnitude: u128 = if num >= 0 {
        num as u128
    } else {
        (-(num as i128)) as u128
    };
    let mut s = if num >= 0 {
        "+".to_owned()
    } else {
        "-".to_owned()
    };
    push_zero_padded(&mut s, nat_string(magnitude).as_str(), 20);
    s
}

/// Fields behind commas.
pub open spec fn comma_fields(fields: Seq<Seq<char>>) -> Seq<char>
    decreases fields.len(),
{
    if fields.len() == 0 {
        Seq::empty()
    } else {
        comma_fields(fields.drop_last()) + ","@ + fields.last()
    }
}

/// The fixed-width forms of some numbers.
pub open spec fn fixed_floats(values: Seq<Seq<char>>) -> Seq<Seq<char>> {
    values.map_values(|s: Seq<char>| fixed_float(s))
}

/// The text of a row of fixed width.
pub open spec fn fixed_row(time: Seq<char>, timestamp: int, values: Seq<Seq<char>>) -> Seq<char> {
    fixed_int(timestamp) + ","@ + time + comma_fields(fixed_floats(values)) + "\n"@
}

/// The text of a row that need not be of fixed width.
pub open spec fn plain_row(time: Seq<char>, timestamp: int, values: Seq<Seq<char>>) -> Seq<char> {
    text::int_text(timestamp) + ","@ + time + comma_fields(values) + "\n"@
}

/// Formats a CSV row that guarantees fixed width for a given number of columns.
/// `values` are in scientific notation.
pub fn csv_row_fixed_width(
    stringbuf: &mut String,
    time: UtcTime,
    timestamp: i64,
    values: &[String],
)
    requires
        time.valid(),
    ensures
        final(stringbuf)@ == fixed_row(
            datetime::rfc3339_nanos_text(time.secs, time.nanos),
            timestamp as int,
            text::texts(values@),
        ),
        time.four_digit_year() ==> time.has_text(
            datetime::rfc3339_nanos_text(time.secs, time.nanos),
        ),
{
    stringbuf.clear();
    stringbuf.push_str(fmt_i64(timestamp).as_str());
    stringbuf.push_str(",");
    stringbuf.push_str(fmt_time(time).as_str());
    let ghost start = stringbuf@;
    assert(start =~= fixed_int(timestamp as int) + ","@ + datetime::rfc3339_nanos_text(
        time.secs,
        time.nanos,
    ));
    let ghost all = fixed_floats(text::texts(values@));
    let mut i: usize = 0;
    assert(all.take(0) =~= Seq::<Seq<char>>::empty());
    assert(start + comma_fields(all.take(0)) =~= start);
    while i < values.len()
        invariant
            i <= values@.len(),
            all == fixed_floats(text::texts(values@)),
            stringbuf@ == start + comma_fields(all.take(i as int)),
        decreases values@.len() - i,
    {
        stringbuf.push_str(",");
        stringbuf.push_str(fmt_f64(values[i].as_str()).as_str());
        assert(all.take(i + 1).drop_last() =~= all.take(i as int));
        assert(stringbuf@ =~= start + comma_fields(all.take(i + 1)));
        i = i + 1;
    }
    assert(all.take(values@.len() as int) =~= all);
    stringbuf.push_str("\n");
}

/// Smaller CSV row that does not guarantee fixed width. `values` are in shortest
/// notation.
pub fn csv_row(stringbuf: &mut String, time: UtcTime, timestamp: i64, values: &[String])
    requires
        time.valid(),
    ensures
        final(stringbuf)@ == plain_row(
            datetime::rfc3339_nanos_text(time.secs, time.nanos),
            timestamp as int,
            text::texts(values@),
        ),
{
    stringbuf.clear();
    push_int(stringbuf, timestamp);
    stringbuf.push_str(",");
    stringbuf.push_str(fmt_time(time).as_str());
    let ghost start = stringbuf@;
    assert(start =~= text::int_text(timestamp as int) + ","@ + datetime::rfc3339_nanos_text(
        time.secs,
        time.nanos,
    ));
    let ghost all = text::texts(values@);
    let mut i: usize = 0;
    assert(all.take(0) =~= Seq::<Seq<char>>::empty());
    assert(start + comma_fields(all.take(0)) =~= start);
    while i < values.len()
        invariant
            i <= values@.len(),
            all == text::texts(values@),
            stringbuf@ == start + comma_fields(all.take(i as int)),
        decreases values@.len() - i,
    {
        stringbuf.push_str(",");
        stringbuf.push_str(values[i].as_str());
        assert(all.take(i + 1).drop_last() =~= all.take(i as int));
        assert(stringbuf@ =~= start + comma_fields(all.take(i + 1)));
        i = i + 1;
    }
    assert(all.take(values@.len() as int) =~= all);
    stringbuf.push_str("\n");
}

/// A finite number in scientific notation: an optional minus sign, nineteen
/// characters of mantissa without an `e`, an `e`, and an exponent of at most
/// three digits, which may be negative.
pub open spec fn scientific(s: Seq<char>) -> bool {
    let i = exponent_index(s);
    let exponent = s.skip(i + 1);
    &&& i < s.len()
    &&& i == if s[0] == '-' {
        20int
    } else {
        19
    }
    &&& exponent.len() <= if exponent.len() > 0 && exponent[0] == '-' {
        4int
    } else {
        3
    }
}

/// Numbers of finite values have one width.
pub proof fn law_numbers_have_fixed_width(s: Seq<char>)
    requires
        scientific(s),
    ensures
        fixed_float(s).len() == 25,
{
    reveal_strlit("+");
    reveal_strlit("e+");
    reveal_strlit("e-");
}

/// What a text says of a number: whether it is negative, the digits before the
/// exponent, and the exponent.
pub open spec fn number_parts(s: Seq<char>) -> (bool, Seq<char>, int) {
    let unsigned = text::without_sign(s);
    let i = exponent_index(unsigned);
    (
        s.len() > 0 && s[0] == '-',
        unsigned.take(i),
        if i < unsigned.len() {
            text::signed_value(unsigned.skip(i + 1))
        } else {
            0
        },
    )
}

/// A number in scientific notation with digits in its exponent, and signs only
/// where they are negative.
pub open spec fn scientific_number(s: Seq<char>) -> bool {
    let exponent = s.skip(exponent_index(s) + 1);
    &&& scientific(s)
    &&& s[0] != '+'
    &&& text::numeral(text::without_sign(exponent))
    &&& exponent[0] != '+'
}

/// Fixed width does not change the number that a text says: its sign, its digits
/// and its exponent.
pub proof fn law_fixed_width_keeps_the_number(s: Seq<char>)
    requires
        scientific_number(s),
    ensures
        number_parts(fixed_float(s)) == number_parts(s),
        fixed_float(s).len() == 25,
{
    reveal_strlit("+");
    reveal_strlit("e+");
    reveal_strlit("e-");
    law_numbers_have_fixed_width(s);
    let r = fixed_float(s);
    let i = exponent_index(s);
    let exponent = s.skip(i + 1);
    let tail = fixed_exponent(exponent);
    let unsigned = text::without_sign(s);
    text::lemma_found_index(s, 'e', 0);
    let j = if s[0] == '-' {
        i - 1
    } else {
        i
    };
    let mantissa = unsigned.take(j);
    let fixed = text::without_sign(r);
    assert(fixed =~= mantissa + tail);
    assert(unsigned.skip(j + 1) =~= exponent);
    assert forall|k: int| 0 <= k < j implies #[trigger] unsigned[k] != 'e' by {
        if s[0] == '-' {
            assert(unsigned[k] == s[k + 1]);
        }
    }
    assert(unsigned[j] == 'e');
    text::lemma_first_index(unsigned, 'e', 0, j);
    assert forall|k: int| 0 <= k < j implies #[trigger] fixed[k] != 'e' by {
        assert(fixed[k] == unsigned[k]);
    }
    assert(fixed[j] == tail[0]);
    text::lemma_first_index(fixed, 'e', 0, j);
    assert(fixed.take(j) =~= mantissa);
    let digits = text::without_sign(exponent);
    assert(fixed.skip(j + 1) =~= tail.skip(1));
    text::lemma_zero_padded(digits, 3);
    assert(text::without_sign(tail.skip(1)) =~= text::zero_padded(digits, 3));
}

proof fn lemma_digit_count(n: nat, width: nat)
    requires
        n < decimal_range(width),
        width > 0,
    ensures
        1 <= text::nat_text(n).len() <= width,
    decreases width,
{
    if n >= 10 {
        assert(width > 1) by {
            reveal_with_fuel(decimal_range, 2);
        }
        lemma_digit_count(n / 10, (width - 1) as nat);
    }
}

/// Ten to a power.
pub open spec fn decimal_range(width: nat) -> nat
    decreases width,
{
    if width == 0 {
        1
    } else {
        10 * decimal_range((width - 1) as nat)
    }
}

proof fn lemma_fixed_int_len(i: int)
    requires
        i64::MIN <= i <= i64::MAX,
    ensures
        fixed_int(i).len() == 21,
{
    reveal_strlit("+");
    reveal_strlit("-");
    let magnitude = if i >= 0 {
        i as nat
    } else {
        (-i) as nat
    };
    assert(magnitude < decimal_range(20)) by {
        reveal_with_fuel(decimal_range, 21);
    }
    lemma_digit_count(magnitude, 20);
}

proof fn lemma_comma_fields_len(fields: Seq<Seq<char>>)
    requires
        forall|i: int| 0 <= i < fields.len() ==> (#[trigger] fields[i]).len() == 25,
    ensures
        comma_fields(fields).len() == 26 * fields.len(),
    decreases fields.len(),
{
    reveal_strlit(",");
    if fields.len() > 0 {
        let front = fields.drop_last();
        assert forall|i: int| 0 <= i < front.len() implies (#[trigger] front[i]).len() == 25 by {
            assert(front[i] == fields[i]);
        }
        lemma_comma_fields_len(front);
    }
}

/// Rows of finite numbers have a width that depends on the number of columns
/// alone, while the text of the time has thirty characters, as it has in years of
/// four digits.
pub proof fn law_rows_have_fixed_width(time: Seq<char>, timestamp: int, values: Seq<Seq<char>>)
    requires
        time.len() == 30,
        i64::MIN <= timestamp <= i64::MAX,
        forall|i: int| 0 <= i < values.len() ==> scientific(#[trigger] values[i]),
    ensures
        fixed_row(time, timestamp, values).len() == 53 + 26 * values.len(),
{
    reveal_strlit(",");
    reveal_strlit("\n");
    lemma_fixed_int_len(timestamp);
    let fields = fixed_floats(values);
    assert forall|i: int| 0 <= i < fields.len() implies (#[trigger] fields[i]).len() == 25 by {
        assert(scientific(values[i]));
        law_numbers_have_fixed_width(values[i]);
    }
    lemma_comma_fields_len(fields);
}

/// The fields of a row between commas are the timestamp, the time and the values, in
/// order.
pub proof fn law_row_has_its_fields_in_order(
    time: Seq<char>,
    timestamp: int,
    values: Seq<Seq<char>>,
)
    requires
        forall|k: int| 0 <= k < time.len() ==> #[trigger] time[k] != ',',
        forall|i: int, k: int|
            0 <= i < values.len() && 0 <= k < values[i].len() ==> #[trigger] values[i][k] != ',',
    ensures
        ({
            let row = plain_row(time, timestamp, values);
            &&& row.len() > 0 && row.last() == '\n'
            &&& text::split_text(row.drop_last(), ',') == seq![text::int_text(timestamp), time]
                + values
        }),
{
    reveal_strlit(",");
    reveal_strlit("\n");
    let head = text::int_text(timestamp);
    let row = plain_row(time, timestamp, values);
    lemma_int_has_no_comma(timestamp);
    text::lemma_split_one(head, ',');
    text::lemma_split_push(head, ',', time);
    lemma_fields_split(head + seq![','] + time, values);
    assert(","@ =~= seq![',']);
    assert(row.drop_last() =~= head + seq![','] + time + comma_fields(values));
    assert(text::split_text(row.drop_last(), ',') =~= seq![head, time] + values);
}

proof fn lemma_fields_split(front: Seq<char>, values: Seq<Seq<char>>)
    requires
        forall|i: int, k: int|
            0 <= i < values.len() && 0 <= k < values[i].len() ==> #[trigger] values[i][k] != ',',
    ensures
        text::split_text(front + comma_fields(values), ',') == text::split_text(front, ',')
            + values,
    decreases values.len(),
{
    if values.len() == 0 {
        assert(front + comma_fields(values) =~= front);
        assert(text::split_text(front, ',') + values =~= text::split_text(front, ','));
    } else {
        let rest = values.drop_last();
        assert forall|i: int, k: int|
            0 <= i < rest.len() && 0 <= k < rest[i].len() implies #[trigger] rest[i][k] != ',' by {
            assert(rest[i] == values[i]);
            assert(values[i][k] != ',');
        }
        lemma_fields_split(front, rest);
        let last = values.last();
        assert forall|k: int| 0 <= k < last.len() implies #[trigger] last[k] != ',' by {
            assert(values[values.len() - 1][k] != ',');
        }
        reveal_strlit(",");
        assert(","@ =~= seq![',']);
        text::lemma_split_push(front + comma_fields(rest), ',', last);
        assert(front + comma_fields(values) =~= front + comma_fields(rest) + seq![','] + last);
        assert((text::split_text(front, ',') + rest).push(last) =~= text::split_text(front, ',')
            + values);
    }
}

proof fn lemma_int_has_no_comma(i: int)
    ensures
        forall|k: int| 0 <= k < text::int_text(i).len() ==> #[trigger] text::int_text(i)[k] != ',',
{
    let magnitude = if i < 0 {
        (-i) as nat
    } else {
        i as nat
    };
    text::lemma_nat_text_value(magnitude);
    reveal_strlit("-");
    let digits = text::nat_text(magnitude);
    assert forall|k: int| 0 <= k < text::int_text(i).len() implies #[trigger] text::int_text(i)[k]
        != ',' by {
        if i < 0 {
            if k > 0 {
                assert(text::int_text(i)[k] == digits[k - 1]);
                assert(text::ascii_digit(digits[k - 1]));
            }
        } else {
            assert(text::ascii_digit(digits[k]));
        }
    }
}

} // verus!
