//! Points in time and their RFC 3339 text.

use vstd::prelude::*;

verus! {

/// The first second of the calendar: January 1 of the year -262143.
pub const FIRST_SECOND: i64 = -8334601228800;

/// The last second of the calendar: December 31 of the year 262142.
pub const LAST_SECOND: i64 = 8210266876799;

/// The first second of the year 0.
pub const YEAR_0: i64 = -62167219200;

/// The last second of the year 9999.
pub const END_OF_YEAR_9999: i64 = 253402300799;

/// A point in time: seconds since the Unix epoch, and nanoseconds into the second.
#[derive(Debug, Clone, Copy, PartialEq, Eq, Structural)]
pub struct UtcTime {
    pub secs: i64,
    pub nanos: u32,
}

impl UtcTime {
    /// The time is in the calendar, and the nanoseconds are less than a second.
    pub open spec fn valid(self) -> bool {
        FIRST_SECOND <= self.secs <= LAST_SECOND && self.nanos < 1_000_000_000
    }

    /// The time is in a year of four digits.
    pub open spec fn four_digit_year(self) -> bool {
        self.valid() && YEAR_0 <= self.secs <= END_OF_YEAR_9999
    }

    /// Whether a text is one of thirty characters that is made of digits and the
    /// marks between them and reads back as this time.
    pub open spec fn has_text(self, s: Seq<char>) -> bool {
        &&& s.len() == 30
        &&& forall|i: int| 0 <= i < s.len() ==> rfc3339_char(#[trigger] s[i])
        &&& rfc3339_reading(s) == Ok::<(i64, u32), Seq<char>>((self.secs, self.nanos))
    }

    /// Tests whether the time is in the calendar.
    pub fn is_valid(self) -> (r: bool)
        ensures
            r == self.valid(),
    {
        FIRST_SECOND <= self.secs && self.secs <= LAST_SECOND && self.nanos < 1_000_000_000
    }
}

/// The RFC 3339 text of a time in UTC, with nine digits of subsecond and a `Z`.
pub uninterp spec fn rfc3339_nanos_text(secs: i64, nanos: u32) -> Seq<char>;

/// The RFC 3339 text of a time in UTC, with whole seconds and a `Z`.
pub uninterp spec fn rfc3339_seconds_text(secs: i64, nanos: u32) -> Seq<char>;

/// The characters of an RFC 3339 text in UTC, in a year of four digits.
pub open spec fn rfc3339_char(c: char) -> bool {
    crate::text::ascii_digit(c) || c == '-' || c == 'T' || c == ':' || c == '.' || c == 'Z'
}

/// Calls `to_rfc3339_opts` of chrono's `DateTime<Utc>` with nine subsecond
/// digits and a `Z`. The text depends on the time alone. In years of four digits
/// it has thirty characters, is made of digits and the marks between them, and
/// `parse_from_rfc3339` of `DateTime` reads the time back from it.
#[verifier::external_body]
fn rfc3339_nanos(secs: i64, nanos: u32) -> (r: String)
    requires
        FIRST_SECOND <= secs <= LAST_SECOND,
        nanos < 1_000_000_000,
    ensures
        r@ == rfc3339_nanos_text(secs, nanos),
        YEAR_0 <= secs <= END_OF_YEAR_9999 ==> (UtcTime { secs, nanos }).has_text(r@),
{
    let time = chrono::DateTime::from_timestamp(secs, nanos).unwrap();
    time.to_rfc3339_opts(chrono::SecondsFormat::Nanos, true)
}

/// Calls `to_rfc3339_opts` of chrono's `DateTime<Utc>` with whole seconds and a
/// `Z`. The text depends on the time alone, and in years of four digits it has
/// twenty characters.
#[verifier::external_body]
fn rfc3339_seconds(secs: i64, nanos: u32) -> (r: String)
    requires
        FIRST_SECOND <= secs <= LAST_SECOND,
        nanos < 1_000_000_000,
    ensures
        r@ == rfc3339_seconds_text(secs, nanos),
        YEAR_0 <= secs <= END_OF_YEAR_9999 ==> r@.len() == 20,
{
    let time = chrono::DateTime::from_timestamp(secs, nanos).unwrap();
    time.to_rfc3339_opts(chrono::SecondsFormat::Secs, true)
}

/// Fixed-width ISO-8601 UTC timestamp with zero-padded sub-second nanoseconds
/// and Z-suffix. The width is fixed in years of four digits.
pub fn fmt_time(time: UtcTime) -> (s: String)
    requires
        time.valid(),
    ensures
        s@ == rfc3339_nanos_text(time.secs, time.nanos),
        time.four_digit_year() ==> time.has_text(s@),
{
    rfc3339_nanos(time.secs, time.nanos)
}

/// A text without its colons.
pub open spec fn without_colons(s: Seq<char>) -> Seq<char> {
    s.filter(|c: char| c != ':')
}

/// Removes the colons of a text.
pub fn remove_colons(s: &str) -> (r: String)
    ensures
        r@ == without_colons(s@),
{
    let chars = crate::text::chars_of(s);
    let mut r = String::new();
    let mut i: usize = 0;
    while i < chars.len()
        invariant
            i <= chars@.len(),
            r@ == without_colons(chars@.take(i as int)),
        decreases chars@.len() - i,
    {
        proof {
            reveal(Seq::filter);
            assert(chars@.take(i + 1).drop_last() =~= chars@.take(i as int));
        }
        if chars[i] != ':' {
            r.push(chars[i]);
        }
        i = i + 1;
    }
    assert(chars@.take(chars@.len() as int) =~= chars@);
    r
}

/// The UTC date and time as it stands in file names: RFC 3339 with whole
/// seconds, without colons.
pub fn utc_datestamp(time: UtcTime) -> (s: String)
    requires
        time.valid(),
    ensures
        s@ == without_colons(rfc3339_seconds_text(time.secs, time.nanos)),
{
    remove_colons(rfc3339_seconds(time.secs, time.nanos).as_str())
}

/// What chrono makes of an RFC 3339 text: the seconds since the Unix epoch and
/// the nanoseconds into the second, or why it is no such text.
pub uninterp spec fn rfc3339_reading(s: Seq<char>) -> Result<(i64, u32), Seq<char>>;

/// Calls `parse_from_rfc3339` of chrono's `DateTime`, and takes the time of the
/// result in UTC. The result depends on the text alone.
#[verifier::external_body]
fn read_rfc3339(s: &str) -> (r: Result<(i64, u32), String>)
    ensures
        match r {
            Ok(t) => rfc3339_reading(s@) == Ok::<(i64, u32), Seq<char>>(t),
            Err(e) => rfc3339_reading(s@) == Err::<(i64, u32), Seq<char>>(e@),
        },
{
    chrono::DateTime::parse_from_rfc3339(s)
        .map(|t| (t.timestamp(), t.timestamp_subsec_nanos()))
        .map_err(|e| e.to_string())
}

/// Parses a time of any offset.
pub fn parse_time(s: &str) -> (r: Result<UtcTime, String>)
    ensures
        match r {
            Ok(t) => rfc3339_reading(s@) == Ok::<(i64, u32), Seq<char>>((t.secs, t.nanos)),
            Err(e) => rfc3339_reading(s@) == Err::<(i64, u32), Seq<char>>(e@),
        },
{
    match read_rfc3339(s) {
        Ok(t) => Ok(UtcTime { secs: t.0, nanos: t.1 }),
        Err(e) => Err(e),
    }
}

/// Removing the colons of a text removes nothing else: what stands between two colons
/// stays, in order.
pub proof fn law_only_colons_are_removed(a: Seq<char>, b: Seq<char>)
    ensures
        (forall|k: int| 0 <= k < a.len() ==> #[trigger] a[k] != ':') ==> without_colons(a) == a,
        without_colons(a + seq![':'] + b) == without_colons(a) + without_colons(b),
        !without_colons(a).contains(':'),
{
    lemma_without_none(a);
    let f = |c: char| c != ':';
    Seq::filter_distributes_over_add(a + seq![':'], b, f);
    Seq::filter_distributes_over_add(a, seq![':'], f);
    assert(seq![':'].filter(f) =~= Seq::<char>::empty()) by {
        reveal(Seq::filter);
        assert(seq![':'].drop_last() =~= Seq::<char>::empty());
        assert(Seq::<char>::empty().filter(f) =~= Seq::<char>::empty());
    }
    if without_colons(a).contains(':') {
        let k = choose|k: int| 0 <= k < without_colons(a).len() && without_colons(a)[k] == ':';
        a.lemma_filter_pred(f, k);
    }
}

proof fn lemma_without_none(s: Seq<char>)
    ensures
        (forall|k: int| 0 <= k < s.len() ==> #[trigger] s[k] != ':') ==> without_colons(s) == s,
    decreases s.len(),
{
    reveal(Seq::filter);
    if s.len() > 0 {
        lemma_without_none(s.drop_last());
        if forall|k: int| 0 <= k < s.len() ==> #[trigger] s[k] != ':' {
            assert(s[s.len() - 1] != ':');
            assert forall|k: int| 0 <= k < s.drop_last().len() implies #[trigger] s.drop_last()[k]
                != ':' by {
                assert(s.drop_last()[k] == s[k]);
            }
            assert(s.drop_last().push(s.last()) =~= s);
        }
    } else {
        assert(without_colons(s) =~= s);
    }
}

} // verus!
