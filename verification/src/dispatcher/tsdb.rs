//! Queries and batching for a table in a TimescaleDB postgres database.

use vstd::prelude::*;
use crate::span;
use crate::span::Span;
use crate::text;
use crate::text::{
    join, nat_string, push_nat, push_text, push_zero_padded, split,
};

verus! {

/// Settings of a dispatcher that writes to a database. The table name is the name
/// of the op.
#[derive(Debug)]
pub struct TimescaleDbDispatcher {
    /// Name of the database.
    pub dbname: String,
    /// URL or unix socket address.
    pub host: String,
    /// Database username.
    pub user: String,
    /// Name of the environment variable storing the password or access token.
    pub token_name: String,
    /// Window of time to accumulate samples before storing.
    pub buffer_time: Span,
    /// Duration for which data will be retained in the database.
    pub retention_time: Span,
    /// Hypertable chunk interval. A quarter of the retention duration by default.
    pub chunk_interval: Option<Span>,
}

impl TimescaleDbDispatcher {
    /// Stores settings.
    pub fn new(
        dbname: &str,
        host: &str,
        user: &str,
        token_name: &str,
        buffer_time: Span,
        retention_time: Span,
    ) -> (r: Self)
        ensures
            r.dbname@ == dbname@,
            r.host@ == host@,
            r.user@ == user@,
            r.token_name@ == token_name@,
            r.buffer_time == buffer_time,
            r.retention_time == retention_time,
            r.chunk_interval is None,
    {
        TimescaleDbDispatcher {
            dbname: dbname.to_owned(),
            host: host.to_owned(),
            user: user.to_owned(),
            token_name: token_name.to_owned(),
            buffer_time,
            retention_time,
            chunk_interval: None,
        }
    }

    /// Overrides the default hypertable chunk interval.
    pub fn with_chunk_interval(self, chunk_interval: Span) -> (r: Self)
        ensures
            r == (TimescaleDbDispatcher { chunk_interval: Some(chunk_interval), ..self }),
    {
        TimescaleDbDispatcher { chunk_interval: Some(chunk_interval), ..self }
    }
}

/// The host and the port of an address: the port stands behind the last colon,
/// and the colons before it are dropped.
pub open spec fn host_of(host: Seq<char>) -> Seq<char> {
    let parts = text::split_text(host, ':');
    if parts.len() < 2 {
        host
    } else {
        text::joined(parts.drop_last(), ""@)
    }
}

/// The port of an address, where it has one.
pub open spec fn port_of(host: Seq<char>) -> Option<Seq<char>> {
    let parts = text::split_text(host, ':');
    if parts.len() < 2 {
        None
    } else {
        Some(parts.last())
    }
}

/// Splits an address into host and port.
pub fn split_host(host: &str) -> (r: (String, Option<String>))
    ensures
        r.0@ == host_of(host@),
        match r.1 {
            Some(port) => port_of(host@) == Some(port@),
            None => port_of(host@) is None,
        },
{
    let mut parts = split(host, ':');
    let ghost all = text::split_text(host@, ':');
    assert(text::texts(parts@).len() == parts@.len());
    if parts.len() < 2 {
        return (host.to_owned(), None);
    }
    let ghost strings = parts@;
    let port = parts.pop();
    match port {
        Some(port) => {
            proof {
                assert(port@ == text::texts(strings).last());
                assert(text::texts(parts@) =~= all.drop_last());
            }
            (join(parts.as_slice(), ""), Some(port))
        },
        None => (String::new(), None),
    }
}

/// The connection parameters of a client, with the default port where the
/// address has none.
pub fn connection_string(dbname: &str, host: &str, user: &str, pw: &str) -> (s: String)
    ensures
        s@ == "dbname="@ + dbname@ + " host="@ + host_of(host@) + " port="@ + match port_of(host@) {
            Some(port) => port,
            None => "5432"@,
        } + " user="@ + user@ + " password="@ + pw@,
{
    let (name, port) = split_host(host);
    let mut s = "dbname=".to_owned();
    s.push_str(dbname);
    s.push_str(" host=");
    s.push_str(name.as_str());
    s.push_str(" port=");
    match port {
        Some(port) => {
            s.push_str(port.as_str());
        },
        None => {
            s.push_str("5432");
        },
    }
    s.push_str(" user=");
    s.push_str(user);
    s.push_str(" password=");
    s.push_str(pw);
    s
}

/// A duration from a number of nanoseconds, where it is not too long.
pub fn duration_from_nanos(total_nanos: u128) -> (r: Result<Span, String>)
    ensures
        match r {
            Ok(s) => total_nanos <= span::MAX_SPAN_NS && s.ns == total_nanos,
            Err(e) => total_nanos > span::MAX_SPAN_NS && e@ == "Duration is too large: "@
                + text::nat_text(total_nanos as nat) + " ns"@,
        },
{
    if total_nanos <= span::MAX_SPAN_NS {
        Ok(Span { ns: total_nanos })
    } else {
        let mut e = "Duration is too large: ".to_owned();
        push_nat(&mut e, total_nanos);
        e.push_str(" ns");
        Err(e)
    }
}

/// The chunk interval: the given one, or a quarter of the retention duration.
pub fn effective_chunk_interval(retention_time: Span, chunk_interval: Option<Span>) -> (r: Result<
    Span,
    String,
>)
    requires
        retention_time.valid(),
    ensures
        match chunk_interval {
            Some(given) => if given.ns == 0 {
                r matches Err(e) && e@ == "TimescaleDB chunk interval must be greater than zero"@
            } else {
                r == Ok::<Span, String>(given)
            },
            None => if retention_time.ns < 4 {
                r matches Err(e) && e@
                    == "TimescaleDB chunk interval must be greater than zero; provide an explicit chunk interval when retention is less than four nanoseconds"@
            } else {
                r matches Ok(s) && s.ns == retention_time.ns as int / 4
            },
        },
{
    if let Some(given) = chunk_interval {
        if given.ns == 0 {
            return Err("TimescaleDB chunk interval must be greater than zero".to_owned());
        }
        return Ok(given);
    }
    let default_chunk_nanos: u128 = retention_time.ns / 4;
    if default_chunk_nanos == 0 {
        return Err(
            "TimescaleDB chunk interval must be greater than zero; provide an explicit chunk interval when retention is less than four nanoseconds".to_owned(),
        );
    }
    duration_from_nanos(default_chunk_nanos)
}

/// A duration as an SQL interval: seconds, with nine digits behind the point
/// where they are not whole.
pub open spec fn interval_text(ns: int) -> Seq<char> {
    let seconds = text::nat_text((ns / 1_000_000_000) as nat);
    if ns % 1_000_000_000 == 0 {
        seconds + " seconds"@
    } else {
        seconds + "."@ + text::zero_padded(text::nat_text((ns % 1_000_000_000) as nat), 9)
            + " seconds"@
    }
}

/// A duration as an SQL interval.
pub fn sql_interval_literal(duration: Span) -> (s: String)
    ensures
        s@ == interval_text(duration.ns as int),
{
    let seconds: u128 = duration.ns / 1_000_000_000;
    let nanos: u128 = duration.ns % 1_000_000_000;
    let mut s = nat_string(seconds);
    if nanos != 0 {
        s.push_str(".");
        push_zero_padded(&mut s, nat_string(nanos).as_str(), 9);
    }
    s.push_str(" seconds");
    s
}

/// The query that reconciles chunk interval and retention of a table.
pub open spec fn policy_text(op_name: Seq<char>, retention_ns: int, chunk_ns: int) -> Seq<char> {
    "\n            SELECT set_chunk_time_interval('\""@ + op_name + "\"', INTERVAL '"@
        + interval_text(chunk_ns)
        + "');\n\n            SELECT remove_retention_policy('\""@ + op_name
        + "\"', if_exists => true);\n\n            SELECT add_retention_policy('\""@ + op_name
        + "\"', drop_after => INTERVAL '"@ + interval_text(retention_ns) + "');\n        "@
}

/// The query that reconciles chunk interval and retention of a table.
pub fn timescaledb_policy_query(op_name: &str, retention_time: Span, chunk_interval: Span) -> (s:
    String)
    ensures
        s@ == policy_text(op_name@, retention_time.ns as int, chunk_interval.ns as int),
{
    let mut s = "\n            SELECT set_chunk_time_interval('\"".to_owned();
    s.push_str(op_name);
    s.push_str("\"', INTERVAL '");
    s.push_str(sql_interval_literal(chunk_interval).as_str());
    s.push_str("');\n\n            SELECT remove_retention_policy('\"");
    s.push_str(op_name);
    s.push_str("\"', if_exists => true);\n\n            SELECT add_retention_policy('\"");
    s.push_str(op_name);
    s.push_str("\"', drop_after => INTERVAL '");
    s.push_str(sql_interval_literal(retention_time).as_str());
    s.push_str("');\n        ");
    s
}

/// Each text between a start and an end.
pub open spec fn wrapped(names: Seq<Seq<char>>, start: Seq<char>, end: Seq<char>) -> Seq<Seq<char>> {
    names.map_values(|s: Seq<char>| start + s + end)
}

fn wrap_all(names: &[String], start: &str, end: &str) -> (v: Vec<String>)
    ensures
        text::texts(v@) == wrapped(text::texts(names@), start@, end@),
{
    let mut v: Vec<String> = Vec::new();
    let ghost all = wrapped(text::texts(names@), start@, end@);
    let mut i: usize = 0;
    assert(text::texts(v@) =~= all.take(0));
    while i < names.len()
        invariant
            i <= names@.len(),
            all == wrapped(text::texts(names@), start@, end@),
            text::texts(v@) == all.take(i as int),
        decreases names@.len() - i,
    {
        let mut s = start.to_owned();
        s.push_str(names[i].as_str());
        s.push_str(end);
        assert(all[i as int] == s@);
        push_text(&mut v, s.as_str());
        assert(text::texts(v@) =~= all.take(i + 1));
        i = i + 1;
    }
    assert(all.take(names@.len() as int) =~= all);
    v
}

/// The query that tells whether a table exists.
pub fn existence_query(op_name: &str) -> (s: String)
    ensures
        s@ == "SELECT 1 FROM public."@ + op_name@ + ";"@,
{
    let mut s = "SELECT 1 FROM public.".to_owned();
    s.push_str(op_name);
    s.push_str(";");
    s
}

/// The query that makes a table with its policies.
pub open spec fn creation_text(
    op_name: Seq<char>,
    channels: Seq<Seq<char>>,
    policy: Seq<char>,
) -> Seq<char> {
    "\n            CREATE TABLE \""@ + op_name
        + "\" (\n            timestamp  BIGINT,\n            time       TIMESTAMPTZ,\n            "@
        + text::joined(wrapped(channels, "    \""@, "\" DOUBLE PRECISION,\n"@), ""@)
        + "\n            PRIMARY KEY (time)\n            );\n\n            CREATE EXTENSION IF NOT EXISTS timescaledb CASCADE;\n\n            SELECT create_hypertable('\""@
        + op_name + "\"', by_range('time'), if_not_exists => TRUE);\n\n            "@ + policy
        + "\n    "@
}

/// The query that sets up the table of an op: an existing one keeps its schema
/// and has its policies reconciled, else a new one is made.
pub fn table_query(
    table_exists: bool,
    op_name: &str,
    channel_names: &[String],
    retention_time: Span,
    chunk_interval: Span,
) -> (s: String)
    ensures
        s@ == ({
            let policy = policy_text(
                op_name@,
                retention_time.ns as int,
                chunk_interval.ns as int,
            );
            if table_exists {
                policy
            } else {
                creation_text(op_name@, text::texts(channel_names@), policy)
            }
        }),
{
    let policy = timescaledb_policy_query(op_name, retention_time, chunk_interval);
    if table_exists {
        return policy;
    }
    let columns = wrap_all(channel_names, "    \"", "\" DOUBLE PRECISION,\n");
    let mut s = "\n            CREATE TABLE \"".to_owned();
    s.push_str(op_name);
    s.push_str(
        "\" (\n            timestamp  BIGINT,\n            time       TIMESTAMPTZ,\n            ",
    );
    s.push_str(join(columns.as_slice(), "").as_str());
    s.push_str(
        "\n            PRIMARY KEY (time)\n            );\n\n            CREATE EXTENSION IF NOT EXISTS timescaledb CASCADE;\n\n            SELECT create_hypertable('\"",
    );
    s.push_str(op_name);
    s.push_str("\"', by_range('time'), if_not_exists => TRUE);\n\n            ");
    s.push_str(policy.as_str());
    s.push_str("\n    ");
    s
}

/// The quoted channel names of a query.
pub open spec fn channel_list(channels: Seq<Seq<char>>) -> Seq<char> {
    text::joined(wrapped(channels, "\""@, "\""@), " ,"@)
}

fn quoted_channels(channel_names: &[String]) -> (s: String)
    ensures
        s@ == channel_list(text::texts(channel_names@)),
{
    join(wrap_all(channel_names, "\"", "\"").as_slice(), " ,")
}

/// The query for a batch of rows in CSV. Columns that are not named keep their
/// defaults.
pub fn copy_query(table_name: &str, channel_names: &[String]) -> (s: String)
    ensures
        s@ == "COPY "@ + table_name@ + " (timestamp, time, "@ + channel_list(
            text::texts(channel_names@),
        ) + ") FROM STDIN CSV"@,
{
    let mut s = "COPY ".to_owned();
    s.push_str(table_name);
    s.push_str(" (timestamp, time, ");
    s.push_str(quoted_channels(channel_names).as_str());
    s.push_str(") FROM STDIN CSV");
    s
}

/// The query template for a single row: one parameter for each column.
pub fn insert_query(table_name: &str, channel_names: &[String]) -> (s: String)
    requires
        channel_names.len() + 3 <= usize::MAX,
    ensures
        s@ == "INSERT INTO \""@ + table_name@ + "\" (timestamp, time, "@ + channel_list(
            text::texts(channel_names@),
        ) + ") VALUES ("@ + text::joined(
            text::numbered_texts("$"@, 1, channel_names@.len() + 3, ""@),
            ", "@,
        ) + ")"@,
{
    let mut template: Vec<String> = Vec::new();
    text::push_numbered(&mut template, "$", 1, channel_names.len() + 3, "");
    assert(text::texts(template@) =~= text::numbered_texts("$"@, 1, channel_names@.len() + 3, ""@));
    let mut s = "INSERT INTO \"".to_owned();
    s.push_str(table_name);
    s.push_str("\" (timestamp, time, ");
    s.push_str(quoted_channels(channel_names).as_str());
    s.push_str(") VALUES (");
    s.push_str(join(template.as_slice(), ", ").as_str());
    s.push_str(")");
    s
}

/// The number of rows in some nanoseconds at a period, at least one.
pub open spec fn rows_in(buffer_ns: int, dt_ns: int) -> int {
    if buffer_ns < dt_ns {
        1
    } else {
        buffer_ns / dt_ns
    }
}

/// The number of rows to write per batch: at least one.
pub fn batch_size(buffer_time: Span, dt_ns: u32) -> (n: u128)
    requires
        dt_ns > 0,
    ensures
        n == rows_in(buffer_time.ns as int, dt_ns as int),
{
    let n: u128 = buffer_time.ns / dt_ns as u128;
    proof {
        if buffer_time.ns < dt_ns {
            vstd::arithmetic::div_mod::lemma_basic_div(buffer_time.ns as int, dt_ns as int);
        } else {
            vstd::arithmetic::div_mod::lemma_div_non_zero(buffer_time.ns as int, dt_ns as int);
        }
    }
    if n == 0 {
        1
    } else {
        n
    }
}

/// Rows that wait to be sent together.
#[derive(Debug)]
pub struct Batch {
    pub n_buffer: u128,
    pub linebuf: String,
    pub n_lines: u128,
}

impl Batch {
    /// Fewer rows wait than a batch holds.
    pub open spec fn wf(self) -> bool {
        self.n_lines < self.n_buffer
    }

    /// No rows wait.
    pub fn new(n_buffer: u128) -> (r: Self)
        requires
            n_buffer > 0,
        ensures
            r.wf(),
            r.n_buffer == n_buffer,
            r.linebuf@.len() == 0,
            r.n_lines == 0,
    {
        Batch { n_buffer, linebuf: String::new(), n_lines: 0 }
    }

    /// Whether rows are sent in batches. Single rows are inserted one by one.
    pub fn use_copy(&self) -> (r: bool)
        ensures
            r == (self.n_buffer > 1),
    {
        self.n_buffer > 1
    }

    /// Takes a row, and gives the rows to send where the batch is full.
    pub fn push(&mut self, line: &str) -> (r: Option<String>)
        requires
            old(self).wf(),
        ensures
            final(self).wf(),
            final(self).n_buffer == old(self).n_buffer,
            match r {
                Some(lines) => {
                    &&& old(self).n_lines + 1 == old(self).n_buffer
                    &&& lines@ == old(self).linebuf@ + line@
                    &&& final(self).linebuf@.len() == 0
                    &&& final(self).n_lines == 0
                },
                None => {
                    &&& old(self).n_lines + 1 < old(self).n_buffer
                    &&& final(self).linebuf@ == old(self).linebuf@ + line@
                    &&& final(self).n_lines == old(self).n_lines + 1
                },
            },
    {
        self.linebuf.push_str(line);
        let n: u128 = self.n_lines + 1;
        if n >= self.n_buffer {
            let mut lines = String::new();
            std::mem::swap(&mut lines, &mut self.linebuf);
            self.n_lines = 0;
            Some(lines)
        } else {
            self.n_lines = n;
            None
        }
    }

    /// The rows to send at the end of a run.
    pub fn finish(self) -> (lines: String)
        ensures
            lines@ == self.linebuf@,
    {
        self.linebuf
    }
}

/// What was sent and what waits after some rows, in batches of `n`.
pub open spec fn sent_and_waiting(n: nat, lines: Seq<Seq<char>>) -> (Seq<char>, Seq<char>, nat)
    decreases lines.len(),
{
    if lines.len() == 0 {
        (Seq::empty(), Seq::empty(), 0)
    } else {
        let (sent, waiting, count) = sent_and_waiting(n, lines.drop_last());
        if count + 1 >= n {
            (sent + (waiting + lines.last()), Seq::empty(), 0)
        } else {
            (sent, waiting + lines.last(), count + 1)
        }
    }
}

/// No row is lost, repeated or moved by batching: what was sent, followed by what
/// waits, is all rows in order.
pub proof fn law_batches_keep_all_rows(n: nat, lines: Seq<Seq<char>>)
    ensures
        sent_and_waiting(n, lines).0 + sent_and_waiting(n, lines).1 == text::joined(lines, ""@),
    decreases lines.len(),
{
    reveal_strlit("");
    if lines.len() > 0 {
        law_batches_keep_all_rows(n, lines.drop_last());
        let (sent, waiting, count) = sent_and_waiting(n, lines.drop_last());
        assert(text::joined(lines, ""@) =~= text::joined(lines.drop_last(), ""@) + lines.last());
        assert(sent_and_waiting(n, lines).0 + sent_and_waiting(n, lines).1 =~= (sent + waiting)
            + lines.last());
    } else {
        assert(sent_and_waiting(n, lines).0 + sent_and_waiting(n, lines).1 =~= Seq::<char>::empty());
    }
}

/// A host with a port behind a colon is taken apart at the colon, and one without a
/// colon is all host.
pub proof fn law_port_is_behind_the_colon(host: Seq<char>, port: Seq<char>)
    requires
        forall|k: int| 0 <= k < host.len() ==> #[trigger] host[k] != ':',
        forall|k: int| 0 <= k < port.len() ==> #[trigger] port[k] != ':',
    ensures
        host_of(host + seq![':'] + port) == host,
        port_of(host + seq![':'] + port) == Some(port),
        host_of(host) == host,
        port_of(host) is None,
{
    text::lemma_split_one(host, ':');
    text::lemma_split_push(host, ':', port);
    assert(seq![host].push(port).drop_last() =~= seq![host]);
}

/// An interval in seconds stands for its nanoseconds: the seconds before a point and
/// nine digits of nanoseconds behind it, or whole seconds alone.
pub proof fn law_interval_stands_for_its_nanoseconds(ns: int)
    requires
        0 <= ns,
    ensures
        exists|whole: Seq<char>, part: Seq<char>|
            {
                &&& #[trigger] text::numeral(whole)
                &&& #[trigger] text::numeral(part)
                &&& part.len() == 9
                &&& text::decimal_value(whole) * 1_000_000_000 + text::decimal_value(part) == ns
                &&& interval_text(ns) == if text::decimal_value(part) == 0 {
                    whole + " seconds"@
                } else {
                    whole + "."@ + part + " seconds"@
                }
            },
{
    let whole = text::nat_text((ns / 1_000_000_000) as nat);
    let rest = (ns % 1_000_000_000) as nat;
    let part = text::zero_padded(text::nat_text(rest), 9);
    text::lemma_nat_text_value((ns / 1_000_000_000) as nat);
    text::lemma_zero_padded_value(rest, 9);
    lemma_nine_digits(rest);
    assert(text::numeral(whole) && text::numeral(part));
}

proof fn lemma_nine_digits(n: nat)
    requires
        n < 1_000_000_000,
    ensures
        text::nat_text(n).len() <= 9,
{
    reveal_with_fuel(text::nat_text, 10);
}

/// The list of channels holds each of them in quotes, in order, with a separator
/// before each but the first.
pub proof fn law_channels_are_listed_in_quotes(channels: Seq<Seq<char>>, c: Seq<char>)
    ensures
        channel_list(Seq::empty()) == ""@,
        channels.len() == 0 ==> channel_list(channels.push(c)) == "\""@ + c + "\""@,
        channels.len() > 0 ==> channel_list(channels.push(c)) == channel_list(channels) + " ,"@
            + ("\""@ + c + "\""@),
{
    reveal_strlit("");
    let w = wrapped(channels, "\""@, "\""@);
    assert(wrapped(channels.push(c), "\""@, "\""@) =~= w.push("\""@ + c + "\""@));
    assert(w.push("\""@ + c + "\""@).drop_last() =~= w);
    assert(channel_list(Seq::empty()) =~= ""@);
}

/// The table gets a column for each channel, in order: one more channel puts one more
/// line behind those of the others.
pub proof fn law_table_has_a_column_for_each_channel(
    op_name: Seq<char>,
    channels: Seq<Seq<char>>,
    c: Seq<char>,
    policy: Seq<char>,
)
    ensures
        exists|front: Seq<char>, back: Seq<char>|
            {
                &&& creation_text(op_name, channels, policy) == #[trigger] (front + back)
                &&& text::starts_with(back, "\n            PRIMARY KEY (time)"@)
                &&& creation_text(op_name, channels.push(c), policy) == front + ("    \""@ + c
                    + "\" DOUBLE PRECISION,\n"@) + back
            },
{
    let w = wrapped(channels, "    \""@, "\" DOUBLE PRECISION,\n"@);
    let line = "    \""@ + c + "\" DOUBLE PRECISION,\n"@;
    assert(wrapped(channels.push(c), "    \""@, "\" DOUBLE PRECISION,\n"@) =~= w.push(line));
    assert(w.push(line).drop_last() =~= w);
    reveal_strlit("");
    assert(text::joined(w.push(line), ""@) =~= text::joined(w, ""@) + line) by {
        if w.len() == 0 {
            assert(text::joined(w, ""@) =~= Seq::<char>::empty());
        }
    }
    let front = "\n            CREATE TABLE \""@ + op_name
        + "\" (\n            timestamp  BIGINT,\n            time       TIMESTAMPTZ,\n            "@
        + text::joined(w, ""@);
    let key =
        "\n            PRIMARY KEY (time)\n            );\n\n            CREATE EXTENSION IF NOT EXISTS timescaledb CASCADE;\n\n            SELECT create_hypertable('\""@;
    let back = key + op_name + "\"', by_range('time'), if_not_exists => TRUE);\n\n            "@
        + policy + "\n    "@;
    assert(creation_text(op_name, channels, policy) =~= front + back);
    assert(creation_text(op_name, channels.push(c), policy) =~= front + line + back);
    lemma_key_starts(op_name, policy);
}

proof fn lemma_key_starts(op_name: Seq<char>, policy: Seq<char>)
    ensures
        text::starts_with(
            "\n            PRIMARY KEY (time)\n            );\n\n            CREATE EXTENSION IF NOT EXISTS timescaledb CASCADE;\n\n            SELECT create_hypertable('\""@
                + op_name + "\"', by_range('time'), if_not_exists => TRUE);\n\n            "@
                + policy + "\n    "@,
            "\n            PRIMARY KEY (time)"@,
        ),
{
    let key =
        "\n            PRIMARY KEY (time)\n            );\n\n            CREATE EXTENSION IF NOT EXISTS timescaledb CASCADE;\n\n            SELECT create_hypertable('\""@;
    let back = key + op_name + "\"', by_range('time'), if_not_exists => TRUE);\n\n            "@
        + policy + "\n    "@;
    reveal_strlit("\n            PRIMARY KEY (time)\n            );\n\n            CREATE EXTENSION IF NOT EXISTS timescaledb CASCADE;\n\n            SELECT create_hypertable('\"");
    reveal_strlit("\n            PRIMARY KEY (time)");
    let start = "\n            PRIMARY KEY (time)"@;
    assert(key.take(start.len() as int) =~= start);
    assert(back.take(start.len() as int) =~= key.take(start.len() as int));
}

/// A batch holds as many rows as fit in the buffer time, and at least one.
pub proof fn law_batch_fills_the_buffer_time(buffer_ns: int, dt_ns: int)
    requires
        0 <= buffer_ns,
        0 < dt_ns,
    ensures
        1 <= rows_in(buffer_ns, dt_ns),
        rows_in(buffer_ns, dt_ns) * dt_ns <= buffer_ns || rows_in(buffer_ns, dt_ns) == 1,
        buffer_ns < (rows_in(buffer_ns, dt_ns) + 1) * dt_ns,
{
    let n = rows_in(buffer_ns, dt_ns);
    vstd::arithmetic::div_mod::lemma_fundamental_div_mod(buffer_ns, dt_ns);
    vstd::arithmetic::div_mod::lemma_mod_bound(buffer_ns, dt_ns);
    if buffer_ns >= dt_ns {
        vstd::arithmetic::div_mod::lemma_div_non_zero(buffer_ns, dt_ns);
        assert(n * dt_ns <= buffer_ns < (n + 1) * dt_ns) by (nonlinear_arith)
            requires
                buffer_ns == dt_ns * n + buffer_ns % dt_ns,
                0 <= buffer_ns % dt_ns < dt_ns,
        ;
    }
}

/// The policy gives chunks the chunk interval, and drops rows behind the retention
/// time.
pub proof fn law_policy_keeps_rows_for_the_retention_time(
    op_name: Seq<char>,
    retention_ns: int,
    chunk_ns: int,
)
    ensures
        exists|front: Seq<char>, middle: Seq<char>|
            {
                &&& policy_text(op_name, retention_ns, chunk_ns) == #[trigger] (front + middle)
                &&& text::ends_with(
                    front,
                    "SELECT set_chunk_time_interval('\""@ + op_name + "\"', INTERVAL '"@
                        + interval_text(chunk_ns) + "');"@,
                )
                &&& text::ends_with(
                    middle,
                    "', drop_after => INTERVAL '"@ + interval_text(retention_ns)
                        + "');\n        "@,
                )
            },
{
    let chunk = "SELECT set_chunk_time_interval('\""@ + op_name + "\"', INTERVAL '"@
        + interval_text(chunk_ns) + "');"@;
    let front = "\n            "@ + chunk;
    let drop = "', drop_after => INTERVAL '"@ + interval_text(retention_ns) + "');\n        "@;
    let start = "\n\n            SELECT remove_retention_policy('\""@ + op_name
        + "\"', if_exists => true);\n\n            SELECT add_retention_policy('\""@ + op_name
        + "\""@;
    reveal_strlit("\n            ");
    reveal_strlit("SELECT set_chunk_time_interval('\"");
    reveal_strlit("\n            SELECT set_chunk_time_interval('\"");
    reveal_strlit("');");
    reveal_strlit("\n\n            SELECT remove_retention_policy('\"");
    reveal_strlit("');\n\n            SELECT remove_retention_policy('\"");
    reveal_strlit("\"");
    reveal_strlit("', drop_after => INTERVAL '");
    reveal_strlit("\"', drop_after => INTERVAL '");
    assert("\n            "@ + "SELECT set_chunk_time_interval('\""@
        =~= "\n            SELECT set_chunk_time_interval('\""@);
    assert("');"@ + "\n\n            SELECT remove_retention_policy('\""@
        =~= "');\n\n            SELECT remove_retention_policy('\""@);
    assert("\""@ + "', drop_after => INTERVAL '"@ =~= "\"', drop_after => INTERVAL '"@);
    lemma_policy_parts(op_name, retention_ns, chunk_ns);
    let middle = start + drop;
    assert(front.skip(front.len() - chunk.len()) =~= chunk);
    assert(middle.skip(middle.len() - drop.len()) =~= drop);
    assert(policy_text(op_name, retention_ns, chunk_ns) == front + middle);
}

proof fn lemma_policy_parts(op_name: Seq<char>, retention_ns: int, chunk_ns: int)
    requires
        "\n            "@ + "SELECT set_chunk_time_interval('\""@
            == "\n            SELECT set_chunk_time_interval('\""@,
        "');"@ + "\n\n            SELECT remove_retention_policy('\""@
            == "');\n\n            SELECT remove_retention_policy('\""@,
        "\""@ + "', drop_after => INTERVAL '"@ == "\"', drop_after => INTERVAL '"@,
    ensures
        policy_text(op_name, retention_ns, chunk_ns) == ("\n            "@ + (
        "SELECT set_chunk_time_interval('\""@ + op_name + "\"', INTERVAL '"@ + interval_text(
            chunk_ns,
        ) + "');"@)) + ("\n\n            SELECT remove_retention_policy('\""@ + op_name
            + "\"', if_exists => true);\n\n            SELECT add_retention_policy('\""@ + op_name
            + "\""@ + ("', drop_after => INTERVAL '"@ + interval_text(retention_ns)
            + "');\n        "@)),
{
    assert(policy_text(op_name, retention_ns, chunk_ns) =~= ("\n            "@ + (
    "SELECT set_chunk_time_interval('\""@ + op_name + "\"', INTERVAL '"@ + interval_text(chunk_ns)
        + "');"@)) + ("\n\n            SELECT remove_retention_policy('\""@ + op_name
        + "\"', if_exists => true);\n\n            SELECT add_retention_policy('\""@ + op_name
        + "\""@ + ("', drop_after => INTERVAL '"@ + interval_text(retention_ns)
        + "');\n        "@)));
}

/// Rows are sent in batches of one size: what waits behind some rows is what is left of
/// them over full batches.
pub proof fn law_full_batches_are_sent(n: nat, lines: Seq<Seq<char>>)
    requires
        n > 0,
    ensures
        sent_and_waiting(n, lines).2 == lines.len() % n,
    decreases lines.len(),
{
    if lines.len() > 0 {
        law_full_batches_are_sent(n, lines.drop_last());
        let before = (lines.len() - 1) as int;
        let size = n as int;
        let r = before % size;
        vstd::arithmetic::div_mod::lemma_fundamental_div_mod(before, size);
        vstd::arithmetic::div_mod::lemma_mod_bound(before, size);
        let q = before / size;
        if r + 1 >= size {
            assert(before + 1 == (q + 1) * size) by (nonlinear_arith)
                requires
                    before == size * q + r,
                    r + 1 == size,
            ;
            vstd::arithmetic::div_mod::lemma_fundamental_div_mod_converse(
                before + 1,
                size,
                q + 1,
                0,
            );
        } else {
            assert(before + 1 == q * size + (r + 1)) by (nonlinear_arith)
                requires
                    before == size * q + r,
            ;
            vstd::arithmetic::div_mod::lemma_fundamental_div_mod_converse(
                before + 1,
                size,
                q,
                r + 1,
            );
        }
    } else {
        vstd::arithmetic::div_mod::lemma_small_mod(0, n);
    }
}

} // verus!
