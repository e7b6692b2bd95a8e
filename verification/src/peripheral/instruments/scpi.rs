//! SCPI over TCP: addresses, identities, timeouts and the framing of commands
//! and responses.
//!
//! Commands are ASCII and newline-delimited. Queries accept exactly one bounded,
//! newline-terminated response.

use vstd::prelude::*;
use crate::ip_literal;
use crate::ip_literal::is_ipv6;
use crate::span;
use crate::span::Span;
use crate::text;
use crate::text::{
    chars_of, contains_text, is_ascii_char, is_ascii_digit, push_nat, substring,
    to_ascii_lowercase, trim,
};

verus! {

/// Longest accepted response in bytes.
pub const DEFAULT_MAX_RESPONSE_LEN: usize = 16 * 1024;

/// A text without a plus sign at its start.
pub open spec fn unsigned(s: Seq<char>) -> Seq<char> {
    if s.len() > 0 && s[0] == '+' {
        s.skip(1)
    } else {
        s
    }
}

/// A port number: an optional plus sign, then digits, at most 65535.
pub open spec fn port_number(s: Seq<char>) -> bool {
    text::numeral(unsigned(s)) && text::decimal_value(unsigned(s)) <= 65535
}

/// Whether the text behind the last colon is a port number.
pub open spec fn has_port(host: Seq<char>) -> bool {
    exists|i: int|
        0 <= i < host.len() && #[trigger] host[i] == ':' && (forall|k: int|
            i < k < host.len() ==> #[trigger] host[k] != ':') && port_number(host.skip(i + 1))
}

/// A host with a port: its own, or the standard raw-SCPI port.
pub open spec fn with_default_port(host: Seq<char>) -> Seq<char> {
    if host.len() > 0 && host[0] == '[' && host.last() == ']' {
        host + ":5025"@
    } else if ip_literal::ipv6(host) {
        "["@ + host + "]:5025"@
    } else if has_port(host) {
        host
    } else {
        host + ":5025"@
    }
}

fn is_port_number(s: &[char]) -> (r: bool)
    ensures
        r == port_number(s@),
{
    let start: usize = if s.len() > 0 && s[0] == '+' {
        1
    } else {
        0
    };
    let ghost digits = unsigned(s@);
    assert(digits =~= s@.skip(start as int));
    if start == s.len() {
        return false;
    }
    let mut value: u32 = 0;
    let mut i: usize = start;
    assert(digits.take(0) =~= Seq::<char>::empty());
    while i < s.len()
        invariant
            start <= i <= s@.len(),
            digits == s@.skip(start as int),
            digits == unsigned(s@),
            forall|k: int| 0 <= k < i - start ==> text::ascii_digit(#[trigger] digits[k]),
            0 <= text::decimal_value(digits.take(i - start)),
            value == if text::decimal_value(digits.take(i - start)) <= 65535 {
                text::decimal_value(digits.take(i - start))
            } else {
                65536
            },
        decreases s@.len() - i,
    {
        assert(digits[i - start] == s@[i as int]);
        if !is_ascii_digit(s[i]) {
            assert(!text::ascii_digit(digits[i - start]));
            return false;
        }
        assert(digits.take(i + 1 - start).drop_last() =~= digits.take(i - start));
        let next: u32 = value * 10 + (s[i] as u32 - '0' as u32);
        value = if next <= 65535 {
            next
        } else {
            65536
        };
        i = i + 1;
    }
    assert(digits.take(s@.len() - start) =~= digits);
    value <= 65535
}

fn ends_in_port(chars: &Vec<char>) -> (r: bool)
    ensures
        r == has_port(chars@),
{
    let mut i: usize = chars.len();
    while i > 0
        invariant
            i <= chars@.len(),
            forall|k: int| i <= k < chars@.len() ==> #[trigger] chars@[k] != ':',
        decreases i,
    {
        if chars[i - 1] == ':' {
            let port = substring(chars.as_slice(), i, chars.len());
            assert(port@ =~= chars@.skip(i as int));
            let ok = is_port_number(chars_of(port.as_str()).as_slice());
            proof {
                let at = i - 1;
                assert(chars@[at] == ':');
                if !ok {
                    assert forall|j: int|
                        0 <= j < chars@.len() && #[trigger] chars@[j] == ':' && (forall|k: int|
                            j < k < chars@.len() ==> #[trigger] chars@[k]
                                != ':') implies !port_number(chars@.skip(j + 1)) by {
                        if j < at {
                            assert(chars@[at] != ':');
                        }
                        assert(j == at);
                    }
                }
            }
            return ok;
        }
        i = i - 1;
    }
    false
}

/// Adds the standard raw-SCPI port 5025 where an address has no explicit port.
pub fn address_with_default_port(host: String) -> (r: String)
    ensures
        r@ == with_default_port(host@),
{
    let chars = chars_of(host.as_str());
    let n = chars.len();
    if n > 0 && chars[0] == '[' && chars[n - 1] == ']' {
        let mut r = host;
        r.push_str(":5025");
        return r;
    }
    if is_ipv6(host.as_str()) {
        let mut r = "[".to_owned();
        r.push_str(host.as_str());
        r.push_str("]:5025");
        return r;
    }
    if ends_in_port(&chars) {
        host
    } else {
        let mut r = host;
        r.push_str(":5025");
        r
    }
}

/// Shared network, identity, and timeout settings for a SCPI/TCP instrument.
#[derive(Debug, Clone, PartialEq)]
pub struct ScpiTcpConfig {
    /// TCP address in `host:port` form.
    pub address: String,
    /// Logical software serial number used in the peripheral ID.
    pub serial_number: u64,
    /// Case-insensitive manufacturer substring required in `*IDN?`.
    pub expected_vendor: String,
    /// Case-insensitive model substring required in `*IDN?`.
    pub expected_model: String,
    /// Maximum time allowed to establish the TCP connection.
    pub connect_timeout: Span,
    /// Maximum time allowed for each SCPI response.
    pub read_timeout: Span,
    /// Maximum time allowed for each SCPI command write.
    pub write_timeout: Span,
}

/// Whether an identity names a vendor and a model, in any case of ASCII letters.
pub open spec fn identity_matches(identity: Seq<char>, vendor: Seq<char>, model: Seq<char>) -> bool {
    text::holds(text::lower_text(identity), text::lower_text(vendor)) && text::holds(
        text::lower_text(identity),
        text::lower_text(model),
    )
}

impl ScpiTcpConfig {
    /// All timeouts are valid spans.
    pub open spec fn valid_timeouts(self) -> bool {
        self.connect_timeout.valid() && self.read_timeout.valid() && self.write_timeout.valid()
    }

    /// Builds common identity settings with SCPI port 5025 and conservative
    /// connection and I/O timeouts.
    pub fn new(host: &str, serial_number: u64, expected_vendor: &str, expected_model: &str) -> (r:
        Self)
        ensures
            r.address@ == with_default_port(host@),
            r.serial_number == serial_number,
            r.expected_vendor@ == expected_vendor@,
            r.expected_model@ == expected_model@,
            r.connect_timeout.ns == 2_000_000_000,
            r.read_timeout.ns == 250_000_000,
            r.write_timeout.ns == 100_000_000,
            r.valid_timeouts(),
    {
        ScpiTcpConfig {
            address: address_with_default_port(host.to_owned()),
            serial_number,
            expected_vendor: expected_vendor.to_owned(),
            expected_model: expected_model.to_owned(),
            connect_timeout: Span::from_secs(2),
            read_timeout: Span::from_millis(250),
            write_timeout: Span::from_millis(100),
        }
    }

    /// The fault of the settings.
    pub open spec fn fault(self) -> Option<Seq<char>> {
        if text::trimmed(self.address@).len() == 0 {
            Some("address cannot be empty"@)
        } else if text::trimmed(self.expected_vendor@).len() == 0 || text::trimmed(
            self.expected_model@,
        ).len() == 0 {
            Some("expected_vendor and expected_model cannot be empty"@)
        } else {
            None
        }
    }

    /// Checks that address and identity are there.
    pub fn validate(&self) -> (r: Result<(), String>)
        ensures
            match r {
                Ok(()) => self.fault() is None,
                Err(e) => self.fault() == Some(e@),
            },
    {
        if trim(self.address.as_str()).as_str().is_empty() {
            return Err("address cannot be empty".to_owned());
        }
        if trim(self.expected_vendor.as_str()).as_str().is_empty() || trim(
            self.expected_model.as_str(),
        ).as_str().is_empty() {
            return Err("expected_vendor and expected_model cannot be empty".to_owned());
        }
        Ok(())
    }

    /// The budget of a startup sequence in nanoseconds.
    pub open spec fn startup_ns(self, queries: u32, commands: u32, additional: int) -> int {
        let query = span::saturated(self.read_timeout.ns + self.write_timeout.ns);
        span::saturated(
            span::saturated(
                span::saturated(self.connect_timeout.ns + span::saturated(query * queries))
                    + span::saturated(self.write_timeout.ns * commands),
            ) + additional,
        )
    }

    /// Budgets a startup sequence from its sequential SCPI operations.
    pub fn startup_timeout(&self, query_count: u32, command_count: u32, additional_time: Span) -> (r:
        Span)
        requires
            self.valid_timeouts(),
            additional_time.valid(),
        ensures
            r.ns == self.startup_ns(query_count, command_count, additional_time.ns as int),
            r.valid(),
    {
        let query_timeout = self.read_timeout.saturating_add(self.write_timeout);
        self.connect_timeout.saturating_add(
            query_timeout.saturating_mul(query_count),
        ).saturating_add(self.write_timeout.saturating_mul(command_count)).saturating_add(
            additional_time,
        )
    }

    /// Checks that an instrument's identity names the expected vendor and model.
    pub fn validate_identity(&self, identity: &str) -> (r: Result<(), String>)
        ensures
            match r {
                Ok(()) => identity_matches(
                    identity@,
                    self.expected_vendor@,
                    self.expected_model@,
                ),
                Err(e) => !identity_matches(identity@, self.expected_vendor@, self.expected_model@)
                    && e@ == "identity `"@ + identity@ + "` did not match "@
                    + self.expected_vendor@ + " "@ + self.expected_model@,
            },
    {
        let lower = to_ascii_lowercase(identity);
        if contains_text(
            lower.as_str(),
            to_ascii_lowercase(self.expected_vendor.as_str()).as_str(),
        ) && contains_text(
            lower.as_str(),
            to_ascii_lowercase(self.expected_model.as_str()).as_str(),
        ) {
            Ok(())
        } else {
            let mut e = "identity `".to_owned();
            e.push_str(identity);
            e.push_str("` did not match ");
            e.push_str(self.expected_vendor.as_str());
            e.push_str(" ");
            e.push_str(self.expected_model.as_str());
            Err(e)
        }
    }
}

/// Why a text cannot be sent as a command.
pub open spec fn command_fault(command: Seq<char>) -> Option<Seq<char>> {
    if command.len() == 0 {
        Some("SCPI command cannot be empty"@)
    } else if !(forall|i: int| 0 <= i < command.len() ==> text::ascii(#[trigger] command[i])) {
        Some("SCPI command must be ASCII"@)
    } else if exists|i: int|
        0 <= i < command.len() && (#[trigger] command[i] == '\r' || command[i] == '\n') {
        Some("SCPI command cannot contain a line ending"@)
    } else {
        None
    }
}

/// Rejects command text that could corrupt the newline-delimited stream.
pub fn validate_command(command: &str) -> (r: Result<(), String>)
    ensures
        match r {
            Ok(()) => command_fault(command@) is None,
            Err(e) => command_fault(command@) == Some(e@),
        },
{
    let chars = chars_of(command);
    if chars.len() == 0 {
        return Err("SCPI command cannot be empty".to_owned());
    }
    let mut line_ending = false;
    let mut i: usize = 0;
    while i < chars.len()
        invariant
            chars@ == command@,
            i <= chars@.len(),
            chars@.len() > 0,
            forall|k: int| 0 <= k < i ==> text::ascii(#[trigger] command@[k]),
            line_ending <==> exists|k: int|
                0 <= k < i && (#[trigger] command@[k] == '\r' || command@[k] == '\n'),
        decreases chars@.len() - i,
    {
        let c = chars[i];
        if !is_ascii_char(c) {
            assert(!text::ascii(command@[i as int]));
            return Err("SCPI command must be ASCII".to_owned());
        }
        if c == '\r' || c == '\n' {
            line_ending = true;
        }
        i = i + 1;
    }
    if line_ending {
        return Err("SCPI command cannot contain a line ending".to_owned());
    }
    Ok(())
}

/// The bytes of a command and its newline terminator.
pub fn frame_command(command: &str) -> (r: Result<Vec<u8>, String>)
    ensures
        match r {
            Ok(bytes) => command_fault(command@) is None && bytes@ == text::ascii_bytes(command@).push(
                10u8,
            ),
            Err(e) => command_fault(command@) == Some(e@),
        },
{
    validate_command(command)?;
    let chars = chars_of(command);
    let mut bytes: Vec<u8> = Vec::new();
    let mut i: usize = 0;
    while i < chars.len()
        invariant
            chars@ == command@,
            i <= chars@.len(),
            command_fault(command@) is None,
            bytes@ == text::ascii_bytes(command@).take(i as int),
        decreases chars@.len() - i,
    {
        assert(text::ascii(command@[i as int]));
        bytes.push((chars[i] as u32) as u8);
        assert(bytes@ =~= text::ascii_bytes(command@).take(i + 1));
        i = i + 1;
    }
    assert(text::ascii_bytes(command@).take(chars@.len() as int) =~= text::ascii_bytes(command@));
    bytes.push(10);
    Ok(bytes)
}

/// The index behind the first newline of some bytes, or their number where
/// there is none.
pub open spec fn line_end(s: Seq<u8>, i: int) -> int
    decreases s.len() - i,
{
    if i < 0 || i >= s.len() {
        s.len() as int
    } else if s[i] == 10 {
        i + 1
    } else {
        line_end(s, i + 1)
    }
}

/// Whether some bytes end in a newline.
pub open spec fn ends_line(s: Seq<u8>) -> bool {
    s.len() > 0 && s.last() == 10
}

/// One line of a response, put together from what comes in.
#[derive(Debug)]
pub struct ResponseBuffer {
    pub bytes: Vec<u8>,
    pub max_response_len: usize,
}

/// How much of the incoming bytes a response took, and whether it is complete.
#[derive(Debug, Clone, Copy, PartialEq, Eq, Structural)]
pub struct Taken {
    pub count: usize,
    pub complete: bool,
}

/// Why incoming bytes end a response in an error.
pub open spec fn incoming_fault(
    command: Seq<char>,
    before: nat,
    available: Seq<u8>,
    limit: usize,
) -> Option<Seq<char>> {
    if available.len() == 0 {
        Some("connection closed before response to `"@ + command + "` was terminated"@)
    } else if before + line_end(available, 0) > limit {
        Some(
            "response to `"@ + command + "` exceeded "@ + text::nat_text(limit as nat) + " bytes"@,
        )
    } else {
        None
    }
}

/// The bytes of a line without the line endings behind it.
pub open spec fn without_line_endings(s: Seq<u8>) -> Seq<u8>
    decreases s.len(),
{
    if s.len() > 0 && (s.last() == 10 || s.last() == 13) {
        without_line_endings(s.drop_last())
    } else {
        s
    }
}

/// Why a complete line is no response.
pub open spec fn response_fault(command: Seq<char>, line: Seq<u8>) -> Option<Seq<char>> {
    let s = without_line_endings(line);
    if s.len() == 0 {
        Some("response to `"@ + command + "` was empty"@)
    } else if !(forall|i: int| 0 <= i < s.len() ==> #[trigger] s[i] < 128) {
        Some("response to `"@ + command + "` was not ASCII"@)
    } else {
        None
    }
}

/// The text of ASCII bytes.
pub open spec fn ascii_text(s: Seq<u8>) -> Seq<char> {
    s.map_values(|b: u8| b as char)
}

impl ResponseBuffer {
    /// An empty line.
    pub fn new(max_response_len: usize) -> (r: Self)
        ensures
            r.bytes@.len() == 0,
            r.max_response_len == max_response_len,
    {
        ResponseBuffer { bytes: Vec::new(), max_response_len }
    }

    /// Takes what a response needs of the incoming bytes: up to and with the
    /// first newline. The limit holds while the bytes come in.
    pub fn take(&mut self, command: &str, available: &[u8]) -> (r: Result<Taken, String>)
        requires
            old(self).bytes@.len() <= old(self).max_response_len,
        ensures
            final(self).max_response_len == old(self).max_response_len,
            final(self).bytes@.len() <= final(self).max_response_len,
            ({
                let fault = incoming_fault(
                    command@,
                    old(self).bytes@.len(),
                    available@,
                    old(self).max_response_len,
                );
                match r {
                    Err(e) => fault == Some(e@) && final(self).bytes@ == old(self).bytes@,
                    Ok(t) => {
                        &&& fault is None
                        &&& t.count == line_end(available@, 0)
                        &&& final(self).bytes@ == old(self).bytes@ + available@.take(t.count as int)
                        &&& t.complete == ends_line(final(self).bytes@)
                    },
                }
            }),
    {
        if available.len() == 0 {
            let mut e = "connection closed before response to `".to_owned();
            e.push_str(command);
            e.push_str("` was terminated");
            return Err(e);
        }
        let mut count: usize = 0;
        let mut complete = false;
        while count < available.len() && !complete
            invariant
                count <= available@.len(),
                complete ==> count > 0 && available@[count - 1] == 10 && line_end(available@, 0)
                    == count,
                !complete ==> line_end(available@, 0) == line_end(available@, count as int),
                !complete && count > 0 ==> available@[count - 1] != 10,
            decreases available@.len() - count,
                if complete {
                    0int
                } else {
                    1
                },
        {
            if available[count] == 10 {
                complete = true;
            }
            count = count + 1;
        }
        assert(count == line_end(available@, 0));
        assert(count > 0);
        if count > self.max_response_len - self.bytes.len() {
            let mut e = "response to `".to_owned();
            e.push_str(command);
            e.push_str("` exceeded ");
            push_nat(&mut e, self.max_response_len as u128);
            e.push_str(" bytes");
            return Err(e);
        }
        let ghost before = self.bytes@;
        let mut i: usize = 0;
        while i < count
            invariant
                i <= count <= available@.len(),
                self.max_response_len == old(self).max_response_len,
                self.bytes@ == before + available@.take(i as int),
            decreases count - i,
        {
            self.bytes.push(available[i]);
            assert(self.bytes@ =~= before + available@.take(i + 1));
            i = i + 1;
        }
        assert(self.bytes@.last() == available@[count - 1]);
        Ok(Taken { count, complete })
    }

    /// The response in a complete line.
    pub fn finish(self, command: &str) -> (r: Result<String, String>)
        ensures
            match r {
                Ok(s) => response_fault(command@, self.bytes@) is None && s@ == ascii_text(
                    without_line_endings(self.bytes@),
                ),
                Err(e) => response_fault(command@, self.bytes@) == Some(e@),
            },
    {
        let ghost line = self.bytes@;
        let mut n: usize = self.bytes.len();
        assert(line.take(n as int) =~= line);
        while n > 0 && (self.bytes[n - 1] == 10 || self.bytes[n - 1] == 13)
            invariant
                n <= self.bytes@.len(),
                line == self.bytes@,
                without_line_endings(line) == without_line_endings(line.take(n as int)),
            decreases n,
        {
            assert(line.take(n as int).drop_last() =~= line.take(n - 1));
            n = n - 1;
        }
        let ghost kept = without_line_endings(line);
        assert(kept == line.take(n as int));
        if n == 0 {
            let mut e = "response to `".to_owned();
            e.push_str(command);
            e.push_str("` was empty");
            return Err(e);
        }
        let mut s = String::new();
        let mut i: usize = 0;
        while i < n
            invariant
                i <= n <= self.bytes@.len(),
                n > 0,
                kept == self.bytes@.take(n as int),
                kept == without_line_endings(self.bytes@),
                forall|k: int| 0 <= k < i ==> #[trigger] kept[k] < 128,
                s@ == ascii_text(kept).take(i as int),
            decreases n - i,
        {
            let b = self.bytes[i];
            assert(kept[i as int] == b);
            if b >= 128 {
                let mut e = "response to `".to_owned();
                e.push_str(command);
                e.push_str("` was not ASCII");
                return Err(e);
            }
            s.push(b as char);
            assert(s@ =~= ascii_text(kept).take(i + 1));
            i = i + 1;
        }
        assert(ascii_text(kept).take(n as int) =~= ascii_text(kept));
        Ok(s)
    }
}

/// What failed on the way to a connection.
#[derive(Debug)]
pub enum ConnectFailure {
    /// The address did not resolve.
    Resolve(String),
    /// The read timeout could not be set.
    ReadTimeout(String),
    /// The write timeout could not be set.
    WriteTimeout(String),
    /// Small packets could not be let through without delay.
    NoDelay(String),
    /// The last of the resolved addresses could not be connected to.
    Connect { resolved: String, error: String },
    /// There was no resolved address.
    NoAddress,
}

/// The error of a failed connection.
pub open spec fn connect_error_text(address: Seq<char>, failure: ConnectFailure) -> Seq<char> {
    match failure {
        ConnectFailure::Resolve(e) => "unable to resolve `"@ + address + "`: "@ + e@,
        ConnectFailure::ReadTimeout(e) => "unable to set read timeout for `"@ + address + "`: "@
            + e@,
        ConnectFailure::WriteTimeout(e) => "unable to set write timeout for `"@ + address + "`: "@
            + e@,
        ConnectFailure::NoDelay(e) => "unable to set TCP_NODELAY for `"@ + address + "`: "@ + e@,
        ConnectFailure::Connect { resolved, error } => "unable to connect to `"@ + resolved@
            + "`: "@ + error@,
        ConnectFailure::NoAddress => "`"@ + address + "` resolved to no socket addresses"@,
    }
}

/// The error of a failed connection.
pub fn connect_error(address: &str, failure: ConnectFailure) -> (s: String)
    ensures
        s@ == connect_error_text(address@, failure),
{
    let (mut s, subject, rest, error) = match failure {
        ConnectFailure::Resolve(e) => (
            "unable to resolve `".to_owned(),
            address.to_owned(),
            "`: ",
            e,
        ),
        ConnectFailure::ReadTimeout(e) => (
            "unable to set read timeout for `".to_owned(),
            address.to_owned(),
            "`: ",
            e,
        ),
        ConnectFailure::WriteTimeout(e) => (
            "unable to set write timeout for `".to_owned(),
            address.to_owned(),
            "`: ",
            e,
        ),
        ConnectFailure::NoDelay(e) => (
            "unable to set TCP_NODELAY for `".to_owned(),
            address.to_owned(),
            "`: ",
            e,
        ),
        ConnectFailure::Connect { resolved, error } => (
            "unable to connect to `".to_owned(),
            resolved,
            "`: ",
            error,
        ),
        ConnectFailure::NoAddress => (
            "`".to_owned(),
            address.to_owned(),
            "` resolved to no socket addresses",
            String::new(),
        ),
    };
    s.push_str(subject.as_str());
    s.push_str(rest);
    s.push_str(error.as_str());
    assert(s@ =~= connect_error_text(address@, failure));
    s
}

/// What failed when a command was sent or its response was read.
#[derive(Debug)]
pub enum ExchangeFailure {
    Write(String),
    Terminate(String),
    Flush(String),
    Read(String),
}

/// The error of a command that was not sent or not answered.
pub fn exchange_error(command: &str, failure: ExchangeFailure) -> (s: String)
    ensures
        s@ == match failure {
            ExchangeFailure::Write(e) => "failed to write `"@ + command@ + "`: "@ + e@,
            ExchangeFailure::Terminate(e) => "failed to terminate `"@ + command@ + "`: "@ + e@,
            ExchangeFailure::Flush(e) => "failed to flush `"@ + command@ + "`: "@ + e@,
            ExchangeFailure::Read(e) => "failed to read response to `"@ + command@ + "`: "@ + e@,
        },
{
    let (mut s, error) = match failure {
        ExchangeFailure::Write(e) => ("failed to write `".to_owned(), e),
        ExchangeFailure::Terminate(e) => ("failed to terminate `".to_owned(), e),
        ExchangeFailure::Flush(e) => ("failed to flush `".to_owned(), e),
        ExchangeFailure::Read(e) => ("failed to read response to `".to_owned(), e),
    };
    s.push_str(command);
    s.push_str("`: ");
    s.push_str(error.as_str());
    s
}

/// The line that comes in does not depend on how it is cut: taking `a` and then
/// `b` takes the same bytes as taking both at once, where `a` ends no line.
pub proof fn law_lines_are_assembled(a: Seq<u8>, b: Seq<u8>)
    requires
        forall|i: int| 0 <= i < a.len() ==> #[trigger] a[i] != 10,
    ensures
        line_end(a, 0) == a.len(),
        (a + b).take(line_end(a + b, 0)) == a + b.take(line_end(b, 0)),
{
    lemma_line_end_skips(a, b, 0);
    lemma_line_end_bounds(b, 0);
    lemma_line_end_shift(a, b, 0);
    assert((a + b).take(line_end(a + b, 0)) =~= a + b.take(line_end(b, 0)));
}

proof fn lemma_line_end_skips(a: Seq<u8>, b: Seq<u8>, i: int)
    requires
        forall|i: int| 0 <= i < a.len() ==> #[trigger] a[i] != 10,
        0 <= i <= a.len(),
    ensures
        line_end(a, i) == a.len(),
        line_end(a + b, i) == line_end(a + b, a.len() as int),
    decreases a.len() - i,
{
    if i < a.len() {
        assert((a + b)[i] == a[i]);
        lemma_line_end_skips(a, b, i + 1);
    }
}

proof fn lemma_line_end_shift(a: Seq<u8>, b: Seq<u8>, i: int)
    requires
        0 <= i <= b.len(),
    ensures
        line_end(a + b, a.len() + i) == a.len() + line_end(b, i),
    decreases b.len() - i,
{
    if i < b.len() {
        assert((a + b)[a.len() + i] == b[i]);
        lemma_line_end_shift(a, b, i + 1);
    }
}

proof fn lemma_line_end_bounds(s: Seq<u8>, i: int)
    requires
        0 <= i <= s.len(),
    ensures
        i <= line_end(s, i) <= s.len(),
    decreases s.len() - i,
{
    if i < s.len() && s[i] != 10 {
        lemma_line_end_bounds(s, i + 1);
    }
}

/// A command that is sent is one line: its bytes hold the terminator at their
/// end alone.
pub proof fn law_command_is_one_line(command: Seq<char>, i: int)
    requires
        command_fault(command) is None,
        0 <= i < command.len(),
    ensures
        text::ascii_bytes(command).push(10u8)[i] != 10,
        text::ascii_bytes(command).push(10u8)[i] != 13,
{
    assert(text::ascii(command[i]));
    assert(command[i] != '\r' && command[i] != '\n');
    assert(text::ascii_bytes(command).push(10u8)[i] == (command[i] as u32) as u8);
    text::lemma_ascii_byte(command[i]);
}

/// An address that is made of a host ends in a port. A host with a port of its own
/// stays, and any other gets the port 5025 behind it, an IPv6 address in brackets.
pub proof fn law_addresses_have_a_port(host: Seq<char>)
    ensures
        has_port(with_default_port(host)),
        ({
            let bracketed = host.len() > 0 && host[0] == '[' && host.last() == ']';
            let ipv6 = !bracketed && ip_literal::ipv6(host);
            &&& has_port(host) && !bracketed && !ipv6 ==> with_default_port(host) == host
            &&& (!has_port(host) || bracketed) && !ipv6 ==> with_default_port(host) == host
                + ":5025"@
            &&& ipv6 ==> with_default_port(host) == "["@ + host + "]"@ + ":5025"@
        }),
{
    reveal_strlit(":5025");
    reveal_strlit("[");
    reveal_strlit("]");
    reveal_strlit("]:5025");
    assert("["@ + host + "]"@ + ":5025"@ =~= "["@ + host + "]:5025"@);
    lemma_ends_in_port(host);
    lemma_ends_in_port("["@ + host + "]"@);
}

proof fn lemma_ends_in_port(host: Seq<char>)
    ensures
        has_port(host + ":5025"@),
{
    reveal_strlit(":5025");
    let s = host + ":5025"@;
    let at = host.len() as int;
    let port = s.skip(at + 1);
    assert(port =~= seq!['5', '0', '2', '5']);
    reveal_with_fuel(text::decimal_value, 5);
    assert(port.drop_last() =~= seq!['5', '0', '2']);
    assert(port.drop_last().drop_last() =~= seq!['5', '0']);
    assert(port.drop_last().drop_last().drop_last() =~= seq!['5']);
    assert(port.drop_last().drop_last().drop_last().drop_last() =~= Seq::<char>::empty());
    assert(text::decimal_value(port) == 5025);
    assert(text::numeral(port));
    assert(s[at] == ':');
    assert forall|k: int| at < k < s.len() implies #[trigger] s[k] != ':' by {
        assert(s[k] == port[k - at - 1]);
    }
}

/// A startup has the time to connect, to answer each query and to write each query
/// and command, and what is added, as long as that is no longer than the longest
/// span.
pub proof fn law_startup_has_time_for_each_message(
    config: ScpiTcpConfig,
    queries: u32,
    commands: u32,
    additional: int,
)
    requires
        0 <= additional,
        config.connect_timeout.ns + config.read_timeout.ns * queries + config.write_timeout.ns * (
        queries + commands) + additional <= span::MAX_SPAN_NS,
        config.valid_timeouts(),
    ensures
        queries > 0 ==> config.startup_ns(queries, commands, additional)
            == config.connect_timeout.ns + config.read_timeout.ns * queries
            + config.write_timeout.ns * (queries + commands) + additional,
{
    if queries > 0 {
        let r = config.read_timeout.ns as int;
        let w = config.write_timeout.ns as int;
        let q = queries as int;
        let c = commands as int;
        assert((r + w) * q == r * q + w * q) by (nonlinear_arith);
        assert(w * (q + c) == w * q + w * c) by (nonlinear_arith);
        assert(0 <= w * c && 0 <= w * q && 0 <= r * q) by (nonlinear_arith)
            requires
                0 <= w,
                0 <= c,
                0 <= q,
                0 <= r,
        ;
        assert(r + w <= r * q + w * q) by (nonlinear_arith)
            requires
                1 <= q,
                0 <= r,
                0 <= w,
        ;
    }
}

/// An identity is accepted exactly where it holds the vendor and the model somewhere,
/// each in any case of its letters.
pub proof fn law_identity_holds_vendor_and_model(
    identity: Seq<char>,
    vendor: Seq<char>,
    model: Seq<char>,
)
    ensures
        identity_matches(identity, vendor, model) <==> {
            &&& exists|i: int|
                0 <= i && i + vendor.len() <= identity.len()
                    && #[trigger] text::lower_text(identity).subrange(i, i + vendor.len())
                    == text::lower_text(vendor)
            &&& exists|i: int|
                0 <= i && i + model.len() <= identity.len()
                    && #[trigger] text::lower_text(identity).subrange(i, i + model.len())
                    == text::lower_text(model)
        },
        identity_matches(identity, vendor, model) == identity_matches(identity, model, vendor),
{
    let all = text::lower_text(identity);
    assert(text::lower_text(vendor).len() == vendor.len());
    assert(text::lower_text(model).len() == model.len());
    assert(all.len() == identity.len());
    assert(text::holds(all, text::lower_text(vendor)) <==> exists|i: int|
        0 <= i && i + vendor.len() <= identity.len() && #[trigger] all.subrange(
            i,
            i + vendor.len(),
        ) == text::lower_text(vendor));
    assert(text::holds(all, text::lower_text(model)) <==> exists|i: int|
        0 <= i && i + model.len() <= identity.len() && #[trigger] all.subrange(i, i + model.len())
            == text::lower_text(model));
}

/// Incoming bytes are taken exactly where there are some and where what is taken of
/// them, up to and with the first newline, is within the limit.
pub proof fn law_incoming_bytes_within_the_limit_are_taken(
    command: Seq<char>,
    before: nat,
    available: Seq<u8>,
    limit: usize,
    end: int,
)
    requires
        0 < end <= available.len(),
        available[end - 1] == 10 || end == available.len(),
        forall|i: int| 0 <= i < end - 1 ==> #[trigger] available[i] != 10,
    ensures
        line_end(available, 0) == end,
        incoming_fault(command, before, available, limit) is None <==> before + end <= limit,
{
    lemma_line_end_at(available, 0, end);
}

proof fn lemma_line_end_at(s: Seq<u8>, i: int, end: int)
    requires
        0 <= i < end <= s.len(),
        s[end - 1] == 10 || end == s.len(),
        forall|k: int| i <= k < end - 1 ==> #[trigger] s[k] != 10,
    ensures
        line_end(s, i) == end,
    decreases end - i,
{
    if i < end - 1 {
        lemma_line_end_at(s, i + 1, end);
    } else if s[i] != 10 {
        assert(line_end(s, i + 1) == s.len());
    }
}

/// A line is a response exactly where something that is ASCII is left of it without
/// the line endings behind it, which are all that is taken off.
pub proof fn law_responses_are_ascii_lines(command: Seq<char>, body: Seq<u8>, ending: Seq<u8>)
    requires
        body.len() > 0 ==> body.last() != 10 && body.last() != 13,
        forall|i: int| 0 <= i < ending.len() ==> #[trigger] ending[i] == 10 || ending[i] == 13,
    ensures
        without_line_endings(body + ending) == body,
        response_fault(command, body + ending) is None <==> body.len() > 0 && forall|i: int|
            0 <= i < body.len() ==> #[trigger] body[i] < 128,
    decreases ending.len(),
{
    if ending.len() > 0 {
        assert((body + ending).drop_last() =~= body + ending.drop_last());
        assert((body + ending).last() == ending[ending.len() - 1]);
        assert forall|i: int| 0 <= i < ending.drop_last().len() implies #[trigger] ending.drop_last()[i]
            == 10 || ending.drop_last()[i] == 13 by {
            assert(ending.drop_last()[i] == ending[i]);
        }
        law_responses_are_ascii_lines(command, body, ending.drop_last());
    } else {
        assert(body + ending =~= body);
    }
}

/// A command is sent exactly where it has a character, and all of its characters are
/// ASCII and end no line.
pub proof fn law_plain_commands_are_sent(command: Seq<char>)
    ensures
        command_fault(command) is None <==> command.len() > 0 && forall|i: int|
            0 <= i < command.len() ==> (#[trigger] command[i]) <= '\u{7f}' && command[i] != '\n'
                && command[i] != '\r',
{
    if command_fault(command) is None {
        assert forall|i: int| 0 <= i < command.len() implies (#[trigger] command[i]) <= '\u{7f}'
            && command[i] != '\n' && command[i] != '\r' by {
            assert(text::ascii(command[i]));
        }
    }
}

/// The settings are accepted exactly where the address, the vendor and the model each
/// hold more than white space.
pub proof fn law_complete_settings_are_accepted(config: ScpiTcpConfig)
    ensures
        config.fault() is None <==> {
            &&& exists|i: int|
                0 <= i < config.address@.len() && !text::white_space(#[trigger] config.address@[i])
            &&& exists|i: int|
                0 <= i < config.expected_vendor@.len() && !text::white_space(
                    #[trigger] config.expected_vendor@[i],
                )
            &&& exists|i: int|
                0 <= i < config.expected_model@.len() && !text::white_space(
                    #[trigger] config.expected_model@[i],
                )
        },
{
    lemma_blank(config.address@);
    lemma_blank(config.expected_vendor@);
    lemma_blank(config.expected_model@);
}

proof fn lemma_blank(s: Seq<char>)
    ensures
        text::trimmed(s).len() > 0 <==> exists|i: int|
            0 <= i < s.len() && !text::white_space(#[trigger] s[i]),
{
    let ends = text::law_trimming_takes_white_space_off(s);
    if text::trimmed(s).len() > 0 {
        assert(text::trimmed(s)[0] == s[ends.0]);
        assert(!text::white_space(s[ends.0]));
    }
}

} // verus!
