//! Live SDG2042X state, and what its worker sends and expects.
//!
//! The worker performs one exchange at a time: it asks for the next one, sends
//! it, and hands the reply back.

use vstd::prelude::*;
use crate::binary64;
use crate::binary64::Real;
use crate::bytes;
use crate::peripheral::instruments::packets;
use crate::peripheral::instruments::packets::request_id;
use crate::peripheral::instruments::responder::WorkerStatus;
use crate::peripheral::instruments::scpi;
use crate::span::Span;
use crate::text;
use crate::text::{
    chars_of, has_prefix, is_ascii_digit, join, push_hex, push_nat, same_text, split, substring,
    to_ascii_lowercase, to_ascii_uppercase, trim,
};
use super::config;
use super::config::{ChannelConfig, Config, Waveform, CHANNEL_COUNT};
use super::peripheral;
use super::peripheral::{
    read_request, write_response, ChannelState, InstrumentState, SiglentSdg2042X, INPUT_SIZE,
};

verus! {

/// One message to the generator: a command, or a query that is answered.
#[derive(Debug)]
pub struct Exchange {
    pub query: bool,
    pub text: String,
}

/// One message, by its text.
pub ghost struct Message {
    pub query: bool,
    pub text: Seq<char>,
}

impl Exchange {
    /// The message.
    pub open spec fn message(self) -> Message {
        Message { query: self.query, text: self.text@ }
    }
}

/// What came of an exchange: the response (empty behind a command) or the
/// failure, and the number in the offset of a waveform readback.
#[derive(Debug)]
pub struct Reply {
    pub result: Result<String, String>,
    pub offset: Option<Real>,
}

/// The start of the messages of a channel.
pub open spec fn prefix(channel: int) -> Seq<char> {
    "C"@ + text::nat_text(channel as nat)
}

fn start_message(channel: usize) -> (s: String)
    ensures
        s@ == prefix(channel as int),
{
    let mut s = "C".to_owned();
    push_nat(&mut s, channel as u128);
    s
}

/// The command that drives a channel to 0 V DC.
pub open spec fn zero_text(channel: int) -> Seq<char> {
    prefix(channel) + ":BSWV WVTP,DC,OFST,0"@
}

/// The command that opens the relay of a channel.
pub open spec fn off_text(channel: int) -> Seq<char> {
    prefix(channel) + ":OUTP OFF,LOAD,100000"@
}

/// The command that drives a channel to 0 V DC.
pub fn safe_waveform_command(channel_number: usize) -> (s: String)
    ensures
        s@ == zero_text(channel_number as int),
{
    let mut s = start_message(channel_number);
    s.push_str(":BSWV WVTP,DC,OFST,0");
    s
}

fn output_off_command(channel_number: usize) -> (s: String)
    ensures
        s@ == off_text(channel_number as int),
{
    let mut s = start_message(channel_number);
    s.push_str(":OUTP OFF,LOAD,100000");
    s
}

/// ASCII white space: space, tab, line feed, form feed and carriage return.
pub open spec fn ascii_space(c: char) -> bool {
    c == ' ' || c == '\t' || c == '\n' || c == '\u{c}' || c == '\r'
}

/// What stands behind the last ASCII white space of a text.
pub open spec fn last_word(s: Seq<char>) -> Seq<char>
    decreases s.len(),
{
    if s.len() == 0 || ascii_space(s.last()) {
        Seq::empty()
    } else {
        last_word(s.drop_last()).push(s.last())
    }
}

fn word_behind(s: &str) -> (r: String)
    ensures
        r@ == last_word(s@),
{
    let chars = chars_of(s);
    let mut from: usize = chars.len();
    assert(chars@.take(from as int) =~= chars@);
    assert(chars@.subrange(from as int, chars@.len() as int) =~= Seq::<char>::empty());
    assert(last_word(chars@) =~= last_word(chars@.take(from as int)) + chars@.subrange(
        from as int,
        chars@.len() as int,
    ));
    while from > 0 && !(chars[from - 1] == ' ' || chars[from - 1] == '\t' || chars[from - 1] == '\n'
        || chars[from - 1] == '\u{c}' || chars[from - 1] == '\r')
        invariant
            from <= chars@.len(),
            last_word(chars@) == last_word(chars@.take(from as int)) + chars@.subrange(
                from as int,
                chars@.len() as int,
            ),
        decreases from,
    {
        assert(chars@.take(from as int).drop_last() =~= chars@.take(from - 1));
        assert(last_word(chars@) =~= last_word(chars@.take(from - 1)) + chars@.subrange(
            from - 1,
            chars@.len() as int,
        ));
        from = from - 1;
    }
    assert(last_word(chars@) =~= chars@.subrange(from as int, chars@.len() as int));
    substring(chars.as_slice(), from, chars.len())
}

/// Whether the last word of a field is a name, in any case of ASCII letters.
pub open spec fn names_field(token: Seq<char>, name: Seq<char>) -> bool {
    last_word(token).len() > 0 && text::lower_text(last_word(token)) == text::lower_text(name)
}

/// The field behind the first one that ends in a name, from field `i` on.
pub open spec fn value_behind(tokens: Seq<Seq<char>>, name: Seq<char>, i: int) -> Option<Seq<char>>
    decreases tokens.len() - i,
{
    if i < 0 || i >= tokens.len() {
        None
    } else if names_field(text::trimmed(tokens[i]), name) {
        if i + 1 < tokens.len() {
            Some(text::trimmed(tokens[i + 1]))
        } else {
            None
        }
    } else {
        value_behind(tokens, name, i + 1)
    }
}

/// The value of a named field in a comma-delimited response.
pub open spec fn value_of(response: Seq<char>, name: Seq<char>) -> Option<Seq<char>> {
    value_behind(text::split_text(response, ','), name, 0)
}

/// Finds the value following a named comma-delimited response field.
pub fn parameter_value(response: &str, name: &str) -> (r: Option<String>)
    ensures
        match r {
            Some(v) => value_of(response@, name@) == Some(v@),
            None => value_of(response@, name@) is None,
        },
{
    let tokens = split(response, ',');
    let wanted = to_ascii_lowercase(name);
    let ghost all = text::split_text(response@, ',');
    let mut i: usize = 0;
    while i < tokens.len()
        invariant
            i <= tokens@.len(),
            all == text::texts(tokens@),
            all == text::split_text(response@, ','),
            wanted@ == text::lower_text(name@),
            value_of(response@, name@) == value_behind(all, name@, i as int),
        decreases tokens@.len() - i,
    {
        assert(all[i as int] == tokens@[i as int]@);
        let word = word_behind(trim(tokens[i].as_str()).as_str());
        if !word.as_str().is_empty() && same_text(
            to_ascii_lowercase(word.as_str()).as_str(),
            wanted.as_str(),
        ) {
            if i + 1 < tokens.len() {
                assert(all[i + 1] == tokens@[i + 1]@);
                return Some(trim(tokens[i + 1].as_str()));
            }
            return None;
        }
        i = i + 1;
    }
    None
}

/// An ASCII letter.
pub open spec fn ascii_letter(c: char) -> bool {
    'a' <= c <= 'z' || 'A' <= c <= 'Z'
}

/// A text without the ASCII letters at its end.
pub open spec fn without_unit(s: Seq<char>) -> Seq<char>
    decreases s.len(),
{
    if s.len() > 0 && ascii_letter(s.last()) {
        without_unit(s.drop_last())
    } else {
        s
    }
}

fn strip_unit(s: &str) -> (r: String)
    ensures
        r@ == without_unit(s@),
{
    let chars = chars_of(s);
    let mut to: usize = chars.len();
    assert(chars@.take(to as int) =~= chars@);
    while to > 0 && (('a' <= chars[to - 1] && chars[to - 1] <= 'z') || ('A' <= chars[to - 1]
        && chars[to - 1] <= 'Z'))
        invariant
            to <= chars@.len(),
            without_unit(chars@) == without_unit(chars@.take(to as int)),
        decreases to,
    {
        assert(chars@.take(to as int).drop_last() =~= chars@.take(to - 1));
        to = to - 1;
    }
    assert(chars@.subrange(0, to as int) =~= chars@.take(to as int));
    substring(chars.as_slice(), 0, to)
}

/// The text of the offset in a waveform readback, without its unit.
pub open spec fn offset_in(readback: Seq<char>) -> Option<Seq<char>> {
    match value_of(readback, "OFST"@) {
        Some(v) => Some(without_unit(v)),
        None => None,
    }
}

/// The text of the offset in a waveform readback, without its unit: what is to
/// be read as a number.
pub fn offset_text(readback: &str) -> (r: Option<String>)
    ensures
        match r {
            Some(v) => offset_in(readback@) == Some(v@),
            None => offset_in(readback@) is None,
        },
{
    match parameter_value(readback, "OFST") {
        Some(v) => Some(strip_unit(v.as_str())),
        None => None,
    }
}

/// Whether a waveform readback is 0 V DC. `offset` is the number in its offset.
pub open spec fn zero_dc(readback: Seq<char>, offset: Option<Real>) -> bool {
    &&& value_of(readback, "WVTP"@) matches Some(w) && text::lower_text(w) == text::lower_text(
        "DC"@,
    )
    &&& value_of(readback, "OFST"@) is Some
    &&& offset matches Some(x) && x.same(binary64::zero())
}

/// The error of a channel whose waveform is not 0 V DC.
pub open spec fn waveform_error(channel: int, readback: Seq<char>) -> Seq<char> {
    "channel "@ + text::nat_text(channel as nat) + " waveform readback `"@ + readback
        + "` was not 0 V DC"@
}

/// Confirms that a channel reports a zero-offset DC basic waveform. `offset` is
/// the number in the offset of the readback, where there is one.
pub fn verify_safe_waveform(channel_number: usize, readback: &str, offset: Option<Real>) -> (r:
    Result<(), String>)
    ensures
        match r {
            Ok(()) => zero_dc(readback@, offset),
            Err(e) => !zero_dc(readback@, offset) && e@ == waveform_error(
                channel_number as int,
                readback@,
            ),
        },
{
    let dc = match parameter_value(readback, "WVTP") {
        Some(w) => same_text(
            to_ascii_lowercase(w.as_str()).as_str(),
            to_ascii_lowercase("DC").as_str(),
        ),
        None => false,
    };
    let zero = match (parameter_value(readback, "OFST"), offset) {
        (Some(_), Some(x)) => x.equals(Real::zero()),
        _ => false,
    };
    if dc && zero {
        Ok(())
    } else {
        let mut e = "channel ".to_owned();
        push_nat(&mut e, channel_number as u128);
        e.push_str(" waveform readback `");
        e.push_str(readback);
        e.push_str("` was not 0 V DC");
        Err(e)
    }
}

/// How the readback of an output starts.
pub open spec fn output_text(channel: int, enabled: bool, load: Seq<char>) -> Seq<char> {
    prefix(channel) + if enabled {
        ":OUTP ON,LOAD,"@
    } else {
        ":OUTP OFF,LOAD,"@
    } + load
}

/// Whether an output readback starts as expected, in any case of ASCII letters.
pub open spec fn output_is(channel: int, enabled: bool, load: Seq<char>, readback: Seq<char>) -> bool {
    text::starts_with(text::upper_text(readback), output_text(channel, enabled, load))
}

/// The error of a channel whose output is not as expected.
pub open spec fn output_error(
    channel: int,
    enabled: bool,
    load: Seq<char>,
    readback: Seq<char>,
) -> Seq<char> {
    "channel "@ + text::nat_text(channel as nat) + " output readback `"@ + readback
        + "` did not start with `"@ + output_text(channel, enabled, load) + "`"@
}

/// Confirms both relay state and load compensation from an output readback.
pub fn verify_output_state(channel_number: usize, enabled: bool, load: &str, readback: &str) -> (r:
    Result<(), String>)
    ensures
        match r {
            Ok(()) => output_is(channel_number as int, enabled, load@, readback@),
            Err(e) => !output_is(channel_number as int, enabled, load@, readback@) && e@
                == output_error(channel_number as int, enabled, load@, readback@),
        },
{
    let mut expected = start_message(channel_number);
    if enabled {
        expected.push_str(":OUTP ON,LOAD,");
    } else {
        expected.push_str(":OUTP OFF,LOAD,");
    }
    expected.push_str(load);
    if has_prefix(to_ascii_uppercase(readback).as_str(), expected.as_str()) {
        Ok(())
    } else {
        let mut e = "channel ".to_owned();
        push_nat(&mut e, channel_number as u128);
        e.push_str(" output readback `");
        e.push_str(readback);
        e.push_str("` did not start with `");
        e.push_str(expected.as_str());
        e.push_str("`");
        Err(e)
    }
}

/// Checks the answer to a completion query.
pub fn expect_operation_complete(response: &str) -> (r: Result<(), String>)
    ensures
        match r {
            Ok(()) => text::trimmed(response@) == "1"@,
            Err(e) => text::trimmed(response@) != "1"@ && e@ == "unexpected *OPC? response `"@
                + response@ + "`"@,
        },
{
    if same_text(trim(response).as_str(), "1") {
        Ok(())
    } else {
        let mut e = "unexpected *OPC? response `".to_owned();
        e.push_str(response);
        e.push_str("`");
        Err(e)
    }
}

/// The number in an event-status response: its last word, a numeral of at most 255.
pub open spec fn status_number(response: Seq<char>) -> Option<int> {
    let word = last_word(text::trimmed(response));
    if text::numeral(word) && text::decimal_value(word) <= 255 {
        Some(text::decimal_value(word))
    } else {
        None
    }
}

/// The query, device, execution and command error bits of an event status.
pub open spec fn error_bits(status: int) -> int {
    status / 4 % 16 * 4
}

/// Why an event status is an error.
pub open spec fn status_fault(response: Seq<char>) -> Option<Seq<char>> {
    match status_number(response) {
        None => Some("unexpected *ESR? response `"@ + response + "`"@),
        Some(n) => if error_bits(n) != 0 {
            Some(
                "event status register reported SCPI error bits "@ + text::nat_text(
                    error_bits(n) as nat,
                ),
            )
        } else {
            None
        },
    }
}

fn read_status(response: &str) -> (r: Option<u32>)
    ensures
        match r {
            Some(n) => status_number(response@) == Some(n as int),
            None => status_number(response@) is None,
        },
{
    let word = chars_of(word_behind(trim(response).as_str()).as_str());
    if word.len() == 0 {
        return None;
    }
    let mut value: u32 = 0;
    let mut i: usize = 0;
    assert(word@.take(0) =~= Seq::<char>::empty());
    while i < word.len()
        invariant
            i <= word@.len(),
            word@ == last_word(text::trimmed(response@)),
            forall|k: int| 0 <= k < i ==> text::ascii_digit(#[trigger] word@[k]),
            0 <= text::decimal_value(word@.take(i as int)),
            value == if text::decimal_value(word@.take(i as int)) <= 255 {
                text::decimal_value(word@.take(i as int))
            } else {
                256
            },
        decreases word@.len() - i,
    {
        if !is_ascii_digit(word[i]) {
            assert(!text::ascii_digit(word@[i as int]));
            return None;
        }
        assert(word@.take(i + 1).drop_last() =~= word@.take(i as int));
        let next: u32 = value * 10 + (word[i] as u32 - '0' as u32);
        value = if next <= 255 {
            next
        } else {
            256
        };
        i = i + 1;
    }
    assert(word@.take(word@.len() as int) =~= word@);
    if value <= 255 {
        Some(value)
    } else {
        None
    }
}

/// Checks the event status behind a setup for SCPI errors.
pub fn check_event_status(response: &str) -> (r: Result<(), String>)
    ensures
        match r {
            Ok(()) => status_fault(response@) is None,
            Err(e) => status_fault(response@) == Some(e@),
        },
{
    match read_status(response) {
        None => {
            let mut e = "unexpected *ESR? response `".to_owned();
            e.push_str(response);
            e.push_str("`");
            Err(e)
        },
        Some(status) => {
            let found: u32 = status / 4 % 16 * 4;
            if found != 0 {
                let mut e = "event status register reported SCPI error bits ".to_owned();
                push_nat(&mut e, found as u128);
                Err(e)
            } else {
                Ok(())
            }
        },
    }
}

/// Number of exchanges that make both outputs safe.
pub const SAFE_STEPS: usize = 10;

/// The channel that an exchange of the safe sequence is about.
pub open spec fn safe_channel_at(i: int) -> int {
    if i == 0 || i == 3 || i == 5 || i == 8 {
        1
    } else {
        2
    }
}

/// The exchanges that make both outputs safe: both channels to 0 V DC, then both
/// relays open, each verified.
pub open spec fn safe_message(i: int) -> Message {
    let channel = safe_channel_at(i);
    if i < 2 {
        Message { query: false, text: zero_text(channel) }
    } else if i == 2 || i == 7 {
        Message { query: true, text: "*OPC?"@ }
    } else if i < 5 {
        Message { query: true, text: prefix(channel) + ":BSWV?"@ }
    } else if i < 7 {
        Message { query: false, text: off_text(channel) }
    } else {
        Message { query: true, text: prefix(channel) + ":OUTP?"@ }
    }
}

/// Why the reply to an exchange of the safe sequence is not good, before it is
/// said which exchange it was.
pub open spec fn safe_cause(i: int, reply: Reply) -> Option<Seq<char>> {
    let channel = safe_channel_at(i);
    match reply.result {
        Err(e) => Some(e@),
        Ok(response) => if i == 2 || i == 7 {
            if text::trimmed(response@) == "1"@ {
                None
            } else {
                Some("unexpected *OPC? response `"@ + response@ + "`"@)
            }
        } else if i == 3 || i == 4 {
            if zero_dc(response@, reply.offset) {
                None
            } else {
                Some(waveform_error(channel, response@))
            }
        } else if i == 8 || i == 9 {
            if output_is(channel, false, "100000"@, response@) {
                None
            } else {
                Some(output_error(channel, false, "100000"@, response@))
            }
        } else {
            None
        },
    }
}

/// How the error of an exchange of the safe sequence starts.
pub open spec fn safe_context(i: int) -> Seq<char> {
    let channel = "channel "@ + text::nat_text(safe_channel_at(i) as nat);
    if i < 2 {
        channel + " zero command: "@
    } else if i == 2 {
        "zero completion: "@
    } else if i < 5 {
        channel + " zero readback: "@
    } else if i < 7 {
        channel + " output-off command: "@
    } else if i == 7 {
        "output-off completion: "@
    } else {
        channel + " output-off readback: "@
    }
}

/// The errors of the safe sequence behind some replies.
pub open spec fn safe_errors(replies: Seq<Reply>) -> Seq<Seq<char>>
    decreases replies.len(),
{
    if replies.len() == 0 {
        Seq::empty()
    } else {
        let before = safe_errors(replies.drop_last());
        let i = replies.len() - 1;
        match safe_cause(i, replies.last()) {
            Some(cause) => before.push(safe_context(i) + cause),
            None => before,
        }
    }
}

fn channel_of_safe(i: usize) -> (r: usize)
    ensures
        r == safe_channel_at(i as int),
{
    if i == 0 || i == 3 || i == 5 || i == 8 {
        1
    } else {
        2
    }
}

/// A run of the sequence that makes both outputs safe. Every step is tried:
/// errors are accumulated so failure on one channel does not skip the other.
#[derive(Debug)]
pub struct SafeRun {
    pub step: usize,
    pub errors: Vec<String>,
}

impl SafeRun {
    /// Nothing done yet.
    pub fn new() -> (r: Self)
        ensures
            r.step == 0,
            text::texts(r.errors@) == safe_errors(Seq::empty()),
    {
        let r = SafeRun { step: 0, errors: Vec::new() };
        assert(text::texts(r.errors@) =~= safe_errors(Seq::empty()));
        r
    }

    /// The exchange to perform, while there is one.
    pub fn next(&self) -> (r: Option<Exchange>)
        ensures
            match r {
                Some(x) => self.step < SAFE_STEPS && x.message() == safe_message(self.step as int),
                None => self.step >= SAFE_STEPS,
            },
    {
        let i = self.step;
        if i >= SAFE_STEPS {
            return None;
        }
        let channel = channel_of_safe(i);
        let r = if i < 2 {
            Exchange { query: false, text: safe_waveform_command(channel) }
        } else if i == 2 || i == 7 {
            Exchange { query: true, text: "*OPC?".to_owned() }
        } else if i < 5 {
            let mut s = start_message(channel);
            s.push_str(":BSWV?");
            Exchange { query: true, text: s }
        } else if i < 7 {
            Exchange { query: false, text: output_off_command(channel) }
        } else {
            let mut s = start_message(channel);
            s.push_str(":OUTP?");
            Exchange { query: true, text: s }
        };
        Some(r)
    }

    fn cause(&self, reply: Reply) -> (r: Option<String>)
        ensures
            match r {
                Some(e) => safe_cause(self.step as int, reply) == Some(e@),
                None => safe_cause(self.step as int, reply) is None,
            },
    {
        let i = self.step;
        let channel = channel_of_safe(i);
        let outcome = match reply.result {
            Err(e) => Err(e),
            Ok(response) => if i == 2 || i == 7 {
                expect_operation_complete(response.as_str())
            } else if i == 3 || i == 4 {
                verify_safe_waveform(channel, response.as_str(), reply.offset)
            } else if i == 8 || i == 9 {
                verify_output_state(channel, false, "100000", response.as_str())
            } else {
                Ok(())
            },
        };
        match outcome {
            Ok(()) => None,
            Err(e) => Some(e),
        }
    }

    /// Takes the reply to the exchange of this step and goes on to the next one.
    pub fn record(&mut self, reply: Reply)
        requires
            old(self).step < SAFE_STEPS,
        ensures
            final(self).step == old(self).step + 1,
            text::texts(final(self).errors@) == match safe_cause(old(self).step as int, reply) {
                Some(cause) => text::texts(old(self).errors@).push(
                    safe_context(old(self).step as int) + cause,
                ),
                None => text::texts(old(self).errors@),
            },
    {
        broadcast use text::lemma_texts_push;

        let i = self.step;
        if let Some(cause) = self.cause(reply) {
            let mut e = String::new();
            if i != 2 && i != 7 {
                e.push_str("channel ");
                push_nat(&mut e, channel_of_safe(i) as u128);
            }
            if i < 2 {
                e.push_str(" zero command: ");
            } else if i == 2 {
                e.push_str("zero completion: ");
            } else if i < 5 {
                e.push_str(" zero readback: ");
            } else if i < 7 {
                e.push_str(" output-off command: ");
            } else if i == 7 {
                e.push_str("output-off completion: ");
            } else {
                e.push_str(" output-off readback: ");
            }
            assert(e@ =~= safe_context(i as int));
            e.push_str(cause.as_str());
            self.errors.push(e);
        }
        self.step = self.step + 1;
    }

    /// The outcome: all errors, or success where there was none.
    pub fn finish(&self) -> (r: Result<(), String>)
        ensures
            match r {
                Ok(()) => self.errors@.len() == 0,
                Err(e) => self.errors@.len() > 0 && e@ == text::joined(
                    text::texts(self.errors@),
                    "; "@,
                ),
            },
    {
        if self.errors.len() == 0 {
            Ok(())
        } else {
            Err(join(self.errors.as_slice(), "; "))
        }
    }
}

/// Number of exchanges of a setup.
pub const SETUP_STEPS: usize = 18;

/// The exchanges of a setup: identity, the safe sequence, then for each channel
/// its load with two readbacks, and the event status.
pub open spec fn setup_message(config: Config, i: int) -> Message {
    let channel = (i - 11) / 3;
    if i == 0 {
        Message { query: true, text: "*IDN?"@ }
    } else if i <= 10 {
        safe_message(i - 1)
    } else if i == 17 {
        Message { query: true, text: "*ESR?"@ }
    } else if (i - 11) % 3 == 0 {
        Message {
            query: false,
            text: prefix(channel + 1) + ":OUTP LOAD,"@ + config.channels[channel].load.name(),
        }
    } else if (i - 11) % 3 == 1 {
        Message { query: true, text: prefix(channel + 1) + ":OUTP?"@ }
    } else {
        Message { query: true, text: prefix(channel + 1) + ":BSWV?"@ }
    }
}

/// Why the reply to an exchange of a setup ends it, for the exchanges outside of
/// the safe sequence.
pub open spec fn setup_cause(config: Config, i: int, reply: Reply) -> Option<Seq<char>> {
    let channel = (i - 11) / 3;
    match reply.result {
        Err(e) => Some(e@),
        Ok(response) => if i == 0 {
            if scpi::identity_matches(
                response@,
                config.connection.expected_vendor@,
                config.connection.expected_model@,
            ) {
                None
            } else {
                Some(
                    "identity `"@ + response@ + "` did not match "@
                        + config.connection.expected_vendor@ + " "@
                        + config.connection.expected_model@,
                )
            }
        } else if i == 17 {
            status_fault(response@)
        } else if (i - 11) % 3 == 0 {
            None
        } else if (i - 11) % 3 == 1 {
            if output_is(channel + 1, false, config.channels[channel].load.name(), response@) {
                None
            } else {
                Some(
                    output_error(
                        channel + 1,
                        false,
                        config.channels[channel].load.name(),
                        response@,
                    ),
                )
            }
        } else {
            if zero_dc(response@, reply.offset) {
                None
            } else {
                Some(waveform_error(channel + 1, response@))
            }
        },
    }
}

/// A run of the setup: it verifies the model and establishes a safe baseline
/// that is read back.
#[derive(Debug)]
pub struct SetupRun {
    pub step: usize,
    pub safe: SafeRun,
    pub identity: Option<String>,
}

impl SetupRun {
    /// The step fits the part of the safe sequence that is done.
    pub open spec fn wf(self) -> bool {
        self.safe.step == if self.step <= 1 {
            0
        } else if self.step <= 11 {
            self.step - 1
        } else {
            SAFE_STEPS as int
        }
    }

    /// Nothing done yet.
    pub fn new() -> (r: Self)
        ensures
            r.step == 0,
            r.safe.errors@.len() == 0,
            r.identity is None,
            r.wf(),
    {
        SetupRun { step: 0, safe: SafeRun { step: 0, errors: Vec::new() }, identity: None }
    }

    /// The exchange to perform, while there is one.
    pub fn next(&self, config: &Config) -> (r: Option<Exchange>)
        requires
            self.wf(),
        ensures
            match r {
                Some(x) => self.step < SETUP_STEPS && x.message() == setup_message(
                    *config,
                    self.step as int,
                ),
                None => self.step >= SETUP_STEPS,
            },
    {
        let i = self.step;
        if i >= SETUP_STEPS {
            return None;
        }
        if i == 0 {
            return Some(Exchange { query: true, text: "*IDN?".to_owned() });
        }
        if i <= 10 {
            return self.safe.next();
        }
        if i == 17 {
            return Some(Exchange { query: true, text: "*ESR?".to_owned() });
        }
        let channel: usize = (i - 11) / 3;
        let mut s = start_message(channel + 1);
        if (i - 11) % 3 == 0 {
            s.push_str(":OUTP LOAD,");
            s.push_str(self::load_name(config, channel).as_str());
            Some(Exchange { query: false, text: s })
        } else if (i - 11) % 3 == 1 {
            s.push_str(":OUTP?");
            Some(Exchange { query: true, text: s })
        } else {
            s.push_str(":BSWV?");
            Some(Exchange { query: true, text: s })
        }
    }

    /// Takes the reply to the exchange of this step. An error ends the setup.
    /// The errors of the safe sequence are accumulated until its last step.
    pub fn record(&mut self, config: &Config, reply: Reply) -> (r: Result<(), String>)
        requires
            old(self).wf(),
            old(self).step < SETUP_STEPS,
        ensures
            final(self).wf(),
            final(self).step == old(self).step + 1,
            1 <= old(self).step <= 10 ==> text::texts(final(self).safe.errors@) == match safe_cause(
                old(self).step - 1,
                reply,
            ) {
                Some(cause) => text::texts(old(self).safe.errors@).push(
                    safe_context(old(self).step - 1) + cause,
                ),
                None => text::texts(old(self).safe.errors@),
            },
            !(1 <= old(self).step <= 10) ==> final(self).safe == old(self).safe,
            old(self).step > 0 ==> final(self).identity == old(self).identity,
            old(self).step == 0 && r is Ok ==> (final(self).identity matches Some(id)
                && reply.result == Ok::<String, String>(id)),
            match r {
                Ok(()) => {
                    &&& old(self).step == 10 ==> final(self).safe.errors@.len() == 0
                    &&& !(1 <= old(self).step <= 10) ==> setup_cause(
                        *config,
                        old(self).step as int,
                        reply,
                    ) is None
                },
                Err(e) => {
                    ||| old(self).step == 10 && final(self).safe.errors@.len() > 0 && e@
                        == text::joined(text::texts(final(self).safe.errors@), "; "@)
                    ||| !(1 <= old(self).step <= 10) && setup_cause(
                        *config,
                        old(self).step as int,
                        reply,
                    ) == Some(e@)
                },
            },
    {
        let i = self.step;
        self.step = i + 1;
        if 1 <= i && i <= 10 {
            self.safe.record(reply);
            if i == 10 {
                return self.safe.finish();
            }
            return Ok(());
        }
        let response = match reply.result {
            Err(e) => {
                return Err(e);
            },
            Ok(response) => response,
        };
        if i == 0 {
            config.connection.validate_identity(response.as_str())?;
            self.identity = Some(response);
            return Ok(());
        }
        if i == 17 {
            return check_event_status(response.as_str());
        }
        let channel: usize = (i - 11) / 3;
        if (i - 11) % 3 == 0 {
            Ok(())
        } else if (i - 11) % 3 == 1 {
            verify_output_state(
                channel + 1,
                false,
                self::load_name(config, channel).as_str(),
                response.as_str(),
            )
        } else {
            verify_safe_waveform(channel + 1, response.as_str(), reply.offset)
        }
    }
}

fn load_name(config: &Config, channel: usize) -> (s: String)
    requires
        channel < CHANNEL_COUNT,
    ensures
        s@ == config.channels[channel as int].load.name(),
{
    config.channels[channel].load.scpi()
}

/// The numbers of a channel command as they stand in commands. The duty cycle is
/// in percent.
#[derive(Debug)]
pub struct ChannelNumbers {
    pub frequency_hz: String,
    pub amplitude_vpp: String,
    pub offset_voltage_v: String,
    pub stdev: String,
    pub duty_percent: String,
    pub phase_deg: String,
}

/// One field of a command, where the waveform has it.
pub open spec fn field(there: bool, name: Seq<char>, value: Seq<char>) -> Seq<char> {
    if there {
        name + value
    } else {
        Seq::empty()
    }
}

/// The command that selects a waveform with the fields that it has.
pub open spec fn wave_text(channel: int, waveform: Waveform, numbers: ChannelNumbers) -> Seq<char> {
    prefix(channel) + ":BSWV WVTP,"@ + waveform.name() + field(
        waveform.periodic(),
        ",FRQ,"@,
        numbers.frequency_hz@,
    ) + field(waveform.periodic(), ",AMP,"@, numbers.amplitude_vpp@) + field(
        waveform != Waveform::Noise,
        ",OFST,"@,
        numbers.offset_voltage_v@,
    ) + field(waveform == Waveform::Noise, ",MEAN,"@, numbers.offset_voltage_v@) + field(
        waveform == Waveform::Noise,
        ",STDEV,"@,
        numbers.stdev@,
    ) + field(waveform.dutied(), ",DUTY,"@, numbers.duty_percent@) + field(
        waveform.phased(),
        ",PHSE,"@,
        numbers.phase_deg@,
    )
}

fn push_field(s: &mut String, there: bool, name: &str, value: &str)
    ensures
        final(s)@ == old(s)@ + field(there, name@, value@),
{
    if there {
        s.push_str(name);
        s.push_str(value);
    }
    assert(s@ =~= old(s)@ + field(there, name@, value@));
}

/// Renders the subset of `BSWV` fields applicable to the configured waveform.
pub fn basic_wave_command(channel_number: usize, config: &ChannelConfig, numbers: &ChannelNumbers) -> (s:
    String)
    ensures
        s@ == wave_text(channel_number as int, config.waveform, *numbers),
{
    let waveform = config.waveform;
    let mut s = start_message(channel_number);
    s.push_str(":BSWV WVTP,");
    s.push_str(waveform.scpi());
    push_field(&mut s, waveform.uses_frequency(), ",FRQ,", numbers.frequency_hz.as_str());
    push_field(&mut s, waveform.uses_amplitude(), ",AMP,", numbers.amplitude_vpp.as_str());
    push_field(&mut s, waveform.uses_offset(), ",OFST,", numbers.offset_voltage_v.as_str());
    push_field(&mut s, !waveform.uses_offset(), ",MEAN,", numbers.offset_voltage_v.as_str());
    push_field(&mut s, !waveform.uses_offset(), ",STDEV,", numbers.stdev.as_str());
    push_field(&mut s, waveform.uses_duty(), ",DUTY,", numbers.duty_percent.as_str());
    push_field(&mut s, waveform.uses_phase(), ",PHSE,", numbers.phase_deg.as_str());
    s
}

/// The commands that bring one channel to its desired state.
pub open spec fn channel_commands(
    channel: int,
    config: ChannelConfig,
    desired: ChannelState,
    numbers: ChannelNumbers,
) -> Seq<Seq<char>> {
    if desired.enabled.same(binary64::zero()) {
        seq![zero_text(channel), off_text(channel)]
    } else {
        seq![
            wave_text(channel, config.waveform, numbers),
            output_text(channel, true, config.load.name()),
        ]
    }
}

fn push_channel(
    v: &mut Vec<String>,
    channel: usize,
    config: &ChannelConfig,
    desired: ChannelState,
    numbers: &ChannelNumbers,
)
    ensures
        text::texts(final(v)@) == text::texts(old(v)@) + channel_commands(
            channel as int,
            *config,
            desired,
            *numbers,
        ),
{
    if desired.enabled.equals(Real::zero()) {
        v.push(safe_waveform_command(channel));
        v.push(output_off_command(channel));
    } else {
        v.push(basic_wave_command(channel, config, numbers));
        let mut s = start_message(channel);
        s.push_str(":OUTP ON,LOAD,");
        s.push_str(config.load.scpi().as_str());
        v.push(s);
    }
    assert(text::texts(v@) =~= text::texts(old(v)@) + channel_commands(
        channel as int,
        *config,
        desired,
        *numbers,
    ));
}

/// The commands that reassert all channel values and relay states, in order. A
/// channel is configured before its relay closes, and disabling sends 0 V DC
/// before opening its relay.
pub fn apply_request(
    config: &Config,
    request: InstrumentState,
    numbers1: &ChannelNumbers,
    numbers2: &ChannelNumbers,
) -> (v: Vec<String>)
    ensures
        text::texts(v@) == channel_commands(1, config.channels[0], request.ch1, *numbers1)
            + channel_commands(2, config.channels[1], request.ch2, *numbers2),
{
    let mut v: Vec<String> = Vec::new();
    push_channel(&mut v, 1, &config.channels[0], request.ch1, numbers1);
    push_channel(&mut v, 2, &config.channels[1], request.ch2, numbers2);
    assert(text::texts(v@) =~= channel_commands(1, config.channels[0], request.ch1, *numbers1)
        + channel_commands(2, config.channels[1], request.ch2, *numbers2));
    v
}

/// Preserves an operating failure without concealing a later safing failure.
pub fn combine_worker_results(
    run_result: Result<(), String>,
    shutdown_result: Result<(), String>,
) -> (r: Result<(), String>)
    ensures
        r is Ok <==> run_result is Ok && shutdown_result is Ok,
        r matches Err(e) ==> e@ == match (run_result, shutdown_result) {
            (Err(err), Err(shutdown_err)) => err@
                + "; additionally failed to apply safe state during shutdown: "@ + shutdown_err@,
            (Err(err), Ok(())) => err@,
            (Ok(()), Err(err)) => "failed to apply safe state during shutdown: "@ + err@,
            (Ok(()), Ok(())) => Seq::empty(),
        },
{
    match (run_result, shutdown_result) {
        (Err(err), Err(shutdown_err)) => {
            let mut e = err;
            e.push_str("; additionally failed to apply safe state during shutdown: ");
            e.push_str(shutdown_err.as_str());
            Err(e)
        },
        (Err(err), Ok(())) => Err(err),
        (Ok(()), Err(err)) => {
            let mut e = "failed to apply safe state during shutdown: ".to_owned();
            e.push_str(err.as_str());
            Err(e)
        },
        (Ok(()), Ok(())) => Ok(()),
    }
}

/// What the worker does next.
#[derive(Debug, Clone, Copy, PartialEq, Eq, Structural)]
pub enum WorkerJob {
    /// Make the outputs safe and end.
    Stop,
    /// Wait for a change, 20 ms at most.
    Wait,
    /// Send this complete state.
    Apply(InstrumentState),
}

/// Validated configuration plus the state shared between the real-time responder
/// and the blocking worker.
///
/// Every valid controller packet replaces `next` without comparison. A safe
/// state requested on loss of contact takes priority over `next`, and `applied`
/// changes only after every command for it was sent.
#[derive(Debug)]
pub struct SiglentSdg2042XDriver {
    pub config: Config,
    pub channel_name: String,
    /// Separate from `next` so safety cannot be overwritten by a later command.
    pub safe_state_pending: bool,
    /// Latest coherent controller state not yet owned by the worker.
    pub next: Option<InstrumentState>,
    /// Published only after all commands for both channels were sent.
    pub applied: InstrumentState,
    pub status: WorkerStatus,
}

impl SiglentSdg2042XDriver {
    /// The configuration is valid.
    pub open spec fn wf(self) -> bool {
        self.config.fault() is None
    }

    /// The state that the worker takes next.
    pub open spec fn pending(self) -> Option<InstrumentState> {
        if self.safe_state_pending {
            Some(peripheral::safe_state())
        } else {
            self.next
        }
    }

    /// The fields that only setup and the worker change.
    pub open spec fn same_identity(self, other: Self) -> bool {
        self.config == other.config && self.channel_name == other.channel_name && self.status
            == other.status
    }

    /// Constructs a driver with validated settings without connecting it.
    pub fn new(config: Config) -> (r: Result<Self, String>)
        ensures
            match r {
                Ok(d) => {
                    &&& config.fault() is None
                    &&& d.wf()
                    &&& d.config == config
                    &&& d.channel_name@ == "instrument-sdg2042x-"@ + text::hex_text(
                        config.connection.serial_number as nat,
                        16,
                    )
                    &&& !d.safe_state_pending
                    &&& d.next is None
                    &&& d.applied == peripheral::safe_state()
                    &&& d.status.identity is None
                    &&& d.status.error is None
                },
                Err(e) => config.fault() == Some(e@),
            },
    {
        config.validate()?;
        let mut channel_name = "instrument-sdg2042x-".to_owned();
        push_hex(&mut channel_name, config.connection.serial_number, 16);
        Ok(
            SiglentSdg2042XDriver {
                config,
                channel_name,
                safe_state_pending: false,
                next: None,
                applied: InstrumentState::default(),
                status: WorkerStatus { identity: None, error: None },
            },
        )
    }

    /// The pure peripheral paired with this driver.
    pub fn peripheral(&self) -> (r: SiglentSdg2042X)
        ensures
            r.serial_number == self.config.connection.serial_number,
    {
        SiglentSdg2042X::new(self.config.connection.serial_number)
    }

    /// The internal thread-channel name expected by the driver.
    pub fn channel_name(&self) -> (r: &str)
        ensures
            r@ == self.channel_name@,
    {
        self.channel_name.as_str()
    }

    /// The validated SCPI identity after successful startup.
    pub fn identity(&self) -> (r: Option<String>)
        ensures
            r == self.status.identity,
    {
        self.status.identity()
    }

    /// Budgets the queries and commands of the setup.
    pub fn startup_timeout(&self) -> (r: Span)
        requires
            self.config.connection.valid_timeouts(),
        ensures
            r.ns == self.config.connection.startup_ns(12, 6, 0),
            r.valid(),
    {
        self.config.connection.startup_timeout(12, 6, Span::from_nanos(0))
    }

    /// Whether `after` is the driver with this command queued.
    pub open spec fn queues(self, request: InstrumentState, after: Self) -> bool {
        &&& after.next == Some(request.normal(self.config.channels))
        &&& after.safe_state_pending == self.safe_state_pending
        &&& after.applied == self.applied
        &&& after.same_identity(self)
    }

    /// Whether `after` is the driver with the safe state queued, and nothing else.
    pub open spec fn queues_safe_state(self, after: Self) -> bool {
        &&& after.safe_state_pending
        &&& after.next is None
        &&& after.applied == self.applied
        &&& after.same_identity(self)
    }

    /// Whether `r` is the pending state and `after` the driver without it.
    pub open spec fn gives(self, r: Option<InstrumentState>, after: Self) -> bool {
        &&& r == self.pending()
        &&& !after.safe_state_pending
        &&& after.next == if self.safe_state_pending {
            self.next
        } else {
            None
        }
        &&& after.applied == self.applied
        &&& after.same_identity(self)
    }

    /// Replaces the queued command with one normalized complete state.
    pub fn submit(&mut self, request: InstrumentState)
        requires
            old(self).wf(),
        ensures
            final(self).wf(),
            old(self).queues(request, *final(self)),
    {
        self.next = Some(request.normalized(&self.config.channels));
    }

    /// Queues the disabled safe state. A command from before is stale.
    pub fn request_safe_state(&mut self)
        ensures
            old(self).queues_safe_state(*final(self)),
    {
        self.safe_state_pending = true;
        self.next = None;
    }

    /// Takes the pending state: the safe one first, while a newer command stays.
    pub fn take_pending(&mut self) -> (r: Option<InstrumentState>)
        ensures
            old(self).gives(r, *final(self)),
    {
        if self.safe_state_pending {
            self.safe_state_pending = false;
            Some(InstrumentState::default())
        } else {
            self.next.take()
        }
    }

    /// What the worker does next. What it applies is taken from the queue.
    pub fn next_job(&mut self, stop: bool) -> (job: WorkerJob)
        ensures
            final(self).applied == old(self).applied,
            final(self).same_identity(*old(self)),
            stop ==> job == WorkerJob::Stop,
            !stop && old(self).pending() is None ==> job == WorkerJob::Wait,
            !stop ==> (old(self).pending() matches Some(s) ==> job == WorkerJob::Apply(s)),
            stop ==> final(self).pending() == old(self).pending() && final(self).next == old(
                self).next,
            !stop ==> !final(self).safe_state_pending && final(self).next == if old(
                self,
            ).safe_state_pending {
                old(self).next
            } else {
                None
            },
    {
        if stop {
            return WorkerJob::Stop;
        }
        match self.take_pending() {
            Some(state) => WorkerJob::Apply(state),
            None => WorkerJob::Wait,
        }
    }

    /// Publishes a state after all its commands were sent, or says why the worker
    /// ends.
    pub fn completed(&mut self, request: InstrumentState, result: Result<(), String>) -> (r: Result<
        (),
        String,
    >)
        ensures
            final(self).next == old(self).next,
            final(self).safe_state_pending == old(self).safe_state_pending,
            final(self).same_identity(*old(self)),
            match result {
                Ok(()) => r is Ok && final(self).applied == request,
                Err(err) => final(self).applied == old(self).applied && (r matches Err(e) && e@
                    == "failed to apply commanded state: "@ + err@),
            },
    {
        match result {
            Ok(()) => {
                self.applied = request;
                Ok(())
            },
            Err(err) => {
                let mut e = "failed to apply commanded state: ".to_owned();
                e.push_str(err.as_str());
                Err(e)
            },
        }
    }

    /// The last completely applied state or a latched worker error.
    pub fn applied(&self) -> (r: Result<InstrumentState, String>)
        ensures
            match r {
                Ok(s) => self.status.error is None && s == self.applied,
                Err(e) => self.status.error == Some(e),
            },
    {
        match self.status.error() {
            Some(e) => Err(e),
            None => Ok(self.applied),
        }
    }

    /// A latched worker error.
    pub fn latched_error(&self) -> (r: Option<String>)
        ensures
            r == self.status.error,
    {
        self.status.error()
    }

    /// Takes the state of a request and gives its packet ID.
    pub fn process_request(&mut self, packet: &[u8]) -> (id: u64)
        requires
            old(self).wf(),
            packet.len() >= INPUT_SIZE,
        ensures
            id == bytes::le_value(packet@.subrange(0, 8)),
            final(self).wf(),
            final(self).next == Some(
                peripheral::requested(packet@).normal(old(self).config.channels),
            ),
            final(self).safe_state_pending == old(self).safe_state_pending,
            final(self).applied == old(self).applied,
            final(self).same_identity(*old(self)),
    {
        self.submit(read_request(packet));
        request_id(packet)
    }

    /// Encodes the response: metrics and the applied state.
    pub fn write_response(&self, metrics: &[u8]) -> (r: Result<Vec<u8>, String>)
        ensures
            match r {
                Ok(v) => self.status.error is None && v@ == packets::response_bytes(
                    metrics@,
                    self.applied.list(),
                ),
                Err(e) => self.status.error == Some(e),
            },
    {
        let state = self.applied()?;
        Ok(write_response(metrics, state))
    }
}

/// The startup error of a failed connection or setup.
pub fn startup_error(connected: bool, error: &str) -> (s: String)
    ensures
        s@ == if connected {
            "SDG2042X setup failed: "@
        } else {
            "SDG2042X connection failed: "@
        } + error@,
{
    let mut s = if connected {
        "SDG2042X setup failed: ".to_owned()
    } else {
        "SDG2042X connection failed: ".to_owned()
    };
    s.push_str(error);
    s
}

/// The error of the worker as it is latched.
pub fn worker_error(error: &str) -> (s: String)
    ensures
        s@ == "SDG2042X: "@ + error@,
{
    let mut s = "SDG2042X: ".to_owned();
    s.push_str(error);
    s
}

/// In the safe sequence each channel is driven to 0 V DC before any relay opens,
/// and all four are read back.
pub proof fn law_zero_precedes_open_relays(channel: int)
    requires
        channel == 1 || channel == 2,
    ensures
        safe_message(channel - 1) == (Message { query: false, text: zero_text(channel) }),
        safe_message(channel + 2) == (Message { query: true, text: prefix(channel) + ":BSWV?"@ }),
        safe_message(channel + 4) == (Message { query: false, text: off_text(channel) }),
        safe_message(channel + 7) == (Message { query: true, text: prefix(channel) + ":OUTP?"@ }),
{
}

/// The safe sequence succeeds only where each reply was good: then both channels
/// read back 0 V DC and an open relay.
pub proof fn law_safe_outputs_are_verified(replies: Seq<Reply>, i: int)
    requires
        safe_errors(replies).len() == 0,
        0 <= i < replies.len(),
    ensures
        safe_cause(i, replies[i]) is None,
        i == 3 || i == 4 ==> (replies[i].result matches Ok(s) && zero_dc(s@, replies[i].offset)),
        i == 8 || i == 9 ==> (replies[i].result matches Ok(s) && output_is(
            safe_channel_at(i),
            false,
            "100000"@,
            s@,
        )),
    decreases replies.len(),
{
    if i < replies.len() - 1 {
        law_safe_outputs_are_verified(replies.drop_last(), i);
        assert(replies.drop_last()[i] == replies[i]);
    }
}

/// A requested safe state is what the worker takes next, whatever was commanded
/// before or since. A command that came since is taken after it, as it is where it
/// is within the configured ranges, and one from before is never taken. The drivers
/// are those behind each of the calls: a command, the safe state, another command,
/// and three takes.
pub proof fn law_safe_state_comes_first(
    start: SiglentSdg2042XDriver,
    old_request: InstrumentState,
    commanded: SiglentSdg2042XDriver,
    asked: SiglentSdg2042XDriver,
    new_request: InstrumentState,
    since: SiglentSdg2042XDriver,
    taken: Seq<Option<InstrumentState>>,
    after: Seq<SiglentSdg2042XDriver>,
)
    requires
        start.queues(old_request, commanded),
        commanded.queues_safe_state(asked),
        asked.queues(new_request, since),
        taken.len() == 3,
        after.len() == 3,
        since.gives(taken[0], after[0]),
        after[0].gives(taken[1], after[1]),
        after[1].gives(taken[2], after[2]),
    ensures
        taken == seq![
            Some(peripheral::safe_state()),
            Some(new_request.normal(start.config.channels)),
            None,
        ],
        new_request.within(start.config.channels) ==> taken[1] == Some(new_request),
{
    if new_request.within(start.config.channels) {
        peripheral::law_commands_in_range_are_kept(new_request, start.config.channels);
    }
}

/// A disabled channel is sent 0 V DC and then its open relay; an enabled one is
/// configured before its relay closes. Both channels are always sent.
pub proof fn law_full_state_is_reasserted(
    config: Config,
    request: InstrumentState,
    numbers1: ChannelNumbers,
    numbers2: ChannelNumbers,
)
    ensures
        ({
            let sent = channel_commands(1, config.channels[0], request.ch1, numbers1)
                + channel_commands(2, config.channels[1], request.ch2, numbers2);
            &&& sent.len() == 4
            &&& request.ch1.enabled.same(binary64::zero()) ==> sent[0] == zero_text(1) && sent[1]
                == off_text(1)
            &&& request.ch2.enabled.same(binary64::zero()) ==> sent[2] == zero_text(2) && sent[3]
                == off_text(2)
            &&& !request.ch1.enabled.same(binary64::zero()) ==> sent[1] == output_text(
                1,
                true,
                config.channels[0].load.name(),
            )
            &&& !request.ch2.enabled.same(binary64::zero()) ==> sent[3] == output_text(
                2,
                true,
                config.channels[1].load.name(),
            )
        }),
{
}

/// Of two commands that are queued one after the other the later one remains, brought
/// into the envelope. What was applied, and a safe state that waits, stay as they were.
pub proof fn law_latest_command_remains(
    before: SiglentSdg2042XDriver,
    between: SiglentSdg2042XDriver,
    after: SiglentSdg2042XDriver,
    first: InstrumentState,
    second: InstrumentState,
)
    requires
        before.queues(first, between),
        between.queues(second, after),
    ensures
        after.next == Some(second.normal(before.config.channels)),
        after.safe_state_pending == before.safe_state_pending,
        after.applied == before.applied,
        after.config == before.config,
{
}

} // verus!
