//! Wire format of the realtime reporting transport, encoded with postcard. The
//! variant tag (0 = schema, 1 = row) is the leading byte, with no extra framing.

use vstd::prelude::*;
use crate::binary64::Real;
use crate::bytes;
use crate::text;

verus! {

/// postcard's error, carried through as it is.
#[verifier::external_type_specification]
#[verifier::external_body]
pub struct PostcardError(postcard::Error);

/// A single message of the reporting dispatcher.
#[derive(Debug, Clone, PartialEq)]
pub enum ReportingMessage {
    /// Run channel layout. It is sent again and again, so that late-joining
    /// viewers can discover channel metadata.
    Schema {
        channel_names: Vec<String>,
        /// `None` means unknown or not applicable.
        channel_units: Vec<Option<String>>,
        /// Wall-clock Unix-epoch nanoseconds at which a row's timestamp reads zero.
        monotonic_epoch_ns: u64,
        /// Marks the final packet of the run.
        is_session_end: bool,
    },
    /// One control-loop cycle.
    Row {
        /// Counts rows regardless of send outcome, so that gaps reveal drops.
        seq: u64,
        /// Seconds from the start of the run.
        timestamp: Real,
        /// Wall-clock time in RFC 3339.
        system_time: String,
        /// In the order of the channel names.
        values: Vec<Real>,
    },
}

/// A message, by texts and bits.
#[verifier::ext_equal]
pub ghost enum Message {
    Schema {
        channel_names: Seq<Seq<char>>,
        channel_units: Seq<Option<Seq<char>>>,
        monotonic_epoch_ns: u64,
        is_session_end: bool,
    },
    Row { seq: u64, timestamp: u64, system_time: Seq<char>, values: Seq<u64> },
}

/// The text of an optional string.
pub open spec fn option_text(s: Option<String>) -> Option<Seq<char>> {
    match s {
        Some(s) => Some(s@),
        None => None,
    }
}

/// The texts of optional strings.
pub open spec fn option_texts(v: Seq<Option<String>>) -> Seq<Option<Seq<char>>> {
    v.map_values(|s: Option<String>| option_text(s))
}

/// The bits of some numbers.
pub open spec fn bits_of(v: Seq<Real>) -> Seq<u64> {
    v.map_values(|x: Real| x.bits)
}

impl ReportingMessage {
    /// The message.
    pub open spec fn message(self) -> Message {
        match self {
            ReportingMessage::Schema {
                channel_names,
                channel_units,
                monotonic_epoch_ns,
                is_session_end,
            } => Message::Schema {
                channel_names: text::texts(channel_names@),
                channel_units: option_texts(channel_units@),
                monotonic_epoch_ns,
                is_session_end,
            },
            ReportingMessage::Row { seq, timestamp, system_time, values } => Message::Row {
                seq,
                timestamp: timestamp.bits,
                system_time: system_time@,
                values: bits_of(values@),
            },
        }
    }
}

/// postcard's encoding of an unsigned integer: seven bits per byte, the lowest
/// first, and the high bit set on all bytes but the last.
pub open spec fn varint_bytes(n: nat) -> Seq<u8>
    decreases n,
{
    if n < 128 {
        seq![n as u8]
    } else {
        seq![(n % 128 + 128) as u8] + varint_bytes(n / 128)
    }
}

/// 128 to a power.
pub open spec fn weight(i: nat) -> nat
    decreases i,
{
    if i == 0 {
        1
    } else {
        128 * weight((i - 1) as nat)
    }
}

/// The 32-bit unsigned integer at the start of some bytes, from byte `i` on, and
/// the number of bytes that it takes: at most five, the fifth at most 15.
pub open spec fn varint_at(s: Seq<u8>, i: nat) -> Option<(nat, nat)>
    decreases 5 - i,
{
    if i >= 5 || i >= s.len() {
        None
    } else if s[i as int] < 128 {
        if i == 4 && s[i as int] > 15 {
            None
        } else {
            Some((s[i as int] as nat * weight(i), i + 1))
        }
    } else {
        match varint_at(s, i + 1) {
            Some((rest, used)) => Some(
                ((s[i as int] - 128) as nat * weight(i) + rest, used),
            ),
            None => None,
        }
    }
}

/// postcard's encoding of a text: the number of its bytes in UTF-8, and the bytes.
pub open spec fn text_bytes(s: Seq<char>) -> Seq<u8> {
    let bytes = vstd::utf8::encode_utf8(s);
    varint_bytes(bytes.len()) + bytes
}

/// postcard's encoding of an optional text: a byte that tells whether there is
/// one, and the text.
pub open spec fn option_text_bytes(s: Option<Seq<char>>) -> Seq<u8> {
    match s {
        None => seq![0u8],
        Some(s) => seq![1u8] + text_bytes(s),
    }
}

/// postcard's encoding of a list: the number of its items, and each item.
pub open spec fn list_bytes(items: Seq<Seq<u8>>) -> Seq<u8> {
    varint_bytes(items.len()) + items.flatten()
}

/// postcard's encoding of the fields of a schema.
pub open spec fn schema_bytes(
    channel_names: Seq<Seq<char>>,
    channel_units: Seq<Option<Seq<char>>>,
    monotonic_epoch_ns: u64,
    is_session_end: bool,
) -> Seq<u8> {
    list_bytes(channel_names.map_values(|s: Seq<char>| text_bytes(s))) + list_bytes(
        channel_units.map_values(|s: Option<Seq<char>>| option_text_bytes(s)),
    ) + varint_bytes(monotonic_epoch_ns as nat) + seq![if is_session_end {
        1u8
    } else {
        0u8
    }]
}

/// postcard's encoding of the fields of a row. Numbers are their eight bytes, the
/// lowest first.
pub open spec fn row_bytes(
    seq: u64,
    timestamp: u64,
    system_time: Seq<char>,
    values: Seq<u64>,
) -> Seq<u8> {
    varint_bytes(seq as nat) + bytes::le_bytes(timestamp as nat, 8) + text_bytes(system_time)
        + list_bytes(values.map_values(|x: u64| bytes::le_bytes(x as nat, 8)))
}

/// The fields of a schema that postcard finds at the start of some bytes.
pub uninterp spec fn schema_reading(bytes: Seq<u8>) -> Option<
    (Seq<Seq<char>>, Seq<Option<Seq<char>>>, u64, bool),
>;

/// The fields of a row that postcard finds at the start of some bytes.
pub uninterp spec fn row_reading(bytes: Seq<u8>) -> Option<(u64, u64, Seq<char>, Seq<u64>)>;

/// Calls `postcard::to_extend` on a 32-bit unsigned integer. It appends the
/// integer in postcard's variable-length encoding, and does not fail.
#[verifier::external_body]
fn append_tag(buf: Vec<u8>, tag: u32) -> (r: Result<Vec<u8>, postcard::Error>)
    ensures
        r is Ok,
        r->Ok_0@ == buf@ + varint_bytes(tag as nat),
{
    postcard::to_extend(&tag, buf)
}

/// Calls `postcard::take_from_bytes` for a 32-bit unsigned integer. It gives the
/// integer in variable-length encoding at the start of the bytes, and the bytes
/// behind it, and fails where there is none.
#[verifier::external_body]
fn take_tag(bytes: &[u8]) -> (r: Result<(u32, Vec<u8>), postcard::Error>)
    ensures
        match varint_at(bytes@, 0) {
            Some((tag, used)) => r matches Ok((t, rest)) && t == tag && rest@ == bytes@.skip(
                used as int,
            ),
            None => r is Err,
        },
{
    postcard::take_from_bytes::<u32>(bytes).map(|(tag, rest)| (tag, rest.to_vec()))
}

/// Calls `postcard::to_extend` on the fields of a schema. It appends the encoding
/// of each field, from which postcard reads the fields back, and does not fail.
#[verifier::external_body]
fn append_schema(
    buf: Vec<u8>,
    channel_names: &Vec<String>,
    channel_units: &Vec<Option<String>>,
    monotonic_epoch_ns: u64,
    is_session_end: bool,
) -> (r: Result<Vec<u8>, postcard::Error>)
    ensures
        r is Ok,
        r->Ok_0@ == buf@ + schema_bytes(
            text::texts(channel_names@),
            option_texts(channel_units@),
            monotonic_epoch_ns,
            is_session_end,
        ),
        schema_reading(r->Ok_0@.skip(buf@.len() as int)) == Some(
            (
                text::texts(channel_names@),
                option_texts(channel_units@),
                monotonic_epoch_ns,
                is_session_end,
            ),
        ),
{
    postcard::to_extend(&(channel_names, channel_units, monotonic_epoch_ns, is_session_end), buf)
}

/// Calls `postcard::from_bytes` for the fields of a schema. What it finds depends
/// on the bytes alone.
#[verifier::external_body]
fn read_schema(bytes: &[u8]) -> (r: Result<
    (Vec<String>, Vec<Option<String>>, u64, bool),
    postcard::Error,
>)
    ensures
        match schema_reading(bytes@) {
            Some(fields) => r matches Ok((names, units, epoch, end)) && fields == (
                text::texts(names@),
                option_texts(units@),
                epoch,
                end,
            ),
            None => r is Err,
        },
{
    postcard::from_bytes(bytes)
}

/// Calls `postcard::to_extend` on the fields of a row, with each number as its
/// eight bytes. It appends the encoding of each field, from which postcard reads
/// the fields back, and does not fail.
#[verifier::external_body]
fn append_row(
    buf: Vec<u8>,
    seq: u64,
    timestamp: Real,
    system_time: &String,
    values: &Vec<Real>,
) -> (r: Result<Vec<u8>, postcard::Error>)
    ensures
        r is Ok,
        r->Ok_0@ == buf@ + row_bytes(
            seq,
            timestamp.bits,
            system_time@,
            bits_of(values@),
        ),
        row_reading(r->Ok_0@.skip(buf@.len() as int)) == Some(
            (seq, timestamp.bits, system_time@, bits_of(values@)),
        ),
{
    let values: Vec<[u8; 8]> = values.iter().map(|x| x.bits.to_le_bytes()).collect();
    postcard::to_extend(&(seq, timestamp.bits.to_le_bytes(), system_time, values), buf)
}

/// Calls `postcard::from_bytes` for the fields of a row, with each number as its
/// eight bytes. What it finds depends on the bytes alone.
#[verifier::external_body]
fn read_row(bytes: &[u8]) -> (r: Result<(u64, Real, String, Vec<Real>), postcard::Error>)
    ensures
        match row_reading(bytes@) {
            Some(fields) => r matches Ok((seq, timestamp, time, values)) && fields == (
                seq,
                timestamp.bits,
                time@,
                bits_of(values@),
            ),
            None => r is Err,
        },
{
    let fields: (u64, [u8; 8], String, Vec<[u8; 8]>) = postcard::from_bytes(bytes)?;
    let values = fields.3.into_iter().map(|b| Real { bits: u64::from_le_bytes(b) }).collect();
    Ok((fields.0, Real { bits: u64::from_le_bytes(fields.1) }, fields.2, values))
}

/// Why bytes are no message, or a message could not be encoded.
#[derive(Debug)]
pub enum WireError {
    /// postcard's own error.
    Codec(postcard::Error),
    /// A variant tag that no message has.
    UnknownVariant(u32),
}

/// The bytes of a message: its tag, then its fields.
pub open spec fn message_bytes(m: Message) -> Seq<u8> {
    match m {
        Message::Schema { channel_names, channel_units, monotonic_epoch_ns, is_session_end } => seq![
            0u8,
        ] + schema_bytes(channel_names, channel_units, monotonic_epoch_ns, is_session_end),
        Message::Row { seq, timestamp, system_time, values } => seq![1u8] + row_bytes(
            seq,
            timestamp,
            system_time,
            values,
        ),
    }
}

/// The message in some bytes.
pub open spec fn message_reading(bytes: Seq<u8>) -> Option<Message> {
    match varint_at(bytes, 0) {
        None => None,
        Some((tag, used)) => {
            let rest = bytes.skip(used as int);
            if tag == 0 {
                match schema_reading(rest) {
                    Some(fields) => Some(
                        Message::Schema {
                            channel_names: fields.0,
                            channel_units: fields.1,
                            monotonic_epoch_ns: fields.2,
                            is_session_end: fields.3,
                        },
                    ),
                    None => None,
                }
            } else if tag == 1 {
                match row_reading(rest) {
                    Some(fields) => Some(
                        Message::Row {
                            seq: fields.0,
                            timestamp: fields.1,
                            system_time: fields.2,
                            values: fields.3,
                        },
                    ),
                    None => None,
                }
            } else {
                None
            }
        },
    }
}

/// The tag at the start of some bytes, where no message has it.
pub open spec fn unknown_tag(bytes: Seq<u8>) -> Option<nat> {
    match varint_at(bytes, 0) {
        Some((tag, used)) => if tag > 1 {
            Some(tag)
        } else {
            None
        },
        None => None,
    }
}

/// A first byte below 128 is an integer of its own.
proof fn lemma_one_byte(s: Seq<u8>)
    requires
        s.len() > 0,
        s[0] < 128,
    ensures
        varint_at(s, 0) == Some((s[0] as nat, 1nat)),
{
    assert(s[0] as nat * weight(0) == s[0] as nat) by (nonlinear_arith)
        requires
            weight(0) == 1,
    ;
}

impl ReportingMessage {
    /// Appends the encoded message to `buf` and returns the number of bytes that
    /// were appended. What was appended reads back as the message.
    pub fn encode_into(&self, buf: &mut Vec<u8>) -> (r: Result<usize, WireError>)
        ensures
            r matches Ok(n) && n == message_bytes(self.message()).len(),
            final(buf)@ == old(buf)@ + message_bytes(self.message()),
            message_reading(message_bytes(self.message())) == Some(self.message()),
    {
        let start = buf.len();
        let mut owned: Vec<u8> = Vec::new();
        std::mem::swap(&mut owned, buf);
        let ghost before = owned@;
        let ghost m = self.message();
        let encoded = match self {
            ReportingMessage::Schema {
                channel_names,
                channel_units,
                monotonic_epoch_ns,
                is_session_end,
            } => match append_tag(owned, 0) {
                Ok(tagged) => append_schema(
                    tagged,
                    channel_names,
                    channel_units,
                    *monotonic_epoch_ns,
                    *is_session_end,
                ),
                Err(e) => Err(e),
            },
            ReportingMessage::Row { seq, timestamp, system_time, values } => match append_tag(
                owned,
                1,
            ) {
                Ok(tagged) => append_row(tagged, *seq, *timestamp, system_time, values),
                Err(e) => Err(e),
            },
        };
        match encoded {
            Ok(v) => {
                proof {
                    let tag: u8 = if self is Schema {
                        0
                    } else {
                        1
                    };
                    assert(varint_bytes(tag as nat) =~= seq![tag]);
                    assert(v@ =~= before + message_bytes(m));
                    let appended = message_bytes(m);
                    assert(appended[0] == tag);
                    assert(v@.skip((before + seq![tag]).len() as int) =~= appended.skip(1));
                    lemma_one_byte(appended);
                }
                *buf = v;
                Ok(buf.len() - start)
            },
            Err(e) => Err(WireError::Codec(e)),
        }
    }

    /// Decodes the message at the start of some bytes.
    pub fn decode(bytes: &[u8]) -> (r: Result<Self, WireError>)
        ensures
            match r {
                Ok(m) => message_reading(bytes@) == Some(m.message()),
                Err(WireError::UnknownVariant(tag)) => unknown_tag(bytes@) == Some(tag as nat),
                Err(WireError::Codec(_)) => message_reading(bytes@) is None && unknown_tag(
                    bytes@,
                ) is None,
            },
    {
        match take_tag(bytes) {
            Err(e) => Err(WireError::Codec(e)),
            Ok((tag, rest)) => {
                if tag == 0 {
                    match read_schema(rest.as_slice()) {
                        Ok((channel_names, channel_units, monotonic_epoch_ns, is_session_end)) => Ok(
                            ReportingMessage::Schema {
                                channel_names,
                                channel_units,
                                monotonic_epoch_ns,
                                is_session_end,
                            },
                        ),
                        Err(e) => Err(WireError::Codec(e)),
                    }
                } else if tag == 1 {
                    match read_row(rest.as_slice()) {
                        Ok((seq, timestamp, system_time, values)) => Ok(
                            ReportingMessage::Row { seq, timestamp, system_time, values },
                        ),
                        Err(e) => Err(WireError::Codec(e)),
                    }
                } else {
                    Err(WireError::UnknownVariant(tag))
                }
            },
        }
    }
}

/// The first byte of a message tells its variant.
pub proof fn law_first_byte_is_the_tag(m: Message)
    ensures
        message_bytes(m).len() > 0,
        m is Schema ==> message_bytes(m)[0] == 0,
        m is Row ==> message_bytes(m)[0] == 1,
{
}

/// The variable-length encoding of a 32-bit integer reads back, whatever stands behind
/// it.
pub proof fn law_varint_reads_back(n: u32, rest: Seq<u8>)
    ensures
        varint_at(varint_bytes(n as nat) + rest, 0) == Some(
            (n as nat, varint_bytes(n as nat).len()),
        ),
        varint_bytes(n as nat).len() <= 5,
{
    let s = varint_bytes(n as nat) + rest;
    assert(s.skip(0) =~= s);
    lemma_varint_from(s, n as nat, 0, rest);
    assert(weight(0) == 1);
    vstd::arithmetic::mul::lemma_mul_basics(n as int);
}

proof fn lemma_varint_from(s: Seq<u8>, m: nat, i: nat, rest: Seq<u8>)
    requires
        i <= 4,
        i <= s.len(),
        s.skip(i as int) == varint_bytes(m) + rest,
        i == 0 ==> m <= 0xffff_ffff,
        i == 1 ==> m <= 0x1ff_ffff,
        i == 2 ==> m <= 0x3_ffff,
        i == 3 ==> m <= 0x7ff,
        i == 4 ==> m <= 15,
    ensures
        varint_at(s, i) == Some((m * weight(i), i + varint_bytes(m).len())),
        i + varint_bytes(m).len() <= 5,
    decreases 5 - i,
{
    let here = varint_bytes(m) + rest;
    assert(varint_bytes(m).len() > 0);
    assert(s.skip(i as int).len() == s.len() - i);
    if m < 128 {
        assert(here[0] == m as u8);
        assert(s[i as int] == s.skip(i as int)[0]);
    } else {
        let more = varint_bytes(m / 128);
        let low = (m % 128 + 128) as u8;
        assert(here[0] == low);
        assert(s[i as int] == s.skip(i as int)[0]);
        assert(s.skip(i as int + 1) =~= s.skip(i as int).skip(1));
        assert(here.skip(1) =~= more + rest);
        lemma_varint_from(s, m / 128, i + 1, rest);
        let w = weight(i);
        assert(weight(i + 1) == 128 * w);
        assert((m % 128) * w + (m / 128) * (128 * w) == m * w) by (nonlinear_arith)
            requires
                m == 128 * (m / 128) + m % 128,
        ;
        assert((s[i as int] - 128) as nat == m % 128);
        assert(varint_bytes(m).len() == 1 + more.len());
    }
}

} // verus!
