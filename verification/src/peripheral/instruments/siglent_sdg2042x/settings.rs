//! What the commands of the generator set, read by the names of their fields.

use vstd::prelude::*;
use crate::binary64;
use crate::peripheral::instruments::scpi;
use crate::text;
use super::config::{ChannelConfig, Config, Waveform};
use super::driver;
use super::driver::{ChannelNumbers, Reply};
use super::peripheral;
use super::peripheral::{ChannelState, InstrumentState};

verus! {

/// The value behind a name, in a list of names and values from `i` on.
pub open spec fn setting_from(parts: Seq<Seq<char>>, name: Seq<char>, i: int) -> Option<Seq<char>>
    decreases parts.len() - i,
{
    if i < 0 || i + 1 >= parts.len() {
        None
    } else if parts[i] == name {
        Some(parts[i + 1])
    } else {
        setting_from(parts, name, i + 2)
    }
}

/// The value that a command gives to a named field: what stands behind the name,
/// between commas.
pub open spec fn setting(command: Seq<char>, name: Seq<char>) -> Option<Seq<char>> {
    setting_from(text::split_text(command, ','), name, 2)
}

/// A text that can stand between commas.
pub open spec fn one_field(s: Seq<char>) -> bool {
    forall|k: int| 0 <= k < s.len() ==> #[trigger] s[k] != ','
}

/// The numbers of a channel can stand between commas, as numbers can.
pub open spec fn are_fields(numbers: ChannelNumbers) -> bool {
    one_field(numbers.frequency_hz@) && one_field(numbers.amplitude_vpp@) && one_field(
        numbers.offset_voltage_v@,
    ) && one_field(numbers.stdev@) && one_field(numbers.duty_percent@) && one_field(
        numbers.phase_deg@,
    )
}

/// A field adds its name and its value to the parts of a command.
proof fn lemma_field(
    command: Seq<char>,
    parts: Seq<Seq<char>>,
    there: bool,
    field: Seq<char>,
    name: Seq<char>,
    value: Seq<char>,
)
    requires
        text::split_text(command, ',') == parts,
        field == seq![','] + name + seq![','],
        one_field(name),
        one_field(value),
    ensures
        text::split_text(command + driver::field(there, field, value), ',') == if there {
            parts.push(name).push(value)
        } else {
            parts
        },
{
    if there {
        text::lemma_split_push(command, ',', name);
        text::lemma_split_push(command + seq![','] + name, ',', value);
        assert(command + driver::field(there, field, value) =~= command + seq![','] + name
            + seq![','] + value);
    } else {
        assert(command + driver::field(there, field, value) =~= command);
    }
}

/// The texts of the fields and their names.
proof fn lemma_names()
    ensures
        ",FRQ,"@ == seq![','] + "FRQ"@ + seq![','],
        ",AMP,"@ == seq![','] + "AMP"@ + seq![','],
        ",OFST,"@ == seq![','] + "OFST"@ + seq![','],
        ",MEAN,"@ == seq![','] + "MEAN"@ + seq![','],
        ",STDEV,"@ == seq![','] + "STDEV"@ + seq![','],
        ",DUTY,"@ == seq![','] + "DUTY"@ + seq![','],
        ",PHSE,"@ == seq![','] + "PHSE"@ + seq![','],
        one_field("FRQ"@),
        one_field("AMP"@),
        one_field("OFST"@),
        one_field("MEAN"@),
        one_field("STDEV"@),
        one_field("DUTY"@),
        one_field("PHSE"@),
        "FRQ"@[0] == 'F',
        "AMP"@[0] == 'A',
        "OFST"@[0] == 'O',
        "MEAN"@[0] == 'M',
        "STDEV"@[0] == 'S',
        "DUTY"@[0] == 'D',
        "PHSE"@[0] == 'P',
{
    reveal_strlit("FRQ");
    reveal_strlit("AMP");
    reveal_strlit("OFST");
    reveal_strlit("MEAN");
    reveal_strlit("STDEV");
    reveal_strlit("DUTY");
    reveal_strlit("PHSE");
    reveal_strlit(",FRQ,");
    reveal_strlit(",AMP,");
    reveal_strlit(",OFST,");
    reveal_strlit(",MEAN,");
    reveal_strlit(",STDEV,");
    reveal_strlit(",DUTY,");
    reveal_strlit(",PHSE,");
    assert(",FRQ,"@ =~= seq![','] + "FRQ"@ + seq![',']);
    assert(",AMP,"@ =~= seq![','] + "AMP"@ + seq![',']);
    assert(",OFST,"@ =~= seq![','] + "OFST"@ + seq![',']);
    assert(",MEAN,"@ =~= seq![','] + "MEAN"@ + seq![',']);
    assert(",STDEV,"@ =~= seq![','] + "STDEV"@ + seq![',']);
    assert(",DUTY,"@ =~= seq![','] + "DUTY"@ + seq![',']);
    assert(",PHSE,"@ =~= seq![','] + "PHSE"@ + seq![',']);
}

/// The start of a command in front of its fields.
proof fn lemma_start(channel: nat, waveform: Waveform)
    ensures
        text::split_text(
            driver::prefix(channel as int) + ":BSWV WVTP,"@ + waveform.name(),
            ',',
        ) == seq!["C"@ + text::nat_text(channel) + ":BSWV WVTP"@, waveform.name()],
{
    reveal_strlit("C");
    reveal_strlit(":BSWV WVTP");
    reveal_strlit(":BSWV WVTP,");
    reveal_strlit("SINE");
    reveal_strlit("SQUARE");
    reveal_strlit("RAMP");
    reveal_strlit("PULSE");
    reveal_strlit("NOISE");
    reveal_strlit("DC");
    let digits = text::nat_text(channel);
    text::lemma_nat_text_value(channel);
    let start = "C"@ + digits + ":BSWV WVTP"@;
    assert forall|k: int| 0 <= k < start.len() implies #[trigger] start[k] != ',' by {
        if 1 <= k < 1 + digits.len() {
            assert(text::ascii_digit(digits[k - 1]));
        } else if k > digits.len() {
            assert(start[k] == ":BSWV WVTP"@[k - 1 - digits.len()]);
        }
    }
    text::lemma_split_one(start, ',');
    assert(one_field(waveform.name()));
    text::lemma_split_push(start, ',', waveform.name());
    assert(driver::prefix(channel as int) + ":BSWV WVTP,"@ + waveform.name() =~= start + seq![
        ',',
    ] + waveform.name());
    assert(seq![start].push(waveform.name()) =~= seq![start, waveform.name()]);
}

/// The command of a waveform, read by the names of its fields: it is for the
/// channel, it selects the configured waveform, and each field that the waveform has
/// is given its own number. The frequency and the amplitude go to waveforms that
/// repeat, the offset to all but noise, which has a mean and a deviation instead,
/// the duty cycle to square waves and pulses, and the phase to sines, square waves
/// and ramps. No other fields are given.
pub proof fn law_wave_command_sets_each_field(
    channel: nat,
    waveform: Waveform,
    numbers: ChannelNumbers,
)
    requires
        are_fields(numbers),
    ensures
        ({
            let command = driver::wave_text(channel as int, waveform, numbers);
            let parts = text::split_text(command, ',');
            let repeats = waveform is Sine || waveform is Square || waveform is Ramp
                || waveform is Pulse;
            &&& parts.len() >= 2
            &&& parts[0] == "C"@ + text::nat_text(channel) + ":BSWV WVTP"@
            &&& parts[1] == match waveform {
                Waveform::Sine => "SINE"@,
                Waveform::Square => "SQUARE"@,
                Waveform::Ramp => "RAMP"@,
                Waveform::Pulse => "PULSE"@,
                Waveform::Noise => "NOISE"@,
                Waveform::Dc => "DC"@,
            }
            &&& setting(command, "FRQ"@) == if repeats {
                Some(numbers.frequency_hz@)
            } else {
                None
            }
            &&& setting(command, "AMP"@) == if repeats {
                Some(numbers.amplitude_vpp@)
            } else {
                None
            }
            &&& setting(command, "OFST"@) == if waveform is Noise {
                None
            } else {
                Some(numbers.offset_voltage_v@)
            }
            &&& setting(command, "MEAN"@) == if waveform is Noise {
                Some(numbers.offset_voltage_v@)
            } else {
                None
            }
            &&& setting(command, "STDEV"@) == if waveform is Noise {
                Some(numbers.stdev@)
            } else {
                None
            }
            &&& setting(command, "DUTY"@) == if waveform is Square || waveform is Pulse {
                Some(numbers.duty_percent@)
            } else {
                None
            }
            &&& setting(command, "PHSE"@) == if waveform is Sine || waveform is Square
                || waveform is Ramp {
                Some(numbers.phase_deg@)
            } else {
                None
            }
            &&& parts.len() == match waveform {
                Waveform::Sine => 10nat,
                Waveform::Square => 12,
                Waveform::Ramp => 10,
                Waveform::Pulse => 10,
                Waveform::Noise => 6,
                Waveform::Dc => 4,
            }
        }),
{
    lemma_names();
    lemma_wave_parts(channel, waveform, numbers);
    let command = driver::wave_text(channel as int, waveform, numbers);
    let parts = text::split_text(command, ',');
    lemma_setting(parts, "FRQ"@, 2);
    lemma_setting(parts, "AMP"@, 2);
    lemma_setting(parts, "OFST"@, 2);
    lemma_setting(parts, "MEAN"@, 2);
    lemma_setting(parts, "STDEV"@, 2);
    lemma_setting(parts, "DUTY"@, 2);
    lemma_setting(parts, "PHSE"@, 2);
}

/// A value is found behind the first name that is the one looked for.
proof fn lemma_setting(parts: Seq<Seq<char>>, name: Seq<char>, i: int)
    requires
        i == 2,
        parts.len() <= 12,
    ensures
        setting_from(parts, name, i) == if parts.len() >= 4 && parts[2] == name {
            Some(parts[3])
        } else if parts.len() >= 6 && parts[4] == name {
            Some(parts[5])
        } else if parts.len() >= 8 && parts[6] == name {
            Some(parts[7])
        } else if parts.len() >= 10 && parts[8] == name {
            Some(parts[9])
        } else if parts.len() >= 12 && parts[10] == name {
            Some(parts[11])
        } else {
            None
        },
{
    reveal_with_fuel(setting_from, 7);
}

/// The parts of the command of a waveform.
proof fn lemma_wave_parts(channel: nat, waveform: Waveform, numbers: ChannelNumbers)
    requires
        are_fields(numbers),
    ensures
        ({
            let start = "C"@ + text::nat_text(channel) + ":BSWV WVTP"@;
            let n = numbers;
            text::split_text(driver::wave_text(channel as int, waveform, numbers), ',')
                == match waveform {
                Waveform::Sine => seq![
                    start,
                    "SINE"@,
                    "FRQ"@,
                    n.frequency_hz@,
                    "AMP"@,
                    n.amplitude_vpp@,
                    "OFST"@,
                    n.offset_voltage_v@,
                    "PHSE"@,
                    n.phase_deg@,
                ],
                Waveform::Square => seq![
                    start,
                    "SQUARE"@,
                    "FRQ"@,
                    n.frequency_hz@,
                    "AMP"@,
                    n.amplitude_vpp@,
                    "OFST"@,
                    n.offset_voltage_v@,
                    "DUTY"@,
                    n.duty_percent@,
                    "PHSE"@,
                    n.phase_deg@,
                ],
                Waveform::Ramp => seq![
                    start,
                    "RAMP"@,
                    "FRQ"@,
                    n.frequency_hz@,
                    "AMP"@,
                    n.amplitude_vpp@,
                    "OFST"@,
                    n.offset_voltage_v@,
                    "PHSE"@,
                    n.phase_deg@,
                ],
                Waveform::Pulse => seq![
                    start,
                    "PULSE"@,
                    "FRQ"@,
                    n.frequency_hz@,
                    "AMP"@,
                    n.amplitude_vpp@,
                    "OFST"@,
                    n.offset_voltage_v@,
                    "DUTY"@,
                    n.duty_percent@,
                ],
                Waveform::Noise => seq![
                    start,
                    "NOISE"@,
                    "MEAN"@,
                    n.offset_voltage_v@,
                    "STDEV"@,
                    n.stdev@,
                ],
                Waveform::Dc => seq![start, "DC"@, "OFST"@, n.offset_voltage_v@],
            }
        }),
{
    lemma_names();
    lemma_start(channel, waveform);
    let noise = waveform == Waveform::Noise;
    let c0 = driver::prefix(channel as int) + ":BSWV WVTP,"@ + waveform.name();
    let p0 = text::split_text(c0, ',');
    let c1 = c0 + driver::field(waveform.periodic(), ",FRQ,"@, numbers.frequency_hz@);
    lemma_field(c0, p0, waveform.periodic(), ",FRQ,"@, "FRQ"@, numbers.frequency_hz@);
    let p1 = text::split_text(c1, ',');
    let c2 = c1 + driver::field(waveform.periodic(), ",AMP,"@, numbers.amplitude_vpp@);
    lemma_field(c1, p1, waveform.periodic(), ",AMP,"@, "AMP"@, numbers.amplitude_vpp@);
    let p2 = text::split_text(c2, ',');
    let c3 = c2 + driver::field(!noise, ",OFST,"@, numbers.offset_voltage_v@);
    lemma_field(c2, p2, !noise, ",OFST,"@, "OFST"@, numbers.offset_voltage_v@);
    let p3 = text::split_text(c3, ',');
    let c4 = c3 + driver::field(noise, ",MEAN,"@, numbers.offset_voltage_v@);
    lemma_field(c3, p3, noise, ",MEAN,"@, "MEAN"@, numbers.offset_voltage_v@);
    let p4 = text::split_text(c4, ',');
    let c5 = c4 + driver::field(noise, ",STDEV,"@, numbers.stdev@);
    lemma_field(c4, p4, noise, ",STDEV,"@, "STDEV"@, numbers.stdev@);
    let p5 = text::split_text(c5, ',');
    let c6 = c5 + driver::field(waveform.dutied(), ",DUTY,"@, numbers.duty_percent@);
    lemma_field(c5, p5, waveform.dutied(), ",DUTY,"@, "DUTY"@, numbers.duty_percent@);
    let p6 = text::split_text(c6, ',');
    let c7 = c6 + driver::field(waveform.phased(), ",PHSE,"@, numbers.phase_deg@);
    lemma_field(c6, p6, waveform.phased(), ",PHSE,"@, "PHSE"@, numbers.phase_deg@);
    assert(c7 == driver::wave_text(channel as int, waveform, numbers));
}

/// Two commands of one waveform are the same only where each number that the
/// waveform has is.
pub proof fn law_wave_commands_differ(
    channel: nat,
    waveform: Waveform,
    a: ChannelNumbers,
    b: ChannelNumbers,
)
    requires
        are_fields(a),
        are_fields(b),
        driver::wave_text(channel as int, waveform, a) == driver::wave_text(
            channel as int,
            waveform,
            b,
        ),
    ensures
        a.offset_voltage_v@ == b.offset_voltage_v@,
        waveform is Noise ==> a.stdev@ == b.stdev@,
        !(waveform is Noise || waveform is Dc) ==> a.amplitude_vpp@ == b.amplitude_vpp@
            && a.frequency_hz@ == b.frequency_hz@,
        waveform is Square || waveform is Pulse ==> a.duty_percent@ == b.duty_percent@,
        waveform is Sine || waveform is Square || waveform is Ramp ==> a.phase_deg@ == b.phase_deg@,
{
    law_wave_command_sets_each_field(channel, waveform, a);
    law_wave_command_sets_each_field(channel, waveform, b);
}

/// The relay of a channel closes exactly where the channel is enabled, as the last
/// thing that is sent, and with the configured load. A disabled channel is brought
/// to 0 V DC first, and none of its numbers are sent.
pub proof fn law_relay_follows_the_request(
    channel: nat,
    config: ChannelConfig,
    desired: ChannelState,
    numbers: ChannelNumbers,
)
    ensures
        ({
            let commands = driver::channel_commands(channel as int, config, desired, numbers);
            let start = "C"@ + text::nat_text(channel);
            &&& commands.len() == 2
            &&& desired.enabled.same(binary64::zero()) ==> commands[0] == start
                + ":BSWV WVTP,DC,OFST,0"@ && commands[1] == start + ":OUTP OFF,LOAD,100000"@
            &&& !desired.enabled.same(binary64::zero()) ==> commands[0] == driver::wave_text(
                channel as int,
                config.waveform,
                numbers,
            ) && commands[1] == start + ":OUTP ON,LOAD,"@ + config.load.name()
        }),
{
    let start = "C"@ + text::nat_text(channel);
    assert(driver::output_text(channel as int, true, config.load.name()) =~= start
        + ":OUTP ON,LOAD,"@ + config.load.name());
}

/// The last word of a text is what stands behind its last white space.
pub proof fn law_last_word_is_behind_the_last_space(front: Seq<char>, space: char, word: Seq<char>)
    requires
        space == ' ' || space == '\t' || space == '\n' || space == '\r' || space == '\u{c}',
        forall|i: int|
            0 <= i < word.len() ==> #[trigger] word[i] != ' ' && word[i] != '\t' && word[i] != '\n'
                && word[i] != '\r' && word[i] != '\u{c}',
    ensures
        driver::last_word(front + seq![space] + word) == word,
        driver::last_word(word) == word,
    decreases word.len(),
{
    let s = front + seq![space] + word;
    if word.len() > 0 {
        let shorter = word.drop_last();
        assert forall|i: int| 0 <= i < shorter.len() implies #[trigger] shorter[i] != ' '
            && shorter[i] != '\t' && shorter[i] != '\n' && shorter[i] != '\r' && shorter[i]
            != '\u{c}' by {
            assert(shorter[i] == word[i]);
        }
        law_last_word_is_behind_the_last_space(front, space, shorter);
        assert(s.drop_last() =~= front + seq![space] + shorter);
        assert(s.last() == word[word.len() - 1]);
        assert(shorter.push(word.last()) =~= word);
    } else {
        assert(s.last() == space);
        assert(driver::last_word(s) =~= word);
        assert(driver::last_word(word) =~= word);
    }
}

/// The value of a named field is the field behind the first one that ends in the
/// name, and there is none where no field does or nothing follows.
pub proof fn law_value_is_behind_its_name(tokens: Seq<Seq<char>>, name: Seq<char>, i: int, k: int)
    requires
        0 <= i <= k <= tokens.len(),
        forall|j: int|
            i <= j < k ==> !driver::names_field(text::trimmed(#[trigger] tokens[j]), name),
        k < tokens.len() ==> driver::names_field(text::trimmed(tokens[k]), name),
    ensures
        driver::value_behind(tokens, name, i) == if k + 1 < tokens.len() {
            Some(text::trimmed(tokens[k + 1]))
        } else {
            None
        },
    decreases k - i,
{
    if i < k {
        law_value_is_behind_its_name(tokens, name, i + 1, k);
    }
}

/// A field is named in any case of the letters of its last word.
pub proof fn law_names_are_in_any_case(word: Seq<char>, name: Seq<char>)
    requires
        word.len() > 0,
        forall|i: int|
            0 <= i < word.len() ==> #[trigger] word[i] != ' ' && word[i] != '\t' && word[i] != '\n'
                && word[i] != '\r' && word[i] != '\u{c}',
    ensures
        driver::names_field(word, name) <==> word.len() == name.len() && forall|i: int|
            0 <= i < word.len() ==> #[trigger] text::lower_char(word[i]) == text::lower_char(
                name[i],
            ),
{
    law_last_word_is_behind_the_last_space(Seq::empty(), ' ', word);
    let a = text::lower_text(word);
    let b = text::lower_text(name);
    assert(a.len() == word.len() && b.len() == name.len());
    if a == b {
        assert forall|i: int| 0 <= i < word.len() implies #[trigger] text::lower_char(word[i])
            == text::lower_char(name[i]) by {
            assert(a[i] == b[i]);
        }
    } else if word.len() == name.len() && forall|i: int|
        0 <= i < word.len() ==> #[trigger] text::lower_char(word[i]) == text::lower_char(name[i]) {
        assert(a =~= b) by {
            assert forall|i: int| 0 <= i < a.len() implies a[i] == b[i] by {
                assert(text::lower_char(word[i]) == text::lower_char(name[i]));
            }
        }
    }
}

/// A waveform readback is safe exactly where its waveform is DC, in any case, and the
/// number in its offset is zero.
pub proof fn law_safe_waveform_is_zero_dc(readback: Seq<char>, offset: Option<binary64::Real>)
    ensures
        driver::zero_dc(readback, offset) <==> {
            &&& driver::value_of(readback, "WVTP"@) matches Some(w) && w.len() == 2
                && text::lower_char(w[0]) == 'd' && text::lower_char(w[1]) == 'c'
            &&& driver::value_of(readback, "OFST"@) is Some
            &&& offset matches Some(x) && !x.nan() && x.magnitude() == 0
        },
{
    reveal_strlit("DC");
    let dc = text::lower_text("DC"@);
    assert(dc =~= seq!['d', 'c']);
    if let Some(w) = driver::value_of(readback, "WVTP"@) {
        let l = text::lower_text(w);
        if w.len() == 2 {
            assert(l[0] == text::lower_char(w[0]) && l[1] == text::lower_char(w[1]));
            if l[0] == 'd' && l[1] == 'c' {
                assert(l =~= dc);
            }
        } else {
            assert(l.len() != dc.len());
        }
    }
}

/// What is left of a value without its unit is all up to the letters at its end.
pub proof fn law_units_are_taken_off(number: Seq<char>, unit: Seq<char>)
    requires
        number.len() > 0 ==> !('a' <= number.last() <= 'z') && !('A' <= number.last() <= 'Z'),
        forall|i: int|
            0 <= i < unit.len() ==> 'a' <= #[trigger] unit[i] <= 'z' || 'A' <= unit[i] <= 'Z',
    ensures
        driver::without_unit(number + unit) == number,
    decreases unit.len(),
{
    if unit.len() > 0 {
        let shorter = unit.drop_last();
        assert forall|i: int| 0 <= i < shorter.len() implies 'a' <= #[trigger] shorter[i] <= 'z'
            || 'A' <= shorter[i] <= 'Z' by {
            assert(shorter[i] == unit[i]);
        }
        law_units_are_taken_off(number, shorter);
        assert((number + unit).drop_last() =~= number + shorter);
        assert((number + unit).last() == unit[unit.len() - 1]);
    } else {
        assert(number + unit =~= number);
    }
}

/// An output readback cannot be that of a closed relay and of an open one.
pub proof fn law_output_is_on_or_off(
    channel: nat,
    on_load: Seq<char>,
    off_load: Seq<char>,
    readback: Seq<char>,
)
    ensures
        !(driver::output_is(channel as int, true, on_load, readback) && driver::output_is(
            channel as int,
            false,
            off_load,
            readback,
        )),
{
    reveal_strlit(":OUTP ON,LOAD,");
    reveal_strlit(":OUTP OFF,LOAD,");
    let s = text::upper_text(readback);
    let at = driver::prefix(channel as int).len() + 7;
    let on = driver::output_text(channel as int, true, on_load);
    let off = driver::output_text(channel as int, false, off_load);
    if text::starts_with(s, on) && text::starts_with(s, off) {
        assert(on[at as int] == 'N');
        assert(off[at as int] == 'F');
        assert(s.take(on.len() as int)[at as int] == s[at as int]);
        assert(s.take(off.len() as int)[at as int] == s[at as int]);
    }
}

/// The readback of an output in its commanded state is accepted, also in lower case
/// and with more behind it, and it starts with the channel, the state of the relay and
/// the load.
pub proof fn law_commanded_output_is_accepted(
    channel: nat,
    enabled: bool,
    load: Seq<char>,
    readback: Seq<char>,
)
    ensures
        driver::output_is(channel as int, enabled, load, readback) <==> text::starts_with(
            text::upper_text(readback),
            "C"@ + text::nat_text(channel) + ":OUTP "@ + if enabled {
                "ON"@
            } else {
                "OFF"@
            } + ",LOAD,"@ + load,
        ),
{
    reveal_strlit(":OUTP ON,LOAD,");
    reveal_strlit(":OUTP OFF,LOAD,");
    reveal_strlit(":OUTP ");
    reveal_strlit("ON");
    reveal_strlit("OFF");
    reveal_strlit(",LOAD,");
    let start = "C"@ + text::nat_text(channel);
    assert(driver::output_text(channel as int, true, load) =~= start + ":OUTP "@ + "ON"@
        + ",LOAD,"@ + load);
    assert(driver::output_text(channel as int, false, load) =~= start + ":OUTP "@ + "OFF"@
        + ",LOAD,"@ + load);
}

/// An event status is good exactly where it is a number of one byte of which none of
/// the bits 2 to 5 is set: those of query, device, execution and command errors.
pub proof fn law_status_without_error_bits_is_good(response: Seq<char>)
    ensures
        driver::status_fault(response) is None <==> {
            &&& driver::status_number(response) matches Some(n) && 0 <= n <= 255 && n / 4 % 2 == 0
                && n / 8 % 2 == 0 && n / 16 % 2 == 0 && n / 32 % 2 == 0
        },
{
    if let Some(n) = driver::status_number(response) {
        let word = driver::last_word(text::trimmed(response));
        lemma_numeral_is_not_negative(word);
        lemma_error_bits(n as u8);
    }
}

proof fn lemma_error_bits(n: u8)
    ensures
        driver::error_bits(n as int) == 0 <==> n / 4 % 2 == 0 && n / 8 % 2 == 0 && n / 16 % 2 == 0
            && n / 32 % 2 == 0,
{
    assert(n / 4 % 16 * 4 == 0 <==> n / 4 % 2 == 0 && n / 8 % 2 == 0 && n / 16 % 2 == 0 && n / 32
        % 2 == 0) by (bit_vector);
}

proof fn lemma_numeral_is_not_negative(s: Seq<char>)
    requires
        forall|i: int| 0 <= i < s.len() ==> text::ascii_digit(#[trigger] s[i]),
    ensures
        text::decimal_value(s) >= 0,
    decreases s.len(),
{
    if s.len() > 0 {
        assert(text::ascii_digit(s[s.len() - 1]));
        assert forall|i: int| 0 <= i < s.drop_last().len() implies text::ascii_digit(
            #[trigger] s.drop_last()[i],
        ) by {
            assert(s.drop_last()[i] == s[i]);
        }
        lemma_numeral_is_not_negative(s.drop_last());
    }
}

/// A setup asks for the identity first and for the event status last. Between them it
/// makes both outputs safe, and then gives each channel its load and asks for the
/// output and the waveform of the same channel.
pub proof fn law_setup_gives_each_channel_its_load(config: Config, channel: int)
    requires
        0 <= channel < 2,
    ensures
        ({
            let start = "C"@ + text::nat_text((channel + 1) as nat);
            let load = driver::setup_message(config, 11 + 3 * channel);
            let output = driver::setup_message(config, 12 + 3 * channel);
            let waveform = driver::setup_message(config, 13 + 3 * channel);
            &&& driver::setup_message(config, 0) == (driver::Message {
                query: true,
                text: "*IDN?"@,
            })
            &&& forall|i: int|
                0 <= i < 10 ==> driver::setup_message(config, i + 1)
                    == #[trigger] driver::safe_message(i)
            &&& !load.query && load.text == start + ":OUTP LOAD,"@
                + config.channels[channel].load.name()
            &&& output.query && output.text == start + ":OUTP?"@
            &&& waveform.query && waveform.text == start + ":BSWV?"@
            &&& driver::setup_message(config, 17) == (driver::Message {
                query: true,
                text: "*ESR?"@,
            })
            &&& driver::SETUP_STEPS == 18
        }),
{
}

/// The safe sequence tells each channel once to go to 0 V DC, asks for both waveforms,
/// tells each channel once to open its relay, and asks for both outputs.
pub proof fn law_safe_sequence_covers_both_channels(channel: int)
    requires
        1 <= channel <= 2,
    ensures
        ({
            let start = "C"@ + text::nat_text(channel as nat);
            let zero = driver::Message { query: false, text: start + ":BSWV WVTP,DC,OFST,0"@ };
            let waveform = driver::Message { query: true, text: start + ":BSWV?"@ };
            let open = driver::Message { query: false, text: start + ":OUTP OFF,LOAD,100000"@ };
            let output = driver::Message { query: true, text: start + ":OUTP?"@ };
            &&& driver::SAFE_STEPS == 10
            &&& driver::safe_message(channel - 1) == zero
            &&& driver::safe_message(2) == (driver::Message { query: true, text: "*OPC?"@ })
            &&& driver::safe_message(2 + channel) == waveform
            &&& driver::safe_message(4 + channel) == open
            &&& driver::safe_message(7) == (driver::Message { query: true, text: "*OPC?"@ })
            &&& driver::safe_message(7 + channel) == output
        }),
{
}

/// The values are named channel by channel: each name holds the number of its channel
/// and the name of its field, in the order in which a state is written.
pub proof fn law_values_are_named_for_their_fields(
    infix: Seq<char>,
    values: Seq<binary64::Real>,
    channel: nat,
)
    requires
        channel < 2,
    ensures
        ({
            let names = peripheral::value_names(infix);
            let both = InstrumentState::of(values);
            let state = if channel == 0 {
                both.ch1
            } else {
                both.ch2
            };
            let start = "ch"@ + text::nat_text(channel + 1) + "_"@ + infix;
            let at = 6 * channel as int;
            &&& names.len() == 12
            &&& names[at] == start + "enabled"@ && values[at] == state.enabled
            &&& names[at + 1] == start + "frequency_hz"@ && values[at + 1] == state.frequency_hz
            &&& names[at + 2] == start + "offset_voltage_v"@ && values[at + 2]
                == state.offset_voltage_v
            &&& names[at + 3] == start + "pulse_duty_cycle"@ && values[at + 3]
                == state.pulse_duty_cycle
            &&& names[at + 4] == start + "phase_deg"@ && values[at + 4] == state.phase_deg
            &&& names[at + 5] == start + "stdev"@ && values[at + 5] == state.stdev
        }),
{
}

/// A setup goes on behind a reply exactly where the reply confirms what was asked
/// about: the configured identity, the configured load on an open relay and a waveform
/// at zero for each channel, and an event status without errors. What only commands is
/// not read back, and a failed exchange always ends the setup.
pub proof fn law_setup_replies_are_checked(config: Config, reply: Reply, channel: int)
    requires
        0 <= channel < 2,
    ensures
        reply.result matches Err(e) ==> forall|i: int| #[trigger]
            driver::setup_cause(config, i, reply) == Some(e@),
        reply.result matches Ok(s) ==> {
            &&& driver::setup_cause(config, 0, reply) is None <==> scpi::identity_matches(
                s@,
                config.connection.expected_vendor@,
                config.connection.expected_model@,
            )
            &&& driver::setup_cause(config, 11 + 3 * channel, reply) is None
            &&& driver::setup_cause(config, 12 + 3 * channel, reply) is None <==> driver::output_is(
                channel + 1,
                false,
                config.channels[channel].load.name(),
                s@,
            )
            &&& driver::setup_cause(config, 13 + 3 * channel, reply) is None <==> driver::zero_dc(
                s@,
                reply.offset,
            )
            &&& driver::setup_cause(config, 17, reply) is None <==> driver::status_fault(s@) is None
        },
{
}

/// The reply to an exchange of the safe sequence is good exactly where it confirms what
/// was asked about: a completed operation, a waveform at zero, or an open relay on the
/// high load. A failed exchange is always an error.
pub proof fn law_safe_replies_are_checked(reply: Reply, channel: int)
    requires
        1 <= channel <= 2,
    ensures
        reply.result matches Err(e) ==> forall|i: int| #[trigger]
            driver::safe_cause(i, reply) == Some(e@),
        reply.result matches Ok(s) ==> {
            &&& driver::safe_cause(channel - 1, reply) is None
            &&& driver::safe_cause(2, reply) is None <==> text::trimmed(s@) == "1"@
            &&& driver::safe_cause(2 + channel, reply) is None <==> driver::zero_dc(
                s@,
                reply.offset,
            )
            &&& driver::safe_cause(4 + channel, reply) is None
            &&& driver::safe_cause(7, reply) is None <==> text::trimmed(s@) == "1"@
            &&& driver::safe_cause(7 + channel, reply) is None <==> driver::output_is(
                channel,
                false,
                "100000"@,
                s@,
            )
        },
{
}

/// An error of the safe sequence names the channel that the exchange was about, but for
/// the two exchanges that are about both.
pub proof fn law_safe_errors_name_their_channel(channel: nat)
    requires
        1 <= channel <= 2,
    ensures
        ({
            let start = "channel "@ + text::nat_text(channel);
            &&& driver::safe_context(channel - 1) == start + " zero command: "@
            &&& driver::safe_context(2 + channel as int) == start + " zero readback: "@
            &&& driver::safe_context(4 + channel as int) == start + " output-off command: "@
            &&& driver::safe_context(7 + channel as int) == start + " output-off readback: "@
            &&& driver::safe_context(2) == "zero completion: "@
            &&& driver::safe_context(7) == "output-off completion: "@
        }),
{
}

} // verus!
