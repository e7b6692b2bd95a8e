use deimos::units::{
    checked_parse_unit, lookup_base, parse_unit, resolve_token, try_prefixed, unit_mismatch_message,
    units_equal, Dimension, ParsedUnit, UNKNOWN_UNIT_DISPLAY,
};

fn scale(p: ParsedUnit) -> f64 {
    10.0_f64.powi(p.scale_power as i32)
}

fn chars(s: &str) -> Vec<char> {
    s.chars().collect()
}

#[test]
fn parses_simple_base() {
    let p = parse_unit("K").unwrap();
    assert_eq!(p.dim.temperature, 1);
    assert_eq!(scale(p), 1.0);
}

#[test]
fn parses_dimensionless() {
    let p = parse_unit("1").unwrap();
    assert_eq!(p.dim, Dimension::default());
    assert_eq!(scale(p), 1.0);
}

#[test]
fn newton_round_trip() {
    // N == kg·m/s^2
    assert!(units_equal("N", "kg.m/s^2").unwrap());
    assert!(units_equal("N", "kg*m/s^2").unwrap());
    let p = parse_unit("kg.m/s^2").unwrap();
    assert_eq!(p.dim.mass, 1);
    assert_eq!(p.dim.length, 1);
    assert_eq!(p.dim.time, -2);
    assert_eq!(scale(p), 1.0);
}

#[test]
fn pascal_round_trip() {
    // Pa == kg/(m·s^2) which we have to write as kg/m/s^2 (no parens in v1)
    assert!(units_equal("Pa", "kg/m/s^2").unwrap());
}

#[test]
fn kpa_is_1000_pa() {
    let kpa = parse_unit("kPa").unwrap();
    let pa = parse_unit("Pa").unwrap();
    assert_eq!(kpa.dim, pa.dim);
    assert_eq!(scale(kpa), 1000.0);
}

#[test]
fn kpa_neq_pa() {
    // Same dimension, different scale.
    assert!(!units_equal("kPa", "Pa").unwrap());
}

#[test]
fn mpa_is_milli_pascal() {
    // `mPa` means millipascal under our prefix allow-list, NOT meter-pascal.
    let mpa = parse_unit("mPa").unwrap();
    let pa = parse_unit("Pa").unwrap();
    assert_eq!(mpa.dim, pa.dim);
    assert_eq!(scale(mpa), 1e-3);
}

#[test]
fn megapascal_is_1e6_pa() {
    let mega = parse_unit("MPa").unwrap();
    assert_eq!(scale(mega), 1e6);
}

#[test]
fn unknown_unit_echoes_input() {
    let err = parse_unit("furlongs").unwrap_err();
    assert_eq!(err.input, "furlongs");
    // The display impl quotes the input verbatim too.
    assert!(err.message().contains("furlongs"));
}

#[test]
fn unknown_unit_in_compound_echoes_input() {
    let err = parse_unit("furlongs/fortnight").unwrap_err();
    assert_eq!(err.input, "furlongs/fortnight");
    assert!(err.message().contains("furlongs/fortnight"));
}

#[test]
fn mk_is_ambiguous_and_rejected() {
    // `mK` would be milli-Kelvin if K were on the prefix allow-list, but
    // it isn't (we reject prefixes on K to keep it unambiguous with `m`
    // the base meter unit). So `mK` parses as the unknown token `mK`.
    let err = parse_unit("mK").unwrap_err();
    assert_eq!(err.input, "mK");
}

#[test]
fn temperature_units_reject_si_prefixes() {
    // The TEMP_C_SCALE = 1.0e9 marker is only safe because no SI prefix is
    // allowed on K/°C/degC. If any of these started parsing successfully
    // we'd have a scale collision (e.g., a hypothetical kK at scale=1e3
    // would still be temperature dimension and could mask K vs °C handling).
    // Lock the rejection in.
    assert!(parse_unit("mK").is_err());
    assert!(parse_unit("kK").is_err());
    assert!(parse_unit("m°C").is_err());
}

#[test]
fn celsius_and_kelvin_have_different_scales() {
    // K and °C are dimensionally compatible but treated as unequal so
    // the orchestrator can attach the K↔°C affine hint.
    let k = parse_unit("K").unwrap();
    let c = parse_unit("°C").unwrap();
    assert_eq!(k.dim, c.dim);
    assert_ne!(scale(k), scale(c));
    assert!(!units_equal("K", "°C").unwrap());
    assert!(!units_equal("K", "degC").unwrap());
}

#[test]
fn celsius_aliases_match_each_other() {
    assert!(units_equal("°C", "degC").unwrap());
}

#[test]
fn whitespace_is_ignored() {
    assert!(units_equal("kg.m / s^2", "N").unwrap());
    assert!(units_equal("  K  ", "K").unwrap());
}

#[test]
fn empty_string_is_error() {
    let err = parse_unit("").unwrap_err();
    assert_eq!(err.input, "");
}

#[test]
fn negative_exponent() {
    // Hz == s^-1 — both should produce dim time = -1, scale = 1.
    assert!(units_equal("Hz", "s^-1").unwrap());
}

#[test]
fn dot_and_star_are_equivalent() {
    assert!(units_equal("kg.m", "kg*m").unwrap());
}

#[test]
fn double_quotient_is_left_associative() {
    // `kg/m/s^2` == `kg/(m·s^2)` == Pa under left-to-right reading.
    // Each `/` flips the sign of the *next* token's exponent only,
    // matching UCUM's left-to-right reading.
    let p = parse_unit("kg/m/s^2").unwrap();
    assert_eq!(p.dim.mass, 1);
    assert_eq!(p.dim.length, -1);
    assert_eq!(p.dim.time, -2);
}

#[test]
fn rad_is_dimensionless() {
    // Radians are dimensionless in physics; equality with `1` confirms it.
    assert!(units_equal("rad", "1").unwrap());
}

#[test]
fn coulomb_charge_is_a_times_s() {
    assert!(units_equal("C", "A.s").unwrap());
}

#[test]
fn micro_volt_unicode_and_ascii_match() {
    let ascii = parse_unit("uV").unwrap();
    let unicode = parse_unit("µV").unwrap();
    assert_eq!(ascii, unicode);
}

#[test]
fn mismatch_message_includes_required_fields() {
    // Pa upstream → K downstream: different dimensions. The message must
    // name the source, dest calc kind, dest input field, both unit
    // strings, and a dimensional reason.
    let msg = unit_mismatch_message("Affine", "x", "rtd.K", Some("K"), Some("Pa"));
    assert!(msg.contains("Affine"), "missing dest calc kind: {msg}");
    assert!(msg.contains("`x`"), "missing dest input field: {msg}");
    assert!(msg.contains("rtd.K"), "missing source name: {msg}");
    assert!(msg.contains("K"), "missing dest unit: {msg}");
    assert!(msg.contains("Pa"), "missing source unit: {msg}");
    // Dimensional reason — the dimensions differ. Require the dimension
    // words from `Dimension::describe()` (here `temperature` for K and
    // `mass`/`length`/`time` from Pa's decomposition) so a regression
    // that drops `describe()` and falls back to the unit-strings-only
    // path would fail this test. The "different dimensions" wrapper
    // alone is not enough — it doesn't witness that `describe()` ran.
    assert!(
        msg.contains("temperature"),
        "missing dest dimension name: {msg}"
    );
    assert!(
        msg.contains("mass") && msg.contains("length") && msg.contains("time"),
        "missing source dimension names: {msg}"
    );
}

#[test]
fn mismatch_message_unknown_side_uses_sentinel() {
    let msg = unit_mismatch_message("Affine", "x", "rtd.unknown", Some("K"), None);
    assert!(msg.contains(UNKNOWN_UNIT_DISPLAY));
}

#[test]
fn k_to_celsius_message_has_affine_hint() {
    // Source K → dest °C: subtract 273.15.
    let msg = unit_mismatch_message("Affine", "x", "rtd.K", Some("°C"), Some("K"));
    assert!(msg.contains("K"), "missing K: {msg}");
    assert!(msg.contains("°C"), "missing °C: {msg}");
    assert!(msg.contains("offset=-273.15"), "missing affine hint: {msg}");
}

#[test]
fn celsius_to_k_message_has_reverse_affine_hint() {
    // Source °C → dest K: add 273.15.
    let msg = unit_mismatch_message("Affine", "x", "src.celsius", Some("K"), Some("°C"));
    assert!(msg.contains("offset=273.15"), "missing affine hint: {msg}");
    // Make sure we got the positive offset, not the negative one.
    assert!(!msg.contains("offset=-273.15"));
}

#[test]
fn unparseable_dest_unit_falls_back_to_string_reason() {
    // Dest declares `furlongs` (unparseable). The reason should fall
    // back to echoing the strings rather than blowing up.
    let msg = unit_mismatch_message("Affine", "x", "src.K", Some("furlongs"), Some("K"));
    assert!(msg.contains("furlongs"));
    assert!(msg.contains("K"));
}

#[test]
fn dimensions_are_described_by_name_and_exponent() {
    assert_eq!(Dimension::default().describe(), "dimensionless");
    assert_eq!(Dimension::new(0, 0, 0, 0, 1, 0, 0).describe(), "temperature");
    assert_eq!(Dimension::new(0, 0, -1, 0, 0, 0, 0).describe(), "time^-1");
    assert_eq!(Dimension::new(1, 1, -2, 0, 0, 0, 0).describe(), "mass·length·time^-2");
    assert_eq!(
        Dimension::new(1, 2, 3, 4, 5, 6, 7).describe(),
        "mass·length^2·time^3·current^4·temperature^5·amount^6·luminous^7"
    );
}

#[test]
fn dimensions_multiply_by_adding_exponents() {
    let force = Dimension::new(1, 1, -2, 0, 0, 0, 0);
    let length = Dimension::new(0, 1, 0, 0, 0, 0, 0);
    let charge = Dimension::new(0, 0, 1, 1, 0, 0, 0);
    assert_eq!(force.mul(length), Dimension::new(1, 2, -2, 0, 0, 0, 0));
    assert_eq!(force.mul(length), length.mul(force));
    assert_eq!(force.mul(length).mul(charge), force.mul(length.mul(charge)));
    assert_eq!(force.pow(-2), Dimension::new(-2, -2, 4, 0, 0, 0, 0));
    assert_eq!(force.pow(3).mul(force.pow(-1)), force.pow(2));
    assert_eq!(force.pow(0), Dimension::default());
}

#[test]
fn tokens_resolve_to_base_units_and_prefixed_units() {
    assert_eq!(lookup_base("J"), Some((Dimension::new(1, 2, -2, 0, 0, 0, 0), 0)));
    assert_eq!(lookup_base("ohm"), Some((Dimension::new(1, 2, -3, -2, 0, 0, 0), 0)));
    assert_eq!(lookup_base("degC"), Some((Dimension::new(0, 0, 0, 0, 1, 0, 0), 9)));
    assert_eq!(lookup_base("kPa"), None);
    assert_eq!(try_prefixed(&chars("ns")), Some((Dimension::new(0, 0, 1, 0, 0, 0, 0), -9)));
    assert_eq!(try_prefixed(&chars("GHz")), Some((Dimension::new(0, 0, -1, 0, 0, 0, 0), 9)));
    assert_eq!(try_prefixed(&chars("nV")), None);
    assert_eq!(try_prefixed(&chars("")), None);
    assert_eq!(
        resolve_token(&chars("mol"), "mol"),
        Ok((Dimension::new(0, 0, 0, 0, 0, 1, 0), 0))
    );
    let err = resolve_token(&chars("foo"), "foo/s").unwrap_err();
    assert_eq!(err.input, "foo/s");
    assert!(err.reason.contains("\"foo\""));
}

#[test]
fn error_message_quotes_the_input() {
    let err = parse_unit("fur\"longs").unwrap_err();
    assert!(err
        .message()
        .starts_with("could not parse unit string \"fur\\\"longs\": "));
}

#[test]
fn white_space_anywhere_changes_nothing() {
    let plain = parse_unit("kg.m/s^2").unwrap();
    assert_eq!(parse_unit("k g.\tm /\u{3000}s ^ 2\n").unwrap(), plain);
}

#[test]
fn malformed_units_are_rejected() {
    for unit in ["/s", "kg//s", "s^", "s^x", "kg.", "s^2x", "s^-", "   ", "^2", "s^128"] {
        assert!(parse_unit(unit).is_err(), "{unit}");
    }
    assert!(parse_unit("s^127").is_ok());
    assert!(parse_unit("s^-127").is_ok());
}

#[test]
fn exponents_beyond_the_range_are_told_apart() {
    assert!(checked_parse_unit("s^100.s^100").is_none());
    assert!(checked_parse_unit("furlongs").unwrap().is_err());
    assert_eq!(
        checked_parse_unit("s^100/s^99").unwrap(),
        Ok(parse_unit("s").unwrap())
    );
}

#[test]
fn powers_scale_prefixes() {
    assert_eq!(parse_unit("kPa^2").unwrap().scale_power, 6);
    assert_eq!(parse_unit("mV/kA").unwrap().scale_power, -6);
    assert!(units_equal("kPa.ms", "Pa.s").unwrap());
    assert!(units_equal("furlongs", "s").is_err());
    assert!(units_equal("s", "furlongs").is_err());
}

#[test]
fn mismatch_messages_are_exact() {
    assert_eq!(
        unit_mismatch_message("Affine", "x", "p.y", Some("Pa"), Some("kPa")),
        "Unit mismatch wiring `p.y` (declared kPa) into `Affine` input `x` (expected Pa): \
         mass·length^-1·time^-2 dimension matches but scale differs (kPa vs Pa)"
    );
    assert_eq!(
        unit_mismatch_message("Affine", "x", "p.y", Some("K"), Some("s")),
        "Unit mismatch wiring `p.y` (declared s) into `Affine` input `x` (expected K): \
         different dimensions (time vs temperature)"
    );
    assert_eq!(
        unit_mismatch_message("Affine", "x", "p.y", Some("K"), None),
        "Unit mismatch wiring `p.y` (declared <unknown>) into `Affine` input `x` (expected K): \
         expected K, got <unknown>"
    );
    assert_eq!(
        unit_mismatch_message("Affine", "x", "t", Some("degC"), Some("K")),
        "Unit mismatch wiring `t` (declared K) into `Affine` input `x` (expected degC): \
         temperature dimension matches but scale differs (K vs degC) — K and °C are \
         dimensionally compatible but require an offset conversion; insert an \
         Affine(scale=1.0, offset=-273.15) between source and dest"
    );
}

#[test]
fn first_unit_that_does_not_parse_decides() {
    let e = units_equal("furlong", "m^127*m^127").unwrap_err();
    assert_eq!(e.input, "furlong");
    let e = units_equal("m", "furlong").unwrap_err();
    assert_eq!(e.input, "furlong");
}

#[test]
fn descriptions_tell_dimensions_apart() {
    let mut seen = std::collections::HashSet::new();
    for mass in [-2_i8, 0, 1, 12] {
        for time in [-1_i8, 0, 1, 2] {
            for temperature in [0_i8, 1, -128] {
                for luminous in [0_i8, 1, 127] {
                    let d = Dimension::new(mass, 0, time, 0, temperature, 0, luminous);
                    assert!(seen.insert(d.describe()), "{}", d.describe());
                }
            }
        }
    }
    let d = Dimension::new(1, -1, 0, 0, 0, 0, 2);
    assert_eq!(d.describe(), "mass·length^-1·luminous^2");
}

#[test]
fn joined_units_multiply_and_divide() {
    let units = ["kPa", "m", "kg . m/s^2", "mV^-2", "°C", "1", "Mohm/ns*A^3"];
    for a in units {
        let p = parse_unit(a).unwrap();
        for b in units {
            let q = parse_unit(b).unwrap();
            for op in ["*", ".", " * "] {
                let joined = parse_unit(&format!("{a}{op}{b}")).unwrap();
                assert_eq!(joined.dim, p.dim.mul(q.dim));
                assert_eq!(joined.scale_power, p.scale_power + q.scale_power);
            }
            if !b.contains(['*', '.', '/']) {
                let quotient = parse_unit(&format!("{a}/{b}")).unwrap();
                assert_eq!(quotient.dim, p.dim.mul(q.dim.pow(-1)));
                assert_eq!(quotient.scale_power, p.scale_power - q.scale_power);
            }
        }
    }
    assert!(checked_parse_unit("m^100*m^100").is_none());
    assert!(checked_parse_unit("m/s^-128").is_none());
}
