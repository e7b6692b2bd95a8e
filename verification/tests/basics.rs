use deimos::binary64::{equal_options, Real};
use deimos::bytes::{copy_range, push_bytes, push_u64, read_u64};
use deimos::datetime::{fmt_time, parse_time, remove_colons, utc_datestamp, UtcTime};
use deimos::json::json_quoted;
use deimos::paths::{path_at_most, push_part, sort_paths};
use deimos::peripheral::id::PeripheralId;
use deimos::span::{Span, MAX_SPAN_NS};
use deimos::text::{
    contains_text, debug_list, has_prefix, html_escape, is_white_space, join, nat_string,
    push_hex, push_int, push_zero_padded, sort_texts, split, strip_suffix, text_at_most, to_ascii_lowercase,
    to_ascii_uppercase, trim,
};

const NUMBERS: [f64; 12] = [
    0.0,
    -0.0,
    1.0,
    -1.0,
    0.5,
    -1e-310,
    1e-310,
    f64::MAX,
    f64::MIN,
    f64::INFINITY,
    f64::NEG_INFINITY,
    f64::NAN,
];

fn num(x: f64) -> Real {
    Real::from_bits(x.to_bits())
}

fn strings(v: &[&str]) -> Vec<String> {
    v.iter().map(|s| s.to_string()).collect()
}

#[test]
fn comparisons_are_those_of_numbers() {
    for a in NUMBERS {
        assert_eq!(num(a).is_nan(), a.is_nan());
        assert_eq!(num(a).is_finite(), a.is_finite());
        assert_eq!(num(a).is_finite_positive(), a.is_finite() && a > 0.0);
        assert_eq!(num(a).negate().to_bits(), (-a).to_bits());
        assert_eq!(num(a).saturating_u32(), a as u32);
        for b in NUMBERS {
            assert_eq!(num(a).less(num(b)), a < b, "{a} {b}");
            assert_eq!(num(a).at_most(num(b)), a <= b, "{a} {b}");
            assert_eq!(num(a).equals(num(b)), a == b, "{a} {b}");
            if b <= 7.0 {
                let clamped = num(a).clamp(num(b), num(7.0));
                assert_eq!(clamped.to_bits(), a.clamp(b, 7.0).to_bits(), "{a} {b}");
            }
        }
    }
    assert!(equal_options(Some(num(0.0)), Some(num(-0.0))));
    assert!(equal_options(None, None));
    assert!(!equal_options(Some(num(f64::NAN)), Some(num(f64::NAN))));
    assert!(!equal_options(None, Some(num(0.0))));
}

#[test]
fn numbers_are_truncated_to_integers() {
    for x in [
        1.0,
        1.5,
        2.0,
        3.999,
        255.5,
        65_535.999,
        1e9 + 0.25,
        2_147_483_648.0,
        4_294_967_295.999,
        4_294_967_296.0,
    ] {
        assert_eq!(num(x).saturating_u32(), x as u32, "{x}");
    }
}

#[test]
fn white_space_is_that_of_unicode() {
    for c in ('\0'..=char::MAX).filter(|c| (*c as u32) < 0x3100) {
        assert_eq!(is_white_space(c), c.is_whitespace(), "{c:?}");
    }
}

#[test]
fn texts_are_handled_as_by_std() {
    for s in ["", " ", " a b ", "\u{a0}x\u{3000}", "a", "\n\t", "Ünïcode ß"] {
        assert_eq!(trim(s), s.trim());
        assert_eq!(to_ascii_lowercase(s), s.to_ascii_lowercase());
        assert_eq!(to_ascii_uppercase(s), s.to_ascii_uppercase());
        let parts: Vec<&str> = s.split(' ').collect();
        assert_eq!(split(s, ' '), parts);
        for t in ["", "a", "b ", " "] {
            assert_eq!(contains_text(s, t), s.contains(t), "{s:?} {t:?}");
            assert_eq!(has_prefix(s, t), s.starts_with(t));
            assert_eq!(strip_suffix(s, t).as_deref(), s.strip_suffix(t));
            assert_eq!(text_at_most(s, t), s <= t);
        }
    }
    assert_eq!(join(&strings(&["a", "b", ""]), ", "), "a, b, ");
    assert_eq!(sort_texts(strings(&["b", "é", "a", "ab"])), ["a", "ab", "b", "é"]);
    assert_eq!(
        debug_list(&strings(&["a\n", "\"q\""])),
        format!("{:?}", ["a\n", "\"q\""])
    );
    assert_eq!(html_escape("<a href=\"x\">&</a>"), "&lt;a href=&quot;x&quot;&gt;&amp;&lt;/a&gt;");
}

#[test]
fn numerals_are_written() {
    for n in [0_u128, 9, 10, 12_345, u128::MAX] {
        assert_eq!(nat_string(n), n.to_string());
    }
    for i in [0_i64, -1, 42, i64::MIN, i64::MAX] {
        let mut s = String::new();
        push_int(&mut s, i);
        assert_eq!(s, i.to_string());
    }
    let mut s = String::new();
    push_hex(&mut s, 0xdead_beef, 16);
    assert_eq!(s, format!("{:016x}", 0xdead_beef_u64));
    push_zero_padded(&mut s, "7", 3);
    push_zero_padded(&mut s, "1234", 3);
    assert_eq!(s, "00000000deadbeef0071234");
}

#[test]
fn times_are_written_and_read_back() {
    let time = UtcTime {
        secs: 1_776_609_121,
        nanos: 123_456_789,
    };
    assert_eq!(fmt_time(time), "2026-04-19T14:32:01.123456789Z");
    assert_eq!(parse_time(&fmt_time(time)), Ok(time));
    assert_eq!(utc_datestamp(time), "2026-04-19T143201Z");
    assert_eq!(
        parse_time("2026-04-19T16:32:01.5+02:00"),
        Ok(UtcTime {
            secs: 1_776_609_121,
            nanos: 500_000_000,
        })
    );
    assert!(parse_time("yesterday").is_err());
    assert_eq!(remove_colons("a:b::c"), "abc");
    assert!(time.is_valid());
    assert!(!UtcTime {
        secs: 0,
        nanos: 1_000_000_000
    }
    .is_valid());
    for secs in [-62_167_219_200, 253_402_300_799] {
        let edge = UtcTime { secs, nanos: 1 };
        assert_eq!(fmt_time(edge).len(), 30);
        assert_eq!(parse_time(&fmt_time(edge)), Ok(edge));
    }
}

#[test]
fn json_strings_are_quoted() {
    assert_eq!(json_quoted("a\"b\\\n\u{1}é"), "\"a\\\"b\\\\\\n\\u0001é\"");
}

#[test]
fn spans_saturate() {
    assert_eq!(Span::from_secs(1), Span::from_millis(1_000));
    assert_eq!(Span::from_nanos(5).ns, 5);
    let max = Span { ns: MAX_SPAN_NS };
    assert_eq!(max.saturating_add(Span::from_nanos(1)), max);
    assert_eq!(Span::from_secs(u64::MAX).saturating_mul(2), max);
    assert_eq!(Span::from_millis(3).saturating_mul(4), Span::from_millis(12));
    assert_eq!(Span::from_secs(1).longer(Span::from_secs(2)), Span::from_secs(2));
}

#[test]
fn bytes_are_little_endian() {
    let mut v = vec![9];
    push_u64(&mut v, 0x0102_0304_0506_0708);
    assert_eq!(v, [9, 8, 7, 6, 5, 4, 3, 2, 1]);
    assert_eq!(read_u64(&v, 1), 0x0102_0304_0506_0708);
    push_bytes(&mut v, &[1, 2]);
    assert_eq!(copy_range(&v, 8, 11), [1, 1, 2]);
}

#[test]
fn paths_are_joined_and_ordered_by_parts() {
    let mut path = "/a".to_owned();
    push_part(&mut path, "b");
    assert_eq!(path, "/a/b");
    let mut path = "/".to_owned();
    push_part(&mut path, "b");
    assert_eq!(path, "/b");
    assert!(path_at_most("/a/z", "/a-b/a"));
    assert!(!path_at_most("/a-b/a", "/a/z"));
    let mut expected: Vec<std::path::PathBuf> =
        ["/a-b/a", "/a/z", "/a", "/a.b", "/b/c/d", "/b/c"].iter().map(|s| s.into()).collect();
    expected.sort();
    let sorted = sort_paths(strings(&["/a-b/a", "/a/z", "/a", "/a.b", "/b/c/d", "/b/c"]));
    let sorted: Vec<std::path::PathBuf> = sorted.iter().map(|s| s.into()).collect();
    assert_eq!(sorted, expected);
}

#[test]
fn names_tell_identities_apart() {
    let a = PeripheralId {
        model_number: 1,
        serial_number: 0x23,
    };
    let b = PeripheralId {
        model_number: 0x12,
        serial_number: 3,
    };
    assert_eq!(a.name_behind("p-"), "p-0000000000000001-0000000000000023");
    assert_ne!(a.name_behind(""), b.name_behind(""));
    assert_eq!(a.show(), "PeripheralId { model_number: 1, serial_number: 35 }");
}
