//! Text building blocks: decimal and hexadecimal numbers, joining, trimming,
//! searching and quoting, each stated over the characters of a string.

use vstd::prelude::*;

verus! {

/// `String::push` appends one character.
pub assume_specification[ String::push ](s: &mut String, c: char)
    ensures
        final(s)@ == old(s)@.push(c),
;

/// `String::push_str` appends all characters of its argument.
pub assume_specification[ String::push_str ](s: &mut String, t: &str)
    ensures
        final(s)@ == old(s)@ + t@,
;

/// `String::clear` leaves an empty string.
pub assume_specification[ String::clear ](s: &mut String)
    ensures
        final(s)@ == Seq::<char>::empty(),
;

/// The text that the `Debug` formatting of a string slice produces: the
/// characters between double quotes, with escapes where std escapes them.
pub uninterp spec fn debug_text(s: Seq<char>) -> Seq<char>;

/// The text that the `Debug` formatting of a character produces.
pub uninterp spec fn debug_char(c: char) -> Seq<char>;

/// Calls the `Debug` formatting of `str`. The result is a function of the
/// characters alone, and ASCII letters and digits are quoted without escapes.
#[verifier::external_body]
pub(crate) fn quoted(s: &str) -> (r: String)
    ensures
        r@ == debug_text(s@),
        (forall|i: int| 0 <= i < s@.len() ==> ascii_alphanumeric(#[trigger] s@[i])) ==> r@
            == seq!['"'] + s@ + seq!['"'],
{
    format!("{s:?}")
}

/// Calls the `Debug` formatting of `char`. The result is a function of the
/// character alone, and an ASCII letter or digit stands between single quotes.
#[verifier::external_body]
pub(crate) fn quoted_char(c: char) -> (r: String)
    ensures
        r@ == debug_char(c),
        ascii_alphanumeric(c) ==> r@ == seq!['\'', c, '\''],
{
    format!("{c:?}")
}

/// ASCII digits.
pub open spec fn ascii_digit(c: char) -> bool {
    '0' <= c <= '9'
}

/// ASCII letters and digits.
pub open spec fn ascii_alphanumeric(c: char) -> bool {
    '0' <= c <= '9' || 'a' <= c <= 'z' || 'A' <= c <= 'Z'
}

/// ASCII characters.
pub open spec fn ascii(c: char) -> bool {
    c <= '\u{7f}'
}

/// An ASCII character is one byte.
pub proof fn lemma_ascii_byte(c: char)
    requires
        ascii(c),
    ensures
        ((c as u32) as u8) as int == c as int,
        ((c as u32) as u8) < 128,
{
}

/// Tests for an ASCII character.
pub fn is_ascii_char(c: char) -> (r: bool)
    ensures
        r == ascii(c),
{
    c <= '\u{7f}'
}

/// Tests for an ASCII digit.
pub fn is_ascii_digit(c: char) -> (r: bool)
    ensures
        r == ascii_digit(c),
{
    '0' <= c && c <= '9'
}

/// Tests for an ASCII letter or digit.
pub fn is_ascii_alphanumeric(c: char) -> (r: bool)
    ensures
        r == ascii_alphanumeric(c),
{
    ('0' <= c && c <= '9') || ('a' <= c && c <= 'z') || ('A' <= c && c <= 'Z')
}

/// The characters with the Unicode `White_Space` property.
pub open spec fn white_space(c: char) -> bool {
    ||| '\u{9}' <= c <= '\u{d}'
    ||| c == ' '
    ||| c == '\u{85}'
    ||| c == '\u{a0}'
    ||| c == '\u{1680}'
    ||| '\u{2000}' <= c <= '\u{200a}'
    ||| c == '\u{2028}'
    ||| c == '\u{2029}'
    ||| c == '\u{202f}'
    ||| c == '\u{205f}'
    ||| c == '\u{3000}'
}

/// The bytes of an ASCII text.
pub open spec fn ascii_bytes(s: Seq<char>) -> Seq<u8> {
    s.map_values(|c: char| (c as u32) as u8)
}

/// Tests for Unicode white space.
pub fn is_white_space(c: char) -> (r: bool)
    ensures
        r == white_space(c),
{
    ('\u{9}' <= c && c <= '\u{d}') || c == ' ' || c == '\u{85}' || c == '\u{a0}' || c == '\u{1680}'
        || ('\u{2000}' <= c && c <= '\u{200a}') || c == '\u{2028}' || c == '\u{2029}' || c
        == '\u{202f}' || c == '\u{205f}' || c == '\u{3000}'
}

/// The characters of a string, in order.
pub fn chars_of(s: &str) -> (v: Vec<char>)
    ensures
        v@ == s@,
{
    let mut v: Vec<char> = Vec::new();
    for c in it: s.chars()
        invariant
            it.seq() == s@,
            v@ == s@.take(it.index() as int),
    {
        v.push(c);
    }
    v
}

/// The string with the given characters.
pub fn string_of(chars: &[char]) -> (s: String)
    ensures
        s@ == chars@,
{
    let mut s = String::new();
    let mut i: usize = 0;
    while i < chars.len()
        invariant
            i <= chars.len(),
            s@ == chars@.take(i as int),
        decreases chars.len() - i,
    {
        s.push(chars[i]);
        i = i + 1;
    }
    s
}

/// Tests two strings for the same characters.
pub fn same_text(a: &str, b: &str) -> (r: bool)
    ensures
        r == (a@ == b@),
{
    a.to_owned() == b.to_owned()
}

/// The digit character of a value below ten.
pub open spec fn digit_char(d: nat) -> char {
    if d == 0 {
        '0'
    } else if d == 1 {
        '1'
    } else if d == 2 {
        '2'
    } else if d == 3 {
        '3'
    } else if d == 4 {
        '4'
    } else if d == 5 {
        '5'
    } else if d == 6 {
        '6'
    } else if d == 7 {
        '7'
    } else if d == 8 {
        '8'
    } else {
        '9'
    }
}

/// The shortest decimal numeral of a natural number.
pub open spec fn nat_text(n: nat) -> Seq<char>
    decreases n,
{
    if n < 10 {
        seq![digit_char(n)]
    } else {
        nat_text(n / 10).push(digit_char(n % 10))
    }
}

/// The decimal numeral of an integer, with a minus sign where it is negative.
pub open spec fn int_text(i: int) -> Seq<char> {
    if i < 0 {
        seq!['-'] + nat_text((-i) as nat)
    } else {
        nat_text(i as nat)
    }
}

fn digit(d: u128) -> (c: char)
    requires
        d < 10,
    ensures
        c == digit_char(d as nat),
{
    if d == 0 {
        '0'
    } else if d == 1 {
        '1'
    } else if d == 2 {
        '2'
    } else if d == 3 {
        '3'
    } else if d == 4 {
        '4'
    } else if d == 5 {
        '5'
    } else if d == 6 {
        '6'
    } else if d == 7 {
        '7'
    } else if d == 8 {
        '8'
    } else {
        '9'
    }
}

/// Appends the decimal numeral of `n`.
pub fn push_nat(s: &mut String, n: u128)
    ensures
        final(s)@ == old(s)@ + nat_text(n as nat),
    decreases n,
{
    if n >= 10 {
        push_nat(s, n / 10);
    }
    s.push(digit(n % 10));
    assert(s@ == old(s)@ + nat_text(n as nat));
}

/// Appends the decimal numeral of `i`.
pub fn push_int(s: &mut String, i: i64)
    ensures
        final(s)@ == old(s)@ + int_text(i as int),
{
    if i < 0 {
        s.push('-');
        push_nat(s, (-(i as i128)) as u128);
        assert(s@ == old(s)@ + int_text(i as int));
    } else {
        push_nat(s, i as u128);
    }
}

/// The decimal numeral of `n`.
pub fn nat_string(n: u128) -> (s: String)
    ensures
        s@ == nat_text(n as nat),
{
    let mut s = String::new();
    push_nat(&mut s, n);
    s
}

/// The given texts with `sep` between neighbours.
pub open spec fn joined(parts: Seq<Seq<char>>, sep: Seq<char>) -> Seq<char>
    decreases parts.len(),
{
    if parts.len() == 0 {
        Seq::empty()
    } else if parts.len() == 1 {
        parts[0]
    } else {
        joined(parts.drop_last(), sep) + sep + parts.last()
    }
}

/// The texts of a sequence of strings.
pub open spec fn texts(v: Seq<String>) -> Seq<Seq<char>> {
    v.map_values(|s: String| s@)
}

/// One more string is one more text.
pub broadcast proof fn lemma_texts_push(v: Seq<String>, s: String)
    ensures
        #[trigger] texts(v.push(s)) == texts(v).push(s@),
{
    assert(texts(v.push(s)) =~= texts(v).push(s@));
}

/// Joins strings with a separator between neighbours.
pub fn join(parts: &[String], sep: &str) -> (s: String)
    ensures
        s@ == joined(texts(parts@), sep@),
{
    let mut s = String::new();
    let mut i: usize = 0;
    while i < parts.len()
        invariant
            i <= parts.len(),
            s@ == joined(texts(parts@).take(i as int), sep@),
        decreases parts.len() - i,
    {
        if i > 0 {
            s.push_str(sep);
        }
        s.push_str(parts[i].as_str());
        proof {
            let shorter = texts(parts@).take(i as int);
            let longer = texts(parts@).take(i + 1);
            assert(longer.drop_last() =~= shorter);
            assert(longer.last() == parts@[i as int]@);
            assert(s@ =~= joined(longer, sep@));
        }
        i = i + 1;
    }
    assert(texts(parts@).take(parts.len() as int) =~= texts(parts@));
    s
}

/// Whether a text ends with `end`.
pub open spec fn ends_with(s: Seq<char>, end: Seq<char>) -> bool {
    s.len() >= end.len() && s.skip(s.len() - end.len()) == end
}

/// The text before `end` where the string ends with it.
pub fn strip_suffix(s: &str, end: &str) -> (r: Option<String>)
    ensures
        match r {
            Some(front) => ends_with(s@, end@) && front@ == s@.take(s@.len() - end@.len()),
            None => !ends_with(s@, end@),
        },
{
    let chars = chars_of(s);
    let tail = chars_of(end);
    if chars.len() < tail.len() {
        return None;
    }
    let cut: usize = chars.len() - tail.len();
    let mut i: usize = 0;
    while i < tail.len()
        invariant
            i <= tail@.len(),
            cut + tail.len() == chars.len(),
            chars@ == s@,
            tail@ == end@,
            forall|k: int| 0 <= k < i ==> chars@[cut + k] == #[trigger] tail@[k],
        decreases tail@.len() - i,
    {
        if chars[cut + i] != tail[i] {
            assert(s@.skip(cut as int)[i as int] != end@[i as int]);
            return None;
        }
        i = i + 1;
    }
    assert(s@.skip(cut as int) =~= end@);
    let mut front = String::new();
    let mut k: usize = 0;
    while k < cut
        invariant
            k <= cut <= chars@.len(),
            front@ == chars@.take(k as int),
        decreases cut - k,
    {
        front.push(chars[k]);
        assert(front@ =~= chars@.take(k + 1));
        k = k + 1;
    }
    Some(front)
}

/// Whether `a` comes before `b` or equals it, by the code points of the first
/// character in which they differ.
pub open spec fn text_le(a: Seq<char>, b: Seq<char>) -> bool
    decreases a.len(),
{
    if a.len() == 0 {
        true
    } else if b.len() == 0 {
        false
    } else if a[0] != b[0] {
        a[0] < b[0]
    } else {
        text_le(a.skip(1), b.skip(1))
    }
}

/// Whether each text comes before every later one or equals it.
pub open spec fn sorted_texts(v: Seq<Seq<char>>) -> bool {
    forall|i: int, j: int| 0 <= i < j < v.len() ==> text_le(#[trigger] v[i], #[trigger] v[j])
}

/// The order of texts is total.
pub proof fn lemma_text_le_total(a: Seq<char>, b: Seq<char>)
    ensures
        text_le(a, b) || text_le(b, a),
    decreases a.len(),
{
    if a.len() > 0 && b.len() > 0 && a[0] == b[0] {
        lemma_text_le_total(a.skip(1), b.skip(1));
    }
}

/// The order of texts is transitive.
pub proof fn lemma_text_le_transitive(a: Seq<char>, b: Seq<char>, c: Seq<char>)
    requires
        text_le(a, b),
        text_le(b, c),
    ensures
        text_le(a, c),
    decreases a.len(),
{
    if a.len() > 0 && b.len() > 0 && c.len() > 0 && a[0] == b[0] && b[0] == c[0] {
        lemma_text_le_transitive(a.skip(1), b.skip(1), c.skip(1));
    }
}

/// Compares two strings: `a <= b`.
pub fn text_at_most(a: &str, b: &str) -> (r: bool)
    ensures
        r == text_le(a@, b@),
{
    let x = chars_of(a);
    let y = chars_of(b);
    let mut i: usize = 0;
    assert(x@.skip(0) =~= x@);
    assert(y@.skip(0) =~= y@);
    while i < x.len() && i < y.len() && x[i] == y[i]
        invariant
            i <= x@.len(),
            i <= y@.len(),
            text_le(x@, y@) == text_le(x@.skip(i as int), y@.skip(i as int)),
        decreases x@.len() - i,
    {
        assert(x@.skip(i as int).skip(1) =~= x@.skip(i + 1));
        assert(y@.skip(i as int).skip(1) =~= y@.skip(i + 1));
        i = i + 1;
    }
    if i == x.len() {
        true
    } else if i == y.len() {
        false
    } else {
        assert(x@.skip(i as int)[0] == x@[i as int]);
        assert(y@.skip(i as int)[0] == y@[i as int]);
        x[i] < y[i]
    }
}

/// Sorts strings.
pub fn sort_texts(v: Vec<String>) -> (r: Vec<String>)
    ensures
        sorted_texts(texts(r@)),
        texts(r@).to_multiset() == texts(v@).to_multiset(),
{
    let mut r: Vec<String> = Vec::new();
    let mut i: usize = 0;
    assert(texts(r@) =~= texts(v@).take(0));
    while i < v.len()
        invariant
            i <= v@.len(),
            sorted_texts(texts(r@)),
            texts(r@).to_multiset() == texts(v@).take(i as int).to_multiset(),
        decreases v@.len() - i,
    {
        let mut p: usize = r.len();
        while p > 0 && !text_at_most(r[p - 1].as_str(), v[i].as_str())
            invariant
                p <= r@.len(),
                i < v@.len(),
                sorted_texts(texts(r@)),
                forall|k: int|
                    p <= k < r@.len() ==> text_le(v@[i as int]@, #[trigger] texts(r@)[k]),
            decreases p,
        {
            proof {
                lemma_text_le_total(r@[p - 1]@, v@[i as int]@);
            }
            p = p - 1;
        }
        let ghost before = texts(r@);
        let ghost x = v@[i as int]@;
        proof {
            if p > 0 {
                assert(text_le(before[p - 1], x));
                assert forall|k: int| 0 <= k < p implies text_le(#[trigger] before[k], x) by {
                    if k < p - 1 {
                        lemma_text_le_transitive(before[k], before[p - 1], x);
                    }
                }
            }
        }
        r.insert(p, v[i].clone());
        proof {
            assert(texts(r@) =~= before.insert(p as int, x));
            let after = texts(r@);
            after.to_multiset_ensures();
            assert(after[p as int] == x);
            assert(after.contains(x));
            assert(after.remove(p as int) =~= before);
            assert(after.to_multiset() =~= before.to_multiset().insert(x));
            let prefix = texts(v@).take(i as int);
            assert(texts(v@).take(i + 1) =~= prefix.push(x));
            prefix.to_multiset_ensures();
        }
        i = i + 1;
    }
    assert(texts(v@).take(v@.len() as int) =~= texts(v@));
    r
}

/// The `Debug` text of each of the given texts.
pub open spec fn debug_texts(v: Seq<Seq<char>>) -> Seq<Seq<char>> {
    v.map_values(|s: Seq<char>| debug_text(s))
}

/// How a list of strings is shown: quoted, between square brackets.
pub open spec fn debug_list_text(v: Seq<Seq<char>>) -> Seq<char> {
    "["@ + joined(debug_texts(v), ", "@) + "]"@
}

/// Shows a list of strings.
pub fn debug_list(v: &[String]) -> (s: String)
    ensures
        s@ == debug_list_text(texts(v@)),
{
    let mut parts: Vec<String> = Vec::new();
    let mut i: usize = 0;
    while i < v.len()
        invariant
            i <= v@.len(),
            texts(parts@) == debug_texts(texts(v@)).take(i as int),
        decreases v@.len() - i,
    {
        parts.push(quoted(v[i].as_str()));
        proof {
            broadcast use lemma_texts_push;
            let shown = debug_texts(texts(v@));
            assert(shown[i as int] == debug_text(v@[i as int]@));
            assert(shown.take(i + 1) =~= shown.take(i as int).push(shown[i as int]));
        }
        i = i + 1;
    }
    assert(debug_texts(texts(v@)).take(v@.len() as int) =~= debug_texts(texts(v@)));
    let mut s = "[".to_owned();
    s.push_str(join(parts.as_slice(), ", ").as_str());
    s.push_str("]");
    s
}

/// The lower-case hexadecimal digit of a value below sixteen.
pub open spec fn hex_digit(d: nat) -> char {
    if d < 10 {
        digit_char(d)
    } else if d == 10 {
        'a'
    } else if d == 11 {
        'b'
    } else if d == 12 {
        'c'
    } else if d == 13 {
        'd'
    } else if d == 14 {
        'e'
    } else {
        'f'
    }
}

/// The last `width` hexadecimal digits of a number, with zeros in front.
pub open spec fn hex_text(n: nat, width: nat) -> Seq<char>
    decreases width,
{
    if width == 0 {
        Seq::empty()
    } else {
        hex_text(n / 16, (width - 1) as nat).push(hex_digit(n % 16))
    }
}

/// Appends the last `width` hexadecimal digits of `n`, with zeros in front.
pub fn push_hex(s: &mut String, n: u64, width: usize)
    ensures
        final(s)@ == old(s)@ + hex_text(n as nat, width as nat),
    decreases width,
{
    if width > 0 {
        push_hex(s, n / 16, width - 1);
        let d: u64 = n % 16;
        let c = if d < 10 {
            digit(d as u128)
        } else if d == 10 {
            'a'
        } else if d == 11 {
            'b'
        } else if d == 12 {
            'c'
        } else if d == 13 {
            'd'
        } else if d == 14 {
            'e'
        } else {
            'f'
        };
        s.push(c);
    }
    assert(s@ =~= old(s)@ + hex_text(n as nat, width as nat));
}

/// A hexadecimal text of fixed width has that width.
pub proof fn lemma_hex_len(n: nat, width: nat)
    ensures
        hex_text(n, width).len() == width,
    decreases width,
{
    if width > 0 {
        lemma_hex_len(n / 16, (width - 1) as nat);
    }
}

/// The number of values of `width` hexadecimal digits.
pub open spec fn hex_range(width: nat) -> nat
    decreases width,
{
    if width == 0 {
        1
    } else {
        16 * hex_range((width - 1) as nat)
    }
}

/// A number of 64 bits has sixteen hexadecimal digits.
pub proof fn lemma_sixteen_hex_digits()
    ensures
        hex_range(16) == 0x1_0000_0000_0000_0000,
{
    reveal_with_fuel(hex_range, 17);
}

/// Numbers with the same hexadecimal text of fixed width are the same modulo
/// the number of such texts.
pub proof fn lemma_hex_injective(a: nat, b: nat, width: nat)
    requires
        hex_text(a, width) == hex_text(b, width),
    ensures
        a < hex_range(width) && b < hex_range(width) ==> a == b,
    decreases width,
{
    if width > 0 {
        let w = (width - 1) as nat;
        let x = hex_text(a / 16, w);
        let y = hex_text(b / 16, w);
        assert(hex_text(a, width).drop_last() =~= x);
        assert(hex_text(b, width).drop_last() =~= y);
        assert(hex_text(a, width).last() == hex_digit(a % 16));
        assert(hex_text(b, width).last() == hex_digit(b % 16));
        lemma_hex_injective(a / 16, b / 16, w);
        assert(a % 16 == b % 16);
        if a < hex_range(width) && b < hex_range(width) {
            assert(a / 16 < hex_range(w));
            assert(b / 16 < hex_range(w));
        }
    }
}

/// Each character of a text replaced by a text.
pub open spec fn mapped(s: Seq<char>, f: spec_fn(char) -> Seq<char>) -> Seq<char>
    decreases s.len(),
{
    if s.len() == 0 {
        Seq::empty()
    } else {
        mapped(s.drop_last(), f) + f(s.last())
    }
}

/// How a character stands in HTML text.
pub open spec fn html_char(c: char) -> Seq<char> {
    if c == '&' {
        "&amp;"@
    } else if c == '<' {
        "&lt;"@
    } else if c == '>' {
        "&gt;"@
    } else if c == '"' {
        "&quot;"@
    } else {
        seq![c]
    }
}

/// A text with the characters that mean something in HTML escaped.
pub open spec fn html_text(s: Seq<char>) -> Seq<char> {
    mapped(s, |c: char| html_char(c))
}

/// Escapes the characters that mean something in HTML.
pub fn html_escape(s: &str) -> (r: String)
    ensures
        r@ == html_text(s@),
{
    let chars = chars_of(s);
    let mut r = String::new();
    let mut i: usize = 0;
    assert(chars@.take(0) =~= Seq::<char>::empty());
    while i < chars.len()
        invariant
            i <= chars@.len(),
            r@ == html_text(chars@.take(i as int)),
        decreases chars@.len() - i,
    {
        let c = chars[i];
        proof {
            assert(chars@.take(i + 1).drop_last() =~= chars@.take(i as int));
        }
        if c == '&' {
            r.push_str("&amp;");
        } else if c == '<' {
            r.push_str("&lt;");
        } else if c == '>' {
            r.push_str("&gt;");
        } else if c == '"' {
            r.push_str("&quot;");
        } else {
            r.push(c);
        }
        assert(r@ =~= html_text(chars@.take(i + 1)));
        i = i + 1;
    }
    assert(chars@.take(chars@.len() as int) =~= chars@);
    r
}

/// No markup is left in an escaped text: it holds no `<`, `>` or double quote.
pub proof fn law_escaped_text_holds_no_markup(s: Seq<char>, i: int)
    requires
        0 <= i < html_text(s).len(),
    ensures
        html_text(s)[i] != '<',
        html_text(s)[i] != '>',
        html_text(s)[i] != '"',
    decreases s.len(),
{
    let front = html_text(s.drop_last());
    if i < front.len() {
        law_escaped_text_holds_no_markup(s.drop_last(), i);
    } else {
        reveal_strlit("&amp;");
        reveal_strlit("&lt;");
        reveal_strlit("&gt;");
        reveal_strlit("&quot;");
        assert(html_text(s)[i] == html_char(s.last())[i - front.len()]);
    }
}

/// A text without the white space at its start.
pub open spec fn trimmed_start(s: Seq<char>) -> Seq<char>
    decreases s.len(),
{
    if s.len() > 0 && white_space(s[0]) {
        trimmed_start(s.skip(1))
    } else {
        s
    }
}

/// A text without the white space at its end.
pub open spec fn trimmed_end(s: Seq<char>) -> Seq<char>
    decreases s.len(),
{
    if s.len() > 0 && white_space(s.last()) {
        trimmed_end(s.drop_last())
    } else {
        s
    }
}

/// A text without the white space at its start and end.
pub open spec fn trimmed(s: Seq<char>) -> Seq<char> {
    trimmed_end(trimmed_start(s))
}

/// The part of a slice of characters between two indices, as a string.
pub fn substring(chars: &[char], from: usize, to: usize) -> (s: String)
    requires
        from <= to <= chars@.len(),
    ensures
        s@ == chars@.subrange(from as int, to as int),
{
    let mut s = String::new();
    let mut i: usize = from;
    while i < to
        invariant
            from <= i <= to <= chars@.len(),
            s@ == chars@.subrange(from as int, i as int),
        decreases to - i,
    {
        s.push(chars[i]);
        assert(s@ =~= chars@.subrange(from as int, i + 1));
        i = i + 1;
    }
    s
}

/// Removes the white space at the start and end of a string.
pub fn trim(s: &str) -> (r: String)
    ensures
        r@ == trimmed(s@),
{
    let chars = chars_of(s);
    let mut from: usize = 0;
    assert(chars@.skip(0) =~= chars@);
    while from < chars.len() && is_white_space(chars[from])
        invariant
            from <= chars@.len(),
            trimmed_start(chars@) == trimmed_start(chars@.skip(from as int)),
        decreases chars@.len() - from,
    {
        assert(chars@.skip(from as int).skip(1) =~= chars@.skip(from + 1));
        from = from + 1;
    }
    assert(trimmed_start(chars@) == chars@.skip(from as int));
    let mut to: usize = chars.len();
    assert(chars@.skip(from as int) =~= chars@.subrange(from as int, to as int));
    while to > from && is_white_space(chars[to - 1])
        invariant
            from <= to <= chars@.len(),
            trimmed(chars@) == trimmed_end(chars@.subrange(from as int, to as int)),
        decreases to,
    {
        assert(chars@.subrange(from as int, to as int).drop_last() =~= chars@.subrange(
            from as int,
            to - 1,
        ));
        to = to - 1;
    }
    substring(chars.as_slice(), from, to)
}

/// The lower-case form of an ASCII letter. Other characters stay.
pub open spec fn lower_char(c: char) -> char {
    if 'A' <= c <= 'Z' {
        (c as u32 + 32) as char
    } else {
        c
    }
}

/// A text with its ASCII letters in lower case.
pub open spec fn lower_text(s: Seq<char>) -> Seq<char> {
    s.map_values(|c: char| lower_char(c))
}

fn to_lower(c: char) -> (r: char)
    ensures
        r == lower_char(c),
{
    if 'A' <= c && c <= 'Z' {
        ((c as u32 + 32) as u8) as char
    } else {
        c
    }
}

/// Puts the ASCII letters of a string in lower case.
pub fn to_ascii_lowercase(s: &str) -> (r: String)
    ensures
        r@ == lower_text(s@),
{
    let chars = chars_of(s);
    let mut r = String::new();
    let mut i: usize = 0;
    while i < chars.len()
        invariant
            i <= chars@.len(),
            r@ == lower_text(chars@.take(i as int)),
        decreases chars@.len() - i,
    {
        r.push(to_lower(chars[i]));
        assert(r@ =~= lower_text(chars@.take(i + 1)));
        i = i + 1;
    }
    assert(chars@.take(chars@.len() as int) =~= chars@);
    r
}

/// The upper-case form of an ASCII letter. Other characters stay.
pub open spec fn upper_char(c: char) -> char {
    if 'a' <= c <= 'z' {
        (c as u32 - 32) as char
    } else {
        c
    }
}

/// A text with its ASCII letters in upper case.
pub open spec fn upper_text(s: Seq<char>) -> Seq<char> {
    s.map_values(|c: char| upper_char(c))
}

fn to_upper(c: char) -> (r: char)
    ensures
        r == upper_char(c),
{
    if 'a' <= c && c <= 'z' {
        ((c as u32 - 32) as u8) as char
    } else {
        c
    }
}

/// Puts the ASCII letters of a string in upper case.
pub fn to_ascii_uppercase(s: &str) -> (r: String)
    ensures
        r@ == upper_text(s@),
{
    let chars = chars_of(s);
    let mut r = String::new();
    let mut i: usize = 0;
    while i < chars.len()
        invariant
            i <= chars@.len(),
            r@ == upper_text(chars@.take(i as int)),
        decreases chars@.len() - i,
    {
        r.push(to_upper(chars[i]));
        assert(r@ =~= upper_text(chars@.take(i + 1)));
        i = i + 1;
    }
    assert(chars@.take(chars@.len() as int) =~= chars@);
    r
}

/// Whether a text holds another one.
pub open spec fn holds(s: Seq<char>, part: Seq<char>) -> bool {
    exists|i: int|
        0 <= i && i + part.len() <= s.len() && #[trigger] s.subrange(i, i + part.len()) == part
}

/// Whether a text starts with `start`.
pub open spec fn starts_with(s: Seq<char>, start: Seq<char>) -> bool {
    s.len() >= start.len() && s.take(start.len() as int) == start
}

fn stands_at(s: &Vec<char>, part: &Vec<char>, at: usize) -> (r: bool)
    requires
        at + part@.len() <= s@.len(),
    ensures
        r == (s@.subrange(at as int, at + part@.len()) == part@),
{
    let mut i: usize = 0;
    while i < part.len()
        invariant
            i <= part@.len(),
            at + part@.len() <= s.len(),
            forall|k: int| 0 <= k < i ==> s@[at + k] == #[trigger] part@[k],
        decreases part@.len() - i,
    {
        if s[at + i] != part[i] {
            assert(s@.subrange(at as int, at + part@.len())[i as int] != part@[i as int]);
            return false;
        }
        i = i + 1;
    }
    assert(s@.subrange(at as int, at + part@.len()) =~= part@);
    true
}

/// Tests whether a string holds another one.
pub fn contains_text(s: &str, part: &str) -> (r: bool)
    ensures
        r == holds(s@, part@),
{
    let chars = chars_of(s);
    let wanted = chars_of(part);
    if wanted.len() > chars.len() {
        return false;
    }
    let last: usize = chars.len() - wanted.len();
    let mut at: usize = 0;
    loop
        invariant
            at <= last,
            last + wanted@.len() == chars@.len(),
            chars@ == s@,
            wanted@ == part@,
            forall|i: int|
                0 <= i < at ==> #[trigger] s@.subrange(i, i + part@.len()) != part@,
        decreases last - at,
    {
        if stands_at(&chars, &wanted, at) {
            return true;
        }
        if at == last {
            return false;
        }
        at = at + 1;
    }
}

/// Tests whether a string starts with another one.
pub fn has_prefix(s: &str, start: &str) -> (r: bool)
    ensures
        r == starts_with(s@, start@),
{
    let chars = chars_of(s);
    let wanted = chars_of(start);
    if wanted.len() > chars.len() {
        return false;
    }
    assert(s@.take(start@.len() as int) =~= s@.subrange(0, start@.len() as int));
    stands_at(&chars, &wanted, 0)
}

/// The value of a decimal numeral.
pub open spec fn decimal_value(s: Seq<char>) -> int
    decreases s.len(),
{
    if s.len() == 0 {
        0
    } else {
        decimal_value(s.drop_last()) * 10 + (s.last() as int - '0' as int)
    }
}

/// The index of the first `c` at or after `i`, or the length.
pub open spec fn next_index(s: Seq<char>, c: char, i: int) -> int
    decreases s.len() - i,
{
    if i < 0 || i >= s.len() {
        s.len() as int
    } else if s[i] == c {
        i
    } else {
        next_index(s, c, i + 1)
    }
}

/// An index that is found has the character, and none before it has.
pub proof fn lemma_found_index(s: Seq<char>, c: char, i: int)
    requires
        0 <= i <= s.len(),
    ensures
        i <= next_index(s, c, i) <= s.len(),
        next_index(s, c, i) < s.len() ==> s[next_index(s, c, i)] == c,
        forall|k: int| i <= k < next_index(s, c, i) ==> #[trigger] s[k] != c,
    decreases s.len() - i,
{
    if i < s.len() && s[i] != c {
        lemma_found_index(s, c, i + 1);
    }
}

/// The first index that has a character is the one that is found.
pub proof fn lemma_first_index(s: Seq<char>, c: char, i: int, at: int)
    requires
        0 <= i <= at < s.len(),
        s[at] == c,
        forall|k: int| i <= k < at ==> #[trigger] s[k] != c,
    ensures
        next_index(s, c, i) == at,
    decreases at - i,
{
    if i < at {
        lemma_first_index(s, c, i + 1, at);
    }
}

/// The parts of a text from `i` on, between the separators.
pub open spec fn split_from(s: Seq<char>, sep: char, i: int) -> Seq<Seq<char>>
    decreases s.len() - i,
{
    if i < 0 || i > s.len() {
        Seq::empty()
    } else {
        let end = next_index(s, sep, i);
        proof {
            lemma_next_index(s, sep, i);
        }
        if end < s.len() {
            seq![s.subrange(i, end)] + split_from(s, sep, end + 1)
        } else {
            seq![s.subrange(i, end)]
        }
    }
}

/// One more part behind a separator is one more part of the split.
proof fn lemma_split_from_push(s: Seq<char>, sep: char, part: Seq<char>, i: int)
    requires
        0 <= i <= s.len(),
        forall|k: int| 0 <= k < part.len() ==> #[trigger] part[k] != sep,
    ensures
        split_from(s + seq![sep] + part, sep, i) == split_from(s, sep, i).push(part),
    decreases s.len() - i,
{
    let t = s + seq![sep] + part;
    let end = next_index(s, sep, i);
    lemma_found_index(s, sep, i);
    assert forall|k: int| i <= k < end implies #[trigger] t[k] != sep by {
        assert(t[k] == s[k]);
    }
    assert(t[end] == sep);
    lemma_first_index(t, sep, i, end);
    assert(t.subrange(i, end) =~= s.subrange(i, end));
    if end < s.len() {
        lemma_split_from_push(s, sep, part, end + 1);
        assert(split_from(t, sep, i) =~= split_from(s, sep, i).push(part));
    } else {
        let start = end + 1;
        lemma_found_index(t, sep, start);
        if next_index(t, sep, start) < t.len() {
            assert(t[next_index(t, sep, start)] == part[next_index(t, sep, start) - start]);
        }
        assert(t.subrange(start, t.len() as int) =~= part);
        assert(split_from(t, sep, start) =~= seq![part]);
        assert(split_from(t, sep, i) =~= split_from(s, sep, i).push(part));
    }
}

/// A text with one more part behind a separator splits into one more part.
pub proof fn lemma_split_push(s: Seq<char>, sep: char, part: Seq<char>)
    requires
        forall|k: int| 0 <= k < part.len() ==> #[trigger] part[k] != sep,
    ensures
        split_text(s + seq![sep] + part, sep) == split_text(s, sep).push(part),
{
    lemma_split_from_push(s, sep, part, 0);
}

/// A text without a separator is its only part.
pub proof fn lemma_split_one(s: Seq<char>, sep: char)
    requires
        forall|k: int| 0 <= k < s.len() ==> #[trigger] s[k] != sep,
    ensures
        split_text(s, sep) == seq![s],
{
    lemma_found_index(s, sep, 0);
    assert(s.subrange(0, s.len() as int) =~= s);
}

/// The parts of a text between the separators. There is one more part than
/// there are separators.
pub open spec fn split_text(s: Seq<char>, sep: char) -> Seq<Seq<char>> {
    split_from(s, sep, 0)
}

/// An index found is in the text, or its length.
pub proof fn lemma_next_index(s: Seq<char>, c: char, i: int)
    requires
        0 <= i <= s.len(),
    ensures
        i <= next_index(s, c, i) <= s.len(),
    decreases s.len() - i,
{
    if i < s.len() && s[i] != c {
        lemma_next_index(s, c, i + 1);
    }
}

/// A text has at least one part, and at most one more than it has characters.
pub proof fn lemma_split_len(s: Seq<char>, sep: char)
    ensures
        1 <= split_text(s, sep).len() <= s.len() + 1,
{
    lemma_split_from_len(s, sep, 0);
}

proof fn lemma_split_from_len(s: Seq<char>, sep: char, i: int)
    requires
        0 <= i <= s.len(),
    ensures
        1 <= split_from(s, sep, i).len() <= s.len() - i + 1,
    decreases s.len() - i,
{
    lemma_next_index(s, sep, i);
    let end = next_index(s, sep, i);
    if end < s.len() {
        lemma_split_from_len(s, sep, end + 1);
    }
}

/// Splits a string at every separator.
pub fn split(s: &str, sep: char) -> (parts: Vec<String>)
    ensures
        texts(parts@) == split_text(s@, sep),
        parts@.len() > 0,
{
    let chars = chars_of(s);
    let mut parts: Vec<String> = Vec::new();
    let mut start: usize = 0;
    assert(texts(parts@) + split_from(s@, sep, 0) =~= split_text(s@, sep));
    loop
        invariant
            chars@ == s@,
            start <= chars@.len(),
            texts(parts@) + split_from(s@, sep, start as int) == split_text(s@, sep),
        decreases chars@.len() - start,
    {
        let mut end: usize = start;
        while end < chars.len() && chars[end] != sep
            invariant
                start <= end <= chars@.len(),
                next_index(chars@, sep, start as int) == next_index(chars@, sep, end as int),
            decreases chars@.len() - end,
        {
            end = end + 1;
        }
        let ghost before = texts(parts@);
        let ghost rest = split_from(s@, sep, start as int);
        parts.push(substring(chars.as_slice(), start, end));
        proof {
            broadcast use lemma_texts_push;
            assert(rest[0] == s@.subrange(start as int, end as int));
        }
        if end == chars.len() {
            assert(texts(parts@) =~= before + rest);
            return parts;
        }
        assert(texts(parts@) + split_from(s@, sep, end + 1) =~= before + rest);
        start = end + 1;
    }
}

/// A text with a number in it.
pub open spec fn numbered(start: Seq<char>, n: nat, end: Seq<char>) -> Seq<char> {
    start + nat_text(n) + end
}

/// Texts with the numbers from `from` up to, but not with, `to`.
pub open spec fn numbered_texts(start: Seq<char>, from: nat, to: nat, end: Seq<char>) -> Seq<
    Seq<char>,
> {
    Seq::new((to - from) as nat, |i: int| numbered(start, (from + i) as nat, end))
}

/// Puts a number in a text.
pub fn numbered_string(start: &str, n: usize, end: &str) -> (s: String)
    ensures
        s@ == numbered(start@, n as nat, end@),
{
    let mut s = start.to_owned();
    push_nat(&mut s, n as u128);
    s.push_str(end);
    s
}

/// Appends texts with the numbers from `from` up to, but not with, `to`.
pub fn push_numbered(v: &mut Vec<String>, start: &str, from: usize, to: usize, end: &str)
    requires
        from <= to,
    ensures
        texts(final(v)@) == texts(old(v)@) + numbered_texts(start@, from as nat, to as nat, end@),
{
    broadcast use lemma_texts_push;

    let ghost before = texts(v@);
    let ghost all = numbered_texts(start@, from as nat, to as nat, end@);
    let mut i: usize = from;
    assert(before + all.take(0) =~= before);
    while i < to
        invariant
            from <= i <= to,
            all == numbered_texts(start@, from as nat, to as nat, end@),
            texts(v@) == before + all.take(i - from),
        decreases to - i,
    {
        let s = numbered_string(start, i, end);
        assert(all[i - from] == s@);
        let ghost now = texts(v@);
        v.push(s);
        assert(texts(v@) == now.push(all[i - from]));
        assert(texts(v@) =~= before + all.take(i + 1 - from));
        i = i + 1;
    }
    assert(all.take(to - from) =~= all);
}

/// Appends one text.
pub fn push_text(v: &mut Vec<String>, s: &str)
    ensures
        texts(final(v)@) == texts(old(v)@).push(s@),
{
    broadcast use lemma_texts_push;

    v.push(s.to_owned());
}

/// A text with zeros before it, up to a width.
pub open spec fn zero_padded(s: Seq<char>, width: nat) -> Seq<char> {
    if s.len() >= width {
        s
    } else {
        Seq::new((width - s.len()) as nat, |i: int| '0') + s
    }
}

/// Appends a text with zeros before it, up to a width.
pub fn push_zero_padded(s: &mut String, part: &str, width: usize)
    ensures
        final(s)@ == old(s)@ + zero_padded(part@, width as nat),
{
    let len = chars_of(part).len();
    let ghost before = s@;
    let mut i: usize = len;
    assert(before + Seq::new(0, |i: int| '0') =~= before);
    while i < width
        invariant
            len <= i,
            len < width ==> i <= width,
            len >= width ==> i == len,
            len == part@.len(),
            s@ == before + Seq::new((i - len) as nat, |i: int| '0'),
        decreases width - i,
    {
        s.push('0');
        i = i + 1;
        assert(s@ =~= before + Seq::new((i - len) as nat, |i: int| '0'));
    }
    s.push_str(part);
    assert(s@ =~= before + zero_padded(part@, width as nat));
}

/// A text of digits, at least one.
pub open spec fn numeral(s: Seq<char>) -> bool {
    s.len() > 0 && forall|i: int| 0 <= i < s.len() ==> ascii_digit(#[trigger] s[i])
}

/// A text without the sign at its start.
pub open spec fn without_sign(s: Seq<char>) -> Seq<char> {
    if s.len() > 0 && (s[0] == '+' || s[0] == '-') {
        s.skip(1)
    } else {
        s
    }
}

/// The value of a numeral that may have a sign.
pub open spec fn signed_value(s: Seq<char>) -> int {
    if s.len() > 0 && s[0] == '-' {
        -decimal_value(without_sign(s))
    } else {
        decimal_value(without_sign(s))
    }
}

/// Whether a text is an integer of 64 bits: an optional sign and digits, in range.
pub open spec fn int_numeral(s: Seq<char>) -> bool {
    numeral(without_sign(s)) && i64::MIN <= signed_value(s) <= i64::MAX
}

/// What std says of a text that is no integer of 64 bits.
pub uninterp spec fn int_error(s: Seq<char>) -> Seq<char>;

/// Calls `str::parse` for `i64`, which accepts an optional sign followed by
/// digits where the value fits. The text of the error depends on the string alone.
#[verifier::external_body]
pub(crate) fn parse_int(s: &str) -> (r: Result<i64, String>)
    ensures
        match r {
            Ok(n) => int_numeral(s@) && n == signed_value(s@),
            Err(e) => !int_numeral(s@) && e@ == int_error(s@),
        },
{
    s.parse::<i64>().map_err(|e| e.to_string())
}

/// A text that neither starts nor ends with white space is trimmed already.
pub proof fn lemma_trimmed_already(s: Seq<char>)
    requires
        s.len() > 0,
        !white_space(s[0]),
        !white_space(s.last()),
    ensures
        trimmed(s) == s,
{
}

/// Zeros before a numeral do not change its value.
proof fn lemma_zeros_before(zeros: nat, s: Seq<char>)
    ensures
        decimal_value(Seq::new(zeros, |i: int| '0') + s) == decimal_value(s),
    decreases zeros + s.len(),
{
    let front = Seq::new(zeros, |i: int| '0');
    if s.len() > 0 {
        lemma_zeros_before(zeros, s.drop_last());
        assert((front + s).drop_last() =~= front + s.drop_last());
    } else if zeros > 0 {
        lemma_zeros_before((zeros - 1) as nat, s);
        assert((front + s).drop_last() =~= Seq::new((zeros - 1) as nat, |i: int| '0') + s);
    } else {
        assert(front + s =~= s);
    }
}

/// The decimal numeral of a number reads back as the number.
pub proof fn lemma_nat_text_value(n: nat)
    ensures
        numeral(nat_text(n)),
        decimal_value(nat_text(n)) == n,
    decreases n,
{
    if n >= 10 {
        lemma_nat_text_value(n / 10);
        assert(nat_text(n).drop_last() =~= nat_text(n / 10));
        assert(nat_text(n).last() == digit_char(n % 10));
    } else {
        assert(nat_text(n).drop_last() =~= Seq::<char>::empty());
        assert(decimal_value(Seq::<char>::empty()) == 0);
        assert(nat_text(n).last() == digit_char(n));
    }
}

/// A numeral has the same value behind zeros.
pub proof fn lemma_zero_padded(s: Seq<char>, width: nat)
    requires
        numeral(s),
    ensures
        numeral(zero_padded(s, width)),
        decimal_value(zero_padded(s, width)) == decimal_value(s),
{
    if s.len() < width {
        lemma_zeros_before((width - s.len()) as nat, s);
    }
}

/// A numeral reads back behind zeros.
pub proof fn lemma_zero_padded_value(n: nat, width: nat)
    ensures
        numeral(zero_padded(nat_text(n), width)),
        decimal_value(zero_padded(nat_text(n), width)) == n,
{
    lemma_nat_text_value(n);
    lemma_zero_padded(nat_text(n), width);
}

/// What is trimmed of a text is white space at its ends, and nothing else: the rest
/// is one part of the text, and it neither starts nor ends with white space.
pub proof fn law_trimming_takes_white_space_off(s: Seq<char>) -> (ends: (int, int))
    ensures
        0 <= ends.0 <= ends.1 <= s.len(),
        trimmed(s) == s.subrange(ends.0, ends.1),
        forall|i: int| 0 <= i < ends.0 || ends.1 <= i < s.len() ==> white_space(#[trigger] s[i]),
        trimmed(s).len() > 0 ==> !white_space(trimmed(s)[0]) && !white_space(trimmed(s).last()),
{
    let a = lemma_trimmed_start(s);
    let t = trimmed_start(s);
    let b = lemma_trimmed_end(t);
    assert(t.take(b) =~= s.subrange(a, a + b));
    assert forall|i: int| 0 <= i < a || a + b <= i < s.len() implies white_space(
        #[trigger] s[i],
    ) by {
        if i >= a + b {
            assert(s[i] == t[i - a]);
        }
    }
    if trimmed(s).len() > 0 {
        assert(trimmed(s)[0] == t[0]);
    }
    (a, a + b)
}

proof fn lemma_trimmed_start(s: Seq<char>) -> (a: int)
    ensures
        0 <= a <= s.len(),
        trimmed_start(s) == s.skip(a),
        forall|i: int| 0 <= i < a ==> white_space(#[trigger] s[i]),
        a < s.len() ==> !white_space(s[a]),
    decreases s.len(),
{
    if s.len() > 0 && white_space(s[0]) {
        let a = lemma_trimmed_start(s.skip(1));
        assert(s.skip(1).skip(a) =~= s.skip(a + 1));
        assert forall|i: int| 0 <= i < a + 1 implies white_space(#[trigger] s[i]) by {
            if i > 0 {
                assert(s[i] == s.skip(1)[i - 1]);
            }
        }
        a + 1
    } else {
        assert(s.skip(0) =~= s);
        0
    }
}

proof fn lemma_trimmed_end(s: Seq<char>) -> (b: int)
    ensures
        0 <= b <= s.len(),
        trimmed_end(s) == s.take(b),
        forall|i: int| b <= i < s.len() ==> white_space(#[trigger] s[i]),
        b > 0 ==> !white_space(s[b - 1]),
    decreases s.len(),
{
    if s.len() > 0 && white_space(s.last()) {
        let b = lemma_trimmed_end(s.drop_last());
        assert(s.drop_last().take(b) =~= s.take(b));
        assert forall|i: int| b <= i < s.len() implies white_space(#[trigger] s[i]) by {
            if i < s.len() - 1 {
                assert(s[i] == s.drop_last()[i]);
            }
        }
        b
    } else {
        assert(s.take(s.len() as int) =~= s);
        s.len() as int
    }
}

/// Lower case and upper case exchange the ASCII letters, place by place in the
/// alphabet, and leave all other characters.
pub proof fn law_cases_exchange_letters(c: char)
    ensures
        'A' <= c <= 'Z' ==> 'a' <= lower_char(c) <= 'z' && lower_char(c) as int - 'a' as int
            == c as int - 'A' as int,
        'a' <= c <= 'z' ==> 'A' <= upper_char(c) <= 'Z' && upper_char(c) as int - 'A' as int
            == c as int - 'a' as int,
        !('A' <= c <= 'Z') ==> lower_char(c) == c,
        !('a' <= c <= 'z') ==> upper_char(c) == c,
{
}

/// A decimal numeral reads back as its number, and an integer as its value. A
/// numeral of more than one digit does not start with a zero.
pub proof fn law_numerals_read_back(n: nat, i: int)
    ensures
        numeral(nat_text(n)),
        decimal_value(nat_text(n)) == n,
        nat_text(n).len() > 1 ==> nat_text(n)[0] != '0',
        signed_value(int_text(i)) == i,
        i >= 0 ==> int_text(i) == nat_text(i as nat),
        i < 0 ==> int_text(i).len() > 0 && int_text(i)[0] == '-',
    decreases n,
{
    lemma_nat_text_value(n);
    if n >= 10 {
        law_numerals_read_back(n / 10, 0);
        assert(nat_text(n)[0] == nat_text(n / 10)[0]);
        if n / 10 < 10 {
            assert(nat_text(n / 10)[0] == digit_char(n / 10));
        } else {
            assert(nat_text(n / 10) == nat_text(n / 10 / 10).push(digit_char(n / 10 % 10)));
            lemma_nat_text_value(n / 10 / 10);
        }
    }
    let magnitude: nat = if i < 0 {
        (-i) as nat
    } else {
        i as nat
    };
    lemma_nat_text_value(magnitude);
    let digits = nat_text(magnitude);
    assert(ascii_digit(digits[0]));
    if i < 0 {
        assert(int_text(i).skip(1) =~= digits);
    }
}

/// Texts are ordered by the first character in which they differ.
pub proof fn law_first_difference_orders_texts(a: Seq<char>, b: Seq<char>, i: int)
    requires
        0 <= i < a.len(),
        i < b.len(),
        a.take(i) == b.take(i),
        a[i] != b[i],
    ensures
        text_le(a, b) <==> a[i] < b[i],
    decreases i,
{
    if i > 0 {
        assert(a.take(i)[0] == a[0] && b.take(i)[0] == b[0]);
        assert(a.skip(1).take(i - 1) =~= a.take(i).skip(1));
        assert(b.skip(1).take(i - 1) =~= b.take(i).skip(1));
        law_first_difference_orders_texts(a.skip(1), b.skip(1), i - 1);
    }
}

/// A text comes before every longer one that starts with it, and equals itself.
pub proof fn law_start_of_a_text_comes_first(a: Seq<char>, b: Seq<char>)
    ensures
        text_le(a, a + b),
        text_le(a + b, a) <==> b.len() == 0,
    decreases a.len(),
{
    if a.len() > 0 {
        law_start_of_a_text_comes_first(a.skip(1), b);
        assert((a + b).skip(1) =~= a.skip(1) + b);
    } else {
        assert(a + b =~= b);
    }
}

/// Escaping changes the four characters of markup and no others, and each to an entity
/// of its own that starts with an ampersand and ends with a semicolon.
pub proof fn law_escaping_tells_characters_apart(a: char, b: char)
    ensures
        html_char(a) == html_char(b) ==> a == b,
        html_char(a) == seq![a] <==> a != '&' && a != '<' && a != '>' && a != '"',
        html_char(a) != seq![a] ==> html_char(a)[0] == '&' && html_char(a).last() == ';',
        a == '<' ==> html_char(a)[1] == 'l',
        a == '>' ==> html_char(a)[1] == 'g',
        a == '&' ==> html_char(a)[1] == 'a',
        a == '"' ==> html_char(a)[1] == 'q',
{
    reveal_strlit("&amp;");
    reveal_strlit("&lt;");
    reveal_strlit("&gt;");
    reveal_strlit("&quot;");
    assert("&amp;"@.len() == 5 && "&amp;"@[1] == 'a');
    assert("&lt;"@.len() == 4 && "&lt;"@[1] == 'l');
    assert("&gt;"@.len() == 4 && "&gt;"@[1] == 'g');
    assert("&quot;"@.len() == 6 && "&quot;"@[1] == 'q');
    if html_char(a) == html_char(b) {
        assert(html_char(a)[0] == html_char(b)[0]);
        assert(html_char(a).len() == html_char(b).len());
        assert(html_char(a).len() > 1 ==> html_char(a)[1] == html_char(b)[1]);
    }
}

/// The digits of a hexadecimal text go from `0` to `9` and on from `a` to `f`, and the
/// last one stands for the rest by sixteen.
pub proof fn law_hexadecimal_digits(n: nat, width: nat)
    requires
        0 < width,
    ensures
        hex_text(n, width).len() == width,
        hex_text(n, width).drop_last() == hex_text(n / 16, (width - 1) as nat),
        ({
            let d = n % 16;
            let c = hex_text(n, width).last() as int;
            c == if d < 10 {
                48 + d
            } else {
                87 + d
            }
        }),
{
    lemma_hex_len(n, width);
    assert(hex_text(n, width).drop_last() =~= hex_text(n / 16, (width - 1) as nat));
}

/// White space is made of the blank, the breaks of lines and pages, the spaces of
/// fixed width and the ideographic space. No other ASCII character is white space, and
/// no letter, digit or punctuation.
pub proof fn law_white_space_characters(c: char)
    ensures
        ascii(c) ==> (white_space(c) <==> c == ' ' || c == '\t' || c == '\n' || c == '\u{b}' || c
            == '\u{c}' || c == '\r'),
        white_space(c) && !ascii(c) ==> {
            ||| c == '\u{85}' || c == '\u{a0}' || c == '\u{1680}' || c == '\u{3000}'
            ||| '\u{2000}' <= c <= '\u{205f}'
        },
        '\u{2000}' <= c <= '\u{206f}' ==> (white_space(c) <==> c <= '\u{200a}' || c == '\u{2028}'
            || c == '\u{2029}' || c == '\u{202f}' || c == '\u{205f}'),
        white_space('\u{85}') && white_space('\u{a0}') && white_space('\u{1680}') && white_space(
            '\u{3000}',
        ),
{
}

} // verus!
