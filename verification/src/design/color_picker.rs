//! Colour notations and hexadecimal colour codes. The colour-space arithmetic
//! (HSL, HSV, contrast ratios) is floating point and lives outside the
//! verified library.
use vstd::prelude::*;
use crate::design::DesignError;
use crate::strmap::StrMap;
use crate::text::{ascii_upper, ascii_upper_char, chars_of, owned, starts_with_seq, starts_with_str, str_eq, string_from_chars, trim_seq, trim_str, views};

verus! {

/// Color space.
#[derive(Debug, Clone, Copy, PartialEq, Eq, Structural)]
pub enum ColorSpace {
    Rgb,
    Hsl,
    Hsv,
    Cmyk,
    Lab,
    Lch,
    Hex,
}

/// Color format.
#[derive(Debug, Clone, Copy, PartialEq, Eq, Structural)]
pub enum ColorFormat {
    Hex,
    Rgb,
    Rgba,
    Hsl,
    Hsla,
    Hsv,
    Hsva,
    Cmyk,
    Lab,
    Lch,
}

/// WCAG compliance level.
#[derive(Debug, Clone, Copy, PartialEq, Eq, Structural)]
pub enum WcagLevel {
    AAA,
    AA,
    AALarge,
    Fail,
}

/// Color harmony type.
#[derive(Debug, Clone, Copy, PartialEq, Eq, Structural)]
pub enum ColorHarmony {
    Monochromatic,
    Complementary,
    SplitComplementary,
    Triadic,
    Tetradic,
    Square,
    Analogous,
}

/// The channels a hexadecimal colour code gives: red, green, blue and, for an
/// eight-digit code, the alpha byte.
#[derive(Debug, Clone, Copy, PartialEq, Eq, Structural)]
pub struct HexColor {
    pub r: u8,
    pub g: u8,
    pub b: u8,
    pub alpha: Option<u8>,
}

/// Value of a hexadecimal digit, either case.
pub open spec fn hex_digit_value(c: char) -> Option<u8> {
    if '0' <= c && c <= '9' {
        Some((c as u32 - '0' as u32) as u8)
    } else if 'a' <= c && c <= 'f' {
        Some((c as u32 - 'a' as u32 + 10) as u8)
    } else if 'A' <= c && c <= 'F' {
        Some((c as u32 - 'A' as u32 + 10) as u8)
    } else {
        None
    }
}

/// What `u8::from_str_radix(s, 16)` gives for a two-character text: two hex
/// digits, or a plus sign and one hex digit.
pub open spec fn hex_pair(a: char, b: char) -> Option<u8> {
    if a == '+' {
        hex_digit_value(b)
    } else {
        match (hex_digit_value(a), hex_digit_value(b)) {
            (Some(x), Some(y)) => Some((16 * x + y) as u8),
            _ => None,
        }
    }
}

/// Bytes a character takes in UTF-8.
pub open spec fn utf8_width(c: char) -> nat {
    if (c as u32) < 0x80 { 1 } else if (c as u32) < 0x800 { 2 } else if (c as u32) < 0x10000 { 3 } else { 4 }
}

/// Bytes a text takes in UTF-8, which is what `str::len` counts.
pub open spec fn utf8_len(s: Seq<char>) -> nat
    decreases s.len(),
{
    if s.len() == 0 { 0 } else { utf8_len(s.drop_last()) + utf8_width(s.last()) }
}

/// All characters are ASCII.
pub open spec fn all_ascii(s: Seq<char>) -> bool {
    forall|i: int| 0 <= i < s.len() ==> (s[i] as u32) < 0x80
}

/// Number of leading '#' characters.
pub open spec fn leading_hashes(s: Seq<char>) -> nat
    decreases s.len(),
{
    if s.len() > 0 && s[0] == '#' { 1 + leading_hashes(s.subrange(1, s.len() as int)) } else { 0 }
}

/// The channels of three, six or eight hex digits (after the leading '#'s):
/// each digit of a three-digit code doubled, or pairs of digits.
pub open spec fn hex_channels(h: Seq<char>) -> Option<HexColor> {
    if h.len() == 3 {
        match (hex_pair(h[0], h[0]), hex_pair(h[1], h[1]), hex_pair(h[2], h[2])) {
            (Some(r), Some(g), Some(b)) => Some(HexColor { r, g, b, alpha: None }),
            _ => None,
        }
    } else if h.len() == 6 {
        match (hex_pair(h[0], h[1]), hex_pair(h[2], h[3]), hex_pair(h[4], h[5])) {
            (Some(r), Some(g), Some(b)) => Some(HexColor { r, g, b, alpha: None }),
            _ => None,
        }
    } else {
        match (hex_pair(h[0], h[1]), hex_pair(h[2], h[3]), hex_pair(h[4], h[5]), hex_pair(h[6], h[7])) {
            (Some(r), Some(g), Some(b), Some(a)) => Some(HexColor { r, g, b, alpha: Some(a) }),
            _ => None,
        }
    }
}

/// What reading a hexadecimal colour code gives: the channels, or the error
/// message. Codes whose length in bytes is not 3, 6 or 8 have an invalid
/// length; other codes that are not ASCII hex digits are invalid.
pub open spec fn parse_hex_spec(s: Seq<char>) -> Result<HexColor, Seq<char>> {
    let h = s.subrange(leading_hashes(s) as int, s.len() as int);
    let n = utf8_len(h);
    if n != 3 && n != 6 && n != 8 {
        Err("Invalid hex length"@)
    } else if !all_ascii(h) {
        Err("Invalid hex"@)
    } else {
        match hex_channels(h) {
            Some(c) => Ok(c),
            None => Err("Invalid hex"@),
        }
    }
}

/// Lower-case hexadecimal digit of `d`.
pub open spec fn hex_digit(d: u8) -> char {
    if d < 10 { ((d + 48) as u8) as char } else { ((d + 87) as u8) as char }
}

/// Two lower-case hex digits of a byte, as `{:02x}` prints it.
pub open spec fn hex2(x: u8) -> Seq<char> {
    seq![hex_digit(x / 16), hex_digit(x % 16)]
}

/// The code `#rrggbb`, or `#rrggbbaa` with an alpha byte.
pub open spec fn hex_code(c: HexColor) -> Seq<char> {
    let base = "#"@ + hex2(c.r) + hex2(c.g) + hex2(c.b);
    match c.alpha {
        Some(a) => base + hex2(a),
        None => base,
    }
}

fn hex_value_exec(c: char) -> (r: Option<u8>)
    ensures r == hex_digit_value(c),
{
    if '0' <= c && c <= '9' {
        Some((c as u32 - '0' as u32) as u8)
    } else if 'a' <= c && c <= 'f' {
        Some((c as u32 - 'a' as u32 + 10) as u8)
    } else if 'A' <= c && c <= 'F' {
        Some((c as u32 - 'A' as u32 + 10) as u8)
    } else {
        None
    }
}

fn hex_pair_exec(a: char, b: char) -> (r: Option<u8>)
    ensures r == hex_pair(a, b),
{
    if a == '+' {
        hex_value_exec(b)
    } else {
        match (hex_value_exec(a), hex_value_exec(b)) {
            (Some(x), Some(y)) => Some(16 * x + y),
            _ => None,
        }
    }
}

fn utf8_width_exec(c: char) -> (w: usize)
    ensures w == utf8_width(c),
{
    if (c as u32) < 0x80 { 1 } else if (c as u32) < 0x800 { 2 } else if (c as u32) < 0x10000 { 3 } else { 4 }
}

/// Read a hexadecimal colour code (leading '#'s are skipped); see
/// `parse_hex_spec`.
pub fn parse_hex_color(hex: &str) -> (r: Result<HexColor, DesignError>)
    ensures
        match parse_hex_spec(hex@) {
            Ok(c) => r == Ok::<HexColor, DesignError>(c),
            Err(m) => r matches Err(DesignError::ColorError(e)) && e@ == m,
        },
{
    let v = chars_of(hex);
    let mut start: usize = 0;
    assert(v@.subrange(0, v@.len() as int) =~= v@);
    while start < v.len() && v[start] == '#'
        invariant
            start <= v@.len(),
            v@ == hex@,
            leading_hashes(v@) == start + leading_hashes(v@.subrange(start as int, v@.len() as int)),
        decreases v.len() - start,
    {
        proof {
            let t = v@.subrange(start as int, v@.len() as int);
            assert(t.subrange(1, t.len() as int) =~= v@.subrange(start + 1, v@.len() as int));
        }
        start = start + 1;
    }
    let ghost h = v@.subrange(start as int, v@.len() as int);
    assert(leading_hashes(v@) == start);
    if v.len() - start > 8 {
        proof { lemma_utf8_len_at_least(h); }
        return Err(DesignError::ColorError(owned("Invalid hex length")));
    }
    let mut bytes: usize = 0;
    let mut ascii = true;
    let mut i: usize = start;
    while i < v.len()
        invariant
            start <= i <= v@.len(),
            v@.len() - start <= 8,
            h == v@.subrange(start as int, v@.len() as int),
            bytes == utf8_len(v@.subrange(start as int, i as int)),
            bytes <= 4 * (i - start),
            ascii == all_ascii(v@.subrange(start as int, i as int)),
        decreases v.len() - i,
    {
        proof {
            assert(v@.subrange(start as int, i + 1).drop_last() =~= v@.subrange(start as int, i as int));
        }
        let c = v[i];
        bytes = bytes + utf8_width_exec(c);
        if (c as u32) >= 0x80 {
            ascii = false;
        }
        i = i + 1;
        proof {
            let t = v@.subrange(start as int, i as int);
            if ascii {
                assert forall|j: int| 0 <= j < t.len() implies (t[j] as u32) < 0x80 by {
                    if j < t.len() - 1 {
                        assert(t[j] == v@.subrange(start as int, i - 1)[j]);
                    }
                }
            } else if (c as u32) < 0x80 {
                let u = v@.subrange(start as int, i - 1);
                let j = choose|j: int| 0 <= j < u.len() && !((u[j] as u32) < 0x80);
                assert(t[j] == u[j]);
            } else {
                assert(t[t.len() - 1] == c);
            }
        }
    }
    if bytes != 3 && bytes != 6 && bytes != 8 {
        return Err(DesignError::ColorError(owned("Invalid hex length")));
    }
    if !ascii {
        return Err(DesignError::ColorError(owned("Invalid hex")));
    }
    proof { lemma_ascii_utf8_len(h); }
    let n = v.len() - start;
    let (r, g, b, alpha) = if n == 3 {
        (hex_pair_exec(v[start], v[start]), hex_pair_exec(v[start + 1], v[start + 1]),
            hex_pair_exec(v[start + 2], v[start + 2]), None)
    } else if n == 6 {
        (hex_pair_exec(v[start], v[start + 1]), hex_pair_exec(v[start + 2], v[start + 3]),
            hex_pair_exec(v[start + 4], v[start + 5]), None)
    } else {
        (hex_pair_exec(v[start], v[start + 1]), hex_pair_exec(v[start + 2], v[start + 3]),
            hex_pair_exec(v[start + 4], v[start + 5]), Some(hex_pair_exec(v[start + 6], v[start + 7])))
    };
    match (r, g, b) {
        (Some(r), Some(g), Some(b)) => match alpha {
            None => Ok(HexColor { r, g, b, alpha: None }),
            Some(Some(a)) => Ok(HexColor { r, g, b, alpha: Some(a) }),
            Some(None) => Err(DesignError::ColorError(owned("Invalid hex"))),
        },
        _ => Err(DesignError::ColorError(owned("Invalid hex"))),
    }
}

proof fn lemma_utf8_len_at_least(s: Seq<char>)
    ensures utf8_len(s) >= s.len(),
    decreases s.len(),
{
    if s.len() > 0 {
        lemma_utf8_len_at_least(s.drop_last());
    }
}

proof fn lemma_ascii_utf8_len(s: Seq<char>)
    requires all_ascii(s),
    ensures utf8_len(s) == s.len(),
    decreases s.len(),
{
    if s.len() > 0 {
        let t = s.drop_last();
        assert(all_ascii(t)) by {
            assert forall|i: int| 0 <= i < t.len() implies (t[i] as u32) < 0x80 by {
                assert(t[i] == s[i]);
            }
        }
        lemma_ascii_utf8_len(t);
        assert((s[s.len() - 1] as u32) < 0x80);
    }
}

fn hex_digit_exec(d: u8) -> (c: char)
    requires d < 16,
    ensures c == hex_digit(d),
{
    if d < 10 { (d + 48) as char } else { (d + 87) as char }
}

/// The code `#rrggbb`, or `#rrggbbaa` when an alpha byte is given, in lower case.
pub fn hex_string(c: HexColor) -> (s: String)
    ensures s@ == hex_code(c),
{
    proof { reveal_strlit("#"); }
    let mut v: Vec<char> = Vec::new();
    v.push('#');
    v.push(hex_digit_exec(c.r / 16));
    v.push(hex_digit_exec(c.r % 16));
    v.push(hex_digit_exec(c.g / 16));
    v.push(hex_digit_exec(c.g % 16));
    v.push(hex_digit_exec(c.b / 16));
    v.push(hex_digit_exec(c.b % 16));
    match c.alpha {
        Some(a) => {
            v.push(hex_digit_exec(a / 16));
            v.push(hex_digit_exec(a % 16));
        },
        None => {},
    }
    let s = string_from_chars(v.as_slice());
    assert(s@ =~= hex_code(c));
    s
}

proof fn lemma_hex2_reads_back(x: u8)
    ensures
        hex_pair(hex2(x)[0], hex2(x)[1]) == Some(x),
        (hex2(x)[0] as u32) < 0x80,
        (hex2(x)[1] as u32) < 0x80,
        hex2(x)[0] != '#',
{
    assert(x == 16 * (x / 16) + x % 16);
}

/// Reading a code that `hex_string` wrote gives back its channels.
pub proof fn law_hex_round_trip(c: HexColor)
    ensures parse_hex_spec(hex_code(c)) == Ok::<HexColor, Seq<char>>(c),
{
    reveal_strlit("#");
    let s = hex_code(c);
    lemma_hex2_reads_back(c.r);
    lemma_hex2_reads_back(c.g);
    lemma_hex2_reads_back(c.b);
    let t = s.subrange(1, s.len() as int);
    assert(s[0] == '#');
    assert(t.len() > 0 && t[0] != '#');
    assert(t.subrange(0, t.len() as int) =~= t);
    assert(leading_hashes(t) == 0);
    assert(leading_hashes(s) == 1);
    assert(all_ascii(t)) by {
        match c.alpha {
            Some(a) => { lemma_hex2_reads_back(a); },
            None => {},
        }
    }
    lemma_ascii_utf8_len(t);
    match c.alpha {
        Some(a) => {
            lemma_hex2_reads_back(a);
            assert(t =~= hex2(c.r) + hex2(c.g) + hex2(c.b) + hex2(a));
        },
        None => {
            assert(t =~= hex2(c.r) + hex2(c.g) + hex2(c.b));
        },
    }
}


proof fn lemma_upper_char(c: char)
    ensures
        hex_digit_value(ascii_upper_char(c)) == hex_digit_value(c),
        utf8_width(ascii_upper_char(c)) == utf8_width(c),
        ((ascii_upper_char(c) as u32) < 0x80) == ((c as u32) < 0x80),
        (ascii_upper_char(c) == '#') == (c == '#'),
        (ascii_upper_char(c) == '+') == (c == '+'),
{
    if 'a' <= c && c <= 'z' {
        let u = ascii_upper_char(c);
        assert(u as u32 == (c as u32) - 32);
        assert('A' <= u && u <= 'Z');
        if c <= 'f' {
            assert((u as u32 - 'A' as u32 + 10) == (c as u32 - 'a' as u32 + 10));
        }
    }
}

proof fn lemma_upper_leading_hashes(s: Seq<char>)
    ensures leading_hashes(ascii_upper(s)) == leading_hashes(s),
    decreases s.len(),
{
    if s.len() > 0 {
        lemma_upper_char(s[0]);
        assert(ascii_upper(s).subrange(1, s.len() as int) =~= ascii_upper(s.subrange(1, s.len() as int)));
        lemma_upper_leading_hashes(s.subrange(1, s.len() as int));
    }
}

proof fn lemma_leading_hashes_bound(s: Seq<char>)
    ensures leading_hashes(s) <= s.len(),
    decreases s.len(),
{
    if s.len() > 0 && s[0] == '#' {
        lemma_leading_hashes_bound(s.subrange(1, s.len() as int));
    }
}

proof fn lemma_upper_utf8_len(s: Seq<char>)
    ensures utf8_len(ascii_upper(s)) == utf8_len(s),
    decreases s.len(),
{
    if s.len() > 0 {
        lemma_upper_char(s.last());
        assert(ascii_upper(s).drop_last() =~= ascii_upper(s.drop_last()));
        lemma_upper_utf8_len(s.drop_last());
    }
}

/// Each hexadecimal digit reads as its value in either case: the `d`-th of
/// `0123456789abcdef` and the `d`-th of `0123456789ABCDEF` both read as `d`,
/// as do the digit that `hex_string` writes for `d` and its upper-case form,
/// and a character reads as a value only when it is one of those two for that
/// value.
pub proof fn law_hex_digits_either_case(d: u8, c: char)
    requires d < 16,
    ensures
        hex_digit_value(seq!['0', '1', '2', '3', '4', '5', '6', '7', '8', '9', 'a', 'b', 'c', 'd', 'e', 'f'][d as int]) == Some(d),
        hex_digit_value(seq!['0', '1', '2', '3', '4', '5', '6', '7', '8', '9', 'A', 'B', 'C', 'D', 'E', 'F'][d as int]) == Some(d),
        hex_digit_value(hex_digit(d)) == Some(d),
        hex_digit_value(ascii_upper_char(hex_digit(d))) == Some(d),
        hex_digit_value(c) matches Some(v) ==> v < 16 && (c == hex_digit(v) || c == ascii_upper_char(hex_digit(v))),
{
    lemma_upper_char(hex_digit(d));
    if hex_digit_value(c) is Some {
        let v = hex_digit_value(c)->0;
        lemma_upper_char(hex_digit(v));
        if 'A' <= c && c <= 'F' {
            assert(ascii_upper_char(hex_digit(v)) as u32 == c as u32);
        }
    }
}

/// Reading a colour code does not depend on the case of its letters: the code
/// with its letters made upper case reads as the code itself, channels and
/// error alike.
pub proof fn law_hex_case_insensitive(s: Seq<char>)
    ensures parse_hex_spec(ascii_upper(s)) == parse_hex_spec(s),
{
    let u = ascii_upper(s);
    lemma_upper_leading_hashes(s);
    lemma_leading_hashes_bound(s);
    let k = leading_hashes(s) as int;
    let h = s.subrange(k, s.len() as int);
    let hu = u.subrange(k, u.len() as int);
    assert(hu =~= ascii_upper(h));
    lemma_upper_utf8_len(h);
    assert(all_ascii(hu) == all_ascii(h)) by {
        assert forall|i: int| 0 <= i < h.len() implies ((hu[i] as u32) < 0x80) == ((h[i] as u32) < 0x80) by {
            lemma_upper_char(h[i]);
        }
        if all_ascii(h) {
            assert forall|i: int| 0 <= i < hu.len() implies (hu[i] as u32) < 0x80 by {
                lemma_upper_char(h[i]);
            }
        }
        if all_ascii(hu) {
            assert forall|i: int| 0 <= i < h.len() implies (h[i] as u32) < 0x80 by {
                lemma_upper_char(h[i]);
            }
        }
    }
    assert forall|i: int, j: int| 0 <= i < h.len() && 0 <= j < h.len()
        implies #[trigger] hex_pair(hu[i], hu[j]) == hex_pair(h[i], h[j]) by {
        lemma_upper_char(h[i]);
        lemma_upper_char(h[j]);
    }
    if h.len() == 3 {
        assert(hex_pair(hu[0], hu[0]) == hex_pair(h[0], h[0]));
        assert(hex_pair(hu[1], hu[1]) == hex_pair(h[1], h[1]));
        assert(hex_pair(hu[2], hu[2]) == hex_pair(h[2], h[2]));
    } else if h.len() == 6 {
        assert(hex_pair(hu[0], hu[1]) == hex_pair(h[0], h[1]));
        assert(hex_pair(hu[2], hu[3]) == hex_pair(h[2], h[3]));
        assert(hex_pair(hu[4], hu[5]) == hex_pair(h[4], h[5]));
    } else if h.len() >= 8 {
        assert(hex_pair(hu[0], hu[1]) == hex_pair(h[0], h[1]));
        assert(hex_pair(hu[2], hu[3]) == hex_pair(h[2], h[3]));
        assert(hex_pair(hu[4], hu[5]) == hex_pair(h[4], h[5]));
        assert(hex_pair(hu[6], hu[7]) == hex_pair(h[6], h[7]));
    }
    if all_ascii(h) {
        lemma_ascii_utf8_len(h);
    }
}

/// The red, green and blue channels that tell colors apart in the history.
pub type Rgb = (u8, u8, u8);

/// The history after picking a color: any entry with the same channels
/// leaves, the color comes first, and beyond 50 entries the oldest goes.
pub open spec fn history_after<C>(h: Seq<(Rgb, C)>, key: Rgb, color: C) -> Seq<(Rgb, C)> {
    let without = match position_of(h, key) {
        Some(p) => h.remove(p),
        None => h,
    };
    let added = seq![(key, color)] + without;
    if added.len() > 50 { added.drop_last() } else { added }
}

/// Position of the entry with the given channels.
pub open spec fn position_of<C>(h: Seq<(Rgb, C)>, key: Rgb) -> Option<int> {
    if exists|i: int| 0 <= i < h.len() && h[i].0 == key {
        Some(choose|i: int| 0 <= i < h.len() && h[i].0 == key)
    } else {
        None
    }
}

/// No two entries have the same channels.
pub open spec fn distinct_keys<C>(h: Seq<(Rgb, C)>) -> bool {
    forall|i: int, j: int| 0 <= i < h.len() && 0 <= j < h.len() && i != j ==> #[trigger] h[i].0 != #[trigger] h[j].0
}

/// A palette of colors. Times are milliseconds since the Unix epoch.
pub struct ColorPalette<C> {
    pub id: String,
    pub name: String,
    pub colors: Vec<C>,
    pub tags: Vec<String>,
    pub created_at: i64,
    pub updated_at: i64,
}

/// How a colour is written, as the picker reads it: a hexadecimal code, or the
/// channels of `rgb(..)`/`rgba(..)` or `hsl(..)`/`hsla(..)` with the alpha as
/// written (the alpha is a fraction, read outside the library).
#[derive(Debug)]
pub enum ColorNotation {
    Hex(HexColor),
    Rgb(u8, u8, u8, Option<String>),
    Hsl(u32, u32, u32, Option<String>),
}

/// A colour notation with its texts as values.
pub enum NotationView {
    Hex(HexColor),
    Rgb(u8, u8, u8, Option<Seq<char>>),
    Hsl(u32, u32, u32, Option<Seq<char>>),
}

pub open spec fn opt_text(o: Option<String>) -> Option<Seq<char>> {
    match o {
        Some(s) => Some(s@),
        None => None,
    }
}

pub open spec fn notation_view(n: ColorNotation) -> NotationView {
    match n {
        ColorNotation::Hex(c) => NotationView::Hex(c),
        ColorNotation::Rgb(r, g, b, a) => NotationView::Rgb(r, g, b, opt_text(a)),
        ColorNotation::Hsl(h, s, l, a) => NotationView::Hsl(h, s, l, opt_text(a)),
    }
}

/// The pattern of `rgb(..)` and `rgba(..)`.
pub open spec fn rgb_pattern() -> Seq<char> {
    "rgba?\\((\\d+),\\s*(\\d+),\\s*(\\d+)(?:,\\s*([0-9.]+))?\\)"@
}

/// The pattern of `hsl(..)` and `hsla(..)`.
pub open spec fn hsl_pattern() -> Seq<char> {
    "hsla?\\((\\d+),\\s*(\\d+)%,\\s*(\\d+)%(?:,\\s*([0-9.]+))?\\)"@
}

/// What `regex::Regex::captures` finds for a pattern in a text: nothing, or the
/// capture groups after the whole match, each with its text if it took part.
pub uninterp spec fn regex_captures(pattern: Seq<char>, text: Seq<char>) -> Option<Seq<Option<Seq<char>>>>;

pub open spec fn opt_texts(v: Seq<Option<String>>) -> Seq<Option<Seq<char>>> {
    v.map_values(|o: Option<String>| opt_text(o))
}

/// `regex::Regex::new(pattern)` and its `captures(text)`, the groups after the
/// whole match taken as owned texts; named by `regex_captures` (a pattern that
/// does not compile finds nothing).
#[verifier::external_body]
pub(crate) fn captures(pattern: &str, text: &str) -> (r: Option<Vec<Option<String>>>)
    ensures
        match r {
            Some(v) => regex_captures(pattern@, text@) == Some(opt_texts(v@)),
            None => regex_captures(pattern@, text@) is None,
        },
{
    let re = regex::Regex::new(pattern).ok()?;
    let caps = re.captures(text)?;
    Some(caps.iter().skip(1).map(|m| m.map(|m| m.as_str().to_string())).collect())
}

pub open spec fn is_ascii_digit(c: char) -> bool {
    '0' <= c && c <= '9'
}

/// The value of a string of decimal digits.
pub open spec fn digits_value(d: Seq<char>) -> nat
    decreases d.len(),
{
    if d.len() == 0 { 0 } else { digits_value(d.drop_last()) * 10 + ((d.last() as nat) - ('0' as nat)) as nat }
}

/// What `str::parse` reads as an unsigned number before its range is checked:
/// an optional '+' and then one or more ASCII digits.
pub open spec fn unsigned_value(s: Seq<char>) -> Option<nat> {
    let d = unsigned_digits(s);
    if d.len() > 0 && all_digits(d) { Some(digits_value(d)) } else { None }
}

/// The text without its leading '+', if any.
pub open spec fn unsigned_digits(s: Seq<char>) -> Seq<char> {
    if s.len() > 0 && s[0] == '+' { s.subrange(1, s.len() as int) } else { s }
}

pub open spec fn all_digits(d: Seq<char>) -> bool {
    forall|i: int| 0 <= i < d.len() ==> is_ascii_digit(#[trigger] d[i])
}

/// The number a text gives when it is at most `max`.
pub open spec fn bounded_value(s: Seq<char>, max: nat) -> Option<nat> {
    match unsigned_value(s) {
        Some(v) => if v <= max { Some(v) } else { None },
        None => None,
    }
}

/// The `i`-th capture group, when it took part.
pub open spec fn group(groups: Seq<Option<Seq<char>>>, i: int) -> Option<Seq<char>> {
    if 0 <= i < groups.len() { groups[i] } else { None }
}

/// The three numbers of the first three groups, each at most `max`.
pub open spec fn three_numbers(groups: Seq<Option<Seq<char>>>, max: nat) -> Option<(nat, nat, nat)> {
    match (group(groups, 0), group(groups, 1), group(groups, 2)) {
        (Some(a), Some(b), Some(c)) => match (bounded_value(a, max), bounded_value(b, max), bounded_value(c, max)) {
            (Some(x), Some(y), Some(z)) => Some((x, y, z)),
            _ => None,
        },
        _ => None,
    }
}

/// What reading a colour gives, after trimming white space: a code that starts
/// with '#' or takes 3, 6 or 8 bytes is hexadecimal; text starting with "rgb"
/// or "hsl" that the matching pattern finds has its three numbers read (channels
/// up to 255, hue, saturation and lightness as unsigned 32-bit numbers), a number
/// that does not read being an invalid component; anything else is refused.
pub open spec fn read_notation(input: Seq<char>) -> Result<NotationView, Seq<char>> {
    let t = trim_seq(input);
    let n = utf8_len(t);
    if (t.len() > 0 && t[0] == '#') || n == 3 || n == 6 || n == 8 {
        match parse_hex_spec(t) {
            Ok(c) => Ok(NotationView::Hex(c)),
            Err(m) => Err(m),
        }
    } else if starts_with_seq(t, "rgb"@) && regex_captures(rgb_pattern(), t) is Some {
        let g = regex_captures(rgb_pattern(), t)->0;
        match three_numbers(g, 255) {
            Some((r, gr, b)) => Ok(NotationView::Rgb(r as u8, gr as u8, b as u8, group(g, 3))),
            None => Err("Invalid color component"@),
        }
    } else if starts_with_seq(t, "hsl"@) && regex_captures(hsl_pattern(), t) is Some {
        let g = regex_captures(hsl_pattern(), t)->0;
        match three_numbers(g, u32::MAX as nat) {
            Some((h, sa, l)) => Ok(NotationView::Hsl(h as u32, sa as u32, l as u32, group(g, 3))),
            None => Err("Invalid color component"@),
        }
    } else {
        Err("Unable to parse color"@)
    }
}

proof fn lemma_digits_value_prefix(d: Seq<char>, i: int)
    requires
        0 <= i <= d.len(),
        forall|k: int| 0 <= k < d.len() ==> is_ascii_digit(#[trigger] d[k]),
    ensures
        digits_value(d.subrange(0, i)) <= digits_value(d),
    decreases d.len(),
{
    if i < d.len() {
        let e = d.drop_last();
        assert(e.subrange(0, i) =~= d.subrange(0, i));
        assert forall|k: int| 0 <= k < e.len() implies is_ascii_digit(#[trigger] e[k]) by {
            assert(e[k] == d[k]);
        }
        lemma_digits_value_prefix(e, i);
    } else {
        assert(d.subrange(0, i) =~= d);
    }
}

/// Read an unsigned number of at most `max`; see `bounded_value`.
pub(crate) fn parse_bounded(s: &str, max: u64) -> (r: Option<u64>)
    requires max < 0x1_0000_0000,
    ensures
        match r {
            Some(v) => bounded_value(s@, max as nat) == Some(v as nat),
            None => bounded_value(s@, max as nat) is None,
        },
{
    let v = chars_of(s);
    let start: usize = if v.len() > 0 && v[0] == '+' { 1 } else { 0 };
    let ghost d = v@.subrange(start as int, v@.len() as int);
    proof {
        if start == 0 {
            assert(d =~= s@);
        }
        assert(d == unsigned_digits(s@));
    }
    if start >= v.len() {
        return None;
    }
    let mut acc: u64 = 0;
    let mut i: usize = start;
    while i < v.len()
        invariant
            start <= i <= v@.len(),
            start < v@.len(),
            v@ == s@,
            d == v@.subrange(start as int, v@.len() as int),
            d == unsigned_digits(s@),
            max < 0x1_0000_0000,
            acc <= max,
            acc == digits_value(d.subrange(0, i - start)),
            forall|k: int| 0 <= k < i - start ==> is_ascii_digit(#[trigger] d[k]),
        decreases v.len() - i,
    {
        let c = v[i];
        proof {
            assert(d.subrange(0, i - start + 1).drop_last() =~= d.subrange(0, i - start));
            assert(d[i - start] == c);
        }
        if !('0' <= c && c <= '9') {
            proof { assert(!is_ascii_digit(d[i - start])); }
            return None;
        }
        let digit = (c as u32 - '0' as u32) as u64;
        proof {
            let x = d.subrange(0, i - start + 1);
            assert(x.last() == c);
            assert(digits_value(x) == digits_value(x.drop_last()) * 10 + ((c as nat) - ('0' as nat)) as nat);
        }
        acc = acc * 10 + digit;
        if acc > max {
            proof {
                if unsigned_value(s@) is Some {
                    assert(all_digits(d));
                    lemma_digits_value_prefix(d, i - start + 1);
                    assert(digits_value(d) > max);
                }
            }
            return None;
        }
        i = i + 1;
    }
    assert(d.subrange(0, d.len() as int) =~= d);
    Some(acc)
}

/// Whether the text's UTF-8 length is that of a hexadecimal code: 3, 6 or 8.
fn hex_code_length(v: &Vec<char>) -> (b: bool)
    ensures b == (utf8_len(v@) == 3 || utf8_len(v@) == 6 || utf8_len(v@) == 8),
{
    if v.len() > 8 {
        proof { lemma_utf8_len_at_least(v@); }
        return false;
    }
    let mut bytes: usize = 0;
    let mut i: usize = 0;
    while i < v.len()
        invariant
            i <= v@.len() <= 8,
            bytes == utf8_len(v@.subrange(0, i as int)),
            bytes <= 4 * i,
        decreases v.len() - i,
    {
        proof { assert(v@.subrange(0, i + 1).drop_last() =~= v@.subrange(0, i as int)); }
        bytes = bytes + utf8_width_exec(v[i]);
        i = i + 1;
    }
    assert(v@.subrange(0, v@.len() as int) =~= v@);
    bytes == 3 || bytes == 6 || bytes == 8
}

fn group_at(groups: &Vec<Option<String>>, i: usize) -> (r: Option<&String>)
    ensures
        match r {
            Some(s) => group(opt_texts(groups@), i as int) == Some(s@),
            None => group(opt_texts(groups@), i as int) is None,
        },
{
    if i < groups.len() {
        match &groups[i] {
            Some(s) => Some(s),
            None => None,
        }
    } else {
        None
    }
}

fn copy_group(groups: &Vec<Option<String>>, i: usize) -> (r: Option<String>)
    ensures opt_text(r) == group(opt_texts(groups@), i as int),
{
    match group_at(groups, i) {
        Some(s) => Some(s.clone()),
        None => None,
    }
}

fn three_numbers_exec(groups: &Vec<Option<String>>, max: u64) -> (r: Option<(u64, u64, u64)>)
    requires max < 0x1_0000_0000,
    ensures
        match r {
            Some((x, y, z)) => three_numbers(opt_texts(groups@), max as nat) == Some((x as nat, y as nat, z as nat)),
            None => three_numbers(opt_texts(groups@), max as nat) is None,
        },
{
    let a = match group_at(groups, 0) { Some(a) => a, None => return None };
    let b = match group_at(groups, 1) { Some(b) => b, None => return None };
    let c = match group_at(groups, 2) { Some(c) => c, None => return None };
    match (parse_bounded(a.as_str(), max), parse_bounded(b.as_str(), max), parse_bounded(c.as_str(), max)) {
        (Some(x), Some(y), Some(z)) => Some((x, y, z)),
        _ => None,
    }
}

/// Read a colour as written; see `read_notation`.
fn read_color_notation(input: &str) -> (r: Result<ColorNotation, DesignError>)
    ensures
        match read_notation(input@) {
            Ok(n) => r matches Ok(m) && notation_view(m) == n,
            Err(e) => r matches Err(DesignError::ColorError(m)) && m@ == e,
        },
{
    let t = trim_str(input);
    let v = chars_of(t.as_str());
    if (v.len() > 0 && v[0] == '#') || hex_code_length(&v) {
        return match parse_hex_color(t.as_str()) {
            Ok(c) => Ok(ColorNotation::Hex(c)),
            Err(e) => Err(e),
        };
    }
    proof { reveal_strlit("rgb"); reveal_strlit("hsl"); }
    let rgb = "rgba?\\((\\d+),\\s*(\\d+),\\s*(\\d+)(?:,\\s*([0-9.]+))?\\)";
    let hsl = "hsla?\\((\\d+),\\s*(\\d+)%,\\s*(\\d+)%(?:,\\s*([0-9.]+))?\\)";
    assert(rgb@ == rgb_pattern());
    assert(hsl@ == hsl_pattern());
    if starts_with_str(t.as_str(), "rgb") {
        match captures(rgb, t.as_str()) {
            Some(groups) => {
                return match three_numbers_exec(&groups, 255) {
                    Some((r, g, b)) => Ok(ColorNotation::Rgb(r as u8, g as u8, b as u8, copy_group(&groups, 3))),
                    None => Err(DesignError::ColorError(owned("Invalid color component"))),
                };
            },
            None => {},
        }
    }
    if starts_with_str(t.as_str(), "hsl") {
        match captures(hsl, t.as_str()) {
            Some(groups) => {
                return match three_numbers_exec(&groups, 0xffff_ffff) {
                    Some((h, s, l)) => Ok(ColorNotation::Hsl(h as u32, s as u32, l as u32, copy_group(&groups, 3))),
                    None => Err(DesignError::ColorError(owned("Invalid color component"))),
                };
            },
            None => {},
        }
    }
    Err(DesignError::ColorError(owned("Unable to parse color")))
}

/// The color picker's memory: the colors picked (newest first), palettes by
/// id and favorite color ids. A color's alpha is a fraction, so colors are
/// kept as values of the caller's color type with their red, green and blue
/// channels beside them.
pub struct ColorPicker<C> {
    history: Vec<(Rgb, C)>,
    palettes: StrMap<ColorPalette<C>>,
    favorites: Vec<String>,
}

impl<C> ColorPicker<C> {
    pub closed spec fn wf(&self) -> bool {
        self.palettes.wf() && distinct_keys(self.history@) && self.history@.len() <= 50
    }

    /// The colors picked, newest first, with their channels.
    pub closed spec fn history_view(&self) -> Seq<(Rgb, C)> {
        self.history@
    }

    /// The palettes by id.
    pub closed spec fn palettes_view(&self) -> Map<Seq<char>, ColorPalette<C>> {
        self.palettes@
    }

    /// The palettes in the order created.
    pub closed spec fn palette_seq(&self) -> Seq<ColorPalette<C>> {
        self.palettes.value_seq()
    }

    /// The favorite color ids, in the order added.
    pub closed spec fn favorites_view(&self) -> Seq<Seq<char>> {
        views(self.favorites@)
    }

    /// Read a colour as written; see `read_notation`.
    pub fn parse_color(&self, input: &str) -> (r: Result<ColorNotation, DesignError>)
        ensures
            match read_notation(input@) {
                Ok(n) => r matches Ok(m) && notation_view(m) == n,
                Err(e) => r matches Err(DesignError::ColorError(m)) && m@ == e,
            },
    {
        read_color_notation(input)
    }

    /// A picker with no history, palettes or favorites.
    pub fn new() -> (p: Self)
        ensures
            p.wf(),
            p.history_view().len() == 0,
            p.palettes_view() == Map::<Seq<char>, ColorPalette<C>>::empty(),
            p.favorites_view().len() == 0,
    {
        ColorPicker { history: Vec::new(), palettes: StrMap::new(), favorites: Vec::new() }
    }

    /// Pick a color; see `history_after`.
    pub fn add_to_history(&mut self, rgb: Rgb, color: C)
        requires old(self).wf(),
        ensures
            final(self).wf(),
            final(self).history_view() == history_after(old(self).history_view(), rgb, color),
            final(self).palettes_view() == old(self).palettes_view(),
            final(self).favorites_view() == old(self).favorites_view(),
    {
        let ghost h = self.history@;
        let mut i: usize = 0;
        let mut found: Option<usize> = None;
        while i < self.history.len()
            invariant_except_break
                found is None,
            invariant
                i <= self.history@.len(),
                self.history@ == h,
                forall|j: int| 0 <= j < i ==> (#[trigger] h[j]).0 != rgb,
            ensures
                i <= h.len(),
                forall|j: int| 0 <= j < i ==> (#[trigger] h[j]).0 != rgb,
                match found {
                    Some(p) => p == i && p < h.len() && h[p as int].0 == rgb,
                    None => i == h.len(),
                },
            decreases self.history.len() - i,
        {
            let k = self.history[i].0;
            if k.0 == rgb.0 && k.1 == rgb.1 && k.2 == rgb.2 {
                found = Some(i);
                break;
            }
            i = i + 1;
        }
        let ghost without = match found {
            Some(p) => h.remove(p as int),
            None => h,
        };
        proof {
            match found {
                Some(p) => {
                    assert(position_of(h, rgb) == Some(p as int)) by {
                        let c = choose|c: int| 0 <= c < h.len() && h[c].0 == rgb;
                        if c != p {
                            assert(h[c].0 != h[p as int].0);
                        }
                    }
                },
                None => {
                    assert(position_of(h, rgb) is None);
                },
            }
        }
        match found {
            Some(p) => {
                self.history.remove(p);
            },
            None => {},
        }
        assert(self.history@ == without);
        self.history.insert(0, (rgb, color));
        assert(self.history@ =~= seq![(rgb, color)] + without);
        if self.history.len() > 50 {
            self.history.pop();
        }
        proof {
            let added = seq![(rgb, color)] + without;
            assert(forall|j: int| 0 <= j < without.len() ==> (#[trigger] without[j]).0 != rgb) by {
                assert forall|j: int| 0 <= j < without.len() implies (#[trigger] without[j]).0 != rgb by {
                    match found {
                        Some(p) => {
                            if j < p {
                                assert(without[j] == h[j]);
                            } else {
                                assert(without[j] == h[j + 1]);
                                assert(h[j + 1].0 != h[p as int].0);
                            }
                        },
                        None => {},
                    }
                }
            }
            assert(distinct_keys(without)) by {
                assert forall|a: int, b: int| 0 <= a < without.len() && 0 <= b < without.len() && a != b
                    implies #[trigger] without[a].0 != #[trigger] without[b].0 by {
                    match found {
                        Some(p) => {
                            let a2 = if a < p { a } else { a + 1 };
                            let b2 = if b < p { b } else { b + 1 };
                            assert(without[a] == h[a2]);
                            assert(without[b] == h[b2]);
                        },
                        None => {},
                    }
                }
            }
            assert(distinct_keys(added)) by {
                assert forall|a: int, b: int| 0 <= a < added.len() && 0 <= b < added.len() && a != b
                    implies #[trigger] added[a].0 != #[trigger] added[b].0 by {
                    if a > 0 {
                        assert(added[a] == without[a - 1]);
                    }
                    if b > 0 {
                        assert(added[b] == without[b - 1]);
                    }
                }
            }
            if added.len() > 50 {
                assert(self.history@ =~= added.drop_last());
                assert forall|a: int, b: int| 0 <= a < self.history@.len() && 0 <= b < self.history@.len() && a != b
                    implies #[trigger] self.history@[a].0 != #[trigger] self.history@[b].0 by {
                    assert(self.history@[a] == added[a]);
                    assert(self.history@[b] == added[b]);
                }
            }
        }
    }

    /// The colors picked, newest first.
    pub fn get_history(&self) -> (r: &Vec<(Rgb, C)>)
        ensures r@ == self.history_view(),
    {
        &self.history
    }

    /// Forget the colors picked.
    pub fn clear_history(&mut self)
        requires old(self).wf(),
        ensures
            final(self).wf(),
            final(self).history_view().len() == 0,
            final(self).palettes_view() == old(self).palettes_view(),
            final(self).favorites_view() == old(self).favorites_view(),
    {
        self.history.clear();
    }

    /// Keep a palette under a fresh id, created and updated at `now`; the id
    /// is given back.
    pub fn create_palette(&mut self, name: String, colors: Vec<C>, tags: Vec<String>, now: i64) -> (id: String)
        requires old(self).wf(),
        ensures
            final(self).wf(),
            crate::stamp::is_hyphenated_uuid(id@),
            final(self).palettes_view().dom() == old(self).palettes_view().dom().insert(id@),
            final(self).palettes_view()[id@].id@ == id@,
            final(self).palettes_view()[id@].name == name,
            final(self).palettes_view()[id@].colors@ == colors@,
            views(final(self).palettes_view()[id@].tags@) == views(tags@),
            final(self).palettes_view()[id@].created_at == now && final(self).palettes_view()[id@].updated_at == now,
            forall|k: Seq<char>| k != id@ && #[trigger] old(self).palettes_view().contains_key(k)
                ==> final(self).palettes_view()[k] == old(self).palettes_view()[k],
            final(self).history_view() == old(self).history_view(),
            final(self).favorites_view() == old(self).favorites_view(),
    {
        let id = crate::stamp::new_uuid();
        let ghost c = colors@;
        let ghost t = tags@;
        let palette = ColorPalette { id: id.clone(), name, colors, tags, created_at: now, updated_at: now };
        let ghost p = palette;
        self.palettes.insert(id.clone(), palette);
        proof {
            assert(self.palettes@[id@] == p);
        }
        id
    }

    /// The palette under `id`.
    pub fn get_palette(&self, id: &str) -> (r: Option<&ColorPalette<C>>)
        requires self.wf(),
        ensures
            match r {
                Some(p) => self.palettes_view().contains_key(id@) && *p == self.palettes_view()[id@],
                None => !self.palettes_view().contains_key(id@),
            },
    {
        self.palettes.get(id)
    }

    /// The palettes, in the order created.
    pub fn list_palettes(&self) -> (r: Vec<&ColorPalette<C>>)
        ensures
            r@.len() == self.palette_seq().len(),
            forall|i: int| 0 <= i < r@.len() ==> *#[trigger] r@[i] == self.palette_seq()[i],
    {
        self.palettes.values()
    }

    /// Forget the palette under `id`, if any.
    pub fn delete_palette(&mut self, id: &str)
        requires old(self).wf(),
        ensures
            final(self).wf(),
            final(self).palettes_view() == old(self).palettes_view().remove(id@),
            final(self).history_view() == old(self).history_view(),
            final(self).favorites_view() == old(self).favorites_view(),
    {
        self.palettes.remove(id);
    }

    /// Add a favorite color id at the end.
    pub fn add_favorite(&mut self, color_id: String)
        requires old(self).wf(),
        ensures
            final(self).wf(),
            final(self).favorites_view() == old(self).favorites_view().push(color_id@),
            final(self).history_view() == old(self).history_view(),
            final(self).palettes_view() == old(self).palettes_view(),
    {
        let ghost f = self.favorites@;
        self.favorites.push(color_id);
        assert(views(self.favorites@) =~= views(f).push(color_id@));
    }

    /// Remove every mention of a favorite color id; the others keep their order.
    pub fn remove_favorite(&mut self, color_id: &str)
        requires old(self).wf(),
        ensures
            final(self).wf(),
            final(self).favorites_view() == without_id(old(self).favorites_view(), color_id@),
            final(self).history_view() == old(self).history_view(),
            final(self).palettes_view() == old(self).palettes_view(),
    {
        let mut kept: Vec<String> = Vec::new();
        let mut i: usize = 0;
        while i < self.favorites.len()
            invariant
                i <= self.favorites@.len(),
                views(kept@) == without_id(views(self.favorites@).subrange(0, i as int), color_id@),
            decreases self.favorites.len() - i,
        {
            proof {
                let s = views(self.favorites@).subrange(0, i + 1);
                assert(s.drop_last() =~= views(self.favorites@).subrange(0, i as int));
            }
            if !str_eq(self.favorites[i].as_str(), color_id) {
                let ghost k = kept@;
                kept.push(self.favorites[i].clone());
                assert(views(kept@) =~= views(k).push(self.favorites@[i as int]@));
            }
            i = i + 1;
        }
        assert(views(self.favorites@).subrange(0, self.favorites@.len() as int) =~= views(self.favorites@));
        self.favorites = kept;
    }

    /// The favorite color ids, in the order added.
    pub fn get_favorites(&self) -> (r: Vec<String>)
        ensures views(r@) == self.favorites_view(),
    {
        let mut r: Vec<String> = Vec::new();
        let mut i: usize = 0;
        while i < self.favorites.len()
            invariant
                i <= self.favorites@.len(),
                views(r@) == views(self.favorites@).subrange(0, i as int),
            decreases self.favorites.len() - i,
        {
            let ghost old_r = r@;
            r.push(self.favorites[i].clone());
            assert(views(r@) =~= views(old_r).push(self.favorites@[i as int]@));
            i = i + 1;
            assert(views(r@) =~= views(self.favorites@).subrange(0, i as int));
        }
        assert(views(r@) =~= self.favorites_view());
        r
    }
}

/// `ids` without `id`, the others in order.
pub open spec fn without_id(ids: Seq<Seq<char>>, id: Seq<char>) -> Seq<Seq<char>>
    decreases ids.len(),
{
    if ids.len() == 0 {
        ids
    } else if ids.last() == id {
        without_id(ids.drop_last(), id)
    } else {
        without_id(ids.drop_last(), id).push(ids.last())
    }
}

/// Picking a color leaves one entry with its channels, first.
pub proof fn law_history_keeps_colors_apart<C>(h: Seq<(Rgb, C)>, key: Rgb, color: C)
    requires
        distinct_keys(h),
    ensures
        history_after(h, key, color).len() >= 1,
        history_after(h, key, color)[0] == (key, color),
        history_after(h, key, color).len() <= 50 || h.len() >= 50,
{
}

} // verus!
