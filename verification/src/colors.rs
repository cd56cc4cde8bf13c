use vstd::prelude::*;
use vstd::string::StringExecFns;
use vstd::string::StringSliceAdditionalSpecFns;
use vstd::utf8::{encode_utf8, is_char_boundary, is_ascii_chars, is_ascii_chars_encode_utf8, encode_utf8_valid_utf8, is_char_boundary_iff_not_is_continuation_byte};

verus! {

/// The value of an ASCII hexadecimal digit, either case.
pub open spec fn hex_value(c: u8) -> Option<u8> {
    if 48 <= c <= 57 {
        Some((c - 48) as u8)
    } else if 97 <= c <= 102 {
        Some((c - 87) as u8)
    } else if 65 <= c <= 70 {
        Some((c - 55) as u8)
    } else {
        None
    }
}

/// What `u8::from_str_radix(.., 16)` makes of two bytes: two hex digits, or a plus sign and one.
pub open spec fn parse_hex_pair(b0: u8, b1: u8) -> Option<u8> {
    if b0 == 43 {
        hex_value(b1)
    } else {
        match (hex_value(b0), hex_value(b1)) {
            (Some(h), Some(l)) => Some((h * 16 + l) as u8),
            _ => None,
        }
    }
}

/// The bytes without their leading `#` characters.
pub open spec fn strip_hashes(b: Seq<u8>) -> Seq<u8>
    decreases b.len(),
{
    if b.len() > 0 && b[0] == 35 {
        strip_hashes(b.drop_first())
    } else {
        b
    }
}

/// The color shown when a color text does not parse: the default blue.
pub open spec fn fallback_color() -> (u8, u8, u8) {
    (33, 150, 243)
}

/// The color a `#RRGGBB` text stands for: after the leading `#`s, exactly six bytes of three
/// parsable pairs; otherwise the default blue.
pub open spec fn color_of(b: Seq<u8>) -> (u8, u8, u8) {
    let t = strip_hashes(b);
    if t.len() == 6 {
        match (parse_hex_pair(t[0], t[1]), parse_hex_pair(t[2], t[3]), parse_hex_pair(t[4], t[5])) {
            (Some(r), Some(g), Some(bl)) => (r, g, bl),
            _ => fallback_color(),
        }
    } else {
        fallback_color()
    }
}

/// Whether a color text can be parsed by byte ranges: where it has six bytes after its `#`s,
/// the pairs start on character boundaries.
pub open spec fn color_text_sliceable(b: Seq<u8>) -> bool {
    let t = strip_hashes(b);
    t.len() == 6 ==> is_char_boundary(t, 2) && is_char_boundary(t, 4)
}

fn hex_value_of(c: u8) -> (r: Option<u8>)
    ensures
        r == hex_value(c),
{
    if 48 <= c && c <= 57 {
        Some(c - 48)
    } else if 97 <= c && c <= 102 {
        Some(c - 87)
    } else if 65 <= c && c <= 70 {
        Some(c - 55)
    } else {
        None
    }
}

fn parse_pair(b0: u8, b1: u8) -> (r: Option<u8>)
    ensures
        r == parse_hex_pair(b0, b1),
{
    if b0 == 43 {
        hex_value_of(b1)
    } else {
        match (hex_value_of(b0), hex_value_of(b1)) {
            (Some(h), Some(l)) => Some(h * 16 + l),
            _ => None,
        }
    }
}

/// The color of a `#RRGGBB` text, as the roadmap paints a feature's marker: the red, green and
/// blue components, or the default blue where the text does not parse.
pub fn parse_color(hex: &str) -> (r: (u8, u8, u8))
    requires
        color_text_sliceable(hex.spec_bytes()),
    ensures
        r == color_of(hex.spec_bytes()),
{
    let b = hex.as_bytes();
    let mut i: usize = 0;
    assert(b@.skip(0) =~= b@);
    while i < b.len() && b[i] == 35
        invariant
            i <= b@.len(),
            strip_hashes(b@) == strip_hashes(b@.skip(i as int)),
        decreases b@.len() - i,
    {
        assert(b@.skip(i as int).drop_first() =~= b@.skip(i + 1));
        i = i + 1;
    }
    let ghost t = b@.skip(i as int);
    assert(strip_hashes(t) == t);
    if b.len() - i != 6 {
        return (33, 150, 243);
    }
    let red = parse_pair(b[i], b[i + 1]);
    let green = parse_pair(b[i + 2], b[i + 3]);
    let blue = parse_pair(b[i + 4], b[i + 5]);
    assert(t[0] == b@[i as int] && t[1] == b@[i + 1] && t[2] == b@[i + 2] && t[3] == b@[i + 3]
        && t[4] == b@[i + 4] && t[5] == b@[i + 5]);
    match (red, green, blue) {
        (Some(r), Some(g), Some(bl)) => (r, g, bl),
        _ => (33, 150, 243),
    }
}

/// An upper-case hexadecimal digit.
pub open spec fn hex_digit_upper(d: u8) -> char {
    if d < 10 { (48 + d) as char } else { (55 + d) as char }
}

/// A color written as `#RRGGBB` in upper-case hex, as `format!("#{:02X}{:02X}{:02X}")` writes it.
pub open spec fn color_hex_text(r: u8, g: u8, b: u8) -> Seq<char> {
    seq![
        '#',
        hex_digit_upper(r / 16),
        hex_digit_upper(r % 16),
        hex_digit_upper(g / 16),
        hex_digit_upper(g % 16),
        hex_digit_upper(b / 16),
        hex_digit_upper(b % 16),
    ]
}

fn upper_digit(d: u8) -> (s: &'static str)
    requires
        d < 16,
    ensures
        s@ == seq![hex_digit_upper(d)],
{
    proof {
        reveal_strlit("0"); reveal_strlit("1"); reveal_strlit("2"); reveal_strlit("3");
        reveal_strlit("4"); reveal_strlit("5"); reveal_strlit("6"); reveal_strlit("7");
        reveal_strlit("8"); reveal_strlit("9"); reveal_strlit("A"); reveal_strlit("B");
        reveal_strlit("C"); reveal_strlit("D"); reveal_strlit("E"); reveal_strlit("F");
    }
    if d == 0 { "0" } else if d == 1 { "1" } else if d == 2 { "2" } else if d == 3 { "3" }
    else if d == 4 { "4" } else if d == 5 { "5" } else if d == 6 { "6" } else if d == 7 { "7" }
    else if d == 8 { "8" } else if d == 9 { "9" } else if d == 10 { "A" } else if d == 11 { "B" }
    else if d == 12 { "C" } else if d == 13 { "D" } else if d == 14 { "E" } else { "F" }
}

/// Writes a picked color as `#RRGGBB`, the form the feature dialog stores.
pub fn color_hex(r: u8, g: u8, b: u8) -> (s: String)
    ensures
        s@ == color_hex_text(r, g, b),
{
    proof { reveal_strlit("#"); }
    let mut s = String::from_str("#");
    s.append(upper_digit(r / 16));
    s.append(upper_digit(r % 16));
    s.append(upper_digit(g / 16));
    s.append(upper_digit(g % 16));
    s.append(upper_digit(b / 16));
    s.append(upper_digit(b % 16));
    assert(s@ =~= color_hex_text(r, g, b));
    s
}

/// A color written by `color_hex` parses back to the same color.
pub proof fn parse_color_inverts_color_hex(r: u8, g: u8, b: u8)
    ensures
        color_text_sliceable(encode_utf8(color_hex_text(r, g, b))),
        color_of(encode_utf8(color_hex_text(r, g, b))) == (r, g, b),
{
    let chars = color_hex_text(r, g, b);
    assert(is_ascii_chars(chars));
    is_ascii_chars_encode_utf8(chars);
    let bytes = encode_utf8(chars);
    assert(bytes.len() == 7);
    assert(bytes[0] == 35);
    let t = bytes.drop_first();
    assert(t.len() == 6);
    assert(forall|i: int| 0 <= i < 6 ==> t[i] == chars[i + 1] as u8);
    assert(t[0] != 35) by {
        assert(t[0] == hex_digit_upper(r / 16) as u8);
    }
    assert(strip_hashes(t) == t);
    assert(strip_hashes(bytes) == t);
    assert(parse_hex_pair(t[0], t[1]) == Some(r)) by {
        assert(t[0] == hex_digit_upper(r / 16) as u8);
        assert(t[1] == hex_digit_upper(r % 16) as u8);
    }
    assert(parse_hex_pair(t[2], t[3]) == Some(g)) by {
        assert(t[2] == hex_digit_upper(g / 16) as u8);
        assert(t[3] == hex_digit_upper(g % 16) as u8);
    }
    assert(parse_hex_pair(t[4], t[5]) == Some(b)) by {
        assert(t[4] == hex_digit_upper(b / 16) as u8);
        assert(t[5] == hex_digit_upper(b % 16) as u8);
    }
    let rest = chars.drop_first();
    assert(is_ascii_chars(rest));
    is_ascii_chars_encode_utf8(rest);
    assert(encode_utf8(rest) =~= t);
    encode_utf8_valid_utf8(rest);
    is_char_boundary_iff_not_is_continuation_byte(t, 2);
    is_char_boundary_iff_not_is_continuation_byte(t, 4);
}

} // verus!
