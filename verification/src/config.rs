use vstd::prelude::*;
use vstd::string::StrSliceExecFns;

verus! {

/// A color parsed from a theme file, as plain channel values.
#[derive(Clone, Copy, Debug, PartialEq, Eq, Structural)]
pub struct Rgba {
    pub r: u8,
    pub g: u8,
    pub b: u8,
    pub a: u8,
}

/// The theme's color fields as read from its configuration file.
pub struct ThemeColors {
    pub background: String,
    pub panel_bg: String,
    pub text: String,
    pub accent: String,
    pub button: Option<String>,
    pub button_hover: Option<String>,
    pub button_text: Option<String>,
}

/// The value of one hexadecimal digit, or `None` for any other
/// character.
pub open spec fn spec_hex_digit(c: char) -> Option<u8> {
    if '0' <= c && c <= '9' {
        Some(((c as int) - 48) as u8)
    } else if 'a' <= c && c <= 'f' {
        Some(((c as int) - 87) as u8)
    } else if 'A' <= c && c <= 'F' {
        Some(((c as int) - 55) as u8)
    } else {
        None
    }
}

/// A channel read from two hexadecimal digits; any invalid digit gives
/// the fallback instead.
pub open spec fn spec_hex_byte(c1: char, c2: char, fallback: u8) -> u8 {
    match (spec_hex_digit(c1), spec_hex_digit(c2)) {
        (Some(h), Some(l)) => (h * 16 + l) as u8,
        _ => fallback,
    }
}

/// The text with every leading hash mark removed.
pub open spec fn spec_trim_hash(s: Seq<char>) -> Seq<char>
    decreases s.len(),
{
    if s.len() > 0 && s[0] == '#' {
        spec_trim_hash(s.drop_first())
    } else {
        s
    }
}

/// The color a hex string denotes: six digits give an opaque color,
/// eight give one with an alpha channel, anything else the magenta
/// fallback. A channel with an invalid digit reads as zero, a broken
/// alpha channel as opaque.
pub open spec fn spec_parse_hex(s: Seq<char>) -> Rgba {
    let h = spec_trim_hash(s);
    if h.len() == 6 {
        Rgba {
            r: spec_hex_byte(h[0], h[1], 0),
            g: spec_hex_byte(h[2], h[3], 0),
            b: spec_hex_byte(h[4], h[5], 0),
            a: 255,
        }
    } else if h.len() == 8 {
        Rgba {
            r: spec_hex_byte(h[0], h[1], 0),
            g: spec_hex_byte(h[2], h[3], 0),
            b: spec_hex_byte(h[4], h[5], 0),
            a: spec_hex_byte(h[6], h[7], 255),
        }
    } else {
        Rgba { r: 255, g: 0, b: 255, a: 255 }
    }
}

/// Reads the value of one hexadecimal digit.
fn hex_digit(c: char) -> (r: Option<u8>)
    ensures
        r == spec_hex_digit(c),
{
    match c {
        '0' => Some(0),
        '1' => Some(1),
        '2' => Some(2),
        '3' => Some(3),
        '4' => Some(4),
        '5' => Some(5),
        '6' => Some(6),
        '7' => Some(7),
        '8' => Some(8),
        '9' => Some(9),
        'a' => Some(10),
        'b' => Some(11),
        'c' => Some(12),
        'd' => Some(13),
        'e' => Some(14),
        'f' => Some(15),
        'A' => Some(10),
        'B' => Some(11),
        'C' => Some(12),
        'D' => Some(13),
        'E' => Some(14),
        'F' => Some(15),
        _ => None,
    }
}

/// Reads one channel from two hexadecimal digits, with a fallback for
/// invalid digits.
fn hex_byte(c1: char, c2: char, fallback: u8) -> (r: u8)
    ensures
        r == spec_hex_byte(c1, c2, fallback),
{
    match (hex_digit(c1), hex_digit(c2)) {
        (Some(h), Some(l)) => h * 16 + l,
        _ => fallback,
    }
}

impl ThemeColors {
    /// Parses a `#`-prefixed hex color string into its channels, with
    /// the magenta fallback for any other shape.
    pub fn parse_hex(hex: &str) -> (r: Rgba)
        ensures
            r == spec_parse_hex(hex@),
    {
        let len = hex.unicode_len();
        let mut i: usize = 0;
        proof {
            assert(hex@.skip(0) =~= hex@);
        }
        while i < len && hex.get_char(i) == '#'
            invariant
                len == hex@.len(),
                i <= len,
                spec_trim_hash(hex@) == spec_trim_hash(hex@.skip(i as int)),
                forall|k: int| 0 <= k < i ==> hex@[k] == '#',
            decreases len - i,
        {
            i += 1;
            proof {
                assert(hex@.skip(i - 1).drop_first() =~= hex@.skip(i as int));
            }
        }
        proof {
            assert(spec_trim_hash(hex@.skip(i as int)) == hex@.skip(i as int));
        }
        let h = hex.substring_char(i, len);
        proof {
            assert(h@ =~= hex@.skip(i as int));
        }
        let n = h.unicode_len();
        if n == 6 {
            Rgba {
                r: hex_byte(h.get_char(0), h.get_char(1), 0),
                g: hex_byte(h.get_char(2), h.get_char(3), 0),
                b: hex_byte(h.get_char(4), h.get_char(5), 0),
                a: 255,
            }
        } else if n == 8 {
            Rgba {
                r: hex_byte(h.get_char(0), h.get_char(1), 0),
                g: hex_byte(h.get_char(2), h.get_char(3), 0),
                b: hex_byte(h.get_char(4), h.get_char(5), 0),
                a: hex_byte(h.get_char(6), h.get_char(7), 255),
            }
        } else {
            Rgba { r: 255, g: 0, b: 255, a: 255 }
        }
    }
}

} // verus!
