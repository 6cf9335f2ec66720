//! Building the terminal lines that show a color: true-color escape codes
//! around the color's hex digits, ready for a caller to print.

use crate::text::str_copy;
use crate::Error;
use crate::Rgb;
use vstd::prelude::*;

verus! {

/// The decimal digit characters.
pub open spec fn dec_digit(d: int) -> char {
    "0123456789"@[d]
}

/// The lower-case hexadecimal digit characters.
pub open spec fn hex_digit(d: int) -> char {
    "0123456789abcdef"@[d]
}

/// A byte in decimal, without leading zeros.
pub open spec fn u8_dec(n: u8) -> Seq<char> {
    if n < 10 {
        seq![dec_digit(n as int)]
    } else if n < 100 {
        seq![dec_digit(n as int / 10), dec_digit(n as int % 10)]
    } else {
        seq![
            dec_digit(n as int / 100),
            dec_digit((n as int / 10) % 10),
            dec_digit(n as int % 10),
        ]
    }
}

/// A byte as two lower-case hex digits.
pub open spec fn u8_hex(n: u8) -> Seq<char> {
    seq![hex_digit(n as int / 16), hex_digit(n as int % 16)]
}

/// One decimal digit as a string.
fn dec_digit_str(d: u8) -> (r: String)
    requires
        d < 10,
    ensures
        r@ == seq![dec_digit(d as int)],
{
    proof {
        reveal_strlit("0123456789");
    }
    let digits = "0123456789";
    let r = str_copy(digits.substring_char(d as usize, d as usize + 1));
    assert(r@ =~= seq![dec_digit(d as int)]);
    r
}

/// One hexadecimal digit as a string.
fn hex_digit_str(d: u8) -> (r: String)
    requires
        d < 16,
    ensures
        r@ == seq![hex_digit(d as int)],
{
    proof {
        reveal_strlit("0123456789abcdef");
    }
    let digits = "0123456789abcdef";
    let r = str_copy(digits.substring_char(d as usize, d as usize + 1));
    assert(r@ =~= seq![hex_digit(d as int)]);
    r
}

/// A byte in decimal.
pub fn u8_to_dec(n: u8) -> (r: String)
    ensures
        r@ == u8_dec(n),
{
    if n < 10 {
        dec_digit_str(n)
    } else if n < 100 {
        let mut r = dec_digit_str(n / 10);
        r.append(dec_digit_str(n % 10).as_str());
        assert(r@ =~= u8_dec(n));
        r
    } else {
        let mut r = dec_digit_str(n / 100);
        r.append(dec_digit_str((n / 10) % 10).as_str());
        r.append(dec_digit_str(n % 10).as_str());
        assert(r@ =~= u8_dec(n));
        r
    }
}

/// A byte as two lower-case hex digits.
pub fn u8_to_hex(n: u8) -> (r: String)
    ensures
        r@ == u8_hex(n),
{
    let mut r = hex_digit_str(n / 16);
    r.append(hex_digit_str(n % 16).as_str());
    assert(r@ =~= u8_hex(n));
    r
}

/// The true-color escape sequence that paints with `rgb`: as background
/// when `background` is set, as foreground otherwise.
pub open spec fn color_code(rgb: Rgb, background: bool) -> Seq<char> {
    "\u{1b}["@ + (if background {
        "48"@
    } else {
        "38"@
    }) + ";2;"@ + u8_dec(rgb.r) + ";"@ + u8_dec(rgb.g) + ";"@ + u8_dec(rgb.b) + "m"@
}

/// The true-color escape sequence for `rgb`.
pub fn true_color(rgb: Rgb, background: bool) -> (r: String)
    ensures
        r@ == color_code(rgb, background),
{
    let mut r = str_copy("\u{1b}[");
    r.append(if background {
        "48"
    } else {
        "38"
    });
    r.append(";2;");
    r.append(u8_to_dec(rgb.r).as_str());
    r.append(";");
    r.append(u8_to_dec(rgb.g).as_str());
    r.append(";");
    r.append(u8_to_dec(rgb.b).as_str());
    r.append("m");
    assert(r@ =~= color_code(rgb, background));
    r
}

/// The line that shows a color twice, `hex` being its six digits as they
/// should appear: once as a painted background swatch, once as foreground
/// text, each followed by a reset.
pub open spec fn color_line_of(hex: Seq<char>, rgb: Rgb) -> Seq<char> {
    color_code(rgb, true) + " #"@ + hex + " "@ + "\u{1b}[0m"@ + "  "@ + color_code(rgb, false)
        + "#"@ + hex + "\u{1b}[0m"@
}

/// Assemble [`color_line_of`] from the digits and the color.
fn assemble_color_line(hex: &str, rgb: Rgb) -> (r: String)
    ensures
        r@ == color_line_of(hex@, rgb),
{
    let mut r = true_color(rgb, true);
    r.append(" #");
    r.append(hex);
    r.append(" ");
    r.append("\u{1b}[0m");
    r.append("  ");
    r.append(true_color(rgb, false).as_str());
    r.append("#");
    r.append(hex);
    r.append("\u{1b}[0m");
    assert(r@ =~= color_line_of(hex@, rgb));
    r
}

/// An ASCII hexadecimal digit, either case.
pub open spec fn is_hex_char(c: char) -> bool {
    (48 <= c as u32 && c as u32 <= 57) || (97 <= c as u32 && c as u32 <= 102) || (65 <= c as u32
        && c as u32 <= 70)
}

/// The value of a hexadecimal digit.
pub open spec fn hex_char_val(c: char) -> int {
    if c as u32 <= 57 {
        c as u32 - 48
    } else if c as u32 >= 97 {
        c as u32 - 87
    } else {
        c as u32 - 55
    }
}

/// What decoding a hex string yields: one byte for each pair of digits, or
/// nothing when the length is odd or a character is no hex digit.
pub open spec fn hex_decode_of(s: Seq<char>) -> Option<Seq<u8>>
    decreases s.len(),
{
    if s.len() == 0 {
        Some(Seq::empty())
    } else if s.len() == 1 {
        None
    } else if is_hex_char(s[0]) && is_hex_char(s[1]) {
        match hex_decode_of(s.skip(2)) {
            Some(rest) => Some(
                seq![(16 * hex_char_val(s[0]) + hex_char_val(s[1])) as u8] + rest,
            ),
            None => None,
        }
    } else {
        None
    }
}

/// Executable test for [`is_hex_char`].
fn is_hex_char_exec(c: char) -> (r: bool)
    ensures
        r == is_hex_char(c),
{
    let v = c as u32;
    (48 <= v && v <= 57) || (97 <= v && v <= 102) || (65 <= v && v <= 70)
}

/// Executable computation of [`hex_char_val`].
fn hex_char_val_exec(c: char) -> (r: u8)
    requires
        is_hex_char(c),
    ensures
        r as int == hex_char_val(c),
        r < 16,
{
    let v = c as u32;
    if v <= 57 {
        (v - 48) as u8
    } else if v >= 97 {
        (v - 87) as u8
    } else {
        (v - 55) as u8
    }
}

/// Decode a hex string: an even count of hex digits, upper or lower case,
/// decodes pairwise into bytes; an odd length or any other character is
/// rejected. The whole behaviour is [`hex_decode_of`].
pub fn str_hex_decode(s: &str) -> (r: Option<Vec<u8>>)
    ensures
        match r {
            Some(v) => hex_decode_of(s@) == Some(v@),
            None => hex_decode_of(s@) is None,
        },
    decreases s@.len(),
{
    let n = s.unicode_len();
    if n == 0 {
        let v: Vec<u8> = Vec::new();
        assert(v@ =~= Seq::<u8>::empty());
        return Some(v);
    }
    if n == 1 {
        return None;
    }
    let c0 = s.get_char(0);
    let c1 = s.get_char(1);
    if !is_hex_char_exec(c0) || !is_hex_char_exec(c1) {
        return None;
    }
    let b: u8 = 16 * hex_char_val_exec(c0) + hex_char_val_exec(c1);
    let rest = s.substring_char(2, n);
    assert(rest@ =~= s@.skip(2));
    match str_hex_decode(rest) {
        None => None,
        Some(mut v) => {
            let ghost tail = v@;
            v.insert(0, b);
            proof {
                assert(v@ =~= seq![b] + tail);
                assert(b == (16 * hex_char_val(s@[0]) + hex_char_val(s@[1])) as u8);
            }
            Some(v)
        },
    }
}

/// The info line for a color given as hex digits: the digits are shown as
/// the user wrote them, painted in the color they name. Fails when they do
/// not decode to an RGB triple.
pub fn color_info_line(color: &str) -> (r: Result<String, Error>)
    ensures
        match hex_decode_of(color@) {
            Some(bytes) => if bytes.len() >= 3 {
                (r matches Ok(line) && line@ == color_line_of(
                    color@,
                    Rgb { r: bytes[0], g: bytes[1], b: bytes[2] },
                ))
            } else {
                (r matches Err(e) && e matches Error::BadColor { color: c } && c@ == color@)
            },
            None => (r matches Err(e) && e matches Error::BadColor { color: c } && c@ == color@),
        },
{
    let bytes = match str_hex_decode(color) {
        Some(b) => b,
        None => {
            return Err(Error::BadColor { color: str_copy(color) });
        },
    };
    if bytes.len() < 3 {
        return Err(Error::BadColor { color: str_copy(color) });
    }
    let rgb = Rgb { r: bytes[0], g: bytes[1], b: bytes[2] };
    Ok(assemble_color_line(color, rgb))
}

/// The info line for a color already decoded: its digits are written
/// lower-case from the triple itself.
pub fn color_rgb_line(rgb: Rgb) -> (r: String)
    ensures
        r@ == color_line_of(u8_hex(rgb.r) + u8_hex(rgb.g) + u8_hex(rgb.b), rgb),
{
    let mut hex = u8_to_hex(rgb.r);
    hex.append(u8_to_hex(rgb.g).as_str());
    hex.append(u8_to_hex(rgb.b).as_str());
    assemble_color_line(hex.as_str(), rgb)
}

} // verus!
