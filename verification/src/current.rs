//! Reading the record of the last applied scheme: its name, and the
//! luminance of the scheme it names.

use crate::palette::{
    first_missing_background, get_luminance, luminance_of, parse_scheme, scheme_of_yaml,
};
use crate::scheme::Luminance;
use crate::text::str_copy;
use crate::Error;
use vstd::prelude::*;

verus! {

/// A character with the Unicode `White_Space` property, the set
/// `char::is_whitespace` recognizes.
pub open spec fn is_space(c: char) -> bool {
    ||| c == '\u{9}'
    ||| c == '\u{A}'
    ||| c == '\u{B}'
    ||| c == '\u{C}'
    ||| c == '\u{D}'
    ||| c == ' '
    ||| c == '\u{85}'
    ||| c == '\u{A0}'
    ||| c == '\u{1680}'
    ||| (0x2000 <= c as u32 && c as u32 <= 0x200A)
    ||| c == '\u{2028}'
    ||| c == '\u{2029}'
    ||| c == '\u{202F}'
    ||| c == '\u{205F}'
    ||| c == '\u{3000}'
}

/// Executable test for [`is_space`].
pub fn is_space_char(c: char) -> (r: bool)
    ensures
        r == is_space(c),
{
    c == '\u{9}' || c == '\u{A}' || c == '\u{B}' || c == '\u{C}' || c == '\u{D}' || c == ' ' || c
        == '\u{85}' || c == '\u{A0}' || c == '\u{1680}' || (0x2000 <= c as u32 && c as u32
        <= 0x200A) || c == '\u{2028}' || c == '\u{2029}' || c == '\u{202F}' || c == '\u{205F}' || c
        == '\u{3000}'
}

/// `s` with every whitespace character removed: what collecting
/// `split_whitespace` pieces into one string leaves.
pub open spec fn without_spaces(s: Seq<char>) -> Seq<char>
    decreases s.len(),
{
    if s.len() == 0 {
        s
    } else if is_space(s[0]) {
        without_spaces(s.skip(1))
    } else {
        seq![s[0]] + without_spaces(s.skip(1))
    }
}

/// Remove every whitespace character from `s`.
pub fn strip_whitespace(s: &str) -> (r: String)
    ensures
        r@ == without_spaces(s@),
    decreases s@.len(),
{
    let n = s.unicode_len();
    if n == 0 {
        let empty = String::new();
        assert(empty@ =~= s@);
        return empty;
    }
    let c = s.get_char(0);
    let rest = s.substring_char(1, n);
    assert(rest@ =~= s@.skip(1));
    let tail = strip_whitespace(rest);
    if is_space_char(c) {
        tail
    } else {
        let head = s.substring_char(0, 1);
        let r = str_copy(head).concat(tail.as_str());
        proof {
            assert(head@ =~= seq![s@[0]]);
            assert(r@ =~= seq![s@[0]] + without_spaces(s@.skip(1)));
        }
        r
    }
}

/// The name of the current scheme, from the contents of the record that
/// `apply` writes: all whitespace is dropped, and an empty record is an
/// error.
pub fn get_current_scheme_name(contents: &str) -> (r: Result<String, Error>)
    ensures
        r is Ok <==> without_spaces(contents@).len() > 0,
        r matches Ok(name) ==> name@ == without_spaces(contents@),
        r matches Err(e) ==> e is EmptyCurrentScheme,
{
    let name = strip_whitespace(contents);
    if name.as_str().unicode_len() == 0 {
        Err(Error::EmptyCurrentScheme)
    } else {
        Ok(name)
    }
}

/// The luminance of the current scheme, from the contents of its scheme
/// file.
pub fn get_current_scheme_luminance(scheme_contents: &str) -> (r: Result<Luminance, Error>)
    ensures
        match scheme_of_yaml(scheme_contents@) {
            None => (r matches Err(e) && e is NotAScheme),
            Some(d) => match luminance_of(d) {
                Some(l) => r == Ok::<Luminance, Error>(l),
                None => r == Err::<Luminance, Error>(
                    Error::MissingBackgroundSlot { slot: first_missing_background(d) },
                ),
            },
        },
{
    match parse_scheme(scheme_contents) {
        Some(parsed) => get_luminance(&parsed),
        None => Err(Error::NotAScheme),
    }
}

} // verus!
