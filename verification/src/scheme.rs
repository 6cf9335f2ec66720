//! Scheme metadata: the Dark/Light classification and the slug derived from
//! a scheme's backing file.

use crate::text::{last_index_of, str_copy, str_last_index_of_char};
use vstd::prelude::*;

verus! {

/// Luminosity of a theme.
#[derive(Clone, Copy, PartialEq, Eq, Structural, Debug)]
pub enum Luminance {
    Dark,
    Light,
}

impl Luminance {
    /// The lower-case name of the classification, as written on the command
    /// line and in listings.
    pub fn as_str(&self) -> (r: &'static str)
        ensures
            *self is Dark ==> r@ == "dark"@,
            *self is Light ==> r@ == "light"@,
    {
        match self {
            Luminance::Dark => "dark",
            Luminance::Light => "light",
        }
    }
}

/// Which luminance classes a scheme listing keeps. The command line's
/// `all`/`dark`/`light` argument is validated into this once, at the
/// boundary; any other word means no filtering.
#[derive(Clone, Copy, PartialEq, Eq, Structural, Debug)]
pub enum LuminanceFilter {
    All,
    Dark,
    Light,
}

impl LuminanceFilter {
    /// Validate a command-line luminance argument: `dark` and `light`
    /// select their class, anything else selects no filtering.
    pub fn from_arg(arg: &str) -> (r: LuminanceFilter)
        ensures
            arg@ == "dark"@ ==> r is Dark,
            arg@ == "light"@ ==> r is Light,
            arg@ != "dark"@ && arg@ != "light"@ ==> r is All,
    {
        proof {
            // the two words differ in length, so at most one branch matches
            reveal_strlit("dark");
            reveal_strlit("light");
            assert("dark"@.len() == 4);
            assert("light"@.len() == 5);
        }
        if crate::text::str_eq(arg, "dark") {
            LuminanceFilter::Dark
        } else if crate::text::str_eq(arg, "light") {
            LuminanceFilter::Light
        } else {
            LuminanceFilter::All
        }
    }
}

/// The final path component: everything after the last `/`, or the whole
/// path with no `/`.
pub open spec fn last_component(p: Seq<char>) -> Seq<char> {
    let i = last_index_of(p, '/');
    if i == -1 {
        p
    } else {
        p.skip(i + 1)
    }
}

/// The file stem of a path: the final component without its extension.
/// A dot at the very start of the component does not begin an extension, so
/// a hidden file keeps its whole name. `None` when the final component is
/// empty.
pub open spec fn stem_of(p: Seq<char>) -> Option<Seq<char>> {
    let c = last_component(p);
    if c.len() == 0 {
        None
    } else {
        let d = last_index_of(c, '.');
        if d <= 0 {
            Some(c)
        } else {
            Some(c.subrange(0, d))
        }
    }
}

/// Executable computation of [`stem_of`].
pub fn file_stem(path: &str) -> (r: Option<String>)
    ensures
        match r {
            Some(s) => stem_of(path@) == Some(s@),
            None => stem_of(path@) is None,
        },
{
    let n = path.unicode_len();
    proof {
        crate::text::lemma_last_index_of(path@, '/');
    }
    let start: usize = match str_last_index_of_char(path, '/') {
        Some(i) => i + 1,
        None => 0,
    };
    let comp = path.substring_char(start, n);
    assert(comp@ =~= last_component(path@));
    if comp.unicode_len() == 0 {
        return None;
    }
    proof {
        crate::text::lemma_last_index_of(comp@, '.');
    }
    match str_last_index_of_char(comp, '.') {
        Some(d) => {
            if d > 0 {
                Some(str_copy(comp.substring_char(0, d)))
            } else {
                Some(str_copy(comp))
            }
        },
        None => Some(str_copy(comp)),
    }
}

/// A named scheme together with its classification and backing file.
pub struct Scheme {
    /// Displayed name for the scheme.
    pub name: String,
    /// Scheme luminance.
    pub luminance: Luminance,
    /// File path backing the scheme.
    pub file: String,
}

impl Scheme {
    pub fn new(name: String, luminance: Luminance, file: String) -> (s: Scheme)
        ensures
            s.name == name,
            s.luminance == luminance,
            s.file == file,
    {
        Scheme { name, luminance, file }
    }

    /// The scheme's slug: the stem of its backing file, or its display name
    /// when the backing path has no final component.
    pub fn slug(self) -> (r: String)
        ensures
            r@ == match stem_of(self.file@) {
                Some(st) => st,
                None => self.name@,
            },
    {
        match file_stem(self.file.as_str()) {
            Some(st) => st,
            None => self.name,
        }
    }
}

} // verus!
