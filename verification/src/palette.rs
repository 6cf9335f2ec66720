//! The color scheme store: a validated palette of indexed RGB colors plus
//! metadata, parsed from scheme file contents, and its Dark/Light
//! classification.

use crate::scheme::{file_stem, stem_of, Luminance};
use crate::text::str_copy;
use crate::Error;
use crate::Rgb;
use vstd::prelude::*;

verus! {

/// Spec-level contents of a color scheme.
pub ghost struct SchemeData {
    /// Display name (the `scheme` field of the file).
    pub name: Seq<char>,
    /// Canonical identifier; empty until a caller assigns one.
    pub slug: Seq<char>,
    /// Author information.
    pub author: Seq<char>,
    /// Indexed color slots, strictly sorted by index.
    pub colors: Seq<(u8, (u8, u8, u8))>,
}

/// A color scheme: metadata plus an ordered mapping from slot index to an
/// RGB triple. Slots 0 and 1 are the two background reference slots that
/// luminance classification reads.
pub struct ColorScheme {
    /// Display name (the `scheme` field of the file).
    pub name: String,
    /// Canonical identifier; reassigned from the backing file's stem when
    /// the backing path is known.
    pub slug: String,
    /// Author information.
    pub author: String,
    /// Color slots, strictly sorted by index.
    pub colors: Vec<(u8, Rgb)>,
}

impl View for ColorScheme {
    type V = SchemeData;

    open spec fn view(&self) -> SchemeData {
        SchemeData {
            name: self.name@,
            slug: self.slug@,
            author: self.author@,
            colors: self.colors@.map_values(|p: (u8, Rgb)| (p.0, (p.1.r, p.1.g, p.1.b))),
        }
    }
}

/// The slot indices are strictly increasing, so each index occurs once.
pub open spec fn wf_colors(colors: Seq<(u8, (u8, u8, u8))>) -> bool {
    forall|i: int, j: int| 0 <= i < j < colors.len() ==> colors[i].0 < colors[j].0
}

impl ColorScheme {
    pub open spec fn wf(&self) -> bool {
        wf_colors(self@.colors)
    }
}

/// The color stored under `idx`: the first entry carrying that index.
pub open spec fn slot_color(colors: Seq<(u8, (u8, u8, u8))>, idx: u8) -> Option<(u8, u8, u8)>
    decreases colors.len(),
{
    if colors.len() == 0 {
        None
    } else if colors[0].0 == idx {
        Some(colors[0].1)
    } else {
        slot_color(colors.skip(1), idx)
    }
}

pub proof fn lemma_slot_color(colors: Seq<(u8, (u8, u8, u8))>, idx: u8)
    ensures
        slot_color(colors, idx) is None ==> forall|j: int|
            0 <= j < colors.len() ==> colors[j].0 != idx,
        slot_color(colors, idx) matches Some(c) ==> exists|j: int|
            {
                &&& 0 <= j < colors.len()
                &&& colors[j].0 == idx
                &&& colors[j].1 == c
                &&& forall|k: int| 0 <= k < j ==> colors[k].0 != idx
            },
    decreases colors.len(),
{
    if colors.len() > 0 && colors[0].0 != idx {
        let t = colors.skip(1);
        lemma_slot_color(t, idx);
        assert(forall|j: int| 0 <= j < t.len() ==> t[j] == colors[j + 1]);
        match slot_color(t, idx) {
            Some(c) => {
                let j = choose|j: int|
                    {
                        &&& 0 <= j < t.len()
                        &&& t[j].0 == idx
                        &&& t[j].1 == c
                        &&& forall|k: int| 0 <= k < j ==> t[k].0 != idx
                    };
                assert forall|k: int| 0 <= k < j + 1 implies colors[k].0 != idx by {
                    if k >= 1 {
                        assert(t[k - 1] == colors[k]);
                    }
                }
                assert(colors[j + 1].0 == idx && colors[j + 1].1 == c);
            },
            None => {
                assert forall|j: int| 0 <= j < colors.len() implies colors[j].0 != idx by {
                    if j >= 1 {
                        assert(t[j - 1] == colors[j]);
                    }
                }
            },
        }
    }
}

/// The color stored under `idx` in this scheme, if any.
pub fn lookup_color(scheme: &ColorScheme, idx: u8) -> (r: Option<Rgb>)
    ensures
        match r {
            Some(c) => slot_color(scheme@.colors, idx) == Some((c.r, c.g, c.b)),
            None => slot_color(scheme@.colors, idx) is None,
        },
{
    let n = scheme.colors.len();
    let mut i: usize = 0;
    while i < n
        invariant
            0 <= i <= n,
            n == scheme.colors@.len(),
            scheme@.colors.len() == n,
            forall|j: int| 0 <= j < i ==> scheme@.colors[j].0 != idx,
            forall|j: int| 0 <= j < n ==> scheme@.colors[j] == (
            scheme.colors@[j].0,
            (scheme.colors@[j].1.r, scheme.colors@[j].1.g, scheme.colors@[j].1.b),
            ),
        decreases n - i,
    {
        let (slot, color) = scheme.colors[i];
        if slot == idx {
            proof {
                lemma_slot_color(scheme@.colors, idx);
                assert(scheme@.colors[i as int].0 == idx);
                match slot_color(scheme@.colors, idx) {
                    None => {
                        assert(false);
                    },
                    Some(c) => {
                        let j = choose|j: int|
                            {
                                &&& 0 <= j < scheme@.colors.len()
                                &&& scheme@.colors[j].0 == idx
                                &&& scheme@.colors[j].1 == c
                                &&& forall|k: int| 0 <= k < j ==> scheme@.colors[k].0 != idx
                            };
                        assert(j == i as int);
                        assert(c == (color.r, color.g, color.b));
                    },
                }
            }
            return Some(color);
        }
        i = i + 1;
    }
    proof {
        lemma_slot_color(scheme@.colors, idx);
        match slot_color(scheme@.colors, idx) {
            None => {},
            Some(c) => {
                let j = choose|j: int|
                    {
                        &&& 0 <= j < scheme@.colors.len()
                        &&& scheme@.colors[j].0 == idx
                        &&& scheme@.colors[j].1 == c
                        &&& forall|k: int| 0 <= k < j ==> scheme@.colors[k].0 != idx
                    };
                assert(false);
            },
        }
    }
    None
}

/// The perceptual weight of a background color, `1000 * 255` times its
/// brightness: red weighs 0.299, green 0.587, blue 0.114, and each channel
/// is scaled to `[0, 1]` by dividing by 255.
pub open spec fn background_weight(c: (u8, u8, u8)) -> int {
    299 * c.0 + 587 * c.1 + 114 * c.2
}

/// The canonical classification threshold, on the weight scale: an average
/// brightness of exactly one half, which is `2 * 500 * 255` summed over the
/// two background slots. A weight sum strictly below it is Dark.
pub const DARK_THRESHOLD_WEIGHT: u32 = 255000;

/// The classification of a scheme: the brightness of slots 0 and 1 is
/// averaged; strictly below one half is Dark, and exactly one half falls on
/// the Light side. `None` when either reserved slot is absent.
///
/// The average of the two brightness values lies below one half exactly
/// when the two weights sum to less than [`DARK_THRESHOLD_WEIGHT`].
pub open spec fn luminance_of(d: SchemeData) -> Option<Luminance> {
    match (slot_color(d.colors, 0), slot_color(d.colors, 1)) {
        (Some(c0), Some(c1)) => Some(
            if background_weight(c0) + background_weight(c1) < DARK_THRESHOLD_WEIGHT {
                Luminance::Dark
            } else {
                Luminance::Light
            },
        ),
        _ => None,
    }
}

/// The first reserved background slot missing from the scheme.
pub open spec fn first_missing_background(d: SchemeData) -> u8 {
    if slot_color(d.colors, 0) is None {
        0
    } else {
        1
    }
}

/// Classify a scheme as Dark or Light from its two background slots.
/// Classification is pure: the result is determined by the scheme's
/// contents alone, and is never stored — callers recompute it on demand.
/// Fails when either reserved slot is absent, naming the first missing one.
pub fn get_luminance(scheme: &ColorScheme) -> (r: Result<Luminance, Error>)
    ensures
        match r {
            Ok(l) => luminance_of(scheme@) == Some(l),
            Err(e) => luminance_of(scheme@) is None && e == (Error::MissingBackgroundSlot {
                slot: first_missing_background(scheme@),
            }),
        },
{
    let c0 = match lookup_color(scheme, 0) {
        Some(c) => c,
        None => {
            return Err(Error::MissingBackgroundSlot { slot: 0 });
        },
    };
    let c1 = match lookup_color(scheme, 1) {
        Some(c) => c,
        None => {
            return Err(Error::MissingBackgroundSlot { slot: 1 });
        },
    };
    let w0: u32 = 299 * (c0.r as u32) + 587 * (c0.g as u32) + 114 * (c0.b as u32);
    let w1: u32 = 299 * (c1.r as u32) + 587 * (c1.g as u32) + 114 * (c1.b as u32);
    if w0 + w1 < DARK_THRESHOLD_WEIGHT {
        Ok(Luminance::Dark)
    } else {
        Ok(Luminance::Light)
    }
}

/// What scheme file contents parse to: the validated palette, or nothing
/// when the text is not a scheme.
pub uninterp spec fn scheme_of_yaml(s: Seq<char>) -> Option<SchemeData>;

/// Relies on `serde_yaml::from_str::<base16_color_scheme::Scheme>`: the
/// result is a function of the text alone; `scheme` and `author` are
/// required string fields; the remaining fields must be `baseXX` keys with
/// six-hex-digit values and are collected into a `BTreeMap` keyed by the
/// slot index, so the entries come out strictly sorted with unique keys;
/// the slug is never read from the text.
#[verifier::external_body]
pub(crate) fn parse_scheme(contents: &str) -> (r: Option<ColorScheme>)
    ensures
        r is Some <==> scheme_of_yaml(contents@) is Some,
        r matches Some(cs) ==> Some(cs@) == scheme_of_yaml(contents@) && cs.wf(),
{
    let parsed: Result<base16_color_scheme::Scheme, _> = serde_yaml::from_str(contents);
    match parsed {
        Ok(s) => Some(
            ColorScheme {
                name: s.scheme,
                slug: s.slug,
                author: s.author,
                colors: s.colors.into_iter().map(
                    |(k, v)| (k.0, Rgb { r: v.0[0], g: v.0[1], b: v.0[2] }),
                ).collect(),
            },
        ),
        Err(_) => None,
    }
}

/// Read a scheme from its backing file's path and contents: the parsed
/// palette with its slug overridden by the path's stem, so a scheme loaded
/// from `/path/to/foo.yaml` always carries slug `foo`, whatever the file
/// says.
pub fn scheme_from_file(path: &str, contents: &str) -> (r: Result<ColorScheme, Error>)
    ensures
        stem_of(path@) is None ==> (r matches Err(e) && e matches Error::BadSchemeName { path: p }
            && p@ == path@),
        stem_of(path@) matches Some(st) ==> match scheme_of_yaml(contents@) {
            None => (r matches Err(e) && e is NotAScheme),
            Some(d) => (r matches Ok(cs) && cs@ == SchemeData { slug: st, ..d } && cs.wf()),
        },
{
    let st = match file_stem(path) {
        Some(s) => s,
        None => {
            return Err(Error::BadSchemeName { path: str_copy(path) });
        },
    };
    let mut cs = match parse_scheme(contents) {
        Some(c) => c,
        None => {
            return Err(Error::NotAScheme);
        },
    };
    let ghost d = cs@;
    cs.slug = st;
    assert(cs@ == SchemeData { slug: stem_of(path@)->Some_0, ..d });
    Ok(cs)
}

} // verus!
