//! The listing facade: deduplicated, sorted name lists of schemes and
//! templates. An empty accumulated result is the one place where finding
//! nothing becomes a hard error.

use crate::find::SchemeCandidate;
use crate::order::{has_name, insert_unique, strictly_sorted};
use crate::palette::{
    first_missing_background, get_luminance, luminance_of, parse_scheme, scheme_of_yaml, SchemeData,
};
use crate::scheme::{file_stem, stem_of, Luminance, LuminanceFilter};
use crate::text::{
    remove_all, remove_first_n, str_copy, str_remove_all, str_remove_first_n, str_strip_dir_prefix,
    strip_dir_prefix,
};
use crate::Error;
use vstd::prelude::*;

verus! {

/// Whether the filter keeps a scheme with the given contents.
pub open spec fn filter_matches(f: LuminanceFilter, d: SchemeData) -> bool {
    match f {
        LuminanceFilter::All => true,
        LuminanceFilter::Dark => luminance_of(d) == Some(Luminance::Dark),
        LuminanceFilter::Light => luminance_of(d) == Some(Luminance::Light),
    }
}

/// The candidate parses as a scheme and passes the filter.
pub open spec fn candidate_kept(c: SchemeCandidate, f: LuminanceFilter) -> bool {
    match scheme_of_yaml(c.contents@) {
        Some(d) => filter_matches(f, d),
        None => false,
    }
}

/// The candidate stops the listing: it parses, but filtering needs a
/// classification it cannot have, or it is kept and its path yields no
/// name. A candidate that does not parse never fails; it is skipped.
pub open spec fn candidate_fails(c: SchemeCandidate, f: LuminanceFilter) -> bool {
    match scheme_of_yaml(c.contents@) {
        Some(d) => (!(f is All) && luminance_of(d) is None) || (filter_matches(f, d) && stem_of(
            c.path@,
        ) is None),
        None => false,
    }
}

/// Index of the first candidate that stops the listing, or `-1`.
pub open spec fn first_failing_scheme(cs: Seq<SchemeCandidate>, f: LuminanceFilter) -> int
    decreases cs.len(),
{
    if cs.len() == 0 {
        -1
    } else if candidate_fails(cs[0], f) {
        0
    } else {
        let r = first_failing_scheme(cs.skip(1), f);
        if r == -1 {
            -1
        } else {
            r + 1
        }
    }
}

proof fn lemma_first_failing_scheme(cs: Seq<SchemeCandidate>, f: LuminanceFilter)
    ensures
        first_failing_scheme(cs, f) == -1 ==> forall|j: int|
            0 <= j < cs.len() ==> !candidate_fails(cs[j], f),
        first_failing_scheme(cs, f) != -1 ==> {
            let r = first_failing_scheme(cs, f);
            &&& 0 <= r < cs.len()
            &&& candidate_fails(cs[r], f)
            &&& forall|j: int| 0 <= j < r ==> !candidate_fails(cs[j], f)
        },
    decreases cs.len(),
{
    if cs.len() != 0 && !candidate_fails(cs[0], f) {
        let t = cs.skip(1);
        lemma_first_failing_scheme(t, f);
        assert(forall|j: int| 0 <= j < t.len() ==> t[j] == cs[j + 1]);
        if first_failing_scheme(t, f) == -1 {
            assert forall|j: int| 0 <= j < cs.len() implies !candidate_fails(cs[j], f) by {
                if j >= 1 {
                    assert(t[j - 1] == cs[j]);
                }
            }
        } else {
            let r = first_failing_scheme(t, f);
            assert(t[r] == cs[r + 1]);
            assert forall|j: int| 0 <= j < r + 1 implies !candidate_fails(cs[j], f) by {
                if j >= 1 {
                    assert(t[j - 1] == cs[j]);
                }
            }
        }
    }
}

/// List the names of the candidate schemes that parse and pass the filter:
/// each kept candidate contributes its path's file stem, and the names come
/// out sorted, without duplicates. A candidate that does not parse is
/// skipped silently. Fails when a candidate must be classified but lacks a
/// background slot, when a kept candidate's path has no stem, and with the
/// no-match error when the accumulated result is empty.
pub fn schemes(candidates: &Vec<SchemeCandidate>, filter: LuminanceFilter) -> (r: Result<
    Vec<String>,
    Error,
>)
    ensures
        ({
            let bad = first_failing_scheme(candidates@, filter);
            &&& bad != -1 ==> ({
                let d = scheme_of_yaml(candidates@[bad].contents@)->Some_0;
                if !(filter is All) && luminance_of(d) is None {
                    r == Err::<Vec<String>, Error>(
                        Error::MissingBackgroundSlot { slot: first_missing_background(d) },
                    )
                } else {
                    (r matches Err(e) && e matches Error::BadSchemeName { path } && path@
                        == candidates@[bad].path@)
                }
            })
            &&& bad == -1 && !(exists|i: int|
                0 <= i < candidates@.len() && candidate_kept(candidates@[i], filter)) ==> (
            r matches Err(e) && e is NoMatchingScheme)
            &&& bad == -1 && (exists|i: int|
                0 <= i < candidates@.len() && candidate_kept(candidates@[i], filter)) ==> r is Ok
            &&& r matches Ok(names) ==> {
                &&& strictly_sorted(names@)
                &&& names@.len() > 0
                &&& forall|x: Seq<char>|
                    has_name(names@, x) <==> exists|i: int|
                        0 <= i < candidates@.len() && candidate_kept(candidates@[i], filter)
                            && stem_of(candidates@[i].path@) == Some(x)
            }
        }),
{
    proof {
        lemma_first_failing_scheme(candidates@, filter);
    }
    let n = candidates.len();
    let mut names: Vec<String> = Vec::new();
    let mut i: usize = 0;
    while i < n
        invariant
            0 <= i <= n,
            n == candidates@.len(),
            strictly_sorted(names@),
            forall|j: int| 0 <= j < i ==> !candidate_fails(candidates@[j], filter),
            forall|x: Seq<char>|
                has_name(names@, x) <==> exists|j: int|
                    0 <= j < i && candidate_kept(candidates@[j], filter) && stem_of(
                        candidates@[j].path@,
                    ) == Some(x),
            first_failing_scheme(candidates@, filter) == -1 ==> forall|j: int|
                0 <= j < candidates@.len() ==> !candidate_fails(candidates@[j], filter),
            first_failing_scheme(candidates@, filter) != -1 ==> {
                let r = first_failing_scheme(candidates@, filter);
                &&& 0 <= r < candidates@.len()
                &&& candidate_fails(candidates@[r], filter)
                &&& forall|j: int| 0 <= j < r ==> !candidate_fails(candidates@[j], filter)
            },
        decreases n - i,
    {
        let c = &candidates[i];
        match parse_scheme(c.contents.as_str()) {
            None => {
                assert(!candidate_kept(candidates@[i as int], filter));
            },
            Some(parsed) => {
                let ghost d = scheme_of_yaml(candidates@[i as int].contents@)->Some_0;
                let keep: bool = match filter {
                    LuminanceFilter::All => true,
                    LuminanceFilter::Dark => {
                        match get_luminance(&parsed) {
                            Ok(l) => l == Luminance::Dark,
                            Err(e) => {
                                assert(candidate_fails(candidates@[i as int], filter));
                                return Err(e);
                            },
                        }
                    },
                    LuminanceFilter::Light => {
                        match get_luminance(&parsed) {
                            Ok(l) => l == Luminance::Light,
                            Err(e) => {
                                assert(candidate_fails(candidates@[i as int], filter));
                                return Err(e);
                            },
                        }
                    },
                };
                assert(keep == filter_matches(filter, d));
                if keep {
                    match file_stem(c.path.as_str()) {
                        Some(st) => {
                            let ghost stv = st@;
                            let ghost prev = names@;
                            insert_unique(&mut names, st);
                            assert forall|x: Seq<char>|
                                has_name(names@, x) <==> exists|j: int|
                                    0 <= j < i + 1 && candidate_kept(candidates@[j], filter)
                                        && stem_of(candidates@[j].path@) == Some(x) by {
                                if has_name(names@, x) {
                                    if x == stv {
                                        assert(candidate_kept(candidates@[i as int], filter)
                                            && stem_of(candidates@[i as int].path@) == Some(x));
                                    }
                                }
                                if exists|j: int|
                                    0 <= j < i + 1 && candidate_kept(candidates@[j], filter)
                                        && stem_of(candidates@[j].path@) == Some(x) {
                                    let j = choose|j: int|
                                        0 <= j < i + 1 && candidate_kept(candidates@[j], filter)
                                            && stem_of(candidates@[j].path@) == Some(x);
                                    if j == i {
                                        assert(x == stv);
                                    } else {
                                        assert(has_name(prev, x));
                                    }
                                }
                            }
                        },
                        None => {
                            assert(candidate_fails(candidates@[i as int], filter));
                            return Err(Error::BadSchemeName { path: str_copy(c.path.as_str()) });
                        },
                    }
                }
            },
        }
        i = i + 1;
    }
    if names.len() == 0 {
        proof {
            if exists|i: int|
                0 <= i < candidates@.len() && candidate_kept(candidates@[i], filter) {
                let k = choose|i: int|
                    0 <= i < candidates@.len() && candidate_kept(candidates@[i], filter);
                assert(!candidate_fails(candidates@[k], filter));
                let x = stem_of(candidates@[k].path@)->Some_0;
                assert(stem_of(candidates@[k].path@) == Some(x));
                assert(has_name(names@, x));
                assert(false);
            }
        }
        return Err(Error::NoMatchingScheme);
    }
    proof {
        if names@.len() > 0 {
            let x = names@[0]@;
            assert(has_name(names@, x)) by {
                assert(names@[0]@ == x);
            }
        }
    }
    Ok(names)
}

/// The searched-root-relative location of a found template path: the part
/// below `base_dir/base16/`, or failing that the part below `config_dir`.
pub open spec fn template_rel(p: Seq<char>, base_dir: Seq<char>, config_dir: Seq<char>) -> Option<
    Seq<char>,
> {
    match strip_dir_prefix(p, base_dir) {
        Some(rel) => strip_dir_prefix(rel, "base16"@),
        None => strip_dir_prefix(p, config_dir),
    }
}

/// The listed name of a found template path: its root-relative location
/// with the first two `templates/` segments collapsed and every
/// `.mustache` extension removed. `None` when the path lies under neither
/// root.
pub open spec fn template_name_of(
    p: Seq<char>,
    base_dir: Seq<char>,
    config_dir: Seq<char>,
) -> Option<Seq<char>> {
    match template_rel(p, base_dir, config_dir) {
        Some(rel) => Some(remove_all(remove_first_n(rel, "templates/"@, 2), ".mustache"@)),
        None => None,
    }
}

/// Executable computation of [`template_name_of`].
pub fn template_name(p: &str, base_dir: &str, config_dir: &str) -> (r: Option<String>)
    ensures
        match r {
            Some(name) => template_name_of(p@, base_dir@, config_dir@) == Some(name@),
            None => template_name_of(p@, base_dir@, config_dir@) is None,
        },
{
    let rel = match str_strip_dir_prefix(p, base_dir) {
        Some(r) => {
            match str_strip_dir_prefix(r.as_str(), "base16") {
                Some(r2) => r2,
                None => {
                    return None;
                },
            }
        },
        None => {
            match str_strip_dir_prefix(p, config_dir) {
                Some(r) => r,
                None => {
                    return None;
                },
            }
        },
    };
    let collapsed = str_remove_first_n(rel.as_str(), "templates/", 2);
    Some(str_remove_all(collapsed.as_str(), ".mustache"))
}

/// Index of the first found path that lies under neither root, or `-1`.
pub open spec fn first_unnamable_template(
    paths: Seq<String>,
    base_dir: Seq<char>,
    config_dir: Seq<char>,
) -> int
    decreases paths.len(),
{
    if paths.len() == 0 {
        -1
    } else if template_name_of(paths[0]@, base_dir, config_dir) is None {
        0
    } else {
        let r = first_unnamable_template(paths.skip(1), base_dir, config_dir);
        if r == -1 {
            -1
        } else {
            r + 1
        }
    }
}

proof fn lemma_first_unnamable_template(
    paths: Seq<String>,
    base_dir: Seq<char>,
    config_dir: Seq<char>,
)
    ensures
        first_unnamable_template(paths, base_dir, config_dir) == -1 ==> forall|j: int|
            0 <= j < paths.len() ==> template_name_of(paths[j]@, base_dir, config_dir) is Some,
        first_unnamable_template(paths, base_dir, config_dir) != -1 ==> {
            let r = first_unnamable_template(paths, base_dir, config_dir);
            &&& 0 <= r < paths.len()
            &&& template_name_of(paths[r]@, base_dir, config_dir) is None
            &&& forall|j: int|
                0 <= j < r ==> template_name_of(paths[j]@, base_dir, config_dir) is Some
        },
    decreases paths.len(),
{
    if paths.len() != 0 && template_name_of(paths[0]@, base_dir, config_dir) is Some {
        let t = paths.skip(1);
        lemma_first_unnamable_template(t, base_dir, config_dir);
        assert(forall|j: int| 0 <= j < t.len() ==> t[j] == paths[j + 1]);
        if first_unnamable_template(t, base_dir, config_dir) == -1 {
            assert forall|j: int|
                0 <= j < paths.len() implies template_name_of(
                paths[j]@,
                base_dir,
                config_dir,
            ) is Some by {
                if j >= 1 {
                    assert(t[j - 1] == paths[j]);
                }
            }
        } else {
            let r = first_unnamable_template(t, base_dir, config_dir);
            assert(t[r] == paths[r + 1]);
            assert forall|j: int|
                0 <= j < r + 1 implies template_name_of(
                paths[j]@,
                base_dir,
                config_dir,
            ) is Some by {
                if j >= 1 {
                    assert(t[j - 1] == paths[j]);
                }
            }
        }
    }
}

/// Turn found template paths into the listed names: root-relative, the
/// `templates/` segments collapsed, extension stripped, sorted with
/// duplicates removed. Fails on a path under neither root, and fails with
/// the no-match error when the accumulated result is empty.
pub fn template_names_from_paths(paths: &Vec<String>, base_dir: &str, config_dir: &str) -> (r:
    Result<Vec<String>, Error>)
    ensures
        ({
            let bad = first_unnamable_template(paths@, base_dir@, config_dir@);
            &&& bad != -1 ==> (r matches Err(e) && e matches Error::BadTemplateName { path }
                && path@ == paths@[bad]@)
            &&& bad == -1 && paths@.len() == 0 ==> (r matches Err(e) && e is NoMatchingTemplate)
            &&& bad == -1 && paths@.len() > 0 ==> r is Ok
            &&& r matches Ok(names) ==> {
                &&& strictly_sorted(names@)
                &&& names@.len() > 0
                &&& forall|x: Seq<char>|
                    has_name(names@, x) <==> exists|i: int|
                        0 <= i < paths@.len() && template_name_of(paths@[i]@, base_dir@, config_dir@)
                            == Some(x)
            }
        }),
{
    proof {
        lemma_first_unnamable_template(paths@, base_dir@, config_dir@);
    }
    let n = paths.len();
    let mut names: Vec<String> = Vec::new();
    let mut i: usize = 0;
    while i < n
        invariant
            0 <= i <= n,
            n == paths@.len(),
            strictly_sorted(names@),
            forall|j: int|
                0 <= j < i ==> template_name_of(paths@[j]@, base_dir@, config_dir@) is Some,
            forall|x: Seq<char>|
                has_name(names@, x) <==> exists|j: int|
                    0 <= j < i && template_name_of(paths@[j]@, base_dir@, config_dir@) == Some(x),
            first_unnamable_template(paths@, base_dir@, config_dir@) == -1 ==> forall|j: int|
                0 <= j < paths@.len() ==> template_name_of(paths@[j]@, base_dir@, config_dir@)
                    is Some,
            first_unnamable_template(paths@, base_dir@, config_dir@) != -1 ==> {
                let r = first_unnamable_template(paths@, base_dir@, config_dir@);
                &&& 0 <= r < paths@.len()
                &&& template_name_of(paths@[r]@, base_dir@, config_dir@) is None
                &&& forall|j: int|
                    0 <= j < r ==> template_name_of(paths@[j]@, base_dir@, config_dir@) is Some
            },
        decreases n - i,
    {
        let ghost prev = names@;
        match template_name(paths[i].as_str(), base_dir, config_dir) {
            Some(nm) => {
                let ghost nmv = nm@;
                insert_unique(&mut names, nm);
                assert forall|x: Seq<char>|
                    has_name(names@, x) <==> exists|j: int|
                        0 <= j < i + 1 && template_name_of(paths@[j]@, base_dir@, config_dir@)
                            == Some(x) by {
                    if has_name(names@, x) {
                        if x == nmv {
                            assert(template_name_of(paths@[i as int]@, base_dir@, config_dir@)
                                == Some(x));
                        }
                    }
                    if exists|j: int|
                        0 <= j < i + 1 && template_name_of(paths@[j]@, base_dir@, config_dir@)
                            == Some(x) {
                        let j = choose|j: int|
                            0 <= j < i + 1 && template_name_of(paths@[j]@, base_dir@, config_dir@)
                                == Some(x);
                        if j == i {
                            assert(x == nmv);
                        } else {
                            assert(has_name(prev, x));
                        }
                    }
                }
            },
            None => {
                return Err(Error::BadTemplateName { path: crate::text::str_copy(paths[i].as_str()) });
            },
        }
        i = i + 1;
    }
    if names.len() == 0 {
        proof {
            if paths@.len() > 0 {
                assert(template_name_of(paths@[0]@, base_dir@, config_dir@) is Some);
                let x = template_name_of(paths@[0]@, base_dir@, config_dir@)->Some_0;
                assert(exists|j: int|
                    0 <= j < n && template_name_of(paths@[j]@, base_dir@, config_dir@) == Some(x));
                assert(has_name(names@, x));
                assert(false);
            }
        }
        return Err(Error::NoMatchingTemplate);
    }
    proof {
        if names@.len() > 0 {
            let x = names@[0]@;
            assert(has_name(names@, x)) by {
                assert(names@[0]@ == x);
            }
        }
    }
    Ok(names)
}

/// The candidate parses and its classification is the wanted theme.
pub open spec fn candidate_classified_as(c: SchemeCandidate, theme: Luminance) -> bool {
    match scheme_of_yaml(c.contents@) {
        Some(d) => luminance_of(d) == Some(theme),
        None => false,
    }
}

/// The candidate cannot be classified: it does not parse as a scheme, or
/// it lacks a reserved background slot.
pub open spec fn candidate_unclassifiable(c: SchemeCandidate) -> bool {
    match scheme_of_yaml(c.contents@) {
        Some(d) => luminance_of(d) is None,
        None => true,
    }
}

/// Index of the first candidate that cannot be classified, or `-1`.
pub open spec fn first_unclassifiable(cs: Seq<SchemeCandidate>) -> int
    decreases cs.len(),
{
    if cs.len() == 0 {
        -1
    } else if candidate_unclassifiable(cs[0]) {
        0
    } else {
        let r = first_unclassifiable(cs.skip(1));
        if r == -1 {
            -1
        } else {
            r + 1
        }
    }
}

proof fn lemma_first_unclassifiable(cs: Seq<SchemeCandidate>)
    ensures
        first_unclassifiable(cs) == -1 ==> forall|j: int|
            0 <= j < cs.len() ==> !candidate_unclassifiable(cs[j]),
        first_unclassifiable(cs) != -1 ==> {
            let r = first_unclassifiable(cs);
            &&& 0 <= r < cs.len()
            &&& candidate_unclassifiable(cs[r])
            &&& forall|j: int| 0 <= j < r ==> !candidate_unclassifiable(cs[j])
        },
    decreases cs.len(),
{
    if cs.len() != 0 && !candidate_unclassifiable(cs[0]) {
        let t = cs.skip(1);
        lemma_first_unclassifiable(t);
        assert(forall|j: int| 0 <= j < t.len() ==> t[j] == cs[j + 1]);
        if first_unclassifiable(t) == -1 {
            assert forall|j: int| 0 <= j < cs.len() implies !candidate_unclassifiable(cs[j]) by {
                if j >= 1 {
                    assert(t[j - 1] == cs[j]);
                }
            }
        } else {
            let r = first_unclassifiable(t);
            assert(t[r] == cs[r + 1]);
            assert forall|j: int| 0 <= j < r + 1 implies !candidate_unclassifiable(cs[j]) by {
                if j >= 1 {
                    assert(t[j - 1] == cs[j]);
                }
            }
        }
    }
}

/// The paths of the candidates classified as `theme`, in order.
pub open spec fn theme_paths(cs: Seq<SchemeCandidate>, theme: Luminance) -> Seq<Seq<char>>
    decreases cs.len(),
{
    if cs.len() == 0 {
        Seq::empty()
    } else {
        let rest = theme_paths(cs.skip(1), theme);
        if candidate_classified_as(cs[0], theme) {
            seq![cs[0].path@] + rest
        } else {
            rest
        }
    }
}

proof fn lemma_theme_paths_take_step(cs: Seq<SchemeCandidate>, theme: Luminance, i: int)
    requires
        0 <= i < cs.len(),
    ensures
        theme_paths(cs.take(i + 1), theme) == if candidate_classified_as(cs[i], theme) {
            theme_paths(cs.take(i), theme).push(cs[i].path@)
        } else {
            theme_paths(cs.take(i), theme)
        },
    decreases i,
{
    let a = cs.take(i + 1);
    let b = cs.take(i);
    if i == 0 {
        assert(a.len() == 1);
        assert(a[0] == cs[0]);
        assert(a.skip(1) =~= Seq::<SchemeCandidate>::empty());
        assert(b =~= Seq::<SchemeCandidate>::empty());
        assert(theme_paths(a.skip(1), theme) == Seq::<Seq<char>>::empty());
        if candidate_classified_as(cs[0], theme) {
            assert(theme_paths(a, theme) == seq![cs[0].path@] + Seq::<Seq<char>>::empty());
            assert(seq![cs[0].path@] + Seq::<Seq<char>>::empty() =~= Seq::<Seq<
                char,
            >>::empty().push(cs[0].path@));
        }
    } else {
        lemma_theme_paths_take_step(cs.skip(1), theme, i - 1);
        assert(a.skip(1) =~= cs.skip(1).take(i));
        assert(b.skip(1) =~= cs.skip(1).take(i - 1));
        assert(cs.skip(1)[i - 1] == cs[i]);
        if candidate_classified_as(cs[i], theme) {
            if candidate_classified_as(cs[0], theme) {
                assert(theme_paths(a, theme) =~= theme_paths(b, theme).push(cs[i].path@));
            }
        }
    }
}

/// Keep the paths of the candidates whose classification is `theme`, in
/// the order given. Unlike the listing, every candidate must parse here:
/// one that does not is an error, as is one that lacks a background slot.
pub fn filter_schemes_by_theme(schemes: &Vec<SchemeCandidate>, theme: Luminance) -> (r: Result<
    Vec<String>,
    Error,
>)
    ensures
        ({
            let bad = first_unclassifiable(schemes@);
            &&& bad != -1 ==> (match scheme_of_yaml(schemes@[bad].contents@) {
                None => (r matches Err(e) && e is NotAScheme),
                Some(d) => r == Err::<Vec<String>, Error>(
                    Error::MissingBackgroundSlot { slot: first_missing_background(d) },
                ),
            })
            &&& bad == -1 ==> (r matches Ok(paths) && paths@.map_values(|s: String| s@)
                == theme_paths(schemes@, theme))
        }),
{
    proof {
        lemma_first_unclassifiable(schemes@);
    }
    let n = schemes.len();
    let mut out: Vec<String> = Vec::new();
    let mut i: usize = 0;
    proof {
        assert(schemes@.take(0) =~= Seq::<SchemeCandidate>::empty());
        assert(out@.map_values(|s: String| s@) =~= theme_paths(schemes@.take(0), theme));
    }
    while i < n
        invariant
            0 <= i <= n,
            n == schemes@.len(),
            forall|j: int| 0 <= j < i ==> !candidate_unclassifiable(schemes@[j]),
            out@.map_values(|s: String| s@) == theme_paths(schemes@.take(i as int), theme),
            first_unclassifiable(schemes@) == -1 ==> forall|j: int|
                0 <= j < schemes@.len() ==> !candidate_unclassifiable(schemes@[j]),
            first_unclassifiable(schemes@) != -1 ==> {
                let r = first_unclassifiable(schemes@);
                &&& 0 <= r < schemes@.len()
                &&& candidate_unclassifiable(schemes@[r])
                &&& forall|j: int| 0 <= j < r ==> !candidate_unclassifiable(schemes@[j])
            },
        decreases n - i,
    {
        let ghost prev = out@;
        let c = &schemes[i];
        let parsed = match parse_scheme(c.contents.as_str()) {
            Some(p) => p,
            None => {
                assert(candidate_unclassifiable(schemes@[i as int]));
                return Err(Error::NotAScheme);
            },
        };
        let l = match get_luminance(&parsed) {
            Ok(l) => l,
            Err(e) => {
                assert(candidate_unclassifiable(schemes@[i as int]));
                return Err(e);
            },
        };
        if l == theme {
            out.push(str_copy(c.path.as_str()));
            proof {
                assert(out@.map_values(|s: String| s@) =~= prev.map_values(|s: String| s@).push(
                    schemes@[i as int].path@,
                ));
            }
        }
        proof {
            lemma_theme_paths_take_step(schemes@, theme, i as int);
        }
        i = i + 1;
    }
    proof {
        assert(schemes@.take(n as int) =~= schemes@);
    }
    Ok(out)
}

/// List the templates matching the given patterns across both roots:
/// every match of every pattern is named, and the names are returned
/// sorted, without duplicates. Fails on an invalid pattern, on an
/// unreadable directory, on a match under neither root, and when nothing
/// at all matched.
pub fn templates(patterns: &Vec<String>, base_dir: &str, config_dir: &str) -> (r: Result<
    Vec<String>,
    Error,
>)
    ensures
        r matches Ok(names) ==> strictly_sorted(names@) && names@.len() > 0,
        r matches Err(e) ==> e matches Error::InvalidPattern { .. } || e matches Error::Unreadable {
            ..
        } || e matches Error::BadTemplateName { .. } || e is NoMatchingTemplate,
{
    let mut found: Vec<String> = Vec::new();
    let n = patterns.len();
    let mut i: usize = 0;
    while i < n
        invariant
            0 <= i <= n,
            n == patterns@.len(),
        decreases n - i,
    {
        let mut matches_here = crate::find::find_templates(
            patterns[i].as_str(),
            base_dir,
            config_dir,
        )?;
        found.append(&mut matches_here);
        i = i + 1;
    }
    template_names_from_paths(&found, base_dir, config_dir)
}

} // verus!
