//! The resolution engine: matching scheme and template files across the two
//! directory roots.
//!
//! Patterns are glob-like. The user configuration root is searched before
//! the shared data root, whose stores sit under a `base16/` prefix; whenever
//! both roots could satisfy a lookup, the configuration root's result comes
//! first.

use crate::palette::scheme_of_yaml;
use crate::text::{
    contains_char, first_index_of, lemma_first_index_of, remove_all, starts_with, str_contains_char,
    str_copy, str_index_of_char, str_remove_all, str_starts_with, str_trim_suffix_all,
    trim_suffix_all,
};
use crate::Error;
use vstd::prelude::*;

verus! {

/// Whether `glob` accepts the pattern; a property of the text alone.
pub uninterp spec fn valid_glob_pattern(s: Seq<char>) -> bool;

/// Relies on `glob::glob`: enumerates the file-system paths matching the
/// pattern; an invalid pattern is rejected before any directory is read,
/// and a directory that cannot be read surfaces as an error naming its
/// path. What matches depends on the file system, so nothing is promised
/// of the paths handed back.
#[verifier::external_body]
fn glob_paths(pattern: &str) -> (r: Result<Vec<String>, Error>)
    ensures
        (r matches Err(e) && e matches Error::InvalidPattern { pattern: p } && p@ == pattern@)
            <==> !valid_glob_pattern(pattern@),
        r matches Err(e) ==> (e matches Error::InvalidPattern { pattern: p } && p@ == pattern@)
            || e matches Error::Unreadable { .. },
{
    let paths = match glob::glob(pattern) {
        Ok(p) => p,
        Err(_) => return Err(Error::InvalidPattern { pattern: pattern.to_string() }),
    };
    let mut out: Vec<String> = Vec::new();
    for entry in paths {
        let p = entry.map_err(
            |e| Error::Unreadable { path: e.path().to_string_lossy().into_owned() },
        )?;
        out.push(p.to_string_lossy().into_owned());
    }
    Ok(out)
}

/// The glob run against the configuration root when looking for schemes:
/// schemes live one level below `schemes/`, under a grouping directory.
pub open spec fn config_scheme_glob(pattern: Seq<char>, config_dir: Seq<char>) -> Seq<char> {
    config_dir + "/schemes/*/"@ + pattern + ".y*ml"@
}

/// The glob run against the data root when looking for schemes.
pub open spec fn data_scheme_glob(pattern: Seq<char>, base_dir: Seq<char>) -> Seq<char> {
    base_dir + "/base16/schemes/*/"@ + pattern + ".y*ml"@
}

/// The two scheme globs, configuration root first.
pub fn scheme_glob_patterns(pattern: &str, base_dir: &str, config_dir: &str) -> (r: (
    String,
    String,
))
    ensures
        r.0@ == config_scheme_glob(pattern@, config_dir@),
        r.1@ == data_scheme_glob(pattern@, base_dir@),
{
    let mut cfg = str_copy(config_dir);
    cfg.append("/schemes/*/");
    cfg.append(pattern);
    cfg.append(".y*ml");
    let mut data = str_copy(base_dir);
    data.append("/base16/schemes/*/");
    data.append(pattern);
    data.append(".y*ml");
    (cfg, data)
}

/// Enumerate candidate scheme files matching `pattern` under both roots,
/// configuration root first. The paths are not yet validated: a candidate
/// only counts as a scheme once its contents parse, which
/// [`select_valid_schemes`] decides from the file contents.
pub fn find_scheme_files(pattern: &str, base_dir: &str, config_dir: &str) -> (r: Result<
    Vec<String>,
    Error,
>)
    ensures
        r is Ok ==> valid_glob_pattern(config_scheme_glob(pattern@, config_dir@))
            && valid_glob_pattern(data_scheme_glob(pattern@, base_dir@)),
        !valid_glob_pattern(config_scheme_glob(pattern@, config_dir@)) ==> (r matches Err(e)
            && e matches Error::InvalidPattern { pattern: p } && p@ == config_scheme_glob(
            pattern@,
            config_dir@,
        )),
        valid_glob_pattern(config_scheme_glob(pattern@, config_dir@)) && !valid_glob_pattern(
            data_scheme_glob(pattern@, base_dir@),
        ) ==> (r matches Err(e) && (e matches Error::Unreadable { .. } || (
        e matches Error::InvalidPattern { pattern: p } && p@ == data_scheme_glob(
            pattern@,
            base_dir@,
        )))),
        r matches Err(e) ==> e matches Error::InvalidPattern { .. } || e matches Error::Unreadable {
            ..
        },
{
    let (cfg, data) = scheme_glob_patterns(pattern, base_dir, config_dir);
    let config_matches = glob_paths(cfg.as_str())?;
    let data_matches = glob_paths(data.as_str())?;
    Ok(combine_root_matches(config_matches, data_matches))
}

/// The matches from the two roots in precedence order: every
/// configuration-root match precedes every data-root match. Whenever both
/// roots could satisfy a lookup, the configuration root's results come
/// first.
pub fn combine_root_matches(config_matches: Vec<String>, data_matches: Vec<String>) -> (r: Vec<
    String,
>)
    ensures
        r@ == config_matches@ + data_matches@,
{
    let mut out = config_matches;
    let mut rest = data_matches;
    out.append(&mut rest);
    out
}

/// A candidate scheme file: a path that matched the glob, together with the
/// contents read from it.
pub struct SchemeCandidate {
    pub path: String,
    pub contents: String,
}

/// The paths of the candidates whose contents parse as a scheme, in order.
pub open spec fn valid_scheme_paths(cs: Seq<SchemeCandidate>) -> Seq<Seq<char>>
    decreases cs.len(),
{
    if cs.len() == 0 {
        Seq::empty()
    } else {
        let rest = valid_scheme_paths(cs.skip(1));
        if scheme_of_yaml(cs[0].contents@) is Some {
            seq![cs[0].path@] + rest
        } else {
            rest
        }
    }
}

proof fn lemma_valid_scheme_paths_take_step(cs: Seq<SchemeCandidate>, i: int)
    requires
        0 <= i < cs.len(),
    ensures
        valid_scheme_paths(cs.take(i + 1)) == if scheme_of_yaml(cs[i].contents@) is Some {
            valid_scheme_paths(cs.take(i)).push(cs[i].path@)
        } else {
            valid_scheme_paths(cs.take(i))
        },
    decreases i,
{
    let a = cs.take(i + 1);
    let b = cs.take(i);
    if i == 0 {
        assert(a.len() == 1);
        assert(a[0] == cs[0]);
        assert(a.skip(1) =~= Seq::<SchemeCandidate>::empty());
        assert(b =~= Seq::<SchemeCandidate>::empty());
        assert(valid_scheme_paths(a.skip(1)) == Seq::<Seq<char>>::empty());
        if scheme_of_yaml(cs[0].contents@) is Some {
            assert(valid_scheme_paths(a) == seq![cs[0].path@] + Seq::<Seq<char>>::empty());
            assert(seq![cs[0].path@] + Seq::<Seq<char>>::empty() =~= Seq::<Seq<
                char,
            >>::empty().push(cs[0].path@));
        }
    } else {
        lemma_valid_scheme_paths_take_step(cs.skip(1), i - 1);
        assert(a.skip(1) =~= cs.skip(1).take(i));
        assert(b.skip(1) =~= cs.skip(1).take(i - 1));
        assert(cs.skip(1)[i - 1] == cs[i]);
        if scheme_of_yaml(cs[i].contents@) is Some {
            if scheme_of_yaml(cs[0].contents@) is Some {
                assert(valid_scheme_paths(a) =~= valid_scheme_paths(b).push(cs[i].path@));
            }
        }
    }
}

/// Keep the paths of the candidates that parse as schemes, in the order
/// given. A candidate that fails to parse is skipped silently: stray files
/// in a scheme directory are tolerated by design, not reported.
pub fn select_valid_schemes(candidates: Vec<SchemeCandidate>) -> (r: Vec<String>)
    ensures
        r@.map_values(|s: String| s@) == valid_scheme_paths(candidates@),
{
    let n = candidates.len();
    let mut out: Vec<String> = Vec::new();
    let mut i: usize = 0;
    proof {
        assert(candidates@.take(0) =~= Seq::<SchemeCandidate>::empty());
        assert(out@.map_values(|s: String| s@) =~= valid_scheme_paths(candidates@.take(0)));
    }
    while i < n
        invariant
            0 <= i <= n,
            n == candidates@.len(),
            out@.map_values(|s: String| s@) == valid_scheme_paths(candidates@.take(i as int)),
        decreases n - i,
    {
        let ghost prev = out@;
        let c = &candidates[i];
        if crate::palette::parse_scheme(c.contents.as_str()).is_some() {
            out.push(str_copy(c.path.as_str()));
            proof {
                assert(out@.map_values(|s: String| s@) =~= prev.map_values(|s: String| s@).push(
                    candidates@[i as int].path@,
                ));
            }
        }
        proof {
            lemma_valid_scheme_paths_take_step(candidates@, i as int);
        }
        i = i + 1;
    }
    proof {
        assert(candidates@.take(n as int) =~= candidates@);
    }
    out
}

/// The pattern a template listing actually globs for, derived from the
/// user's pattern.
///
/// A trailing `.mustache` extension is first stripped, repeatedly. If the
/// stripped pattern then has the shape `<A>/<B>` where `B` holds no further
/// `/`, or the shape `<A>/templates/...`, it is rewritten to
/// `<A>/templates/<B'>.mustache`, with `B'` the text after the first `/`
/// minus every `templates/` occurrence: a user may write
/// `templatename/subtemplate` for the full nested path. Any other shape is
/// globbed exactly as the user wrote it, extension included.
pub open spec fn normalized_pattern(p: Seq<char>) -> Seq<char> {
    let q = trim_suffix_all(p, ".mustache"@);
    let i = first_index_of(q, '/');
    if i == -1 {
        p
    } else {
        let pre = q.subrange(0, i);
        let post = q.skip(i + 1);
        if !contains_char(post, '/') || starts_with(post, "templates/"@) {
            pre + "/templates/"@ + remove_all(post, "templates/"@) + ".mustache"@
        } else {
            p
        }
    }
}

/// Executable computation of [`normalized_pattern`].
pub fn normalize_template_pattern(pattern: &str) -> (r: String)
    ensures
        r@ == normalized_pattern(pattern@),
{
    let trimmed = str_trim_suffix_all(pattern, ".mustache");
    let q = trimmed.as_str();
    match str_index_of_char(q, '/') {
        None => str_copy(pattern),
        Some(i) => {
            proof {
                lemma_first_index_of(q@, '/');
            }
            let n = q.unicode_len();
            let pre = q.substring_char(0, i);
            let post = q.substring_char(i + 1, n);
            assert(post@ =~= q@.skip(i + 1));
            if !str_contains_char(post, '/') || str_starts_with(post, "templates/") {
                let stripped = str_remove_all(post, "templates/");
                let mut out = str_copy(pre);
                out.append("/templates/");
                out.append(stripped.as_str());
                out.append(".mustache");
                out
            } else {
                str_copy(pattern)
            }
        },
    }
}

/// The glob run against the configuration root when looking for templates.
pub open spec fn config_template_glob(pattern: Seq<char>, config_dir: Seq<char>) -> Seq<char> {
    config_dir + "/templates/"@ + normalized_pattern(pattern)
}

/// The glob run against the data root when looking for templates.
pub open spec fn data_template_glob(pattern: Seq<char>, base_dir: Seq<char>) -> Seq<char> {
    base_dir + "/base16/templates/"@ + normalized_pattern(pattern)
}

/// Find template files matching `pattern` under both roots, configuration
/// root first. Unlike schemes, every matching file counts: no content
/// validation is applied.
pub fn find_templates(pattern: &str, base_dir: &str, config_dir: &str) -> (r: Result<
    Vec<String>,
    Error,
>)
    ensures
        r is Ok ==> valid_glob_pattern(config_template_glob(pattern@, config_dir@))
            && valid_glob_pattern(data_template_glob(pattern@, base_dir@)),
        !valid_glob_pattern(config_template_glob(pattern@, config_dir@)) ==> (r matches Err(e)
            && e matches Error::InvalidPattern { pattern: p } && p@ == config_template_glob(
            pattern@,
            config_dir@,
        )),
        valid_glob_pattern(config_template_glob(pattern@, config_dir@)) && !valid_glob_pattern(
            data_template_glob(pattern@, base_dir@),
        ) ==> (r matches Err(e) && (e matches Error::Unreadable { .. } || (
        e matches Error::InvalidPattern { pattern: p } && p@ == data_template_glob(
            pattern@,
            base_dir@,
        )))),
        r matches Err(e) ==> e matches Error::InvalidPattern { .. } || e matches Error::Unreadable {
            ..
        },
{
    let normalized = normalize_template_pattern(pattern);
    let mut cfg = str_copy(config_dir);
    cfg.append("/templates/");
    cfg.append(normalized.as_str());
    let mut data = str_copy(base_dir);
    data.append("/base16/templates/");
    data.append(normalized.as_str());
    let config_matches = glob_paths(cfg.as_str())?;
    let data_matches = glob_paths(data.as_str())?;
    Ok(combine_root_matches(config_matches, data_matches))
}

/// The configuration-root candidate for a named template file.
pub open spec fn config_template_path(
    template: Seq<char>,
    subtemplate: Seq<char>,
    config_dir: Seq<char>,
) -> Seq<char> {
    config_dir + "/templates/"@ + template + "/templates/"@ + subtemplate + ".mustache"@
}

/// The data-root candidate for a named template file.
pub open spec fn data_template_path(
    template: Seq<char>,
    subtemplate: Seq<char>,
    base_dir: Seq<char>,
) -> Seq<char> {
    base_dir + "/base16/templates/"@ + template + "/templates/"@ + subtemplate + ".mustache"@
}

/// The two candidate paths for a named template, configuration root first.
pub fn template_candidate_paths(
    template: &str,
    subtemplate: &str,
    base_dir: &str,
    config_dir: &str,
) -> (r: (String, String))
    ensures
        r.0@ == config_template_path(template@, subtemplate@, config_dir@),
        r.1@ == data_template_path(template@, subtemplate@, base_dir@),
{
    let mut cfg = str_copy(config_dir);
    cfg.append("/templates/");
    cfg.append(template);
    cfg.append("/templates/");
    cfg.append(subtemplate);
    cfg.append(".mustache");
    let mut data = str_copy(base_dir);
    data.append("/base16/templates/");
    data.append(template);
    data.append("/templates/");
    data.append(subtemplate);
    data.append(".mustache");
    (cfg, data)
}

/// Relies on `std::path::Path::is_file`: whether the path names an existing
/// regular file on disk.
#[verifier::external_body]
fn path_is_file(path: &str) -> bool {
    std::path::Path::new(path).is_file()
}

/// Decide the single-template lookup from the two candidates and their
/// existence answers: the configuration root's candidate wins whenever it
/// exists, the data root's comes second, and the lookup fails exactly when
/// neither exists, with the error naming both attempted paths.
pub fn choose_template(cfg: String, data: String, cfg_is_file: bool, data_is_file: bool) -> (r:
    Result<String, Error>)
    ensures
        cfg_is_file ==> r == Ok::<String, Error>(cfg),
        !cfg_is_file && data_is_file ==> r == Ok::<String, Error>(data),
        !cfg_is_file && !data_is_file ==> r == Err::<String, Error>(
            Error::TemplateNotFound { config: cfg, data },
        ),
{
    if cfg_is_file {
        Ok(cfg)
    } else if data_is_file {
        Ok(data)
    } else {
        Err(Error::TemplateNotFound { config: cfg, data })
    }
}

/// Find the single template file named by `template` and `subtemplate`:
/// exactly two candidate paths are built, their existence is asked of the
/// file system, and [`choose_template`] decides from those answers —
/// the first existing candidate is returned, configuration root taking
/// precedence, and when neither exists the error names both attempted
/// paths.
pub fn find_template(template: &str, subtemplate: &str, base_dir: &str, config_dir: &str) -> (r:
    Result<String, Error>)
    ensures
        r matches Ok(p) ==> p@ == config_template_path(template@, subtemplate@, config_dir@) || p@
            == data_template_path(template@, subtemplate@, base_dir@),
        r matches Err(e) ==> e matches Error::TemplateNotFound { config, data } && config@
            == config_template_path(template@, subtemplate@, config_dir@) && data@
            == data_template_path(template@, subtemplate@, base_dir@),
{
    let (cfg, data) = template_candidate_paths(template, subtemplate, base_dir, config_dir);
    let cfg_is_file = path_is_file(cfg.as_str());
    let data_is_file = path_is_file(data.as_str());
    choose_template(cfg, data, cfg_is_file, data_is_file)
}

} // verus!
