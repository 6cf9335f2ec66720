use std::io::Write;
use std::path::{Path, PathBuf};

use flavours::current::get_current_scheme_luminance;
use flavours::find::{
    choose_template, combine_root_matches, find_scheme_files, find_template, find_templates,
    select_valid_schemes, SchemeCandidate,
};
use flavours::list::{template_names_from_paths, templates};
use flavours::scheme::Luminance;
use flavours::Error;

fn mkdir(parent: &Path, name: &str) -> PathBuf {
    tempfile::Builder::new()
        .prefix(name)
        .rand_bytes(0)
        .tempdir_in(parent)
        .unwrap()
        .keep()
}

fn mkfile(dir: &Path, name: &str, contents: &str) {
    let file = tempfile::Builder::new()
        .prefix(name)
        .rand_bytes(0)
        .tempfile_in(dir)
        .unwrap();
    let (mut handle, _path) = file.keep().unwrap();
    handle.write_all(contents.as_bytes()).unwrap();
}

fn gruvbox_dark_yaml() -> String {
    String::from("scheme: \"Gruvbox Dark\"\nauthor: \"Someone\"\nbase00: \"1d2021\"\nbase01: \"3c3836\"\n")
}

/// Lay out `<root>/schemes/<group>/` or, for the data root,
/// `<root>/base16/schemes/<group>/`, and return the group directory.
fn scheme_group(root: &Path, data_root: bool, group: &str) -> PathBuf {
    let store = if data_root {
        let base16 = mkdir(root, "base16");
        mkdir(&base16, "schemes")
    } else {
        mkdir(root, "schemes")
    };
    mkdir(&store, group)
}

/// Lay out `<root>[/base16]/templates/<name>/templates/` and return it.
fn template_dir(root: &Path, data_root: bool, name: &str) -> PathBuf {
    let store = if data_root {
        let base16 = mkdir(root, "base16");
        mkdir(&base16, "templates")
    } else {
        mkdir(root, "templates")
    };
    let named = mkdir(&store, name);
    mkdir(&named, "templates")
}

#[test]
fn scheme_in_data_root_is_found_and_classifies_dark() {
    let data = tempfile::tempdir().unwrap();
    let config = tempfile::tempdir().unwrap();
    let group = scheme_group(data.path(), true, "main");
    let yaml = gruvbox_dark_yaml();
    mkfile(&group, "gruvbox-dark.yaml", &yaml);

    let data_dir = data.path().to_str().unwrap();
    let config_dir = config.path().to_str().unwrap();
    let found = find_scheme_files("gruvbox-dark", data_dir, config_dir).unwrap();
    assert_eq!(found.len(), 1);
    assert!(found[0].ends_with("gruvbox-dark.yaml"));
    assert_eq!(get_current_scheme_luminance(&yaml).unwrap(), Luminance::Dark);
}

#[test]
fn config_root_results_come_first() {
    let data = tempfile::tempdir().unwrap();
    let config = tempfile::tempdir().unwrap();
    let data_group = scheme_group(data.path(), true, "main");
    let config_group = scheme_group(config.path(), false, "mine");
    let yaml = gruvbox_dark_yaml();
    mkfile(&data_group, "gruvbox-dark.yaml", &yaml);
    mkfile(&config_group, "gruvbox-dark.yaml", &yaml);

    let data_dir = data.path().to_str().unwrap();
    let config_dir = config.path().to_str().unwrap();
    let found = find_scheme_files("gruvbox-dark", data_dir, config_dir).unwrap();
    assert_eq!(found.len(), 2);
    assert!(found[0].starts_with(config_dir));
    assert!(found[1].starts_with(data_dir));
}

#[test]
fn files_that_do_not_parse_are_not_schemes() {
    let data = tempfile::tempdir().unwrap();
    let config = tempfile::tempdir().unwrap();
    let group = scheme_group(data.path(), true, "main");
    mkfile(&group, "gruvbox-dark.yaml", &gruvbox_dark_yaml());
    mkfile(&group, "stray.yaml", "just some notes, not a scheme");

    let data_dir = data.path().to_str().unwrap();
    let config_dir = config.path().to_str().unwrap();
    let found = find_scheme_files("*", data_dir, config_dir).unwrap();
    assert_eq!(found.len(), 2);

    // read back what was written and validate as the search does
    let candidates: Vec<SchemeCandidate> = found
        .into_iter()
        .map(|path| {
            let contents = if path.ends_with("stray.yaml") {
                String::from("just some notes, not a scheme")
            } else {
                gruvbox_dark_yaml()
            };
            SchemeCandidate { path, contents }
        })
        .collect();
    let valid = select_valid_schemes(candidates);
    assert_eq!(valid.len(), 1);
    assert!(valid[0].ends_with("gruvbox-dark.yaml"));
}

#[test]
fn no_match_is_not_an_error_at_the_search_layer() {
    let data = tempfile::tempdir().unwrap();
    let config = tempfile::tempdir().unwrap();
    let data_dir = data.path().to_str().unwrap();
    let config_dir = config.path().to_str().unwrap();
    let found = find_scheme_files("nothing", data_dir, config_dir).unwrap();
    assert_eq!(found.len(), 0);
}

#[test]
fn invalid_glob_pattern_is_rejected() {
    let r = find_scheme_files("[", "/nowhere", "/nowhere-else");
    assert!(matches!(r, Err(Error::InvalidPattern { .. })));
}

#[test]
fn template_choice_prefers_config_then_data() {
    let cfg = || String::from("cfg/templates/foo/templates/default.mustache");
    let data = || String::from("data/base16/templates/foo/templates/default.mustache");
    assert_eq!(choose_template(cfg(), data(), true, true).unwrap(), cfg());
    assert_eq!(choose_template(cfg(), data(), true, false).unwrap(), cfg());
    assert_eq!(choose_template(cfg(), data(), false, true).unwrap(), data());
    match choose_template(cfg(), data(), false, false) {
        Err(Error::TemplateNotFound { config, data: d }) => {
            assert_eq!(config, cfg());
            assert_eq!(d, data());
        }
        _ => panic!("expected a not-found error naming both paths"),
    }
}

#[test]
fn root_matches_combine_config_first() {
    let combined = combine_root_matches(
        vec![String::from("cfg/a"), String::from("cfg/b")],
        vec![String::from("data/a")],
    );
    assert_eq!(
        combined,
        vec![String::from("cfg/a"), String::from("cfg/b"), String::from("data/a")]
    );
}

#[test]
fn named_template_is_found_in_the_data_root() {
    let data = tempfile::tempdir().unwrap();
    let config = tempfile::tempdir().unwrap();
    let dir = template_dir(data.path(), true, "foo");
    mkfile(&dir, "default.mustache", "{{scheme-slug}}");

    let data_dir = data.path().to_str().unwrap();
    let config_dir = config.path().to_str().unwrap();
    let found = find_template("foo", "default", data_dir, config_dir).unwrap();
    assert!(found.starts_with(data_dir));
    assert!(found.ends_with("foo/templates/default.mustache"));
}

#[test]
fn named_template_prefers_the_config_root() {
    let data = tempfile::tempdir().unwrap();
    let config = tempfile::tempdir().unwrap();
    let dir = template_dir(config.path(), false, "foo");
    mkfile(&dir, "default.mustache", "{{scheme-slug}}");

    let data_dir = data.path().to_str().unwrap();
    let config_dir = config.path().to_str().unwrap();
    let found = find_template("foo", "default", data_dir, config_dir).unwrap();
    assert!(found.starts_with(config_dir));
    assert!(found.ends_with("foo/templates/default.mustache"));
}

#[test]
fn missing_named_template_names_both_attempts() {
    let data = tempfile::tempdir().unwrap();
    let config = tempfile::tempdir().unwrap();
    let data_dir = data.path().to_str().unwrap();
    let config_dir = config.path().to_str().unwrap();
    match find_template("foo", "default", data_dir, config_dir) {
        Err(Error::TemplateNotFound { config, data }) => {
            assert!(config.starts_with(config_dir));
            assert!(config.ends_with("templates/foo/templates/default.mustache"));
            assert!(data.starts_with(data_dir));
            assert!(data.ends_with("base16/templates/foo/templates/default.mustache"));
        }
        _ => panic!("expected a not-found error naming both paths"),
    }
}

#[test]
fn template_listing_searches_both_roots() {
    let data = tempfile::tempdir().unwrap();
    let config = tempfile::tempdir().unwrap();
    let data_tpl = template_dir(data.path(), true, "shared");
    mkfile(&data_tpl, "default.mustache", "");
    let config_tpl = template_dir(config.path(), false, "shared");
    mkfile(&config_tpl, "default.mustache", "");

    let data_dir = data.path().to_str().unwrap();
    let config_dir = config.path().to_str().unwrap();
    let found = find_templates("shared/default", data_dir, config_dir).unwrap();
    assert_eq!(found.len(), 2);
    assert!(found[0].starts_with(config_dir));
    assert!(found[1].starts_with(data_dir));

    // the same file under both roots lists as one name
    let names = template_names_from_paths(&found, data_dir, config_dir).unwrap();
    assert_eq!(names, vec![String::from("shared/default")]);
}

#[test]
fn template_listing_accumulates_across_patterns() {
    let data = tempfile::tempdir().unwrap();
    let config = tempfile::tempdir().unwrap();
    let zsh = template_dir(data.path(), true, "zsh");
    mkfile(&zsh, "default.mustache", "");
    let config_templates = mkdir(config.path(), "templates");
    let alacritty = mkdir(&config_templates, "alacritty");
    let alacritty_templates = mkdir(&alacritty, "templates");
    mkfile(&alacritty_templates, "default.mustache", "");

    let data_dir = data.path().to_str().unwrap();
    let config_dir = config.path().to_str().unwrap();
    // two patterns that overlap on one template still list it once
    let patterns = vec![
        String::from("zsh/default"),
        String::from("alacritty/default"),
        String::from("z*/default"),
    ];
    let names = templates(&patterns, data_dir, config_dir).unwrap();
    assert_eq!(names, vec![String::from("alacritty/default"), String::from("zsh/default")]);
}

#[test]
fn template_listing_with_no_matches_is_an_error() {
    let data = tempfile::tempdir().unwrap();
    let config = tempfile::tempdir().unwrap();
    let data_dir = data.path().to_str().unwrap();
    let config_dir = config.path().to_str().unwrap();
    let found = find_templates("nothing-here/default", data_dir, config_dir).unwrap();
    assert_eq!(found.len(), 0);
    let r = template_names_from_paths(&found, data_dir, config_dir);
    assert!(matches!(r, Err(Error::NoMatchingTemplate)));
}
