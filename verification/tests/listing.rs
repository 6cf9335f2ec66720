use flavours::cli::{LuminanceArg, PatternArg};
use flavours::current::get_current_scheme_name;
use flavours::find::{normalize_template_pattern, SchemeCandidate};
use flavours::list::{filter_schemes_by_theme, schemes, template_name, template_names_from_paths};
use flavours::scheme::{file_stem, Luminance, LuminanceFilter, Scheme};
use flavours::Error;

fn dark_scheme_yaml() -> String {
    String::from("scheme: \"Gruvbox Dark\"\nauthor: \"Someone\"\nbase00: \"1d2021\"\nbase01: \"3c3836\"\n")
}

fn light_scheme_yaml() -> String {
    String::from("scheme: \"Paper\"\nauthor: \"Someone\"\nbase00: \"ffffff\"\nbase01: \"fafafa\"\n")
}

fn candidate(path: &str, contents: String) -> SchemeCandidate {
    SchemeCandidate { path: String::from(path), contents }
}

#[test]
fn normalize_expands_single_slash() {
    assert_eq!(normalize_template_pattern("gruvbox/dark"), "gruvbox/templates/dark.mustache");
}

#[test]
fn normalize_does_not_double_insert() {
    assert_eq!(
        normalize_template_pattern("gruvbox/templates/dark"),
        "gruvbox/templates/dark.mustache"
    );
}

#[test]
fn normalize_is_idempotent_on_full_form() {
    assert_eq!(
        normalize_template_pattern("gruvbox/templates/dark.mustache"),
        "gruvbox/templates/dark.mustache"
    );
}

#[test]
fn normalize_leaves_slashless_patterns_alone() {
    assert_eq!(normalize_template_pattern("*"), "*");
    assert_eq!(normalize_template_pattern("foo.mustache"), "foo.mustache");
}

#[test]
fn normalize_leaves_deep_paths_alone() {
    assert_eq!(normalize_template_pattern("a/b/c"), "a/b/c");
}

#[test]
fn template_names_are_sorted_and_deduplicated() {
    let paths = vec![
        String::from("/data/base16/templates/zsh/templates/default.mustache"),
        String::from("/cfg/templates/alacritty/templates/default.mustache"),
        String::from("/data/base16/templates/zsh/templates/default.mustache"),
    ];
    let names = template_names_from_paths(&paths, "/data", "/cfg").unwrap();
    assert_eq!(names, vec![String::from("alacritty/default"), String::from("zsh/default")]);
}

#[test]
fn template_names_empty_is_an_error() {
    let paths: Vec<String> = Vec::new();
    let r = template_names_from_paths(&paths, "/data", "/cfg");
    assert!(matches!(r, Err(Error::NoMatchingTemplate)));
}

#[test]
fn template_name_under_neither_root_is_an_error() {
    let paths = vec![String::from("/elsewhere/templates/foo/templates/default.mustache")];
    let r = template_names_from_paths(&paths, "/data", "/cfg");
    match r {
        Err(Error::BadTemplateName { path }) => {
            assert_eq!(path, "/elsewhere/templates/foo/templates/default.mustache");
        }
        _ => panic!("expected a bad-template-name error"),
    }
}

#[test]
fn template_name_strips_root_and_collapses_segments() {
    let name = template_name(
        "/data/base16/templates/foo/templates/default.mustache",
        "/data",
        "/cfg",
    );
    assert_eq!(name.unwrap(), "foo/default");
    let name = template_name("/cfg/templates/bar/templates/colors.mustache", "/data", "/cfg");
    assert_eq!(name.unwrap(), "bar/colors");
}

#[test]
fn scheme_names_are_sorted_and_deduplicated() {
    let candidates = vec![
        candidate("/data/base16/schemes/main/zenburn.yaml", dark_scheme_yaml()),
        candidate("/cfg/schemes/mine/alpha.yaml", dark_scheme_yaml()),
        candidate("/data/base16/schemes/other/zenburn.yaml", dark_scheme_yaml()),
    ];
    let names = schemes(&candidates, LuminanceFilter::All).unwrap();
    assert_eq!(names, vec![String::from("alpha"), String::from("zenburn")]);
}

#[test]
fn scheme_names_sort_by_scalar_value() {
    // upper-case letters sort before lower-case ones, as String's own
    // ordering does
    let candidates = vec![
        candidate("/cfg/schemes/mine/alpha.yaml", dark_scheme_yaml()),
        candidate("/cfg/schemes/mine/Zeta.yaml", dark_scheme_yaml()),
    ];
    let names = schemes(&candidates, LuminanceFilter::All).unwrap();
    let mut expected = vec![String::from("alpha"), String::from("Zeta")];
    expected.sort();
    assert_eq!(names, expected);
    assert_eq!(names, vec![String::from("Zeta"), String::from("alpha")]);
}

#[test]
fn scheme_listing_empty_is_an_error() {
    let candidates: Vec<SchemeCandidate> = Vec::new();
    assert!(matches!(schemes(&candidates, LuminanceFilter::All), Err(Error::NoMatchingScheme)));
}

#[test]
fn scheme_listing_skips_files_that_are_not_schemes() {
    let candidates = vec![
        candidate("/cfg/schemes/mine/readme.yaml", String::from("not a scheme at all")),
        candidate("/cfg/schemes/mine/alpha.yaml", dark_scheme_yaml()),
    ];
    let names = schemes(&candidates, LuminanceFilter::All).unwrap();
    assert_eq!(names, vec![String::from("alpha")]);
}

#[test]
fn scheme_listing_of_only_invalid_files_is_an_error() {
    let candidates = vec![candidate("/cfg/schemes/mine/readme.yaml", String::from("plain text"))];
    assert!(matches!(schemes(&candidates, LuminanceFilter::All), Err(Error::NoMatchingScheme)));
}

#[test]
fn scheme_listing_filters_by_luminance() {
    let candidates = vec![
        candidate("/cfg/schemes/mine/nocturne.yaml", dark_scheme_yaml()),
        candidate("/cfg/schemes/mine/paper.yaml", light_scheme_yaml()),
    ];
    let dark = schemes(&candidates, LuminanceFilter::Dark).unwrap();
    assert_eq!(dark, vec![String::from("nocturne")]);
    let light = schemes(&candidates, LuminanceFilter::Light).unwrap();
    assert_eq!(light, vec![String::from("paper")]);
    let all = schemes(&candidates, LuminanceFilter::All).unwrap();
    assert_eq!(all, vec![String::from("nocturne"), String::from("paper")]);
}

#[test]
fn scheme_filtering_needs_background_slots() {
    let no_slots = String::from("scheme: \"Bare\"\nauthor: \"Someone\"\nbase02: \"101010\"\n");
    let candidates = vec![candidate("/cfg/schemes/mine/bare.yaml", no_slots)];
    let r = schemes(&candidates, LuminanceFilter::Dark);
    assert!(matches!(r, Err(Error::MissingBackgroundSlot { slot: 0 })));
}

#[test]
fn scheme_missing_second_slot_is_reported() {
    let one_slot = String::from("scheme: \"Bare\"\nauthor: \"Someone\"\nbase00: \"101010\"\n");
    let candidates = vec![candidate("/cfg/schemes/mine/bare.yaml", one_slot)];
    let r = schemes(&candidates, LuminanceFilter::Light);
    assert!(matches!(r, Err(Error::MissingBackgroundSlot { slot: 1 })));
}

#[test]
fn scheme_listing_without_filter_ignores_missing_slots() {
    let no_slots = String::from("scheme: \"Bare\"\nauthor: \"Someone\"\nbase02: \"101010\"\n");
    let candidates = vec![candidate("/cfg/schemes/mine/bare.yaml", no_slots)];
    let names = schemes(&candidates, LuminanceFilter::All).unwrap();
    assert_eq!(names, vec![String::from("bare")]);
}

#[test]
fn scheme_path_without_stem_is_an_error() {
    let candidates = vec![candidate("somedir/", dark_scheme_yaml())];
    let r = schemes(&candidates, LuminanceFilter::All);
    match r {
        Err(Error::BadSchemeName { path }) => assert_eq!(path, "somedir/"),
        _ => panic!("expected a bad-scheme-name error"),
    }
}

#[test]
fn theme_filter_keeps_matching_paths_in_order() {
    let candidates = vec![
        candidate("/a/dark1.yaml", dark_scheme_yaml()),
        candidate("/a/light1.yaml", light_scheme_yaml()),
        candidate("/a/dark2.yaml", dark_scheme_yaml()),
    ];
    let kept = filter_schemes_by_theme(&candidates, Luminance::Dark).unwrap();
    assert_eq!(kept, vec![String::from("/a/dark1.yaml"), String::from("/a/dark2.yaml")]);
    let kept = filter_schemes_by_theme(&candidates, Luminance::Light).unwrap();
    assert_eq!(kept, vec![String::from("/a/light1.yaml")]);
}

#[test]
fn theme_filter_rejects_non_schemes() {
    let candidates = vec![candidate("/a/x.yaml", String::from("]]]"))];
    let r = filter_schemes_by_theme(&candidates, Luminance::Dark);
    assert!(matches!(r, Err(Error::NotAScheme)));
}

#[test]
fn file_stem_takes_the_final_component_without_extension() {
    assert_eq!(file_stem("a/b/c.yaml"), Some(String::from("c")));
    assert_eq!(file_stem("noext"), Some(String::from("noext")));
    assert_eq!(file_stem(".hidden"), Some(String::from(".hidden")));
    assert_eq!(file_stem("a/b.tar.gz"), Some(String::from("b.tar")));
    assert_eq!(file_stem("a/b."), Some(String::from("b")));
    assert_eq!(file_stem("endsinslash/"), None);
    assert_eq!(file_stem(""), None);
}

#[test]
fn slug_comes_from_the_backing_file() {
    let s = Scheme::new(
        String::from("Display Name"),
        Luminance::Dark,
        String::from("/store/gruvbox-dark.yaml"),
    );
    assert_eq!(s.slug(), "gruvbox-dark");
}

#[test]
fn slug_falls_back_to_the_name() {
    let s = Scheme::new(String::from("Display Name"), Luminance::Dark, String::from(""));
    assert_eq!(s.slug(), "Display Name");
}

#[test]
fn luminance_argument_validates_once() {
    let dark = LuminanceArg { luminance: String::from("dark") };
    assert_eq!(dark.filter(), LuminanceFilter::Dark);
    let light = LuminanceArg { luminance: String::from("light") };
    assert_eq!(light.filter(), LuminanceFilter::Light);
    let all = LuminanceArg { luminance: String::from("all") };
    assert_eq!(all.filter(), LuminanceFilter::All);
    let odd = LuminanceArg { luminance: String::from("bright") };
    assert_eq!(odd.filter(), LuminanceFilter::All);
}

#[test]
fn missing_pattern_defaults_to_match_all() {
    let none = PatternArg { pattern: None };
    assert_eq!(none.patterns(), vec![String::from("*")]);
    let some = PatternArg { pattern: Some(vec![String::from("gruvbox*")]) };
    assert_eq!(some.patterns(), vec![String::from("gruvbox*")]);
}

#[test]
fn luminance_names_are_lower_case() {
    assert_eq!(Luminance::Dark.as_str(), "dark");
    assert_eq!(Luminance::Light.as_str(), "light");
}

#[test]
fn current_scheme_name_drops_whitespace() {
    assert_eq!(get_current_scheme_name("gruvbox-dark\n").unwrap(), "gruvbox-dark");
    assert_eq!(get_current_scheme_name("  a b\t\n").unwrap(), "ab");
}

#[test]
fn empty_current_scheme_is_an_error() {
    assert!(matches!(get_current_scheme_name(" \n\t "), Err(Error::EmptyCurrentScheme)));
}
