use flavours::current::get_current_scheme_luminance;
use flavours::palette::{get_luminance, ColorScheme};
use flavours::scheme::Luminance;
use flavours::{Error, Rgb};

fn scheme_with_backgrounds(c0: Rgb, c1: Rgb) -> ColorScheme {
    ColorScheme {
        name: String::from("Test"),
        slug: String::new(),
        author: String::from("Someone"),
        colors: vec![(0, c0), (1, c1)],
    }
}

fn grey(v: u8) -> Rgb {
    Rgb { r: v, g: v, b: v }
}

#[test]
fn black_backgrounds_classify_dark() {
    let s = scheme_with_backgrounds(grey(0), grey(0));
    assert_eq!(get_luminance(&s).unwrap(), Luminance::Dark);
}

#[test]
fn white_backgrounds_classify_light() {
    let s = scheme_with_backgrounds(grey(255), grey(255));
    assert_eq!(get_luminance(&s).unwrap(), Luminance::Light);
}

#[test]
fn average_of_exactly_one_half_classifies_light() {
    // each slot weighs 299*90 + 587*150 + 114*110 = 127500, so the average
    // brightness is exactly one half, which falls on the Light side
    let c = Rgb { r: 90, g: 150, b: 110 };
    let s = scheme_with_backgrounds(c, c);
    assert_eq!(get_luminance(&s).unwrap(), Luminance::Light);
}

#[test]
fn one_below_the_threshold_classifies_dark() {
    let c = Rgb { r: 90, g: 150, b: 110 };
    let d = Rgb { r: 89, g: 150, b: 110 };
    let s = scheme_with_backgrounds(c, d);
    assert_eq!(get_luminance(&s).unwrap(), Luminance::Dark);
}

#[test]
fn classification_is_pure() {
    let s = scheme_with_backgrounds(grey(30), grey(40));
    let first = get_luminance(&s).unwrap();
    let second = get_luminance(&s).unwrap();
    assert_eq!(first, second);
}

#[test]
fn missing_slot_zero_is_reported() {
    let s = ColorScheme {
        name: String::from("Test"),
        slug: String::new(),
        author: String::from("Someone"),
        colors: vec![(1, grey(10))],
    };
    assert!(matches!(get_luminance(&s), Err(Error::MissingBackgroundSlot { slot: 0 })));
}

#[test]
fn missing_slot_one_is_reported() {
    let s = ColorScheme {
        name: String::from("Test"),
        slug: String::new(),
        author: String::from("Someone"),
        colors: vec![(0, grey(10))],
    };
    assert!(matches!(get_luminance(&s), Err(Error::MissingBackgroundSlot { slot: 1 })));
}

#[test]
fn gruvbox_dark_backgrounds_classify_dark() {
    let s = scheme_with_backgrounds(Rgb { r: 29, g: 32, b: 33 }, Rgb { r: 60, g: 56, b: 54 });
    assert_eq!(get_luminance(&s).unwrap(), Luminance::Dark);
}

#[test]
fn duplicate_color_keys_keep_one_value() {
    // a repeated key never yields two entries for one slot
    let yaml = "scheme: \"X\"\nauthor: \"Y\"\nbase00: \"000000\"\nbase00: \"ffffff\"\nbase01: \"ffffff\"\n";
    assert_eq!(get_current_scheme_luminance(yaml).unwrap(), Luminance::Light);
}

#[test]
fn scheme_file_contents_classify_directly() {
    let yaml = "scheme: \"Gruvbox Dark\"\nauthor: \"Someone\"\nbase00: \"1d2021\"\nbase01: \"3c3836\"\n";
    assert_eq!(get_current_scheme_luminance(yaml).unwrap(), Luminance::Dark);
    let garbage = "][ not yaml";
    assert!(matches!(get_current_scheme_luminance(garbage), Err(Error::NotAScheme)));
}
