use dmc_match::approx::RgbMatch;
use dmc_match::catalog::ColourMap;
use dmc_match::catalog::Error;
use dmc_match::colour::Colour;
use dmc_match::colour::Rgb;

fn entry(floss: &str, name: &str, r: u8, g: u8, b: u8) -> Colour {
    Colour::new(String::from(floss), String::from(name), r, g, b)
}

fn sample() -> ColourMap {
    ColourMap::new(vec![
        entry("310", "Black", 0, 0, 0),
        entry("B5200", "Snow White", 255, 255, 255),
        entry("168", "Pewter Grey", 198, 198, 198),
    ])
    .unwrap()
}

#[test]
fn empty_catalog_is_rejected() {
    let r = ColourMap::new(Vec::new());
    assert!(matches!(r, Err(Error::EmptyCatalog)));
}

#[test]
fn duplicate_floss_code_is_rejected_case_insensitively() {
    let r = ColourMap::new(vec![
        entry("b5200", "Snow White", 255, 255, 255),
        entry("B5200", "Snow White Again", 1, 2, 3),
    ]);
    assert!(matches!(r, Err(Error::DuplicateFlossCode)));
}

#[test]
fn duplicate_colour_is_rejected() {
    let r = ColourMap::new(vec![
        entry("310", "Black", 0, 0, 0),
        entry("B5200", "Also Black", 0, 0, 0),
    ]);
    assert!(matches!(r, Err(Error::DuplicateRgb)));
}

#[test]
fn lookup_floss_finds_each_entry_in_any_case() {
    let m = sample();
    let c = m.lookup_floss("310").unwrap();
    assert_eq!(c.name, "Black");
    let c = m.lookup_floss("b5200").unwrap();
    assert_eq!(c.name, "Snow White");
    let c = m.lookup_floss("B5200").unwrap();
    assert_eq!(c.name, "Snow White");
    let c = m.lookup_floss("168").unwrap();
    assert_eq!(c.name, "Pewter Grey");
}

#[test]
fn lookup_floss_rejects_unknown_codes() {
    let m = sample();
    let r = m.lookup_floss("9999");
    assert!(matches!(r, Err(Error::UnknownFlossCode)));
    let r = m.lookup_floss("");
    assert!(matches!(r, Err(Error::UnknownFlossCode)));
}

#[test]
fn lookup_rgb_exact_hit() {
    let m = sample();
    match m.lookup_rgb(Rgb::new(0, 0, 0)) {
        RgbMatch::Exact(c) => assert_eq!(c.floss, "310"),
        RgbMatch::Approx(_) => panic!("expected an exact match"),
    }
    match m.lookup_rgb(Rgb::new(198, 198, 198)) {
        RgbMatch::Exact(c) => assert_eq!(c.floss, "168"),
        RgbMatch::Approx(_) => panic!("expected an exact match"),
    }
}

#[test]
fn lookup_rgb_near_black_approximates_to_black() {
    let m = sample();
    match m.lookup_rgb(Rgb::new(10, 10, 10)) {
        RgbMatch::Exact(_) => panic!("expected an approximate match"),
        RgbMatch::Approx(cs) => {
            assert_eq!(cs.len(), 1);
            assert_eq!(cs[0].floss, "310");
        }
    }
}

#[test]
fn lookup_rgb_returns_all_tied_entries_in_catalog_order() {
    let m = ColourMap::new(vec![
        entry("1", "One", 0, 0, 0),
        entry("2", "Two", 0, 0, 2),
        entry("3", "Three", 0, 0, 100),
    ])
    .unwrap();
    match m.lookup_rgb(Rgb::new(0, 0, 1)) {
        RgbMatch::Exact(_) => panic!("expected an approximate match"),
        RgbMatch::Approx(cs) => {
            assert_eq!(cs.len(), 2);
            assert_eq!(cs[0].floss, "1");
            assert_eq!(cs[1].floss, "2");
        }
    }
}

#[test]
fn diff_is_symmetric_and_zero_on_identical_triplets() {
    let a = entry("1", "One", 10, 200, 30);
    let b = Rgb::new(40, 150, 60);
    assert_eq!(a.diff(a.to_rgb()), 0);
    let back = entry("2", "Two", 40, 150, 60);
    assert_eq!(a.diff(b), back.diff(Rgb::new(10, 200, 30)));
    assert_eq!(a.diff(b), 30 + 50 + 30);
}

#[test]
fn diff_spans_the_full_range_without_overflow() {
    let black = entry("310", "Black", 0, 0, 0);
    assert_eq!(black.diff(Rgb::new(255, 255, 255)), 765);
    let white = entry("B5200", "Snow White", 255, 255, 255);
    assert_eq!(white.diff(Rgb::new(0, 0, 0)), 765);
}

#[test]
fn error_messages_name_each_failure() {
    assert_eq!(Error::UnknownFlossCode.message(), "invalid floss");
    assert_eq!(Error::InvalidHexFormat.message(), "invalid hex colour");
    assert_eq!(Error::EmptyCatalog.message(), "empty catalog");
    assert_eq!(Error::DuplicateFlossCode.message(), "duplicate floss code");
    assert_eq!(Error::DuplicateRgb.message(), "duplicate colour");
}
