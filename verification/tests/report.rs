use dmc_match::catalog::ColourMap;
use dmc_match::catalog::Error;
use dmc_match::colour::Colour;
use owo_colors::OwoColorize;

fn entry(floss: &str, name: &str, r: u8, g: u8, b: u8) -> Colour {
    Colour::new(String::from(floss), String::from(name), r, g, b)
}

fn sample() -> ColourMap {
    ColourMap::new(vec![
        entry("310", "Black", 0, 0, 0),
        entry("B5200", "Snow White", 255, 255, 255),
        entry("168", "Pewter Grey", 198, 198, 198),
    ])
    .unwrap()
}

fn swatch(r: u8, g: u8, b: u8) -> String {
    format!("{}", '\u{2588}'.color(owo_colors::DynColors::Rgb(r, g, b)))
}

#[test]
fn hex_query_with_exact_match() {
    let m = sample();
    let line = m.match_hex_str("#000000").unwrap();
    let expected = format!(
        "#000000 {} -> Black (310) {}",
        swatch(0, 0, 0),
        swatch(0, 0, 0)
    );
    assert_eq!(line, expected);
}

#[test]
fn hex_query_standardises_the_echoed_form() {
    let m = sample();
    let line = m.match_hex_str("C6C6C6").unwrap();
    let expected = format!(
        "#c6c6c6 {} -> Pewter Grey (168) {}",
        swatch(198, 198, 198),
        swatch(198, 198, 198)
    );
    assert_eq!(line, expected);
}

#[test]
fn hex_query_with_a_single_approximate_match() {
    let m = sample();
    let line = m.match_hex_str("0a0a0a").unwrap();
    let expected = format!(
        "#0a0a0a {} ~> Black (310) {}",
        swatch(10, 10, 10),
        swatch(0, 0, 0)
    );
    assert_eq!(line, expected);
}

#[test]
fn hex_query_joins_tied_matches_with_or() {
    let m = ColourMap::new(vec![
        entry("1", "One", 0, 0, 0),
        entry("2", "Two", 0, 0, 2),
    ])
    .unwrap();
    let line = m.match_hex_str("000001").unwrap();
    let expected = format!(
        "#000001 {} ~> One (1) {}, or Two (2) {}",
        swatch(0, 0, 1),
        swatch(0, 0, 0),
        swatch(0, 0, 2)
    );
    assert_eq!(line, expected);
}

#[test]
fn hex_query_rejects_malformed_input() {
    let m = sample();
    assert_eq!(m.match_hex_str("not-a-colour"), Err(Error::InvalidHexFormat));
}

#[test]
fn floss_query_reports_the_hex_form() {
    let m = sample();
    let line = m.match_dmc_str("b5200").unwrap();
    let expected = format!("b5200 -> #ffffff {}", swatch(255, 255, 255));
    assert_eq!(line, expected);
    assert_eq!(m.match_dmc_str("12"), Err(Error::UnknownFlossCode));
}

#[test]
fn similarity_query_lists_nearest_first() {
    let m = sample();
    let lines = m.similar_dmc_str("168").unwrap();
    assert_eq!(lines.len(), 3);
    let expected_first = format!(
        "Pewter Grey (168) {} -> #c6c6c6 {}",
        swatch(198, 198, 198),
        swatch(198, 198, 198)
    );
    assert_eq!(lines[0], expected_first);
    assert!(lines[1].starts_with("Snow White (B5200)"));
    assert!(lines[2].starts_with("Black (310)"));
}

#[test]
fn similarity_query_truncates_to_five_lines() {
    let m = ColourMap::new(vec![
        entry("1", "One", 0, 0, 0),
        entry("2", "Two", 0, 0, 10),
        entry("3", "Three", 0, 0, 20),
        entry("4", "Four", 0, 0, 30),
        entry("5", "Five", 0, 0, 40),
        entry("6", "Six", 0, 0, 50),
        entry("7", "Seven", 0, 0, 60),
    ])
    .unwrap();
    let lines = m.similar_dmc_str("4").unwrap();
    assert_eq!(lines.len(), 5);
    assert!(lines[0].starts_with("Four (4)"));
    assert!(lines[1].starts_with("Three (3)"));
    assert!(lines[2].starts_with("Five (5)"));
    assert!(lines[3].starts_with("Two (2)"));
    assert!(lines[4].starts_with("Six (6)"));
    assert_eq!(m.similar_dmc_str("40"), Err(Error::UnknownFlossCode));
}
