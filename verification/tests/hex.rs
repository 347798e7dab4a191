use dmc_match::catalog::Error;
use dmc_match::colour::Colour;
use dmc_match::colour::Rgb;
use dmc_match::hex::rgb_from_hex;
use dmc_match::render::hex_from_rgb;
use owo_colors::OwoColorize;

#[test]
fn parses_bare_hex_strings() {
    assert_eq!(rgb_from_hex("1a2b3c"), Ok(Rgb::new(0x1a, 0x2b, 0x3c)));
    assert_eq!(rgb_from_hex("000000"), Ok(Rgb::new(0, 0, 0)));
    assert_eq!(rgb_from_hex("ffffff"), Ok(Rgb::new(255, 255, 255)));
}

#[test]
fn parses_hash_prefixed_and_upper_case_hex_strings() {
    assert_eq!(rgb_from_hex("#AF1234"), Ok(Rgb::new(0xaf, 0x12, 0x34)));
    assert_eq!(rgb_from_hex("#c6C6c6"), Ok(Rgb::new(198, 198, 198)));
}

#[test]
fn rejects_malformed_hex_strings() {
    assert_eq!(rgb_from_hex(""), Err(Error::InvalidHexFormat));
    assert_eq!(rgb_from_hex("12345"), Err(Error::InvalidHexFormat));
    assert_eq!(rgb_from_hex("1234567"), Err(Error::InvalidHexFormat));
    assert_eq!(rgb_from_hex("#12345"), Err(Error::InvalidHexFormat));
    assert_eq!(rgb_from_hex("zzzzzz"), Err(Error::InvalidHexFormat));
    assert_eq!(rgb_from_hex("12345g"), Err(Error::InvalidHexFormat));
    assert_eq!(rgb_from_hex("##12345"), Err(Error::InvalidHexFormat));
    assert_eq!(rgb_from_hex("+12345"), Err(Error::InvalidHexFormat));
    assert_eq!(rgb_from_hex("12 345"), Err(Error::InvalidHexFormat));
}

#[test]
fn renders_hex_with_a_swatch() {
    let expected = format!(
        "#0a14ff {}",
        '\u{2588}'.color(owo_colors::DynColors::Rgb(10, 20, 255))
    );
    assert_eq!(hex_from_rgb(Rgb::new(10, 20, 255)), expected);
}

#[test]
fn renders_an_entry_in_both_forms() {
    let c = Colour::new(String::from("310"), String::from("Black"), 0, 0, 0);
    let swatch = format!("{}", '\u{2588}'.color(owo_colors::DynColors::Rgb(0, 0, 0)));
    assert_eq!(c.format_dmc(), format!("Black (310) {}", swatch));
    assert_eq!(c.format_hex(), format!("#000000 {}", swatch));
}

#[test]
fn printed_hex_parses_back() {
    let c = Rgb::new(171, 205, 239);
    let shown = hex_from_rgb(c);
    let hex_part = shown.split(' ').next().unwrap();
    assert_eq!(rgb_from_hex(hex_part), Ok(c));
}
