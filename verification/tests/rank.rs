use dmc_match::catalog::ColourMap;
use dmc_match::colour::Colour;
use dmc_match::colour::Rgb;

fn entry(floss: &str, name: &str, r: u8, g: u8, b: u8) -> Colour {
    Colour::new(String::from(floss), String::from(name), r, g, b)
}

fn sample() -> ColourMap {
    ColourMap::new(vec![
        entry("310", "Black", 0, 0, 0),
        entry("B5200", "Snow White", 255, 255, 255),
        entry("168", "Pewter Grey", 198, 198, 198),
    ])
    .unwrap()
}

#[test]
fn ranking_orders_the_whole_catalog_by_distance() {
    let m = sample();
    let ranked = m.rank_by_similarity(Rgb::new(200, 200, 200));
    let codes: Vec<&str> = ranked.iter().map(|c| c.floss.as_str()).collect();
    assert_eq!(codes, vec!["168", "B5200", "310"]);
}

#[test]
fn ranking_distances_are_non_decreasing() {
    let m = sample();
    let target = Rgb::new(120, 5, 200);
    let ranked = m.rank_by_similarity(target);
    assert_eq!(ranked.len(), 3);
    for w in ranked.windows(2) {
        assert!(w[0].diff(target) <= w[1].diff(target));
    }
}

#[test]
fn ranking_is_restartable() {
    let m = sample();
    let target = Rgb::new(17, 230, 99);
    let first: Vec<String> = m
        .rank_by_similarity(target)
        .iter()
        .map(|c| c.floss.clone())
        .collect();
    let second: Vec<String> = m
        .rank_by_similarity(target)
        .iter()
        .map(|c| c.floss.clone())
        .collect();
    assert_eq!(first, second);
}

#[test]
fn ranking_keeps_catalog_order_on_ties() {
    let m = ColourMap::new(vec![
        entry("1", "One", 0, 0, 10),
        entry("2", "Two", 0, 10, 0),
        entry("3", "Three", 10, 0, 0),
        entry("4", "Four", 0, 0, 0),
    ])
    .unwrap();
    let ranked = m.rank_by_similarity(Rgb::new(0, 0, 0));
    let codes: Vec<&str> = ranked.iter().map(|c| c.floss.as_str()).collect();
    assert_eq!(codes, vec!["4", "1", "2", "3"]);
}
