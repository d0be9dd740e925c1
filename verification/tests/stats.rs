use lieutenant::util::stats::{generate_dss_info, CardStat, DeckStatInfo};

fn stat(name: &str, cmc: u8, types: &str, tags: &[&str], price: u64) -> CardStat {
    CardStat {
        cmc,
        color_identity: Vec::new(),
        mana_cost: String::new(),
        name: name.to_string(),
        tags: tags.iter().map(|t| t.to_string()).collect(),
        types: types.to_string(),
        price,
    }
}

fn pairs(v: &[(&str, u64)]) -> Vec<(String, u64)> {
    v.iter().map(|(k, n)| (k.to_string(), *n)).collect()
}

fn sample() -> Vec<CardStat> {
    vec![
        stat("Sol Ring", 1, "Artifact", &["main", "ramp"], 150),
        stat("Forest", 0, "Basic Land — Forest", &["main"], 10),
        stat("Dryad Arbor", 0, "Land Creature — Forest Dryad", &["main"], 75),
        stat("Ornithopter", 0, "Artifact Creature — Thopter", &["main", "chump"], 25),
        stat("Craterhoof Behemoth", 8, "Creature — Beast", &["main", "win", "ramp"], 4000),
        stat("Cultivate", 3, "Sorcery", &["main", "ramp"], 40),
        stat("Omnath, Locus of Mana", 3, "Legendary Creature — Elemental", &["main"], 150),
    ]
}

#[test]
fn stats_mana_curve() {
    let dsi = generate_dss_info(&sample());
    assert_eq!(
        dsi.cmc_data,
        pairs(&[("0", 1), ("1", 1), ("2", 0), ("3", 2), ("4", 0), ("5", 0), ("6", 0), ("7+", 1)])
    );
}

#[test]
fn stats_types_in_name_order() {
    let dsi = generate_dss_info(&sample());
    assert_eq!(
        dsi.type_data,
        pairs(&[
            ("Artifact", 2),
            ("Creature", 4),
            ("Enchantment", 0),
            ("Instant", 0),
            ("Land", 2),
            ("Legendary", 1),
            ("Planeswalker", 0),
            ("Sorcery", 1),
        ])
    );
}

#[test]
fn stats_prices_dearest_first() {
    let dsi = generate_dss_info(&sample());
    assert_eq!(
        dsi.price_data,
        pairs(&[
            ("Craterhoof Behemoth", 4000),
            ("Sol Ring", 150),
            ("Omnath, Locus of Mana", 150),
            ("Dryad Arbor", 75),
            ("Cultivate", 40),
            ("Ornithopter", 25),
            ("Forest", 10),
        ])
    );
}

#[test]
fn stats_tags_most_used_first_without_main() {
    let dsi = generate_dss_info(&sample());
    assert_eq!(dsi.tag_data, pairs(&[("ramp", 3), ("chump", 1), ("win", 1)]));
}

#[test]
fn stats_of_an_empty_deck() {
    let dsi = generate_dss_info(&Vec::new());
    assert_eq!(dsi.cmc_data.len(), 8);
    assert!(dsi.cmc_data.iter().all(|(_, n)| *n == 0));
    assert!(dsi.type_data.iter().all(|(_, n)| *n == 0));
    assert!(dsi.price_data.is_empty());
    assert!(dsi.tag_data.is_empty());
}

#[test]
fn stats_default_is_empty() {
    let dsi = DeckStatInfo::default();
    assert!(dsi.cmc_data.is_empty() && dsi.price_data.is_empty());
    assert!(dsi.type_data.is_empty() && dsi.tag_data.is_empty());
}

#[test]
fn stats_count_repeated_type_words() {
    let dsi = generate_dss_info(&vec![stat("Odd", 2, "Land Land", &[], 0)]);
    assert_eq!(dsi.type_data[4], (String::from("Land"), 2));
    assert_eq!(dsi.cmc_data[2], (String::from("2"), 1));
}
