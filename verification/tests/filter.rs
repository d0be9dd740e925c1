use lieutenant::field_filter::CardFilter;

const DECK3: &str = "\nINNER JOIN deck_contents\nON cards.name = deck_contents.card_name\nWHERE deck_contents.deck = 3";

fn pairs(v: &[(&str, &str)]) -> Vec<(String, String)> {
    v.iter().map(|(k, x)| (k.to_string(), x.to_string())).collect()
}

#[test]
fn omnibar_fields_read() {
    assert_eq!(CardFilter::parse_omni("te:draw ty:c"), pairs(&[("text", "draw"), ("type", "c")]));
    assert_eq!(
        CardFilter::parse_omni("tag:ramp+draw cmc:2- sort:-cmc"),
        pairs(&[("tag", "ramp&draw"), ("cmc", "2-"), ("sort", "-cmc")])
    );
    assert_eq!(CardFilter::parse_omni("\"sol ring\""), pairs(&[("name", "\"sol ring\"")]));
    assert_eq!(CardFilter::parse_omni("ty:!l&per|i"), pairs(&[("type", "!l&per|i")]));
}

#[test]
fn later_value_replaces_earlier() {
    assert_eq!(CardFilter::parse_omni("te:a ty:c te:b"), pairs(&[("text", "b"), ("type", "c")]));
}

#[test]
fn reading_stops_at_unknown_text() {
    assert_eq!(CardFilter::parse_omni("c:wu|!r sort:+name"), pairs(&[("color", "wu")]));
    assert!(CardFilter::parse_omni("").is_empty());
}

#[test]
fn deck_filter_text_and_type() {
    let cf = CardFilter::from(3, "te:draw ty:c");
    assert_eq!(
        cf.make_filter(&vec![], false),
        format!("{DECK3}\nAND ((card_text LIKE \"%draw%\"))\nAND ((types LIKE '%creature%'))\nORDER BY name ASC;")
    );
}

#[test]
fn general_filter_keeps_identity() {
    let cf = CardFilter { did: 3, fi: pairs(&[("color", "wu|!r"), ("sort", "-cmc")]) };
    assert_eq!(
        cf.make_filter(&vec![String::from("W"), String::from("U")], true),
        "WHERE color_identity REGEXP '^[^BRG]*$'\nAND ((instr(mana_cost, 'W') > 0 AND instr(mana_cost, 'U') > 0) OR (instr(mana_cost, 'R') = 0))\nORDER BY cmc DESC;"
    );
}

#[test]
fn filter_tags_cmc_and_names() {
    let cf = CardFilter::from(3, "tag:ramp+draw cmc:2- \"sol ring\"");
    assert_eq!(
        cf.make_filter(&vec![], false),
        format!(
            "{DECK3}\nAND tags IS NOT NULL\nAND tags REGEXP '\\|?ramp(?:$|\\|)'\nAND tags REGEXP '\\|?draw(?:$|\\|)'\nAND (cmc >= 2 AND cmc <= 1000)\nAND (cards.name LIKE \"%sol ring%\")\nORDER BY name ASC;"
        )
    );
}

#[test]
fn filter_types_and_cmc_bounds() {
    let cf = CardFilter::from(3, "ty:!l&per|i cmc:>3");
    assert_eq!(
        cf.make_filter(&vec![], false),
        format!(
            "{DECK3}\nAND ((types NOT LIKE '%legendary%' AND types NOT LIKE '%instant%' AND types NOT LIKE '%sorcery%') OR (types LIKE '%instant%'))\nAND cmc > 3\nORDER BY name ASC;"
        )
    );
}

#[test]
fn colorless_identity_group() {
    let cf = CardFilter { did: 1, fi: pairs(&[("color_identity", "c")]) };
    assert_eq!(
        cf.make_filter(&vec![], true),
        "WHERE color_identity REGEXP '^[^WUBRG]*$'\nAND ((color_identity REGEXP '^[^WUBRG]*$'))\nORDER BY name ASC;"
    );
}

#[test]
fn empty_filter() {
    let cf = CardFilter::new();
    assert_eq!(cf.did, 0);
    assert_eq!(
        cf.make_filter(&vec![], false),
        "\nINNER JOIN deck_contents\nON cards.name = deck_contents.card_name\nWHERE deck_contents.deck = 0\nORDER BY name ASC;"
    );
}
