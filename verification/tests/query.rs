use lieutenant::db::{commander_search, card_select, deck_cards_query, name_select, tag_query, CardFilter};
use lieutenant::util::{DefaultFilter, SortOrder};

const DECK: &str = "\n\nINNER JOIN deck_contents\nON cards.name = deck_contents.card_name\nWHERE deck_contents.deck = 3";

fn deck_filter() -> CardFilter {
    CardFilter::from(3, "UR", DefaultFilter::Name, SortOrder::NameAsc)
}

#[test]
fn type_query() {
    let q = deck_filter().make_query(false, "ty:shaman");
    assert_eq!(q, format!("{DECK}\nAND (types LIKE \"%shaman%\")\nORDER BY name ASC;"));
}

#[test]
fn several_fields() {
    let q = deck_filter().make_query(false, "ty:shaman te:sacrifice r:c tag:main cmc:1");
    let expected = format!(
        "{DECK}\nAND (types LIKE \"%shaman%\")\nAND (card_text LIKE \"%sacrifice%\")\nAND (rarity = 'common')\nAND (tags IS NOT NULL AND (tags REGEXP '(?:\\||^)main(?:$|\\|)'))\nAND (cmc = 1)\nORDER BY name ASC;"
    );
    assert_eq!(q, expected);
}

#[test]
fn apostrophe_phrase() {
    let q = deck_filter().make_query(false, "na:\"'\"");
    assert_eq!(q, format!("{DECK}\nAND (name LIKE \"%'%\")\nORDER BY name ASC;"));
    let q = deck_filter().make_query(false, "te:\"'\"");
    assert_eq!(q, format!("{DECK}\nAND (card_text LIKE \"%'%\")\nORDER BY name ASC;"));
}

#[test]
fn variable_cost() {
    let q = deck_filter().make_query(false, "cmc:*");
    assert_eq!(q, format!("{DECK}\nAND (mana_cost LIKE '%X%')\nORDER BY name ASC;"));
}

#[test]
fn colorless() {
    let q = deck_filter().make_query(false, "c:c");
    assert_eq!(q, format!("{DECK}\nAND (mana_cost NOT REGEXP '[WUBRG]+')\nORDER BY name ASC;"));
    let q = deck_filter().make_query(false, "ci:c");
    assert_eq!(q, format!("{DECK}\nAND (color_identity = '')\nORDER BY name ASC;"));
}

#[test]
fn color_groups() {
    let q = deck_filter().make_query(false, "c:wr|!u");
    assert_eq!(
        q,
        format!("{DECK}\nAND (instr(mana_cost, 'W') > 0 AND instr(mana_cost, 'R') > 0 OR instr(mana_cost, 'U') = 0)\nORDER BY name ASC;")
    );
}

#[test]
fn or_names_and_sort() {
    let q = deck_filter().make_query(false, "na:elesh|norn");
    assert_eq!(q, format!("{DECK}\nAND (name LIKE \"%elesh%\" OR name LIKE \"%norn%\")\nORDER BY name ASC;"));
    let q = deck_filter().make_query(false, "tag:main ty:a sort:+cmc");
    assert_eq!(
        q,
        format!("{DECK}\nAND (tags IS NOT NULL AND (tags REGEXP '(?:\\||^)main(?:$|\\|)'))\nAND (types LIKE \"%artifact%\")\nORDER BY cmc ASC;")
    );
}

#[test]
fn negation_brackets_and_permanents() {
    let q = deck_filter().make_query(false, "ty:!per te:(draw+!discard)");
    assert_eq!(
        q,
        format!("{DECK}\nAND (types LIKE '%instant%' OR types LIKE '%sorcery%')\nAND ((card_text LIKE \"%draw%\" AND card_text NOT LIKE \"%discard%\"))\nORDER BY name ASC;")
    );
}

#[test]
fn ranges_and_rarities() {
    let q = deck_filter().make_query(false, "p:2-4 t:>3 cmc:1..2 r:m|!r");
    assert_eq!(
        q,
        format!("{DECK}\nAND (power >= 2 AND power <= 4)\nAND (toughness > 3)\nAND (cmc >= 1 AND cmc <= 2)\nAND (rarity = 'mythic' OR rarity != 'rare')\nORDER BY name ASC;")
    );
}

#[test]
fn untagged_cards() {
    let q = deck_filter().make_query(false, "tag:!");
    assert_eq!(q, format!("{DECK}\nAND (tags IS NULL)\nORDER BY name ASC;"));
}

#[test]
fn bare_words_search_default_field() {
    let q = deck_filter().make_query(false, "sol \"ring");
    assert_eq!(q, format!("{DECK}\nAND name LIKE \"%sol ring%\"\nORDER BY name ASC;"));
    let cf = CardFilter::from(3, "UR", DefaultFilter::Text, SortOrder::CmcDesc);
    let q = cf.make_query(false, "draw");
    assert_eq!(q, format!("{DECK}\nAND card_text LIKE \"%draw%\"\nORDER BY cmc DESC;"));
}

#[test]
fn commands_are_not_searched() {
    let q = deck_filter().make_query(false, "/stat");
    assert_eq!(q, format!("{DECK}\nORDER BY name ASC;"));
}

#[test]
fn empty_query_lists_deck() {
    let q = deck_filter().make_query(false, "");
    assert_eq!(q, format!("{DECK}\nORDER BY name ASC;"));
}

#[test]
fn database_search_limits_colors() {
    let q = deck_filter().make_query(true, "");
    assert_eq!(
        q,
        "\n\nLEFT OUTER JOIN deck_contents\nON cards.name = deck_contents.card_name\nAND deck_contents.deck = 3\nWHERE color_identity REGEXP '^[^WBG]*$'\nORDER BY name ASC;"
    );
    let all = CardFilter::from(-7, "WUBRG", DefaultFilter::Name, SortOrder::NameDesc);
    assert_eq!(
        all.make_query(true, ""),
        "\n\nLEFT OUTER JOIN deck_contents\nON cards.name = deck_contents.card_name\nAND deck_contents.deck = -7\nWHERE 1=1\nORDER BY name DESC;"
    );
}

#[test]
fn default_filter_is_empty() {
    let cf = CardFilter::new();
    assert_eq!(cf.did, 0);
    assert_eq!(cf.color, "");
    assert_eq!(cf.df, DefaultFilter::Name);
    assert_eq!(cf.so, SortOrder::NameAsc);
}

#[test]
fn tag_queries() {
    let q = tag_query(&deck_filter(), &String::from("ramp"));
    assert_eq!(
        q,
        format!("{DECK}\nAND (tags IS NOT NULL AND (tags REGEXP '(?:\\||^)ramp(?:$|\\|)'))\nORDER BY name ASC;")
    );
}

#[test]
fn select_texts() {
    assert_eq!(name_select("WHERE 1"), "SELECT name\nFROM cards\nWHERE 1");
    assert!(card_select("X").starts_with("SELECT cmc, color_identity"));
    assert!(card_select("X").ends_with("date_price_retrieved\nFROM `cards`\nX"));
    assert!(deck_cards_query(SortOrder::CmcDesc).ends_with("ORDER BY cmc DESC;"));
    assert_eq!(commander_search("", false), None);
    let q = commander_search("kin", true).unwrap();
    assert!(q.contains("WHERE name LIKE \"%kin%\""));
    assert!(q.contains("AND card_text LIKE '%Partner%'\n"));
    assert!(!commander_search("kin", false).unwrap().contains("Partner"));
}

#[test]
fn database_search_keeps_colors_before_filters() {
    let prefix = "\n\nLEFT OUTER JOIN deck_contents\nON cards.name = deck_contents.card_name\nAND deck_contents.deck = 3\nWHERE color_identity REGEXP '^[^WBG]*$'";
    for omni in ["ty:shaman", "bolt", "te:draw ty:instant", "\"' OR 1=1"] {
        let q = deck_filter().make_query(true, omni);
        assert!(q.starts_with(prefix), "{q}");
    }
}

#[test]
fn quoted_text_and_color_choice() {
    let q = deck_filter().make_query(false, "te:\"draw a card\"");
    assert_eq!(q, format!("{DECK}\nAND (card_text LIKE \"%draw a card%\")\nORDER BY name ASC;"));
    let q = deck_filter().make_query(false, "c:w|r");
    assert_eq!(
        q,
        format!("{DECK}\nAND (instr(mana_cost, 'W') > 0 OR instr(mana_cost, 'R') > 0)\nORDER BY name ASC;")
    );
}
