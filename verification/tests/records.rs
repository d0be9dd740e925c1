use lieutenant::db::{
    commander_legal_sets, commander_search, new_sets, parse_args, rarity_updates, retag, stovch,
    stovs, sync_other_face, toggle_tag, zero, CardSet, ImportCard, Legalities, ParseMode,
};
use lieutenant::util::{DefaultFilter, SortOrder};
use lieutenant::util::views::TagChange;

fn strings(v: &[&str]) -> Vec<String> {
    v.iter().map(|s| s.to_string()).collect()
}

#[test]
fn stored_list_pieces() {
    assert_eq!(stovs(String::from("main|ramp|draw")), strings(&["main", "ramp", "draw"]));
    assert_eq!(stovs(String::new()), strings(&[""]));
    assert_eq!(stovs(String::from("a||b")), strings(&["a", "", "b"]));
}

#[test]
fn stored_colors() {
    assert_eq!(stovch(String::from("W|U|B")), vec!['W', 'U', 'B']);
    assert_eq!(stovch(String::new()), vec!['\0']);
}

#[test]
fn default_mana_cost() {
    assert_eq!(zero(), "0");
}

#[test]
fn legalities_round_trip() {
    let l = Legalities::from(String::from("brawl|commander"));
    assert_eq!(l.commander, "Allowed");
    assert_eq!(l.brawl, "");
    assert_eq!(l.to_string(), "commander");
    let none = Legalities::from(String::from("modern"));
    assert_eq!(none.commander, "");
    assert_eq!(none.to_string(), "");
}

#[test]
fn legalities_listed_formats() {
    let mut l = Legalities::default();
    l.brawl = String::from("Legal");
    l.commander = String::from("Banned");
    l.modern = String::from("Restricted");
    l.standard = String::from("Legal");
    l.vintage = String::from("Legal");
    assert_eq!(l.to_string(), "brawl|modern|standard");
}

#[test]
fn text_arguments() {
    assert_eq!(
        parse_args("card_text", ParseMode::Text, "draw&!discard|ramp"),
        "AND ((card_text LIKE \"%draw%\" AND card_text LIKE \"%!discard%\") OR (card_text LIKE \"%ramp%\"))"
    );
    assert_eq!(
        parse_args("card_text", ParseMode::Text, "!draw"),
        "AND ((card_text NOT LIKE \"%draw%\"))"
    );
}

#[test]
fn tag_arguments() {
    assert_eq!(
        parse_args("tags", ParseMode::Tags, "main"),
        "AND ((tags IS NOT NULL AND tags REGEXP '\\|?main(?:$|\\|)'))"
    );
    assert_eq!(parse_args("tags", ParseMode::Tags, "!"), "AND (tags IS NULL)");
}

#[test]
fn color_arguments() {
    assert_eq!(
        parse_args("mana_cost", ParseMode::Color, "wu|!r"),
        "AND ((instr(mana_cost, 'W') > 0 AND instr(mana_cost, 'U') > 0) OR (instr(mana_cost, 'R') = 0))"
    );
}

#[test]
fn skipped_groups() {
    assert_eq!(parse_args("card_text", ParseMode::Text, "|"), "AND ()");
    assert_eq!(parse_args("card_text", ParseMode::Text, "é|x"), "AND ((card_text LIKE \"%x%\"))");
}

#[test]
fn toggle_adds_sorted_then_removes() {
    let mut tags = strings(&["main", "ramp"]);
    let stored = toggle_tag(&mut tags, &String::from("draw"));
    assert_eq!(tags, strings(&["draw", "main", "ramp"]));
    assert_eq!(stored, Some(String::from("draw|main|ramp")));
    let stored = toggle_tag(&mut tags, &String::from("draw"));
    assert_eq!(tags, strings(&["main", "ramp"]));
    assert_eq!(stored, Some(String::from("main|ramp")));
}

#[test]
fn toggle_last_tag_stores_nothing() {
    let mut tags = strings(&["main"]);
    assert_eq!(toggle_tag(&mut tags, &String::from("main")), None);
    assert!(tags.is_empty());
}

#[test]
fn other_face_follows() {
    let card = strings(&["main", "draw"]);
    let mut other = strings(&["main"]);
    let stored = sync_other_face(&card, &mut other, &String::from("draw"));
    assert_eq!(other, strings(&["main", "draw"]));
    assert_eq!(stored, Some(String::from("main|draw")));

    let card = strings(&["main"]);
    let mut other = strings(&["main", "draw"]);
    sync_other_face(&card, &mut other, &String::from("draw"));
    assert_eq!(other, strings(&["main"]));

    let mut same = strings(&["main"]);
    sync_other_face(&card, &mut same, &String::from("main"));
    assert_eq!(same, strings(&["main"]));
}

#[test]
fn retag_edits() {
    let mut tags = strings(&["main", "ramp"]);
    let r = retag(&mut tags, &TagChange::ChangeTag(String::from("ramp"), String::from("accel")));
    assert_eq!(tags, strings(&["accel", "main"]));
    assert_eq!(r, Some(Some(String::from("accel|main"))));

    let r = retag(&mut tags, &TagChange::DeleteTag(String::from("accel")));
    assert_eq!(tags, strings(&["main"]));
    assert_eq!(r, Some(Some(String::from("main"))));

    let r = retag(&mut tags, &TagChange::DeleteTag(String::from("main")));
    assert!(tags.is_empty());
    assert_eq!(r, Some(None));

    let mut tags = strings(&["main"]);
    let r = retag(&mut tags, &TagChange::InsertTag(String::from("new")));
    assert_eq!(tags, strings(&["main"]));
    assert_eq!(r, None);
}

#[test]
fn commander_lookup_query() {
    assert_eq!(commander_search("", false), None);
    assert_eq!(
        commander_search("Thra", false),
        Some(String::from(
            "\nSELECT name\nFROM cards\nWHERE name LIKE \"%Thra%\"\nAND types LIKE 'Legendary%'\nAND (types LIKE '%Creature%' OR card_text LIKE '%can be your commander%')\nORDER BY name ASC;"
        ))
    );
    assert_eq!(
        commander_search("Ty", true),
        Some(String::from(
            "\nSELECT name\nFROM cards\nWHERE name LIKE \"%Ty%\"\nAND types LIKE 'Legendary%'\nAND card_text LIKE '%Partner%'\nAND (types LIKE '%Creature%' OR card_text LIKE '%can be your commander%')\nORDER BY name ASC;"
        ))
    );
}

fn set(code: &str, set_type: &str) -> CardSet {
    CardSet {
        code: code.to_string(),
        name: code.to_string(),
        date: String::from("2020-01-01"),
        set_type: set_type.to_string(),
    }
}

#[test]
fn legal_set_types() {
    let sets = vec![
        set("AAA", "expansion"),
        set("BBB", "token"),
        set("CCC", "commander"),
        set("DDD", "memorabilia"),
        set("EEE", "core"),
    ];
    let kept: Vec<String> = commander_legal_sets(sets).into_iter().map(|s| s.code).collect();
    assert_eq!(kept, strings(&["AAA", "CCC", "EEE"]));
}

#[test]
fn import_cards_compare_by_name() {
    let a = ImportCard { name: String::from("Sol Ring"), tags: Some(String::from("ramp")) };
    let b = ImportCard { name: String::from("Sol Ring"), tags: None };
    let c = ImportCard { name: String::from("Arcane Signet"), tags: None };
    assert!(a == b);
    assert!(a != c);
}

fn dated(code: &str, date: &str) -> CardSet {
    CardSet {
        code: code.to_string(),
        name: code.to_string(),
        date: date.to_string(),
        set_type: String::from("expansion"),
    }
}

#[test]
fn update_adds_released_unseen_sets_oldest_first() {
    let listed = vec![
        dated("NEW", "2023-05-01"),
        dated("OLD", "2019-01-25"),
        dated("FUT", "2031-01-01"),
        dated("HAVE", "2020-02-02"),
        dated("TIE", "2019-01-25"),
    ];
    let existing = vec![dated("HAVE", "2020-02-02")];
    let codes: Vec<String> =
        new_sets(listed, &existing, "2024-01-01").into_iter().map(|s| s.code).collect();
    assert_eq!(codes, strings(&["OLD", "TIE", "NEW"]));
}

#[test]
fn rarities_by_face() {
    let rows = vec![
        (None, String::from("Sol Ring"), String::from("uncommon")),
        (Some(String::from("Fire")), String::from("Fire // Ice"), String::from("uncommon")),
        (None, String::from("Sol Ring"), String::from("special")),
        (None, String::from("Sol Ring"), String::from("rare")),
        (None, String::from("Bonus Card"), String::from("bonus")),
    ];
    assert_eq!(
        rarity_updates(rows),
        vec![
            (String::from("Sol Ring"), String::from("rare")),
            (String::from("Fire"), String::from("uncommon")),
        ]
    );
}

#[test]
fn setting_texts_read_back() {
    for so in [SortOrder::NameAsc, SortOrder::NameDesc, SortOrder::CmcAsc, SortOrder::CmcDesc] {
        assert_eq!(SortOrder::from_text(so.to_string().as_str()), so);
    }
    for df in [DefaultFilter::Name, DefaultFilter::Text] {
        assert_eq!(DefaultFilter::from_text(df.to_string().as_str()), df);
    }
    assert_eq!(SortOrder::from_text("sideways"), SortOrder::NameAsc);
    assert_eq!(DefaultFilter::from_text("text"), DefaultFilter::Text);
}

#[test]
fn stored_list_split_and_joined() {
    let s = String::from("main|ramp||draw");
    assert_eq!(stovs(s.clone()).join("|"), s);
}
