use lieutenant::cards::{
    card_layout, choose_commanders, commanders_first, companions, deck_color, detailed_price_name,
    face_names, fits_deck, import_tags, listed_deck_color, lookup_name, meld_links, price_name,
    priced_names, quick_price_name,
};
use lieutenant::db::ImportCard;
use lieutenant::util::{Card, CardLayout, CommanderType};

fn strings(v: &[&str]) -> Vec<String> {
    v.iter().map(|s| s.to_string()).collect()
}

fn entry(name: &str, tags: Option<&str>) -> ImportCard {
    ImportCard { name: name.to_string(), tags: tags.map(|t| t.to_string()) }
}

#[test]
fn layouts_from_records() {
    assert_eq!(
        card_layout("transform", "Insectile Aberration", 'a'),
        CardLayout::Paired('a', String::from("Transforms into"), String::from("Insectile Aberration"))
    );
    assert_eq!(
        card_layout("adventure", "Bonecrusher Giant", 'b'),
        CardLayout::Paired('b', String::from("Adventure of"), String::from("Bonecrusher Giant"))
    );
    assert_eq!(
        card_layout("split", "Fire", 'b'),
        CardLayout::Paired('b', String::from("You may instead cast"), String::from("Fire"))
    );
    assert_eq!(
        card_layout("meld", "Bruna, the Fading Light|Brisela, Voice of Nightmares", 'a'),
        CardLayout::Meld(
            'a',
            String::from("Bruna, the Fading Light"),
            String::from("Brisela, Voice of Nightmares")
        )
    );
    assert_eq!(card_layout("leveler", "", 'a'), CardLayout::Leveler);
    assert_eq!(card_layout("saga", "", 'a'), CardLayout::Saga);
    assert_eq!(card_layout("normal", "", 'a'), CardLayout::Normal);
}

#[test]
fn imported_face_names() {
    assert_eq!(
        face_names("Fire // Ice", "split", Some('a')),
        (String::from("Fire"), String::from("a"), String::from("Ice"))
    );
    assert_eq!(
        face_names("Fire // Ice", "split", Some('b')),
        (String::from("Ice"), String::from("b"), String::from("Fire"))
    );
    assert_eq!(
        face_names("Brisela, Voice of Nightmares", "meld", Some('b')),
        (String::from("Brisela, Voice of Nightmares"), String::from("b"), String::from("UNKNOWN"))
    );
    assert_eq!(
        face_names("Sol Ring", "normal", None),
        (String::from("Sol Ring"), String::new(), String::new())
    );
}

#[test]
fn deck_colors_in_wubrg_order() {
    assert_eq!(deck_color(&vec!['R', 'W'], &vec!['G']), "WRG");
    assert_eq!(deck_color(&vec![], &vec![]), "");
    assert_eq!(listed_deck_color(&vec![], &vec![]), "C");
    assert_eq!(listed_deck_color(&vec!['U'], &vec!['B']), "UB");
}

#[test]
fn card_fits_deck_colors() {
    assert!(fits_deck(&vec!['W', 'U'], "WUB"));
    assert!(!fits_deck(&vec!['G'], "WUB"));
    assert!(fits_deck(&vec!['\0'], "W"));
    assert!(fits_deck(&vec![], ""));
}

#[test]
fn cards_added_along() {
    let lo = CardLayout::Paired('a', String::from("Transforms into"), String::from("Back"));
    assert_eq!(companions(&lo, &vec![]), strings(&["Back"]));
    let meld_b = CardLayout::Meld('b', String::from("Front"), String::from("Other"));
    assert_eq!(companions(&meld_b, &vec![]), strings(&["Front", "Other"]));
    let meld_a = CardLayout::Meld('a', String::from("Partner Half"), String::from("Melded"));
    assert_eq!(companions(&meld_a, &strings(&["Partner Half"])), strings(&["Melded"]));
    assert!(companions(&meld_a, &strings(&["Other"])).is_empty());
    assert!(companions(&CardLayout::Normal, &vec![]).is_empty());
}

#[test]
fn price_search_names() {
    assert_eq!(price_name("Fire", "split", "Ice"), "Fire // Ice");
    assert_eq!(price_name("Bruna", "meld", "Brisela"), "Bruna");
    assert_eq!(price_name("Sol Ring", "normal", ""), "Sol Ring");
    let back = CardLayout::Paired('b', String::from("Adventure of"), String::from("Giant"));
    assert_eq!(quick_price_name("Stomp", &back), "Stomp // Giant");
    assert_eq!(detailed_price_name("Stomp", &back), "Giant // Stomp");
    assert_eq!(detailed_price_name("Sol Ring", &CardLayout::Normal), "Sol Ring");
    assert_eq!(priced_names("Stomp", &back), strings(&["Adventure of", "Giant"]));
    assert_eq!(priced_names("Sol Ring", &CardLayout::Normal), strings(&["Sol Ring"]));
}

#[test]
fn import_line_names() {
    assert_eq!(lookup_name("  Sol Ring \n"), Some(String::from("Sol Ring")));
    assert_eq!(lookup_name("Fire // Ice"), Some(String::from("Fire")));
    assert_eq!(lookup_name("   "), None);
}

#[test]
fn commanders_from_command_line() {
    let cards = vec![entry("Atraxa", None)];
    let r = choose_commanders(&strings(&["Kenrith"]), &cards, &CommanderType::Invalid, &CommanderType::Invalid);
    assert_eq!(r, Some((String::from("Kenrith"), None)));
}

#[test]
fn commanders_from_file() {
    let cards = vec![entry("Thrasios", None), entry("Tymna", None), entry("Sol Ring", None)];
    let r = choose_commanders(&vec![], &cards, &CommanderType::Partner, &CommanderType::Partner);
    assert_eq!(r, Some((String::from("Thrasios"), Some(String::from("Tymna")))));
    let r = choose_commanders(&vec![], &cards, &CommanderType::Partner, &CommanderType::Invalid);
    assert_eq!(r, Some((String::from("Thrasios"), None)));
    let r = choose_commanders(
        &vec![],
        &cards,
        &CommanderType::PartnerWith(String::from("Sol Ring")),
        &CommanderType::Invalid,
    );
    assert_eq!(r, Some((String::from("Thrasios"), Some(String::from("Sol Ring")))));
    let r = choose_commanders(&vec![], &cards, &CommanderType::Invalid, &CommanderType::Invalid);
    assert_eq!(r, None);
}

#[test]
fn imported_tags_once_each() {
    let cards = vec![
        entry("A", Some("main|ramp")),
        entry("B", None),
        entry("C", Some("ramp||draw")),
    ];
    assert_eq!(import_tags(&cards), strings(&["main", "ramp", "draw"]));
}

#[test]
fn commanders_move_to_front() {
    let mut cards = vec![entry("A", None), entry("B", None), entry("C", None), entry("D", None)];
    commanders_first(&mut cards, &String::from("C"), &Some(String::from("D")));
    let names: Vec<String> = cards.iter().map(|c| c.name.clone()).collect();
    assert_eq!(names, strings(&["C", "D", "A", "B"]));
}

fn card(name: &str, types: &str, text: &str) -> Card {
    let mut c = Card::default();
    c.name = name.to_string();
    c.types = types.to_string();
    c.text = text.to_string();
    c
}

#[test]
fn commander_kinds() {
    assert_eq!(card("Atraxa", "Legendary Creature", "Flying").is_commander(), CommanderType::Default);
    assert_eq!(
        card("Thrasios", "Legendary Creature", "Partner (You can have two commanders.)").is_commander(),
        CommanderType::Partner
    );
    assert_eq!(
        card("Pir", "Legendary Creature", "Partner with Toothy, Imaginary Friend (When this)").is_commander(),
        CommanderType::PartnerWith(String::from("Toothy, Imaginary Friend"))
    );
    assert_eq!(
        card("Teferi", "Legendary Planeswalker", "Teferi can be your commander.").is_commander(),
        CommanderType::Default
    );
    assert_eq!(card("Sol Ring", "Artifact", "").is_commander(), CommanderType::Invalid);
}

#[test]
fn card_panel_lines() {
    let mut c = card("Fire", "Instant", "Fire deals 2 damage.\nDivided as you choose.");
    c.mana_cost = String::from("{1}{R}");
    c.cmc = String::from("2");
    c.rarity = String::from("uncommon");
    c.lo = CardLayout::Paired('a', String::from("You may instead cast"), String::from("Ice"));
    c.price = Some(String::from("0.25"));
    c.tags = strings(&["main", "removal"]);
    assert_eq!(
        c.display(),
        strings(&[
            "Fire",
            "{1}{R}, (2)",
            "Instant",
            "uncommon",
            "",
            "Fire deals 2 damage.",
            "Divided as you choose.",
            "",
            "You may instead cast: Ice",
            "",
            "Price: $0.25",
            "Tags: main removal",
        ])
    );
    let mut b = card("Bear", "Creature", "");
    b.power = String::from("2");
    b.toughness = String::from("2");
    assert_eq!(
        b.display(),
        strings(&["Bear", ", ()", "Creature", "", "", "", "", "Power/Toughness: 2/2", ""])
    );
}

#[test]
fn meld_pairs_linked() {
    let melds = strings(&["Brisela, Voice of Nightmares"]);
    let bases = vec![
        (String::from("Brisela, Voice of Nightmares"), String::from("Gisela, the Broken Blade")),
        (String::from("Other Result"), String::from("Nobody")),
        (String::from("Brisela, Voice of Nightmares"), String::from("Bruna, the Fading Light")),
    ];
    let pairs = |v: &[(&str, &str)]| -> Vec<(String, String)> {
        v.iter().map(|(a, b)| (a.to_string(), b.to_string())).collect()
    };
    assert_eq!(
        meld_links(&melds, &bases),
        pairs(&[
            ("Gisela, the Broken Blade", "Bruna, the Fading Light|Brisela, Voice of Nightmares"),
            ("Bruna, the Fading Light", "Gisela, the Broken Blade|Brisela, Voice of Nightmares"),
            ("Brisela, Voice of Nightmares", "Bruna, the Fading Light|Gisela, the Broken Blade"),
        ])
    );
}
