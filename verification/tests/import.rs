use lieutenant::db::ImportCard;
use lieutenant::import::{DeckImport, ImportAnswer, ImportRequest, ImportStage};
use lieutenant::util::{Card, Deck};

fn entry(name: &str, tags: Option<&str>) -> ImportCard {
    ImportCard { name: name.to_string(), tags: tags.map(|t| t.to_string()) }
}

fn card(name: &str, types: &str, text: &str, ci: &[char]) -> Card {
    let mut c = Card::default();
    c.name = name.to_string();
    c.types = types.to_string();
    c.text = text.to_string();
    c.color_identity = ci.to_vec();
    c
}

fn deck(id: i32, color: &str) -> Deck {
    Deck { name: String::from("Imported"), commander: Card::default(), commander2: None, color: color.to_string(), id }
}

#[test]
fn import_with_named_commander() {
    let cards = vec![entry("Sol Ring", Some("ramp|main")), entry("  ", None), entry("Lightning Bolt", None), entry("Swords to Plowshares", None)];
    let (mut im, r) = DeckImport::new(String::from("Izzet"), vec![String::from("Niv-Mizzet")], cards);
    assert!(matches!(r, ImportRequest::CreateDeck(ref n, ref c, None) if n == "Izzet" && c == "Niv-Mizzet"));
    assert!(matches!(im.resume(ImportAnswer::DeckId(Some(9))), ImportRequest::ReadDeck(9)));
    let r = im.resume(ImportAnswer::Deck(Some(deck(9, "UR"))));
    assert!(matches!(r, ImportRequest::ReadCard(ref n) if n == "Sol Ring"));
    let r = im.resume(ImportAnswer::Card(Some(card("Sol Ring", "Artifact", "", &[]))));
    match r {
        ImportRequest::AddCard(n, tags, did) => {
            assert_eq!(n, "Sol Ring");
            assert_eq!(tags, vec![String::from("ramp"), String::from("main")]);
            assert_eq!(did, 9);
        }
        _ => panic!("the card should be added"),
    }
    let r = im.resume(ImportAnswer::Done);
    assert!(matches!(r, ImportRequest::ReadCard(ref n) if n == "Lightning Bolt"));
    let r = im.resume(ImportAnswer::Card(Some(card("Lightning Bolt", "Instant", "", &['R']))));
    assert!(matches!(r, ImportRequest::AddCard(ref n, ref t, 9) if n == "Lightning Bolt" && t.is_empty()));
    let r = im.resume(ImportAnswer::Done);
    assert!(matches!(r, ImportRequest::ReadCard(ref n) if n == "Swords to Plowshares"));
    let r = im.resume(ImportAnswer::Card(Some(card("Swords to Plowshares", "Instant", "", &['W']))));
    assert!(matches!(r, ImportRequest::NotAdded(ref n) if n == "Swords to Plowshares"));
    let r = im.resume(ImportAnswer::Done);
    assert!(matches!(r, ImportRequest::Finished(9, 2)));
    assert!(matches!(im.stage, ImportStage::Over));
    assert_eq!(im.added, 2);
}

#[test]
fn import_reads_split_cards_by_front() {
    let cards = vec![entry("Fire // Ice", None)];
    let (mut im, _) = DeckImport::new(String::from("Izzet"), vec![String::from("Niv-Mizzet")], cards);
    let _ = im.resume(ImportAnswer::DeckId(Some(2)));
    let r = im.resume(ImportAnswer::Deck(Some(deck(2, "UR"))));
    assert!(matches!(r, ImportRequest::ReadCard(ref n) if n == "Fire"));
    let r = im.resume(ImportAnswer::Card(None));
    assert!(matches!(r, ImportRequest::Missing(ref n) if n == "Fire"));
}

#[test]
fn import_finds_partners_in_the_list() {
    let cards = vec![entry("Kraum, Ludevic's Opus", None), entry("Tymna the Weaver", None), entry("Island", None)];
    let (mut im, r) = DeckImport::new(String::from("Partners"), Vec::new(), cards);
    assert!(matches!(r, ImportRequest::ReadCard(ref n) if n == "Kraum, Ludevic's Opus"));
    let kraum = card("Kraum, Ludevic's Opus", "Legendary Creature — Zombie Horror", "Partner", &['U', 'R']);
    let r = im.resume(ImportAnswer::Card(Some(kraum)));
    assert!(matches!(r, ImportRequest::ReadCard(ref n) if n == "Tymna the Weaver"));
    let tymna = card("Tymna the Weaver", "Legendary Creature — Human Cleric", "Partner", &['W', 'B']);
    let r = im.resume(ImportAnswer::Card(Some(tymna)));
    assert!(matches!(r, ImportRequest::CreateDeck(ref n, ref c1, Some(ref c2))
        if n == "Partners" && c1 == "Kraum, Ludevic's Opus" && c2 == "Tymna the Weaver"));
}

#[test]
fn import_without_a_commander_stops() {
    let (mut im, _) = DeckImport::new(String::from("None"), Vec::new(), vec![entry("Island", None)]);
    let r = im.resume(ImportAnswer::Card(Some(card("Island", "Basic Land — Island", "", &[]))));
    assert!(matches!(r, ImportRequest::NoCommander));
    assert!(matches!(im.stage, ImportStage::Over));
}

#[test]
fn import_commander_alone_without_partner_entry() {
    let (mut im, _) = DeckImport::new(String::from("Solo"), Vec::new(), vec![entry("Thrasios, Triton Hero", None)]);
    let thrasios = card("Thrasios, Triton Hero", "Legendary Creature — Merfolk Wizard", "Partner", &['G', 'U']);
    let r = im.resume(ImportAnswer::Card(Some(thrasios)));
    assert!(matches!(r, ImportRequest::CreateDeck(ref n, ref c1, None) if n == "Solo" && c1 == "Thrasios, Triton Hero"));
}

#[test]
fn import_wrong_answer_fails() {
    let (mut im, _) = DeckImport::new(String::from("X"), vec![String::from("Y")], Vec::new());
    assert!(matches!(im.resume(ImportAnswer::Done), ImportRequest::Failed));
    assert!(matches!(im.resume(ImportAnswer::Done), ImportRequest::Failed));
}
