use lieutenant::field_filter::CardFilter;
use lieutenant::ui::omnibar::{AppState, DeckEntry, OmniAnswer, OmniRequest};
use lieutenant::ui::util::{MakeDeckFocus, Screen};
use lieutenant::util::views::KeyCode;
use lieutenant::util::{Card, CardLayout, Deck};

fn strings(v: &[&str]) -> Vec<String> {
    v.iter().map(|s| s.to_string()).collect()
}

fn card(name: &str) -> Card {
    let mut c = Card::default();
    c.name = name.to_string();
    c
}

fn deck(id: i32) -> Deck {
    Deck { name: String::from("Test"), commander: card("Kraum"), commander2: None, color: String::from("UB"), id }
}

fn reads_deck_card(r: &OmniRequest, name: &str, did: i32) -> bool {
    matches!(r, OmniRequest::ReadDeckCard(n, d) if n == name && *d == did)
}

fn reads_card(r: &OmniRequest, name: &str) -> bool {
    matches!(r, OmniRequest::ReadCard(n) if n == name)
}

/// Opens deck 7 from the main menu; the deck holds `names`.
fn opened(names: &[&str]) -> AppState {
    let mut app = AppState::new();
    assert!(matches!(app.handle_input(KeyCode::Down), OmniRequest::Done));
    assert!(matches!(app.handle_input(KeyCode::Enter), OmniRequest::ReadDecks));
    assert_eq!(app.mode, Screen::OpenDeck);
    let entries = vec![DeckEntry { id: 7, name: String::from("Test") }];
    assert!(matches!(app.resume(OmniAnswer::Decks(entries)), OmniRequest::Done));
    assert_eq!(app.slod.state.selected, Some(0));
    assert!(matches!(app.handle_input(KeyCode::Enter), OmniRequest::ReadDeck(7)));
    assert!(matches!(app.resume(OmniAnswer::Deck(Some(deck(7)))), OmniRequest::DeckNames(7)));
    assert_eq!(app.mode, Screen::DeckOmni);
    let r = app.resume(OmniAnswer::Names(strings(names)));
    if names.is_empty() {
        assert!(matches!(r, OmniRequest::Done));
    } else {
        assert!(reads_deck_card(&r, names[0], 7));
        let r = app.resume(OmniAnswer::Card(Some(card(names[0]))));
        assert!(matches!(r, OmniRequest::Done));
    }
    app
}

#[test]
fn omnibar_starts_on_menu() {
    let app = AppState::new();
    assert_eq!(app.mode, Screen::MainMenu);
    let texts: Vec<String> = app.slmm.items.iter().map(|m| m.text.clone()).collect();
    assert_eq!(texts, strings(&["Create a new deck", "Load a deck", "Settings", "Quit"]));
    assert_eq!(app.slmm.state.selected, Some(0));
    assert_eq!(app.deck_id, -1);
    assert!(!app.quit);
}

#[test]
fn omnibar_quits_on_esc() {
    let mut app = AppState::new();
    assert!(matches!(app.handle_input(KeyCode::Esc), OmniRequest::Done));
    assert!(app.quit);
}

#[test]
fn omnibar_opens_a_deck() {
    let app = opened(&["Sol Ring", "Island"]);
    assert_eq!(app.deck_id, 7);
    assert_eq!(app.sldc.items, strings(&["Sol Ring", "Island"]));
    assert_eq!(app.sldc.state.selected, Some(0));
    assert_eq!(app.contents, Some(strings(&["Sol Ring", "Island"])));
    assert_eq!(app.ac.as_ref().map(|c| c.name.clone()), Some(String::from("Sol Ring")));
    assert!(!app.dirty_deck);
}

#[test]
fn omnibar_typing_filters_the_deck() {
    let mut app = opened(&["Sol Ring", "Arcane Signet"]);
    let r = app.handle_input(KeyCode::Char('a'));
    match r {
        OmniRequest::Filter(cf, general) => {
            assert!(!general);
            assert_eq!(cf.did, 7);
            assert_eq!(cf.fi, CardFilter::from(7, "a").fi);
        }
        _ => panic!("a filter request was expected"),
    }
    let r = app.resume(OmniAnswer::Names(strings(&["Arcane Signet"])));
    assert!(reads_deck_card(&r, "Arcane Signet", 7));
    assert_eq!(app.sldc.items, strings(&["Arcane Signet"]));
    assert_eq!(app.sldc.state.selected, Some(0));
}

#[test]
fn omnibar_card_list_moves_and_toggles() {
    let mut app = opened(&["Sol Ring", "Island"]);
    assert!(matches!(app.handle_input(KeyCode::Enter), OmniRequest::Done));
    assert_eq!(app.mode, Screen::DeckCard);
    let r = app.handle_input(KeyCode::Down);
    assert!(reads_deck_card(&r, "Island", 7));
    assert_eq!(app.sldc.state.selected, Some(1));
    let _ = app.resume(OmniAnswer::Card(Some(card("Island"))));
    let r = app.handle_input(KeyCode::Enter);
    assert!(matches!(r, OmniRequest::ToggleTag(ref n, ref t, 7) if n == "Island" && t.is_empty()));
    let r = app.resume(OmniAnswer::Card(Some(card("Island"))));
    assert!(matches!(r, OmniRequest::Done));
    assert!(matches!(app.handle_input(KeyCode::Tab), OmniRequest::Done));
    assert_eq!(app.mode, Screen::DeckOmni);
}

#[test]
fn omnibar_removes_a_meld_front() {
    let mut app = opened(&["Brisela", "Bruna", "Gisela"]);
    assert!(matches!(app.handle_input(KeyCode::Enter), OmniRequest::Done));
    let r = app.handle_input(KeyCode::Down);
    assert!(reads_deck_card(&r, "Bruna", 7));
    let _ = app.resume(OmniAnswer::Card(Some(card("Bruna"))));
    let r = app.handle_input(KeyCode::Delete);
    assert!(reads_deck_card(&r, "Bruna", 7));
    let mut bruna = card("Bruna");
    bruna.lo = CardLayout::Meld('b', String::from("Gisela"), String::from("Brisela"));
    let r = app.resume(OmniAnswer::Card(Some(bruna)));
    match r {
        OmniRequest::RemoveCards(ns, d) => {
            assert_eq!(ns, strings(&["Brisela", "Gisela", "Bruna"]));
            assert_eq!(d, 7);
        }
        _ => panic!("a removal was expected"),
    }
    assert_eq!(app.sldc.items, strings(&["Bruna"]));
    assert_eq!(app.sldc.state.selected, Some(0));
    assert!(app.dirty_deck);
    let r = app.resume(OmniAnswer::Done);
    assert!(matches!(r, OmniRequest::Done));
    assert!(app.sldc.items.is_empty());
    assert_eq!(app.sldc.state.selected, None);
    assert!(app.ac.is_none());
    assert_eq!(app.mode, Screen::DeckOmni);
}

#[test]
fn omnibar_removal_shows_the_next_card() {
    let mut app = opened(&["Sol Ring", "Island", "Forest"]);
    assert!(matches!(app.handle_input(KeyCode::Enter), OmniRequest::Done));
    let r = app.handle_input(KeyCode::Delete);
    assert!(reads_deck_card(&r, "Sol Ring", 7));
    let r = app.resume(OmniAnswer::Card(Some(card("Sol Ring"))));
    assert!(matches!(r, OmniRequest::RemoveCards(ref ns, 7) if *ns == strings(&["Sol Ring"])));
    let r = app.resume(OmniAnswer::Done);
    assert!(reads_deck_card(&r, "Island", 7));
    assert_eq!(app.sldc.items, strings(&["Island", "Forest"]));
    assert_eq!(app.sldc.state.selected, Some(0));
    assert_eq!(app.mode, Screen::DeckCard);
}

#[test]
fn omnibar_database_adds_cards() {
    let mut app = opened(&["Sol Ring"]);
    assert!(matches!(app.handle_input(KeyCode::Tab), OmniRequest::Done));
    assert_eq!(app.mode, Screen::DbFilter);
    assert!(app.ac.is_none());
    assert!(matches!(app.handle_input(KeyCode::Char('s')), OmniRequest::Done));
    let r = app.handle_input(KeyCode::Enter);
    assert!(matches!(r, OmniRequest::Filter(ref cf, true) if cf.did == 7));
    let r = app.resume(OmniAnswer::Names(strings(&["Swamp", "Sol Talisman"])));
    assert!(reads_card(&r, "Swamp"));
    assert_eq!(app.mode, Screen::DbCards);
    let _ = app.resume(OmniAnswer::Card(Some(card("Swamp"))));
    let r = app.handle_input(KeyCode::Enter);
    assert!(matches!(r, OmniRequest::AddCard(ref n, 7) if n == "Swamp"));
    let r = app.resume(OmniAnswer::Names(strings(&["Swamp"])));
    assert!(matches!(r, OmniRequest::Done));
    assert!(app.dirty_deck);
    assert_eq!(app.dirty_cards, strings(&["Swamp"]));
}

#[test]
fn omnibar_creates_a_partnered_deck() {
    let mut app = AppState::new();
    assert!(matches!(app.handle_input(KeyCode::Enter), OmniRequest::Done));
    assert_eq!(app.mode, Screen::MakeDeck);
    assert!(matches!(app.handle_input(KeyCode::Char('T')), OmniRequest::Done));
    assert!(matches!(app.handle_input(KeyCode::Enter), OmniRequest::Done));
    assert_eq!(app.mdc.focus, MakeDeckFocus::Commander);
    let r = app.handle_input(KeyCode::Char('K'));
    assert!(matches!(r, OmniRequest::CommanderNames(ref t, false) if t == "K"));
    let _ = app.resume(OmniAnswer::Names(strings(&["Kraum"])));
    let r = app.handle_input(KeyCode::Enter);
    assert!(reads_card(&r, "Kraum"));
    let mut kraum = card("Kraum");
    kraum.text = String::from("Partner (You can have two commanders if both have partner.)");
    assert!(matches!(app.resume(OmniAnswer::Card(Some(kraum))), OmniRequest::Done));
    assert_eq!(app.mdc.focus, MakeDeckFocus::SecondaryCommander);
    assert_eq!(app.mdc.commander, "Kraum");
    let r = app.handle_input(KeyCode::Char('T'));
    assert!(matches!(r, OmniRequest::CommanderNames(ref t, true) if t == "T"));
    let _ = app.resume(OmniAnswer::Names(strings(&["Tymna"])));
    let r = app.handle_input(KeyCode::Enter);
    assert!(reads_card(&r, "Tymna"));
    let r = app.resume(OmniAnswer::Card(Some(card("Tymna"))));
    assert!(matches!(r, OmniRequest::CreateDeck(ref t, ref c1, ref c2)
        if t == "T" && c1 == "Kraum" && c2 == "Tymna"));
    let r = app.resume(OmniAnswer::DeckId(12));
    assert!(matches!(r, OmniRequest::DeckNames(12)));
    assert_eq!(app.deck_id, 12);
    assert_eq!(app.mode, Screen::DeckOmni);
    assert_eq!(app.mdc.focus, MakeDeckFocus::Title);
    assert!(app.mdc.title.is_empty());
}

#[test]
fn omnibar_unknown_commander_shows_an_error() {
    let mut app = AppState::new();
    let _ = app.handle_input(KeyCode::Enter);
    let _ = app.handle_input(KeyCode::Enter);
    let _ = app.handle_input(KeyCode::Char('X'));
    let _ = app.resume(OmniAnswer::Names(strings(&["Xenagos"])));
    let r = app.handle_input(KeyCode::Enter);
    assert!(reads_card(&r, "Xenagos"));
    assert!(matches!(app.resume(OmniAnswer::Card(None)), OmniRequest::Done));
    assert_eq!(
        app.mode,
        Screen::Error(
            "Commander name not found in database.\nPlease check spelling and try again.\nPress Enter to continue."
        )
    );
    assert!(matches!(app.handle_input(KeyCode::Enter), OmniRequest::Done));
    assert_eq!(app.mode, Screen::MakeDeck);
}

#[test]
fn omnibar_esc_resets_to_menu() {
    let mut app = opened(&["Sol Ring"]);
    let _ = app.handle_input(KeyCode::Char('x'));
    let _ = app.resume(OmniAnswer::Names(Vec::new()));
    assert!(matches!(app.handle_input(KeyCode::Esc), OmniRequest::Done));
    assert_eq!(app.mode, Screen::MainMenu);
    assert_eq!(app.deck_id, -1);
    assert!(app.sldc.items.is_empty());
    assert!(app.omnitext.text.is_empty());
    assert!(app.contents.is_none());
}
