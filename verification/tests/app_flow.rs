use lieutenant::ui::{AppAnswer, AppRequest, AppState};
use lieutenant::util::deck_view::{DeckView, DeckViewAnswer, DeckViewRequest, DeckViewSection};
use lieutenant::util::views::{CreateDeckRequest, DeckViewExit, KeyCode};
use lieutenant::util::{
    Card, Deck, DeckSettings, DefaultFilter, FileDeckSettings, FileGlobalSettings, FileSettings,
    Screen, Settings, SortOrder,
};

fn strings(v: &[&str]) -> Vec<String> {
    v.iter().map(|s| s.to_string()).collect()
}

fn settings(recent: i32) -> Settings {
    Settings::from(FileSettings {
        global: FileGlobalSettings {
            tags: strings(&["main"]),
            ordering: String::from("+name"),
            df: String::from("name"),
            version: String::from("0.5"),
            recent,
            open_into_recent: false,
        },
        decks: vec![(
            3,
            FileDeckSettings {
                tags: strings(&["main", "ramp"]),
                ordering: String::from("+name"),
                df: String::from("name"),
            },
        )],
    })
}

fn deck(id: i32, name: &str) -> Deck {
    let mut commander = Card::default();
    commander.name = format!("{name} Commander");
    Deck { name: name.to_string(), commander, commander2: None, color: String::from("UR"), id }
}

fn named_card(name: &str) -> Card {
    let mut c = Card::default();
    c.name = name.to_string();
    c
}

#[test]
fn main_menu_entries() {
    let app = AppState::new(settings(3));
    let texts: Vec<String> = app.slmm.items.iter().map(|m| m.text.clone()).collect();
    assert_eq!(
        texts,
        strings(&["Load most recent deck", "Create a new deck", "Load a deck", "Settings", "Quit"])
    );
    let app = AppState::new(settings(0));
    assert_eq!(app.slmm.items.len(), 4);
    assert_eq!(app.slmm.items[0].text, "Create a new deck");
}

#[test]
fn quit_from_menu() {
    let mut app = AppState::new(settings(0));
    app.handle_input(KeyCode::Up);
    assert!(matches!(app.handle_input(KeyCode::Enter), AppRequest::Done));
    assert!(app.quit);
    let mut app = AppState::new(settings(0));
    app.handle_input(KeyCode::Esc);
    assert!(app.quit);
}

#[test]
fn open_a_deck_through_the_list() {
    let mut app = AppState::new(settings(3));
    app.handle_input(KeyCode::Down);
    app.handle_input(KeyCode::Down);
    assert!(matches!(app.handle_input(KeyCode::Enter), AppRequest::ReadDecks));
    assert_eq!(app.mode, Screen::OpenDeck);
    assert!(matches!(app.resume(AppAnswer::Decks(vec![deck(4, "Izzet"), deck(3, "Golgari")])), AppRequest::Done));

    // Deck 4 has no settings of its own: the screen stays.
    assert!(matches!(app.handle_input(KeyCode::Enter), AppRequest::ReadDeck(4)));
    assert!(matches!(app.resume(AppAnswer::Deck(Some(deck(4, "Izzet")))), AppRequest::Done));
    assert_eq!(app.mode, Screen::OpenDeck);
    assert_eq!(app.settings.rr(), 4);

    app.handle_input(KeyCode::Down);
    assert!(matches!(app.handle_input(KeyCode::Enter), AppRequest::ReadDeck(3)));
    match app.resume(AppAnswer::Deck(Some(deck(3, "Golgari")))) {
        AppRequest::Deck(DeckViewRequest::ListNames(_)) => {}
        _ => panic!("expected the deck's card names to be asked for"),
    }
    assert_eq!(app.mode, Screen::DeckView);
    match app.resume(AppAnswer::View(DeckViewAnswer::Names(strings(&["Sol Ring", "Llanowar Elves"])))) {
        AppRequest::Deck(DeckViewRequest::ReadCard(n, Some(3))) => assert_eq!(n, "Sol Ring"),
        _ => panic!("expected the first card to be read"),
    }
    assert!(matches!(
        app.resume(AppAnswer::View(DeckViewAnswer::Card(Some(named_card("Sol Ring"))))),
        AppRequest::Done
    ));
    let dv = app.deck_view.as_ref().unwrap();
    assert_eq!(dv.ac.as_ref().unwrap().name, "Sol Ring");
    assert_eq!(dv.dvs, DeckViewSection::DeckOmni);

    assert!(matches!(app.handle_input(KeyCode::Esc), AppRequest::Done));
    assert_eq!(app.mode, Screen::MainMenu);
}

#[test]
fn recent_deck_from_menu() {
    let mut app = AppState::new(settings(3));
    assert!(matches!(app.handle_input(KeyCode::Enter), AppRequest::ReadDeck(3)));
    assert!(matches!(app.resume(AppAnswer::Deck(None)), AppRequest::Done));
    assert_eq!(app.mode, Screen::MainMenu);
}

#[test]
fn global_settings_and_back() {
    let mut app = AppState::new(settings(0));
    app.handle_input(KeyCode::Down);
    app.handle_input(KeyCode::Down);
    assert!(matches!(app.handle_input(KeyCode::Enter), AppRequest::Done));
    assert_eq!(app.mode, Screen::Settings);
    assert_eq!(app.settings_view.as_ref().unwrap().title, "Global Settings");
    app.handle_input(KeyCode::Esc);
    assert_eq!(app.mode, Screen::MainMenu);
}

#[test]
fn create_a_deck() {
    let mut app = AppState::new(settings(0));
    assert!(matches!(app.handle_input(KeyCode::Enter), AppRequest::Done));
    assert_eq!(app.mode, Screen::MakeDeck);
    app.handle_input(KeyCode::Char('X'));
    app.handle_input(KeyCode::Enter);
    match app.handle_input(KeyCode::Char('a')) {
        AppRequest::Create(CreateDeckRequest::LookupNames { partner: false, text }) => assert_eq!(text, "a"),
        _ => panic!("expected a commander lookup"),
    }
    assert!(matches!(app.resume(AppAnswer::Names(Some(strings(&["Atraxa"])))), AppRequest::Done));
    match app.handle_input(KeyCode::Enter) {
        AppRequest::Create(CreateDeckRequest::Classify(n)) => assert_eq!(n, "Atraxa"),
        _ => panic!("expected the commander to be checked"),
    }
    let mut atraxa = named_card("Atraxa");
    atraxa.types = String::from("Legendary Creature");
    match app.resume(AppAnswer::Card(Some(atraxa))) {
        AppRequest::Create(CreateDeckRequest::CreateDeck { title, commander, partner }) => {
            assert_eq!(title, "X");
            assert_eq!(commander, "Atraxa");
            assert_eq!(partner, None);
        }
        _ => panic!("expected the deck to be created"),
    }
    assert!(matches!(app.resume(AppAnswer::DeckId(Some(11))), AppRequest::ReadDeck(11)));
    assert!(app.settings.has_deck(11));
    assert_eq!(app.settings.rr(), 11);
    assert_eq!(app.create_deck_view.title, "");
}

#[test]
fn cancel_deck_creation() {
    let mut app = AppState::new(settings(0));
    app.handle_input(KeyCode::Enter);
    assert!(matches!(app.handle_input(KeyCode::Esc), AppRequest::Done));
    assert_eq!(app.mode, Screen::MainMenu);
}

fn deck_settings() -> DeckSettings {
    DeckSettings { tags: strings(&["main", "ramp"]), ordering: SortOrder::NameAsc, df: DefaultFilter::Name }
}

#[test]
fn deck_view_opens_with_query() {
    let (dv, req) = DeckView::new(5, "UR", deck_settings());
    assert_eq!(dv.rdid(), 5);
    assert_eq!(dv.settings.tags[dv.st], "main");
    match req {
        DeckViewRequest::ListNames(q) => assert!(q.contains("deck_contents.deck = 5")),
        _ => panic!("expected the deck's card names to be asked for"),
    }
}

#[test]
fn deck_view_empty_deck() {
    let (mut dv, _) = DeckView::new(5, "UR", deck_settings());
    assert!(matches!(dv.resume(DeckViewAnswer::Names(vec![])), DeckViewRequest::Finish(DeckViewExit::Hold)));
    assert!(dv.ac.is_none());
    assert!(matches!(dv.handle_input(KeyCode::Esc), DeckViewRequest::Finish(DeckViewExit::MainMenu)));
}

#[test]
fn deck_view_tags_cycle() {
    let settings = DeckSettings {
        tags: strings(&["draw", "main", "ramp"]),
        ordering: SortOrder::NameAsc,
        df: DefaultFilter::Name,
    };
    let (mut dv, _) = DeckView::new(5, "UR", settings);
    assert_eq!(dv.st, 1);
    let r = dv.resume(DeckViewAnswer::Names(strings(&["Sol Ring"])));
    assert!(matches!(r, DeckViewRequest::ReadCard(ref n, Some(5)) if n == "Sol Ring"));
    let _ = dv.resume(DeckViewAnswer::Card(Some(named_card("Sol Ring"))));
    assert!(matches!(dv.handle_input(KeyCode::Enter), DeckViewRequest::Finish(DeckViewExit::Hold)));
    assert_eq!(dv.dvs, DeckViewSection::DeckCards);
    let _ = dv.handle_input(KeyCode::Right);
    assert_eq!(dv.settings.tags[dv.st], "ramp");
    let _ = dv.handle_input(KeyCode::Right);
    assert_eq!(dv.settings.tags[dv.st], "draw");
    let _ = dv.handle_input(KeyCode::Left);
    assert_eq!(dv.settings.tags[dv.st], "ramp");
    let _ = dv.handle_input(KeyCode::Left);
    let _ = dv.handle_input(KeyCode::Left);
    assert_eq!(dv.settings.tags[dv.st], "draw");
}

#[test]
fn deck_settings_tags_alphabetical() {
    let ds = DeckSettings::from(FileDeckSettings {
        tags: vec![String::from("main"), String::from("draw")],
        ordering: String::from("-cmc"),
        df: String::from("text"),
    });
    assert_eq!(ds.tags, vec![String::from("draw"), String::from("main")]);
    assert_eq!(ds.ordering, SortOrder::CmcDesc);
    assert_eq!(ds.df, DefaultFilter::Text);
}

#[test]
fn global_settings_tags_alphabetical() {
    let s = Settings::from(FileSettings {
        global: FileGlobalSettings {
            tags: strings(&["removal", "main", "draw"]),
            ordering: String::from("+name"),
            df: String::from("name"),
            version: String::from("0.5"),
            recent: -1,
            open_into_recent: false,
        },
        decks: vec![(
            4,
            FileDeckSettings {
                tags: strings(&["ramp", "main", "combo"]),
                ordering: String::from("+name"),
                df: String::from("name"),
            },
        )],
    });
    assert_eq!(s.get_tags(), strings(&["draw", "main", "removal"]));
    assert_eq!(s.get_tags_deck(4), strings(&["combo", "main", "ramp"]));
}
