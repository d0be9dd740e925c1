use lieutenant::ui::util::{MainMenuItem as OldMenuItem, Omnitext, StatefulList as OldList};
use lieutenant::util::views::{
    CreateDeckRequest, CreateDeckSection, CreateDeckView, KeyCode, OpenDeckView, OpenDeckViewExit,
    SettingsSection, SettingsView, TagChange, ViewExit,
};
use lieutenant::util::{
    Card, Deck, DefaultFilter, FileDeckSettings, FileGlobalSettings, FileSettings, OpenDeckTable,
    Settings, SortOrder, StatefulList,
};

fn strings(v: &[&str]) -> Vec<String> {
    v.iter().map(|s| s.to_string()).collect()
}

fn omni(text: &str) -> Omnitext {
    let mut o = Omnitext::default();
    for c in text.chars() {
        o.insert(c);
    }
    o
}

#[test]
fn omnibar_editing() {
    let mut o = omni("abd");
    o.left();
    o.insert('c');
    assert_eq!(o.text, "abcd");
    o.backspace();
    assert_eq!(o.text, "abd");
    o.left();
    o.left();
    o.delete();
    assert_eq!(o.text, "bd");
    o.left();
    o.left();
    o.backspace();
    assert_eq!(o.text, "bd");
    o.right();
    o.right();
    o.right();
    o.insert('!');
    assert_eq!(o.text, "bd!");
}

#[test]
fn omnibar_insert_then_backspace() {
    let mut o = omni("deck");
    o.left();
    o.left();
    let before = o.text.clone();
    o.insert('x');
    o.backspace();
    assert_eq!(o.text, before);
}

#[test]
fn omnibar_lower_case_and_new_tag() {
    let o = omni("Ty:Shaman /tag:ramp");
    assert_eq!(o.get(), "ty:shaman /tag:ramp");
    assert_eq!(o.rt(), Some(String::from("ramp")));
    assert_eq!(omni("ty:shaman").rt(), None);
}

fn old_list(names: &[&str]) -> OldList<OldMenuItem> {
    OldList::with_items(names.iter().map(|n| OldMenuItem::from(n.to_string())).collect())
}

#[test]
fn old_list_moves_and_removes() {
    let mut l = old_list(&["a", "b", "c"]);
    assert_eq!(l.next(), Some(String::from("a")));
    assert_eq!(l.previous(), String::from("c"));
    assert_eq!(l.next(), Some(String::from("a")));
    assert_eq!(l.next(), Some(String::from("b")));
    assert_eq!(l.remove(), Some(String::from("c")));
    assert_eq!(l.get_string(), Some(String::from("c")));
    assert_eq!(l.remove(), Some(String::from("a")));
    assert_eq!(l.remove(), None);
}

#[test]
fn old_list_remove_named_keeps_highlight() {
    let mut l = old_list(&["a", "b", "c"]);
    l.next();
    l.next();
    l.next();
    l.remove_named(&String::from("a"));
    assert_eq!(l.get_string(), Some(String::from("c")));
    l.remove_named(&String::from("zzz"));
    assert_eq!(l.get_string(), Some(String::from("c")));
}

#[test]
fn list_next_previous_wrap() {
    let mut l: StatefulList<String> = StatefulList::with_items(strings(&["x", "y"]));
    assert_eq!(l.next(), Some(String::from("x")));
    assert_eq!(l.next(), Some(String::from("y")));
    assert_eq!(l.next(), Some(String::from("x")));
    assert_eq!(l.previous(), String::from("y"));
    let mut empty: StatefulList<String> = StatefulList::new();
    assert_eq!(empty.next(), None);
}

#[test]
fn list_reinitialize_restores_entry() {
    let mut l: StatefulList<String> = StatefulList::with_items(strings(&["a", "b", "c"]));
    l.next();
    l.next();
    l.reinitialize(strings(&["c", "b"]), true);
    assert_eq!(l.get_string(), Some(String::from("b")));
    l.reinitialize(strings(&["d"]), true);
    assert_eq!(l.get_string(), Some(String::from("d")));
    l.reinitialize(strings(&["e", "f"]), false);
    assert_eq!(l.get_string(), Some(String::from("e")));
}

fn file_settings() -> FileSettings {
    FileSettings {
        global: FileGlobalSettings {
            tags: strings(&["main", "ramp"]),
            ordering: String::from("+name"),
            df: String::from("name"),
            version: String::from("0.5"),
            recent: 3,
            open_into_recent: false,
        },
        decks: vec![(
            3,
            FileDeckSettings {
                tags: strings(&["draw", "main"]),
                ordering: String::from("-cmc"),
                df: String::from("text"),
            },
        )],
    }
}

#[test]
fn settings_file_round_trip() {
    let s = Settings::from(file_settings());
    assert_eq!(
        s.to_toml(),
        "[global]\nversion = 0.5\ntags = [\n\t\"main\",\n\t\"ramp\",\n]\nordering = \"+name\"\ndefault_filter = \"name\"\nrecent = 3\nopen_into_recent = false\n\n[decks]\n\t[decks.3]\n\ttags = [\n\t\t\"draw\",\n\t\t\"main\",\n\t]\n\tordering = \"-cmc\"\n\tdefault_filter = \"text\"\n"
    );
}

#[test]
fn settings_lookups() {
    let mut s = Settings::from(file_settings());
    assert_eq!(s.rr(), 3);
    assert_eq!(s.rso(Some(3)), SortOrder::CmcDesc);
    assert_eq!(s.rso(Some(9)), SortOrder::NameAsc);
    assert_eq!(s.rdf(Some(3)), DefaultFilter::Text);
    assert_eq!(s.get_tags_deck(9), strings(&["main", "ramp"]));
    assert!(s.has_deck(3));
    s.id(7);
    assert_eq!(s.get_tags_deck(7), strings(&["main", "ramp"]));
    s.dd(3);
    assert!(!s.has_deck(3));
    s.sr(7);
    assert_eq!(s.rr(), 7);
}

#[test]
fn settings_new_tags_sorted() {
    let mut s = Settings::from(file_settings());
    assert!(s.it(Some(3), String::from("combo")));
    assert_eq!(s.get_tags_deck(3), strings(&["combo", "draw", "main"]));
    assert!(!s.it(Some(8), String::from("x")));
    assert!(s.it(None, String::from("aggro")));
    assert_eq!(s.get_tags(), strings(&["aggro", "main", "ramp"]));
}

#[test]
fn settings_view_saves_choices() {
    let mut sv = SettingsView::new(
        strings(&["ramp", "main"]),
        DefaultFilter::Name,
        SortOrder::NameAsc,
        String::from("Global Settings"),
        Some(false),
    );
    assert_eq!(sv.vt, strings(&["main", "ramp", "{Add new tag}"]));
    assert_eq!(sv.section, SettingsSection::Tags);
    assert!(matches!(sv.handle_input(KeyCode::Esc), ViewExit::Cancel));
}

#[test]
fn open_deck_view_confirms_deletion() {
    let mut v = OpenDeckView::new();
    v.init(vec![deck(4, "Izzet"), deck(9, "Golgari")]);
    assert_eq!(v.handle_input(KeyCode::Down), OpenDeckViewExit::Hold);
    assert_eq!(v.handle_input(KeyCode::Delete), OpenDeckViewExit::Hold);
    assert!(v.deleting);
    assert_eq!(v.handle_input(KeyCode::Enter), OpenDeckViewExit::DeleteDeck(9));
    assert_eq!(v.decks.len(), 1);
    assert_eq!(v.handle_input(KeyCode::Enter), OpenDeckViewExit::OpenDeck(4));
    assert_eq!(v.handle_input(KeyCode::Esc), OpenDeckViewExit::Cancel);
}

fn deck(id: i32, name: &str) -> Deck {
    let mut commander = Card::default();
    commander.name = format!("{name} Commander");
    Deck { name: name.to_string(), commander, commander2: None, color: String::from("UR"), id }
}

#[test]
fn deck_table_rows() {
    let mut t = OpenDeckTable::new();
    let mut d = deck(12, "Partners");
    let mut second = Card::default();
    second.name = String::from("Tymna");
    d.commander2 = Some(second);
    t.init(vec![deck(4, "Izzet"), d]);
    let rows = t.rdt();
    assert_eq!(rows[0], (strings(&["4", "Izzet", "Izzet Commander\n", "UR"]), 1));
    assert_eq!(rows[1], (strings(&["12", "Partners", "Partners Commander\nTymna", "UR"]), 2));
}

#[test]
fn create_deck_typing_asks_for_commanders() {
    let mut v = CreateDeckView::new();
    for c in "Izzet".chars() {
        assert!(matches!(v.handle_input(KeyCode::Char(c)), CreateDeckRequest::Hold));
    }
    assert_eq!(v.title, "Izzet");
    assert!(matches!(v.handle_input(KeyCode::Enter), CreateDeckRequest::Hold));
    assert_eq!(v.section, CreateDeckSection::PrimaryCommander);
    match v.handle_input(KeyCode::Char('m')) {
        CreateDeckRequest::LookupNames { partner, text } => {
            assert!(!partner);
            assert_eq!(text, "m");
        }
        _ => panic!("expected a lookup"),
    }
    v.on_names(Some(strings(&["Mizzix of the Izmagnus"])));
    match v.handle_input(KeyCode::Enter) {
        CreateDeckRequest::Classify(n) => assert_eq!(n, "Mizzix of the Izmagnus"),
        _ => panic!("expected a check of the commander"),
    }
    let mut mizzix = Card::default();
    mizzix.name = String::from("Mizzix of the Izmagnus");
    mizzix.types = String::from("Legendary Creature — Goblin Wizard");
    match v.on_commander(&mizzix) {
        CreateDeckRequest::CreateDeck { title, commander, partner } => {
            assert_eq!(title, "Izzet");
            assert_eq!(commander, "Mizzix of the Izmagnus");
            assert_eq!(partner, None);
        }
        _ => panic!("expected the deck to be created"),
    }
}

#[test]
fn settings_view_tag_edits() {
    let mut sv = SettingsView::new(
        strings(&["main", "ramp"]),
        DefaultFilter::Name,
        SortOrder::NameAsc,
        String::from("Deck Settings for Izzet"),
        None,
    );
    sv.handle_input(KeyCode::Right);
    assert_eq!(sv.vpos, 1);
    sv.handle_input(KeyCode::Delete);
    assert_eq!(sv.vt, strings(&["main", "{Add new tag}"]));
    assert_eq!(sv.vch, vec![TagChange::DeleteTag(String::from("ramp"))]);
}

#[test]
fn default_filter_toggles_back() {
    let mut s = Settings::from(file_settings());
    let mut ds = s.rds(3);
    let before = ds.df;
    ds.toggle_df();
    assert_ne!(ds.df, before);
    ds.toggle_df();
    assert_eq!(ds.df, before);
    s.sr(3);
    assert_eq!(s.rr(), 3);
}

#[test]
fn settings_view_keeps_main() {
    let mut sv = SettingsView::new(
        strings(&["main", "ramp"]),
        DefaultFilter::Name,
        SortOrder::NameAsc,
        String::from("Global Settings"),
        None,
    );
    assert_eq!(sv.vpos, 0);
    assert!(matches!(sv.handle_input(KeyCode::Delete), ViewExit::Hold));
    assert_eq!(sv.vt, strings(&["main", "ramp", "{Add new tag}"]));
    assert!(sv.vch.is_empty());
    assert!(matches!(sv.handle_input(KeyCode::Enter), ViewExit::Hold));
    assert_eq!(sv.section, SettingsSection::Tags);
    assert!(matches!(sv.handle_input(KeyCode::Backspace), ViewExit::Hold));
    assert_eq!(sv.vt, strings(&["main", "ramp", "{Add new tag}"]));
}

#[test]
fn open_deck_view_other_key_disarms_deletion() {
    let mut v = OpenDeckView::new();
    v.init(vec![deck(4, "Izzet"), deck(9, "Golgari")]);
    assert_eq!(v.handle_input(KeyCode::Delete), OpenDeckViewExit::Hold);
    assert_eq!(v.handle_input(KeyCode::Esc), OpenDeckViewExit::Cancel);
    assert!(v.deleting);
    assert_eq!(v.handle_input(KeyCode::Char('x')), OpenDeckViewExit::Hold);
    assert!(!v.deleting);
    assert_eq!(v.handle_input(KeyCode::Enter), OpenDeckViewExit::OpenDeck(4));
    assert_eq!(v.decks.len(), 2);
}

#[test]
fn settings_view_quickstart_row_only_when_offered() {
    let mut sv = SettingsView::new(
        strings(&["main"]),
        DefaultFilter::Name,
        SortOrder::NameAsc,
        String::from("Deck Settings for Izzet"),
        None,
    );
    sv.handle_input(KeyCode::Down);
    sv.handle_input(KeyCode::Down);
    assert_eq!(sv.section, SettingsSection::Order);
    sv.handle_input(KeyCode::Down);
    assert_eq!(sv.section, SettingsSection::Save);
    let mut g = SettingsView::new(
        strings(&["main"]),
        DefaultFilter::Name,
        SortOrder::NameAsc,
        String::from("Global Settings"),
        Some(false),
    );
    g.handle_input(KeyCode::Down);
    g.handle_input(KeyCode::Down);
    g.handle_input(KeyCode::Down);
    assert_eq!(g.section, SettingsSection::OpenIntoRecent);
    g.handle_input(KeyCode::Down);
    g.handle_input(KeyCode::Up);
    assert_eq!(g.section, SettingsSection::OpenIntoRecent);
}

#[test]
fn omnitext_backspace_undoes_insert() {
    let mut o = Omnitext::default();
    for c in "bolt".chars() {
        o.insert(c);
    }
    o.left();
    let before = (o.text.clone(), o.get());
    o.insert('x');
    assert_eq!(o.text, "bolxt");
    o.backspace();
    assert_eq!((o.text.clone(), o.get()), before);
    o.right();
    o.left();
    assert_eq!(o.text, "bolt");
}

#[test]
fn omnitext_cursor_counts_bytes() {
    let mut o = Omnitext::default();
    o.insert('a');
    o.left();
    o.insert('é');
    o.left();
    assert_eq!(o.text, "éa");
    o.right();
    o.right();
    o.insert('x');
    assert_eq!(o.text, "éxa");
    o.backspace();
    assert_eq!(o.text, "éa");
    o.left();
    o.left();
    o.delete();
    assert_eq!(o.text, "a");
}

#[test]
fn settings_view_tag_cursor_counts_bytes() {
    let mut sv = SettingsView::new(
        strings(&["main", "été"]),
        DefaultFilter::Name,
        SortOrder::NameAsc,
        String::from("Global Settings"),
        None,
    );
    sv.handle_input(KeyCode::Right);
    assert_eq!(sv.vt[sv.vpos], "été");
    sv.handle_input(KeyCode::Enter);
    assert_eq!(sv.section, SettingsSection::TagText);
    sv.handle_input(KeyCode::Right);
    sv.handle_input(KeyCode::Right);
    sv.handle_input(KeyCode::Char('x'));
    assert_eq!(sv.vt[sv.vpos], "éxté");
    assert_eq!(sv.tpos, 3);
}

#[test]
fn open_deck_view_deletion_waits_through_esc() {
    let mut v = OpenDeckView::new();
    v.init(vec![deck(4, "Izzet"), deck(9, "Golgari")]);
    assert_eq!(v.handle_input(KeyCode::Delete), OpenDeckViewExit::Hold);
    assert_eq!(v.handle_input(KeyCode::Esc), OpenDeckViewExit::Cancel);
    assert_eq!(v.handle_input(KeyCode::Esc), OpenDeckViewExit::Cancel);
    assert_eq!(v.handle_input(KeyCode::Enter), OpenDeckViewExit::DeleteDeck(4));
    assert_eq!(v.decks.len(), 1);
    assert_eq!(v.handle_input(KeyCode::Enter), OpenDeckViewExit::OpenDeck(9));
}
