//! The interface built around the omnibar: a main menu, a deck list, a deck
//! creation form, and four deck screens (the deck's omnibar and card list,
//! the database's filter and card list), as a state machine. A key moves it
//! to its next state and yields a request; where the request needs the card
//! database, the caller runs it and hands the answer back through `resume`.
use vstd::prelude::*;
use crate::field_filter::{omni_fields, pairs_view, CardFilter};
use crate::text::{byte_len, char_at_byte, char_len, regex_group1, str_eq, string_from, string_remove};
use crate::ui::util::{
    lowercase, MainMenuItem, MakeDeckContents, MakeDeckFocus, Omnitext, Screen, StatefulList,
    NEW_TAG_PATTERN,
};
use crate::util::views::KeyCode;
use crate::util::{next_index, previous_index, Card, CardLayout, Deck, ListEntry};

verus! {

/// A deck in the deck list: its id and name.
pub struct DeckEntry {
    pub id: i32,
    pub name: String,
}

impl ListEntry for DeckEntry {
    open spec fn label_spec(&self) -> Seq<char> {
        self.name@
    }

    open spec fn same_spec(&self, other: &Self) -> bool {
        self.id == other.id && self.name@ == other.name@
    }

    fn label(&self) -> (r: String) {
        self.name.clone()
    }

    fn same(&self, other: &Self) -> (r: bool) {
        self.id == other.id && str_eq(self.name.as_str(), other.name.as_str())
    }

    fn duplicate(&self) -> (r: Self) {
        DeckEntry { id: self.id, name: self.name.clone() }
    }
}

/// What follows once a filtered list is filled.
#[derive(Debug, Copy, Clone, PartialEq, Eq, Structural)]
pub enum Then {
    /// Nothing more.
    Nothing,
    /// Show the deck list's highlighted card.
    DeckCard,
    /// Move to the database list and show its highlighted card.
    DbCards,
}

/// What the interface waits for.
pub enum OmniStage {
    Idle,
    /// The decks for the deck list.
    Decks,
    /// The deck being opened.
    Opening,
    /// The deck's card names, when its screen opens.
    InitNames,
    /// The deck's card names, when the database filter gets the focus.
    TabNames,
    /// A card to show.
    ShowCard,
    /// The card names a filter finds, for the database list (`db`) or the
    /// deck list.
    Filter { db: bool, then: Then },
    /// The card after its tag was toggled.
    Toggled,
    /// The names of the cards added to the deck.
    Added,
    /// The commanders matching the typed text.
    CommanderNames,
    /// The card chosen as the commander.
    CheckCommander(String),
    /// The card chosen as the partner.
    CheckPartner(String),
    /// The id of the deck just created.
    Created,
    /// The card to be removed from the deck.
    RemoveRead,
    /// The removal of the card and those that came with it.
    Removed,
    /// The meld result of a meld front, to pick the related card to show.
    SwitchMeld { rel: String, rel2: String, general: bool },
    /// The related card as the deck holds it.
    SwitchDeck(String),
}

/// What the interface asks of its caller.
pub enum OmniRequest {
    /// The key is handled.
    Done,
    /// Read all decks; answer `Decks`.
    ReadDecks,
    /// Read the deck of this id; answer `Deck`.
    ReadDeck(i32),
    /// Read the names of the cards of this deck; answer `Names`.
    DeckNames(i32),
    /// Read the card of this name; answer `Card`.
    ReadCard(String),
    /// Read the card of this name with its tags in this deck; answer `Card`.
    ReadDeckCard(String, i32),
    /// Toggle the tag (second) on the card (first) of the deck; answer
    /// `Card` with the card as it now is.
    ToggleTag(String, String, i32),
    /// Add the card of this name, and those that come with it, to the deck;
    /// answer `Names` with the names added.
    AddCard(String, i32),
    /// Look up the commanders whose names hold the text (only those with a
    /// partner ability when the flag is set); answer `Names`.
    CommanderNames(String, bool),
    /// Create the deck (title, commander, partner or empty); answer
    /// `DeckId`.
    CreateDeck(String, String, String),
    /// Read the names of the cards the filter finds, among the cards the
    /// deck may hold when the flag is set, else among the deck's cards;
    /// answer `Names` (none when the query fails).
    Filter(CardFilter, bool),
    /// Remove these cards from the deck, in order; answer `Done`.
    RemoveCards(Vec<String>, i32),
}

/// The answer to a request.
pub enum OmniAnswer {
    Decks(Vec<DeckEntry>),
    Deck(Option<Deck>),
    Names(Vec<String>),
    Card(Option<Card>),
    DeckId(i32),
    Done,
}

/// The interface: the screen shown and the one an error returns to, the
/// open deck, the names of its cards, the two omnibars, the deck, menu,
/// deck-list and database lists, the card shown, the active tag, the
/// creation form, whether the deck's and the database's lists are out of
/// date, the names added since the deck was read, whether to quit, and
/// what it waits for.
pub struct AppState {
    pub mode: Screen,
    pub mode_p: Screen,
    pub deck_id: i32,
    pub deck: Option<Deck>,
    pub contents: Option<Vec<String>>,
    pub omnitext: Omnitext,
    pub dbftext: Omnitext,
    pub sldc: StatefulList<String>,
    pub slmm: StatefulList<MainMenuItem>,
    pub slod: StatefulList<DeckEntry>,
    pub sldbc: StatefulList<String>,
    pub ac: Option<Card>,
    pub tag: String,
    pub mdc: MakeDeckContents,
    pub dirty_deck: bool,
    pub dirty_dbf: bool,
    pub dirty_cards: Vec<String>,
    pub quit: bool,
    pub stage: OmniStage,
}

/// A list's highlight is inside it, and a list with entries has one.
pub open spec fn names_wf(l: StatefulList<String>) -> bool {
    &&& l.state.selected matches Some(i) ==> i < l.items@.len()
    &&& l.items@.len() > 0 ==> l.state.selected is Some
}

/// The label of a list's highlighted entry.
pub open spec fn current(l: StatefulList<String>) -> Seq<char> {
    l.items@[l.state.selected->0 as int]@
}

/// A list freshly filled with `v`, its first entry highlighted.
pub open spec fn filled(l: StatefulList<String>, v: Seq<String>) -> bool {
    &&& l.items@ == v
    &&& l.state.selected == if v.len() > 0 {
        Some(0usize)
    } else {
        None
    }
}

/// The list after its highlight moved to the next entry.
pub open spec fn moved_next<T: ListEntry>(o: StatefulList<T>, f: StatefulList<T>) -> bool {
    &&& f.items@ == o.items@
    &&& o.items@.len() > 0 ==> f.state.selected == Some(next_index(o.state.selected, o.items@.len()))
    &&& o.items@.len() == 0 ==> f.state == o.state
}

/// The list after its highlight moved to the previous entry.
pub open spec fn moved_previous<T: ListEntry>(o: StatefulList<T>, f: StatefulList<T>) -> bool {
    &&& f.items@ == o.items@
    &&& f.state.selected == Some(previous_index(o.state.selected, o.items@.len()))
}

/// The text of an omnibar.
pub open spec fn omni_text(o: Omnitext) -> Seq<char> {
    o@.0
}

/// An empty omnibar.
pub open spec fn omni_empty(o: Omnitext) -> bool {
    o@ == (Seq::<char>::empty(), 0int)
}

/// `c` edits omnibar `o` where the text can take the edit: a `String`
/// edit at a byte inside a character would panic.
pub open spec fn edit_ok(o: Omnitext, c: KeyCode) -> bool {
    match c {
        KeyCode::Char(_) => o.insert_ok(),
        KeyCode::Delete => o.delete_ok(),
        KeyCode::Backspace => o.backspace_ok(),
        _ => true,
    }
}

impl AppState {
    /// The lists are consistent, the screens showing a card list have an
    /// entry highlighted, the menu has an entry highlighted, and the
    /// omnibars' cursors are inside their texts.
    pub open spec fn wf(&self) -> bool {
        &&& names_wf(self.sldc)
        &&& names_wf(self.sldbc)
        &&& (self.slmm.state.selected matches Some(i) && i < self.slmm.items@.len())
        &&& self.slod.state.selected matches Some(i) ==> i < self.slod.items@.len()
        &&& self.slod.items@.len() > 0 ==> self.slod.state.selected is Some
        &&& self.mode is DeckCard ==> self.sldc.items@.len() > 0
        &&& self.mode is DbCards ==> self.sldbc.items@.len() > 0
        &&& self.omnitext.wf()
        &&& self.dbftext.wf()
        &&& self.mode_p == Screen::MainMenu || self.mode_p == Screen::MakeDeck
    }

    /// Key `c` is one the interface can take: on an omnibar, an edit at a
    /// cursor that stands inside a character is left out.
    pub open spec fn key_ok(&self, c: KeyCode) -> bool {
        &&& self.mode is DeckOmni ==> edit_ok(self.omnitext, c)
        &&& self.mode is DbFilter ==> edit_ok(self.dbftext, c)
    }
}

/// `f` is `m` showing the deck list's highlighted card: it is read (`m`
/// waits for it) or, in an empty list, none is shown.
pub open spec fn shows_deck_card(m: AppState, f: AppState, r: OmniRequest) -> bool {
    if m.sldc.items@.len() > 0 {
        f == AppState { stage: OmniStage::ShowCard, ..m } && (r matches OmniRequest::ReadDeckCard(n, d)
            && n@ == current(m.sldc) && d == m.deck_id)
    } else {
        f == AppState { stage: OmniStage::Idle, ac: None, ..m } && r is Done
    }
}

/// `f` is `m` showing the database list's highlighted card, or none.
pub open spec fn shows_db_card(m: AppState, f: AppState, r: OmniRequest) -> bool {
    if m.sldbc.items@.len() > 0 {
        f == AppState { stage: OmniStage::ShowCard, ..m } && (r matches OmniRequest::ReadCard(n) && n@
            == current(m.sldbc))
    } else {
        f == AppState { stage: OmniStage::Idle, ac: None, ..m } && r is Done
    }
}

/// `f` is `o` opening the deck screens: the deck's names are read when they
/// are out of date, else its highlighted card is shown.
pub open spec fn opens_view(o: AppState, f: AppState, r: OmniRequest) -> bool {
    let m = AppState { mode: Screen::DeckOmni, ..o };
    if o.dirty_deck {
        f == AppState { stage: OmniStage::InitNames, ..m } && r == OmniRequest::DeckNames(o.deck_id)
    } else {
        shows_deck_card(m, f, r)
    }
}

/// `f` is `o` asking for the cards the omnibar of the deck (`db` false) or
/// of the database finds, then doing `then`.
pub open spec fn filters(o: AppState, db: bool, then: Then, f: AppState, r: OmniRequest) -> bool {
    let text = if db {
        omni_text(o.dbftext)
    } else {
        omni_text(o.omnitext)
    };
    &&& f == AppState { stage: OmniStage::Filter { db, then }, ..o }
    &&& r matches OmniRequest::Filter(cf, general) && general == db && cf.did == o.deck_id && pairs_view(
        cf.fi@,
    ) == omni_fields(lowercase(text))
}

/// The main menu: creating a deck, opening one, the settings, and
/// quitting, the first highlighted.
pub open spec fn menu_items() -> Seq<(Seq<char>, Option<Screen>)> {
    seq![
        ("Create a new deck"@, Some(Screen::MakeDeck)),
        ("Load a deck"@, Some(Screen::OpenDeck)),
        ("Settings"@, Some(Screen::Settings)),
        ("Quit"@, None::<Screen>),
    ]
}

/// `f` is `o` back on the main menu with no deck open.
pub open spec fn reset_to_menu(o: AppState, f: AppState) -> bool {
    &&& omni_empty(f.omnitext) && omni_empty(f.dbftext)
    &&& f.sldc.items@.len() == 0 && f.sldc.state.selected is None
    &&& f.sldbc.items@.len() == 0 && f.sldbc.state.selected is None
    &&& f == AppState {
        mode: Screen::MainMenu,
        deck_id: -1i32,
        ac: None,
        omnitext: f.omnitext,
        dbftext: f.dbftext,
        contents: None,
        sldc: f.sldc,
        sldbc: f.sldbc,
        dirty_deck: true,
        dirty_dbf: true,
        ..o
    }
}

/// What going to a main menu target does.
pub open spec fn switch_step(o: AppState, next: Option<Screen>, f: AppState, r: OmniRequest) -> bool {
    match next {
        Some(Screen::MakeDeck) => f == AppState { mode: Screen::MakeDeck, ..o } && r is Done,
        Some(Screen::OpenDeck) => f == AppState { mode: Screen::OpenDeck, stage: OmniStage::Decks, ..o }
            && r is ReadDecks,
        Some(Screen::DeckOmni) => opens_view(o, f, r),
        Some(Screen::MainMenu) => reset_to_menu(o, f) && r is Done,
        Some(_) => f == o && r is Done,
        None => f == AppState { quit: true, ..o } && r is Done,
    }
}

/// The form's text field in focus.
pub open spec fn focused_text(m: MakeDeckContents) -> Seq<char> {
    match m.focus {
        MakeDeckFocus::Title => m.title@,
        MakeDeckFocus::Commander => m.commander@,
        MakeDeckFocus::SecondaryCommander => m.commander2@,
    }
}

/// `f`'s form is `o`'s with the text in focus replaced by `t`.
pub open spec fn form_text_set(o: MakeDeckContents, f: MakeDeckContents, t: Seq<char>) -> bool {
    &&& f.focus == o.focus
    &&& focused_text(f) == t
    &&& f.focus != MakeDeckFocus::Title ==> f.title == o.title
    &&& f.focus != MakeDeckFocus::Commander ==> f.commander == o.commander
    &&& f.focus != MakeDeckFocus::SecondaryCommander ==> f.commander2 == o.commander2
    &&& f.commander_names@ == o.commander_names@
}

/// One key on the creation form.
pub open spec fn make_deck_step(o: AppState, c: KeyCode, f: AppState, r: OmniRequest) -> bool {
    let t = focused_text(o.mdc);
    let edited = |nt: Seq<char>| {
        &&& form_text_set(o.mdc, f.mdc, nt)
        &&& if o.mdc.focus == MakeDeckFocus::Title {
            f == AppState { mdc: f.mdc, ..o } && r is Done
        } else {
            f == AppState { stage: OmniStage::CommanderNames, mdc: f.mdc, ..o } && (r matches OmniRequest::CommanderNames(
                x,
                p,
            ) && x@ == nt && p == (o.mdc.focus == MakeDeckFocus::SecondaryCommander))
        }
    };
    match c {
        KeyCode::Esc => f == AppState { mode: Screen::MainMenu, ..o } && r is Done,
        KeyCode::Enter => match o.mdc.focus {
            MakeDeckFocus::Title => f.mdc.focus == MakeDeckFocus::Commander && f.mdc.title == o.mdc.title
                && f.mdc.commander == o.mdc.commander && f.mdc.commander2 == o.mdc.commander2
                && f.mdc.commander_names@ == o.mdc.commander_names@ && f == AppState { mdc: f.mdc, ..o }
                && r is Done,
            MakeDeckFocus::Commander => if o.mdc.commander_names@.len() > 0 {
                let n = o.mdc.commander_names@[0];
                f == AppState { stage: OmniStage::CheckCommander(n), ..o } && (r matches OmniRequest::ReadCard(x)
                    && x@ == n@)
            } else {
                f == o && r is Done
            },
            MakeDeckFocus::SecondaryCommander => if o.mdc.commander_names@.len() > 0 {
                let n = o.mdc.commander_names@[0];
                f == AppState { stage: OmniStage::CheckPartner(n), ..o } && (r matches OmniRequest::ReadCard(x)
                    && x@ == n@)
            } else {
                f == o && r is Done
            },
        },
        KeyCode::Backspace => edited(if t.len() > 0 {
            t.drop_last()
        } else {
            t
        }),
        KeyCode::Char(ch) => edited(t.push(ch)),
        _ => f == o && r is Done,
    }
}


/// The omnibar after the cursor moved left.
pub open spec fn moved_left(o: Omnitext, f: Omnitext) -> bool {
    f@ == (o@.0, if o@.1 > 0 { o@.1 - 1 } else { 0 })
}

/// The omnibar after the cursor moved right.
pub open spec fn moved_right(o: Omnitext, f: Omnitext) -> bool {
    f@ == (o@.0, if o@.1 < byte_len(o@.0) { o@.1 + 1 } else { o@.1 })
}

/// The omnibar after a backspace.
pub open spec fn backspaced(o: Omnitext, f: Omnitext) -> bool {
    f@ == if o@.1 > 0 {
        (o@.0.remove(char_at_byte(o@.0, o@.1 - 1)->0), o@.1 - 1)
    } else {
        o@
    }
}

/// The omnibar after a delete.
pub open spec fn deleted(o: Omnitext, f: Omnitext) -> bool {
    f@ == (if o@.1 < byte_len(o@.0) {
        o@.0.remove(char_at_byte(o@.0, o@.1)->0)
    } else {
        o@.0
    }, o@.1)
}

/// The omnibar after `c` was typed.
pub open spec fn typed(o: Omnitext, c: char, f: Omnitext) -> bool {
    f@ == (o@.0.insert(char_at_byte(o@.0, o@.1)->0, c), o@.1 + 1)
}

/// The tag a `/tag:name` command in the text creates.
pub open spec fn new_tag(t: Seq<char>) -> Option<Seq<char>> {
    regex_group1(NEW_TAG_PATTERN@, t)
}

/// Whether an edit from `a` to `b` re-runs the deck filter: unless it
/// changes a `/tag:` command being typed.
pub open spec fn refilters(a: Seq<char>, b: Seq<char>) -> bool {
    new_tag(a) is None || new_tag(a) == new_tag(b)
}

/// `f` is `m` reading the related card `rel`, as the deck holds it unless
/// `general`.
pub open spec fn reads_related(m: AppState, rel: Seq<char>, general: bool, f: AppState, r: OmniRequest) -> bool {
    if general {
        f == AppState { stage: OmniStage::ShowCard, ..m } && (r matches OmniRequest::ReadCard(x) && x@ == rel)
    } else {
        (f.stage matches OmniStage::SwitchDeck(x) && x@ == rel) && f == AppState { stage: f.stage, ..m } && (r matches OmniRequest::ReadDeckCard(
            x,
            d,
        ) && x@ == rel && d == m.deck_id)
    }
}

/// Space on a card list: the card related to the one shown is shown (for
/// the front of a meld pair, the meld result decides which).
pub open spec fn switch_related(o: AppState, general: bool, f: AppState, r: OmniRequest) -> bool {
    match o.ac {
        Some(card) => match card.lo {
            CardLayout::Paired(_, _, n) => reads_related(o, n@, general, f, r),
            CardLayout::Meld(s, n, m) => if s == 'a' && m@.len() > 0 {
                (f.stage matches OmniStage::SwitchMeld { rel, rel2, general: g } && rel@ == n@ && rel2@
                    == m@ && g == general) && f == AppState { stage: f.stage, ..o } && (r matches OmniRequest::ReadCard(
                    x,
                ) && x@ == m@)
            } else {
                reads_related(o, n@, general, f, r)
            },
            _ => f == o && r is Done,
        },
        None => f == o && r is Done,
    }
}

/// `f` is `m` moving to the database list, when it has entries, and
/// showing its highlighted card.
pub open spec fn enters_db_cards(m: AppState, f: AppState, r: OmniRequest) -> bool {
    if m.sldbc.items@.len() > 0 {
        f == AppState { mode: Screen::DbCards, stage: OmniStage::ShowCard, ..m } && (r matches OmniRequest::ReadCard(
            x,
        ) && x@ == current(m.sldbc))
    } else {
        f == AppState { stage: OmniStage::Idle, ..m } && r is Done
    }
}

/// One key on the deck's omnibar.
pub open spec fn deck_omni_step(o: AppState, c: KeyCode, f: AppState, r: OmniRequest) -> bool {
    let t = omni_text(o.omnitext);
    match c {
        KeyCode::Esc => reset_to_menu(o, f) && r is Done,
        KeyCode::Left => moved_left(o.omnitext, f.omnitext) && f == AppState { omnitext: f.omnitext, ..o }
            && r is Done,
        KeyCode::Right => moved_right(o.omnitext, f.omnitext) && f == AppState { omnitext: f.omnitext, ..o }
            && r is Done,
        KeyCode::Enter => r is Done && if t == "/stat"@ {
            f == AppState { mode: Screen::DeckStat, ..o }
        } else if o.sldc.items@.len() > 0 {
            match new_tag(t) {
                Some(nt) => f.tag@ == nt && f == AppState { mode: Screen::DeckCard, tag: f.tag, ..o },
                None => f == AppState { mode: Screen::DeckCard, ..o },
            }
        } else {
            f == o
        },
        KeyCode::Tab => {
            let m = AppState { mode: Screen::DbFilter, ..o };
            if o.dirty_deck {
                f == AppState { stage: OmniStage::TabNames, ..m } && r == OmniRequest::DeckNames(o.deck_id)
            } else {
                shows_db_card(m, f, r)
            }
        },
        KeyCode::Backspace | KeyCode::Delete | KeyCode::Char(_) => exists|e: Omnitext|
            {
                let m = AppState { omnitext: e, ..o };
                &&& #[trigger] e.wf()
                &&& match c {
                    KeyCode::Backspace => backspaced(o.omnitext, e),
                    KeyCode::Delete => deleted(o.omnitext, e),
                    KeyCode::Char(ch) => typed(o.omnitext, ch, e),
                    _ => false,
                }
                &&& if c is Delete || refilters(t, omni_text(e)) {
                    filters(m, false, if c is Char { Then::DeckCard } else { Then::Nothing }, f, r)
                } else {
                    f == m && r is Done
                }
            },
        _ => f == o && r is Done,
    }
}

/// One key on a card list (the deck's unless `db`).
pub open spec fn card_list_step(o: AppState, db: bool, c: KeyCode, f: AppState, r: OmniRequest) -> bool {
    let l = if db { o.sldbc } else { o.sldc };
    let fl = if db { f.sldbc } else { f.sldc };
    let read = |n: Seq<char>| if db {
        r matches OmniRequest::ReadCard(x) && x@ == n
    } else {
        r matches OmniRequest::ReadDeckCard(x, d) && x@ == n && d == o.deck_id
    };
    let kept = if db {
        f == AppState { sldbc: f.sldbc, stage: OmniStage::ShowCard, ..o }
    } else {
        f == AppState { sldc: f.sldc, stage: OmniStage::ShowCard, ..o }
    };
    match c {
        KeyCode::Esc => reset_to_menu(o, f) && r is Done,
        KeyCode::Up => moved_previous(l, fl) && kept && read(current(fl)),
        KeyCode::Down => moved_next(l, fl) && kept && read(current(fl)),
        KeyCode::Tab => f == AppState { mode: if db { Screen::DbFilter } else { Screen::DeckOmni }, ..o } && r is Done,
        KeyCode::Char(' ') => switch_related(o, db, f, r),
        KeyCode::Delete => if db {
            f == o && r is Done
        } else {
            f == AppState { stage: OmniStage::RemoveRead, ..o } && (r matches OmniRequest::ReadDeckCard(x, d)
                && x@ == current(o.sldc) && d == o.deck_id)
        },
        KeyCode::Enter => if db {
            f == AppState { stage: OmniStage::Added, ..o } && (r matches OmniRequest::AddCard(x, d) && x@
                == current(o.sldbc) && d == o.deck_id)
        } else {
            f == AppState { stage: OmniStage::Toggled, ..o } && (r matches OmniRequest::ToggleTag(x, t, d)
                && x@ == current(o.sldc) && t@ == o.tag@ && d == o.deck_id)
        },
        _ => f == o && r is Done,
    }
}

/// One key on the database's filter.
pub open spec fn db_filter_step(o: AppState, c: KeyCode, f: AppState, r: OmniRequest) -> bool {
    match c {
        KeyCode::Esc => reset_to_menu(o, f) && r is Done,
        KeyCode::Left => moved_left(o.dbftext, f.dbftext) && f == AppState { dbftext: f.dbftext, ..o }
            && r is Done,
        KeyCode::Right => moved_right(o.dbftext, f.dbftext) && f == AppState { dbftext: f.dbftext, ..o }
            && r is Done,
        KeyCode::Enter => if o.dirty_dbf {
            filters(AppState { dirty_dbf: false, ..o }, true, Then::DbCards, f, r)
        } else {
            enters_db_cards(o, f, r)
        },
        KeyCode::Tab => opens_view(o, f, r),
        KeyCode::Backspace => backspaced(o.dbftext, f.dbftext) && f == AppState {
            dbftext: f.dbftext,
            dirty_dbf: true,
            ..o
        } && r is Done,
        KeyCode::Delete => deleted(o.dbftext, f.dbftext) && f == AppState { dbftext: f.dbftext, dirty_dbf: true, ..o }
            && r is Done,
        KeyCode::Char(ch) => typed(o.dbftext, ch, f.dbftext) && f == AppState {
            dbftext: f.dbftext,
            dirty_dbf: true,
            ..o
        } && r is Done,
        _ => f == o && r is Done,
    }
}

/// One key on the interface in state `o`, waiting for nothing: it becomes
/// `f` and makes request `r`.
pub open spec fn key_step(o: AppState, c: KeyCode, f: AppState, r: OmniRequest) -> bool {
    match o.mode {
        Screen::MainMenu => match c {
            KeyCode::Esc => f == AppState { quit: true, ..o } && r is Done,
            KeyCode::Up => moved_previous(o.slmm, f.slmm) && f == AppState { slmm: f.slmm, ..o } && r is Done,
            KeyCode::Down => moved_next(o.slmm, f.slmm) && f == AppState { slmm: f.slmm, ..o } && r is Done,
            KeyCode::Enter => switch_step(o, o.slmm.items@[o.slmm.state.selected->0 as int].next, f, r),
            _ => f == o && r is Done,
        },
        Screen::OpenDeck => match c {
            KeyCode::Esc => f == AppState { mode: Screen::MainMenu, ..o } && r is Done,
            KeyCode::Up => (if o.slod.items@.len() > 0 {
                moved_previous(o.slod, f.slod) && f == AppState { slod: f.slod, ..o }
            } else {
                f == o
            }) && r is Done,
            KeyCode::Down => moved_next(o.slod, f.slod) && f == AppState { slod: f.slod, ..o } && r is Done,
            KeyCode::Enter => if o.slod.items@.len() > 0 {
                let did = o.slod.items@[o.slod.state.selected->0 as int].id;
                f == AppState { deck_id: did, stage: OmniStage::Opening, ..o } && r == OmniRequest::ReadDeck(did)
            } else {
                f == o && r is Done
            },
            _ => f == o && r is Done,
        },
        Screen::DeckOmni => deck_omni_step(o, c, f, r),
        Screen::DeckCard => card_list_step(o, false, c, f, r),
        Screen::DbFilter => db_filter_step(o, c, f, r),
        Screen::DbCards => card_list_step(o, true, c, f, r),
        Screen::MakeDeck => make_deck_step(o, c, f, r),
        Screen::DeckStat => f == AppState { mode: Screen::DeckOmni, ..o } && r is Done,
        Screen::Error(_) => (if c == KeyCode::Enter {
            f == AppState { mode: o.mode_p, ..o }
        } else {
            f == o
        }) && r is Done,
        Screen::Settings => f == o && r is Done,
    }
}


/// The cards that leave the deck with a card of layout `lo`: the other face
/// of a pair; for a meld card, the meld result, and the front for a meld
/// result.
pub open spec fn leaving(lo: CardLayout) -> Seq<Seq<char>> {
    match lo {
        CardLayout::Paired(_, _, n) => seq![n@],
        CardLayout::Meld(s, n, m) => if s == 'b' {
            seq![m@, n@]
        } else {
            seq![m@]
        },
        _ => Seq::<Seq<char>>::empty(),
    }
}

/// A highlight kept inside a list of `len` entries.
pub open spec fn clamped(len: nat, sel: Option<usize>) -> Option<usize> {
    if len == 0 {
        None
    } else {
        match sel {
            Some(i) => if i >= len {
                Some((len - 1) as usize)
            } else {
                Some(i)
            },
            None => Some(0usize),
        }
    }
}

/// A deck list, and its highlight, after the first entry named `n` left
/// it.
pub open spec fn prune_one(items: Seq<String>, sel: Option<usize>, n: Seq<char>) -> (Seq<String>, Option<usize>) {
    match crate::ui::util::first_label_index(items, n) {
        Some(j) => {
            let ni = items.remove(j);
            let a = sel->0;
            (ni, clamped(ni.len(), if j < a { Some((a - 1) as usize) } else { Some(a) }))
        },
        None => (items, sel),
    }
}

/// A deck list, and its highlight, after the entries named `ns` left it,
/// one after another.
pub open spec fn pruned(items: Seq<String>, sel: Option<usize>, ns: Seq<Seq<char>>) -> (Seq<String>, Option<usize>)
    decreases ns.len(),
{
    if ns.len() == 0 {
        (items, sel)
    } else {
        let (i1, s1) = pruned(items, sel, ns.drop_last());
        if s1 is Some {
            prune_one(i1, s1, ns.last())
        } else {
            (i1, s1)
        }
    }
}

/// The form after the checked commander takes a partner.
pub open spec fn takes_partner(o: MakeDeckContents, n: Seq<char>, f: MakeDeckContents) -> bool {
    &&& f.commander@ == n
    &&& f.focus == MakeDeckFocus::SecondaryCommander
    &&& f.title == o.title && f.commander2 == o.commander2 && f.commander_names@ == o.commander_names@
}

/// An empty form on the title.
pub open spec fn fresh_form(f: MakeDeckContents) -> bool {
    &&& f.focus == MakeDeckFocus::Title
    &&& f.title@.len() == 0 && f.commander@.len() == 0 && f.commander2@.len() == 0
    &&& f.commander_names@.len() == 0
}

/// The message shown when a chosen commander is not in the database.
pub open spec fn commander_missing_text() -> Seq<char> {
    "Commander name not found in database.\nPlease check spelling and try again.\nPress Enter to continue."@
}

/// The interface in state `o` takes answer `a`: it becomes `f` and makes
/// request `r`. An answer of another kind than the one waited for ends the
/// wait.
pub open spec fn answer_step(o: AppState, a: OmniAnswer, f: AppState, r: OmniRequest) -> bool {
    let idle = AppState { stage: OmniStage::Idle, ..o };
    let ends = f == idle && r is Done;
    match o.stage {
        OmniStage::Idle => f == o && r is Done,
        OmniStage::Decks => match a {
            OmniAnswer::Decks(v) => f.slod.items@ == v@ && f.slod.state.selected == (if v@.len() > 0 {
                Some(0usize)
            } else {
                None
            }) && f == AppState { slod: f.slod, ..idle } && r is Done,
            _ => ends,
        },
        OmniStage::Opening => match a {
            OmniAnswer::Deck(Some(d)) => opens_view(AppState { deck: Some(d), dirty_deck: true, ..idle }, f, r),
            _ => ends,
        },
        OmniStage::InitNames | OmniStage::TabNames => match a {
            OmniAnswer::Names(v) => {
                &&& (f.contents matches Some(cv) && cv@ == v@)
                &&& f.dirty_cards@.len() == 0
                &&& (if o.stage is InitNames {
                    filled(f.sldc, v@) && shows_deck_card(
                        AppState {
                            contents: f.contents,
                            dirty_deck: false,
                            dirty_cards: f.dirty_cards,
                            sldc: f.sldc,
                            mode: emptied_mode(o.mode, false, v@.len()),
                            ..idle
                        },
                        f,
                        r,
                    )
                } else {
                    shows_db_card(
                        AppState { contents: f.contents, dirty_deck: false, dirty_cards: f.dirty_cards, ..idle },
                        f,
                        r,
                    )
                })
            },
            _ => ends,
        },
        OmniStage::ShowCard => match a {
            OmniAnswer::Card(c) => f == AppState { ac: c, ..idle } && r is Done,
            _ => ends,
        },
        OmniStage::Filter { db, then } => match a {
            OmniAnswer::Names(v) => {
                let mode = emptied_mode(o.mode, db, v@.len());
                let m = if db {
                    AppState { sldbc: f.sldbc, mode, ..idle }
                } else {
                    AppState { sldc: f.sldc, mode, ..idle }
                };
                &&& filled(if db { f.sldbc } else { f.sldc }, v@)
                &&& match then {
                    Then::Nothing => f == m && r is Done,
                    Then::DeckCard => shows_deck_card(m, f, r),
                    Then::DbCards => enters_db_cards(m, f, r),
                }
            },
            _ => ends,
        },
        OmniStage::Toggled => match a {
            OmniAnswer::Card(Some(card)) => f == AppState { ac: Some(card), ..idle } && r is Done,
            _ => ends,
        },
        OmniStage::Added => match a {
            OmniAnswer::Names(v) => f.dirty_cards@ == o.dirty_cards@ + v@ && f == AppState {
                dirty_deck: true,
                dirty_cards: f.dirty_cards,
                ..idle
            } && r is Done,
            _ => ends,
        },
        OmniStage::CommanderNames => match a {
            OmniAnswer::Names(v) => f.mdc.commander_names@ == v@ && f.mdc.focus == o.mdc.focus && f.mdc.title
                == o.mdc.title && f.mdc.commander == o.mdc.commander && f.mdc.commander2 == o.mdc.commander2
                && f == AppState { mdc: f.mdc, ..idle } && r is Done,
            _ => ends,
        },
        OmniStage::CheckCommander(n) => match a {
            OmniAnswer::Card(Some(card)) => if crate::text::contains_spec(card.text@, "Partner"@) {
                takes_partner(o.mdc, n@, f.mdc) && f == AppState { mdc: f.mdc, ..idle } && r is Done
            } else {
                f == AppState { stage: OmniStage::Created, ..o } && (r matches OmniRequest::CreateDeck(t, c1, c2)
                    && t@ == o.mdc.title@ && c1@ == n@ && c2@.len() == 0)
            },
            OmniAnswer::Card(None) => (f.mode matches Screen::Error(msg) && msg@ == commander_missing_text())
                && f == AppState { mode: f.mode, mode_p: Screen::MakeDeck, ..idle } && r is Done,
            _ => ends,
        },
        OmniStage::CheckPartner(n) => match a {
            OmniAnswer::Card(c) => f == AppState { stage: OmniStage::Created, ..o } && (r matches OmniRequest::CreateDeck(
                t,
                c1,
                c2,
            ) && t@ == o.mdc.title@ && c1@ == o.mdc.commander@ && c2@ == (if c is Some {
                n@
            } else {
                Seq::<char>::empty()
            })),
            _ => ends,
        },
        OmniStage::Created => match a {
            OmniAnswer::DeckId(did) => fresh_form(f.mdc) && opens_view(
                AppState { deck_id: did, mdc: f.mdc, ..idle },
                f,
                r,
            ),
            _ => ends,
        },
        OmniStage::RemoveRead => match a {
            OmniAnswer::Card(Some(card)) => {
                let (items, sel) = pruned(o.sldc.items@, o.sldc.state.selected, leaving(card.lo));
                &&& f.sldc.items@ == items && f.sldc.state.selected == sel
                &&& f == AppState {
                    sldc: f.sldc,
                    mode: emptied_mode(o.mode, false, items.len()),
                    dirty_deck: true,
                    stage: OmniStage::Removed,
                    ..o
                }
                &&& (r matches OmniRequest::RemoveCards(ns, d) && crate::text::views(ns@) == leaving(card.lo).push(
                    card.name@,
                ) && d == o.deck_id)
            },
            _ => ends,
        },
        OmniStage::Removed => match o.sldc.state.selected {
            Some(i) => if i < o.sldc.items@.len() {
                let items = o.sldc.items@.remove(i as int);
                &&& f.sldc.items@ == items
                &&& if items.len() > 0 {
                    let b = if i == items.len() { (i - 1) as usize } else { i };
                    &&& f.sldc.state.selected == Some(b)
                    &&& f == AppState { sldc: f.sldc, stage: OmniStage::ShowCard, ..o }
                    &&& (r matches OmniRequest::ReadDeckCard(x, d) && x@ == items[b as int]@ && d == o.deck_id)
                } else {
                    &&& f.sldc.state.selected is None
                    &&& f == AppState { sldc: f.sldc, ac: None, mode: Screen::DeckOmni, ..idle }
                    &&& r is Done
                }
            } else {
                f == AppState { ac: None, mode: Screen::DeckOmni, ..idle } && r is Done
            },
            None => f == AppState { ac: None, mode: Screen::DeckOmni, ..idle } && r is Done,
        },
        OmniStage::SwitchMeld { rel, rel2, general } => match a {
            OmniAnswer::Card(c) => {
                let target = if c matches Some(meld) && meld.lo matches CardLayout::Meld(_, face, _) && face@
                    == rel@ {
                    rel2@
                } else {
                    rel@
                };
                reads_related(idle, target, general, f, r)
            },
            _ => ends,
        },
        OmniStage::SwitchDeck(rel) => match a {
            OmniAnswer::Card(Some(card)) => f == AppState { ac: Some(card), ..idle } && r is Done,
            OmniAnswer::Card(None) => f == AppState { stage: OmniStage::ShowCard, ..o } && (r matches OmniRequest::ReadCard(
                x,
            ) && x@ == rel@),
            _ => ends,
        },
    }
}


/// The screen that takes over when the list shown is left empty: the
/// database's filter for its card list (`db`), the deck's omnibar for the
/// deck's card list.
pub open spec fn emptied_mode(mode: Screen, db: bool, len: nat) -> Screen {
    if len == 0 && db && mode is DbCards {
        Screen::DbFilter
    } else if len == 0 && !db && mode is DeckCard {
        Screen::DeckOmni
    } else {
        mode
    }
}

fn leave_emptied(mode: Screen, db: bool, len: usize) -> (r: Screen)
    ensures
        r == emptied_mode(mode, db, len as nat),
{
    match mode {
        Screen::DbCards => if db && len == 0 {
            Screen::DbFilter
        } else {
            mode
        },
        Screen::DeckCard => if !db && len == 0 {
            Screen::DeckOmni
        } else {
            mode
        },
        _ => mode,
    }
}

/// The views of menu entries.
pub open spec fn menu_view(items: Seq<MainMenuItem>) -> Seq<(Seq<char>, Option<Screen>)> {
    items.map_values(|m: MainMenuItem| (m.text@, m.next))
}

/// Whether typing changed the `/tag:` command being typed (`a` before, `b`
/// after).
fn keeps_tag(a: &Option<String>, b: &Option<String>) -> (r: bool)
    ensures
        r == match (a, b) {
            (None, _) => true,
            (Some(x), Some(y)) => x@ == y@,
            (Some(_), None) => false,
        },
{
    match (a, b) {
        (None, _) => true,
        (Some(x), Some(y)) => str_eq(x.as_str(), y.as_str()),
        (Some(_), None) => false,
    }
}

impl AppState {
    /// The interface on its main menu with no deck open.
    pub fn new() -> (r: AppState)
        ensures
            r.wf(),
            r.mode == Screen::MainMenu && r.mode_p == Screen::MainMenu,
            r.deck_id == -1 && r.deck is None && r.contents is None && r.ac is None,
            omni_empty(r.omnitext) && omni_empty(r.dbftext),
            r.sldc.items@.len() == 0 && r.sldbc.items@.len() == 0 && r.slod.items@.len() == 0,
            menu_view(r.slmm.items@) == menu_items(),
            r.slmm.state.selected == Some(0usize),
            r.tag@.len() == 0 && fresh_form(r.mdc),
            r.dirty_deck && r.dirty_dbf && r.dirty_cards@.len() == 0,
            !r.quit && r.stage is Idle,
    {
        let mut items: Vec<MainMenuItem> = Vec::new();
        items.push(MainMenuItem::from_with_screen(string_from("Create a new deck"), Screen::MakeDeck));
        items.push(MainMenuItem::from_with_screen(string_from("Load a deck"), Screen::OpenDeck));
        items.push(MainMenuItem::from_with_screen(string_from("Settings"), Screen::Settings));
        items.push(MainMenuItem::from(string_from("Quit")));
        assert(menu_view(items@) =~= menu_items());
        let mut slmm = StatefulList::with_items(items);
        let _ = slmm.next();
        AppState {
            mode: Screen::MainMenu,
            mode_p: Screen::MainMenu,
            deck_id: -1,
            deck: None,
            contents: None,
            omnitext: Omnitext::default(),
            dbftext: Omnitext::default(),
            sldc: StatefulList::new(),
            slmm,
            slod: StatefulList::new(),
            sldbc: StatefulList::new(),
            ac: None,
            tag: String::new(),
            mdc: MakeDeckContents::default(),
            dirty_deck: true,
            dirty_dbf: true,
            dirty_cards: Vec::new(),
            quit: false,
            stage: OmniStage::Idle,
        }
    }

    /// Shows the deck list's highlighted card.
    fn show_deck_card(&mut self) -> (r: OmniRequest)
        requires
            old(self).wf(),
        ensures
            final(self).wf(),
            shows_deck_card(*old(self), *final(self), r),
    {
        match self.sldc.get_string() {
            Some(n) => {
                self.stage = OmniStage::ShowCard;
                OmniRequest::ReadDeckCard(n, self.deck_id)
            },
            None => {
                self.stage = OmniStage::Idle;
                self.ac = None;
                OmniRequest::Done
            },
        }
    }

    /// Shows the database list's highlighted card.
    fn show_db_card(&mut self) -> (r: OmniRequest)
        requires
            old(self).wf(),
        ensures
            final(self).wf(),
            shows_db_card(*old(self), *final(self), r),
    {
        match self.sldbc.get_string() {
            Some(n) => {
                self.stage = OmniStage::ShowCard;
                OmniRequest::ReadCard(n)
            },
            None => {
                self.stage = OmniStage::Idle;
                self.ac = None;
                OmniRequest::Done
            },
        }
    }

    /// Moves to the database list, when it has entries, and shows its card.
    fn enter_db_cards(&mut self) -> (r: OmniRequest)
        requires
            old(self).wf(),
        ensures
            final(self).wf(),
            enters_db_cards(*old(self), *final(self), r),
    {
        match self.sldbc.get_string() {
            Some(n) => {
                self.mode = Screen::DbCards;
                self.stage = OmniStage::ShowCard;
                OmniRequest::ReadCard(n)
            },
            None => {
                self.stage = OmniStage::Idle;
                OmniRequest::Done
            },
        }
    }

    /// Opens the deck screens.
    fn init_deck_view(&mut self) -> (r: OmniRequest)
        requires
            old(self).wf(),
        ensures
            final(self).wf(),
            opens_view(*old(self), *final(self), r),
    {
        self.mode = Screen::DeckOmni;
        if self.dirty_deck {
            self.stage = OmniStage::InitNames;
            OmniRequest::DeckNames(self.deck_id)
        } else {
            self.show_deck_card()
        }
    }

    /// Asks for the cards an omnibar's text finds.
    fn uslvc(&mut self, db: bool, then: Then) -> (r: OmniRequest)
        requires
            old(self).wf(),
        ensures
            final(self).wf(),
            filters(*old(self), db, then, *final(self), r),
    {
        let text = if db {
            self.dbftext.get()
        } else {
            self.omnitext.get()
        };
        let cf = CardFilter::from(self.deck_id, text.as_str());
        self.stage = OmniStage::Filter { db, then };
        OmniRequest::Filter(cf, db)
    }

    /// Goes back to the main menu with no deck open.
    fn reset(&mut self)
        requires
            old(self).wf(),
        ensures
            final(self).wf(),
            reset_to_menu(*old(self), *final(self)),
    {
        self.deck_id = -1;
        self.ac = None;
        self.omnitext = Omnitext::default();
        self.dbftext = Omnitext::default();
        self.contents = None;
        self.sldc = StatefulList::new();
        self.sldbc = StatefulList::new();
        self.dirty_deck = true;
        self.dirty_dbf = true;
        self.mode = Screen::MainMenu;
    }

    /// Goes where a main menu entry leads.
    fn switch_mode(&mut self, next: Option<Screen>) -> (r: OmniRequest)
        requires
            old(self).wf(),
        ensures
            final(self).wf(),
            switch_step(*old(self), next, *final(self), r),
    {
        match next {
            Some(Screen::MakeDeck) => {
                self.mode = Screen::MakeDeck;
                OmniRequest::Done
            },
            Some(Screen::OpenDeck) => {
                self.mode = Screen::OpenDeck;
                self.stage = OmniStage::Decks;
                OmniRequest::ReadDecks
            },
            Some(Screen::DeckOmni) => self.init_deck_view(),
            Some(Screen::MainMenu) => {
                self.reset();
                OmniRequest::Done
            },
            Some(_) => OmniRequest::Done,
            None => {
                self.quit = true;
                OmniRequest::Done
            },
        }
    }

    /// Reads the related card `rel`.
    fn read_related(&mut self, rel: String, general: bool) -> (r: OmniRequest)
        requires
            old(self).wf(),
        ensures
            final(self).wf(),
            reads_related(*old(self), rel@, general, *final(self), r),
    {
        if general {
            self.stage = OmniStage::ShowCard;
            OmniRequest::ReadCard(rel)
        } else {
            self.stage = OmniStage::SwitchDeck(rel.clone());
            OmniRequest::ReadDeckCard(rel, self.deck_id)
        }
    }

    /// Shows the card related to the one shown.
    fn ac_switch(&mut self, general: bool) -> (r: OmniRequest)
        requires
            old(self).wf(),
        ensures
            final(self).wf(),
            switch_related(*old(self), general, *final(self), r),
    {
        let (kind, side, n, m) = match &self.ac {
            Some(card) => match &card.lo {
                CardLayout::Paired(_, _, n) => (1u8, 'a', n.clone(), String::new()),
                CardLayout::Meld(s, n, m) => (2u8, *s, n.clone(), m.clone()),
                _ => (0u8, 'a', String::new(), String::new()),
            },
            None => (0u8, 'a', String::new(), String::new()),
        };
        if kind == 1 {
            self.read_related(n, general)
        } else if kind == 2 {
            if side == 'a' && char_len(m.as_str()) > 0 {
                self.stage = OmniStage::SwitchMeld { rel: n, rel2: m.clone(), general };
                OmniRequest::ReadCard(m)
            } else {
                self.read_related(n, general)
            }
        } else {
            OmniRequest::Done
        }
    }
}


impl AppState {
    /// A key on the deck's omnibar.
    fn deck_omni_key(&mut self, c: KeyCode) -> (r: OmniRequest)
        requires
            old(self).wf(),
            old(self).mode == Screen::DeckOmni,
            edit_ok(old(self).omnitext, c),
        ensures
            final(self).wf(),
            deck_omni_step(*old(self), c, *final(self), r),
    {
        match c {
            KeyCode::Esc => {
                self.reset();
                OmniRequest::Done
            },
            KeyCode::Left => {
                self.omnitext.left();
                OmniRequest::Done
            },
            KeyCode::Right => {
                self.omnitext.right();
                OmniRequest::Done
            },
            KeyCode::Enter => {
                if self.omnitext.text_is("/stat") {
                    self.mode = Screen::DeckStat;
                } else if self.sldc.items.len() > 0 {
                    self.mode = Screen::DeckCard;
                    match self.omnitext.rt() {
                        Some(tag) => {
                            self.tag = tag;
                        },
                        None => {},
                    }
                }
                OmniRequest::Done
            },
            KeyCode::Tab => {
                self.mode = Screen::DbFilter;
                if self.dirty_deck {
                    self.stage = OmniStage::TabNames;
                    OmniRequest::DeckNames(self.deck_id)
                } else {
                    self.show_db_card()
                }
            },
            KeyCode::Backspace | KeyCode::Delete | KeyCode::Char(_) => {
                let before = self.omnitext.rt();
                match c {
                    KeyCode::Backspace => self.omnitext.backspace(),
                    KeyCode::Delete => self.omnitext.delete(),
                    KeyCode::Char(ch) => self.omnitext.insert(ch),
                    _ => {},
                }
                let ghost e = self.omnitext;
                let after = self.omnitext.rt();
                let is_delete = match c {
                    KeyCode::Delete => true,
                    _ => false,
                };
                let is_char = match c {
                    KeyCode::Char(_) => true,
                    _ => false,
                };
                let r = if is_delete || keeps_tag(&before, &after) {
                    self.uslvc(false, if is_char { Then::DeckCard } else { Then::Nothing })
                } else {
                    OmniRequest::Done
                };
                assert(e.wf());
                r
            },
            _ => OmniRequest::Done,
        }
    }

    /// A key on a card list (the database's when `db`).
    fn card_list_key(&mut self, db: bool, c: KeyCode) -> (r: OmniRequest)
        requires
            old(self).wf(),
            old(self).stage is Idle,
            db ==> old(self).mode == Screen::DbCards,
            !db ==> old(self).mode == Screen::DeckCard,
        ensures
            final(self).wf(),
            card_list_step(*old(self), db, c, *final(self), r),
    {
        match c {
            KeyCode::Esc => {
                self.reset();
                OmniRequest::Done
            },
            KeyCode::Up => {
                self.stage = OmniStage::ShowCard;
                if db {
                    let n = self.sldbc.previous();
                    OmniRequest::ReadCard(n)
                } else {
                    let n = self.sldc.previous();
                    OmniRequest::ReadDeckCard(n, self.deck_id)
                }
            },
            KeyCode::Down => {
                self.stage = OmniStage::ShowCard;
                if db {
                    match self.sldbc.next() {
                        Some(n) => OmniRequest::ReadCard(n),
                        None => OmniRequest::Done,
                    }
                } else {
                    match self.sldc.next() {
                        Some(n) => OmniRequest::ReadDeckCard(n, self.deck_id),
                        None => OmniRequest::Done,
                    }
                }
            },
            KeyCode::Tab => {
                self.mode = if db {
                    Screen::DbFilter
                } else {
                    Screen::DeckOmni
                };
                OmniRequest::Done
            },
            KeyCode::Char(' ') => self.ac_switch(db),
            KeyCode::Delete => {
                if db {
                    OmniRequest::Done
                } else {
                    let n = self.sldc.get_string().unwrap();
                    self.stage = OmniStage::RemoveRead;
                    OmniRequest::ReadDeckCard(n, self.deck_id)
                }
            },
            KeyCode::Enter => {
                if db {
                    let n = self.sldbc.get_string().unwrap();
                    self.stage = OmniStage::Added;
                    OmniRequest::AddCard(n, self.deck_id)
                } else {
                    let n = self.sldc.get_string().unwrap();
                    self.stage = OmniStage::Toggled;
                    OmniRequest::ToggleTag(n, self.tag.clone(), self.deck_id)
                }
            },
            _ => OmniRequest::Done,
        }
    }

    /// A key on the database's filter.
    fn db_filter_key(&mut self, c: KeyCode) -> (r: OmniRequest)
        requires
            old(self).wf(),
            old(self).mode == Screen::DbFilter,
            edit_ok(old(self).dbftext, c),
        ensures
            final(self).wf(),
            db_filter_step(*old(self), c, *final(self), r),
    {
        let r = match c {
            KeyCode::Esc => {
                self.reset();
                assert(reset_to_menu(*old(self), *self));
                OmniRequest::Done
            },
            KeyCode::Left => {
                self.dbftext.left();
                OmniRequest::Done
            },
            KeyCode::Right => {
                self.dbftext.right();
                OmniRequest::Done
            },
            KeyCode::Enter => {
                if self.dirty_dbf {
                    self.dirty_dbf = false;
                    self.uslvc(true, Then::DbCards)
                } else {
                    self.enter_db_cards()
                }
            },
            KeyCode::Tab => self.init_deck_view(),
            KeyCode::Backspace => {
                self.dbftext.backspace();
                self.dirty_dbf = true;
                OmniRequest::Done
            },
            KeyCode::Delete => {
                self.dbftext.delete();
                self.dirty_dbf = true;
                OmniRequest::Done
            },
            KeyCode::Char(ch) => {
                self.dbftext.insert(ch);
                self.dirty_dbf = true;
                OmniRequest::Done
            },
            _ => OmniRequest::Done,
        };
        r
    }
}


impl AppState {
    /// Replaces the form's text in focus.
    fn set_focused(&mut self, t: String)
        ensures
            form_text_set(old(self).mdc, final(self).mdc, t@),
            *final(self) == (AppState { mdc: final(self).mdc, ..*old(self) }),
    {
        match self.mdc.focus {
            MakeDeckFocus::Title => {
                self.mdc.title = t;
            },
            MakeDeckFocus::Commander => {
                self.mdc.commander = t;
            },
            MakeDeckFocus::SecondaryCommander => {
                self.mdc.commander2 = t;
            },
        }
    }

    /// A key on the creation form.
    fn make_deck_key(&mut self, c: KeyCode) -> (r: OmniRequest)
        requires
            old(self).wf(),
            old(self).mode == Screen::MakeDeck,
        ensures
            final(self).wf(),
            make_deck_step(*old(self), c, *final(self), r),
    {
        match c {
            KeyCode::Esc => {
                self.mode = Screen::MainMenu;
                OmniRequest::Done
            },
            KeyCode::Enter => match self.mdc.focus {
                MakeDeckFocus::Title => {
                    self.mdc.focus = MakeDeckFocus::Commander;
                    OmniRequest::Done
                },
                MakeDeckFocus::Commander => {
                    if self.mdc.commander_names.len() > 0 {
                        let n = self.mdc.commander_names[0].clone();
                        self.stage = OmniStage::CheckCommander(n.clone());
                        OmniRequest::ReadCard(n)
                    } else {
                        OmniRequest::Done
                    }
                },
                MakeDeckFocus::SecondaryCommander => {
                    if self.mdc.commander_names.len() > 0 {
                        let n = self.mdc.commander_names[0].clone();
                        self.stage = OmniStage::CheckPartner(n.clone());
                        OmniRequest::ReadCard(n)
                    } else {
                        OmniRequest::Done
                    }
                },
            },
            KeyCode::Backspace | KeyCode::Char(_) => {
                let t = match self.mdc.focus {
                    MakeDeckFocus::Title => self.mdc.title.clone(),
                    MakeDeckFocus::Commander => self.mdc.commander.clone(),
                    MakeDeckFocus::SecondaryCommander => self.mdc.commander2.clone(),
                };
                let n = char_len(t.as_str());
                let nt = match c {
                    KeyCode::Char(ch) => {
                        let x = crate::text::string_insert(&t, n, ch);
                        assert(t@.insert(n as int, ch) =~= t@.push(ch));
                        x
                    },
                    _ => {
                        if n > 0 {
                            let x = string_remove(&t, n - 1);
                            assert(t@.remove(n - 1) =~= t@.drop_last());
                            x
                        } else {
                            t
                        }
                    },
                };
                let focus = self.mdc.focus;
                self.set_focused(nt.clone());
                match focus {
                    MakeDeckFocus::Title => OmniRequest::Done,
                    MakeDeckFocus::Commander => {
                        self.stage = OmniStage::CommanderNames;
                        OmniRequest::CommanderNames(nt, false)
                    },
                    MakeDeckFocus::SecondaryCommander => {
                        self.stage = OmniStage::CommanderNames;
                        OmniRequest::CommanderNames(nt, true)
                    },
                }
            },
            _ => OmniRequest::Done,
        }
    }

    /// Answers one key on the screen shown. The request says what the
    /// caller is to do next.
    pub fn handle_input(&mut self, c: KeyCode) -> (r: OmniRequest)
        requires
            old(self).wf(),
            old(self).stage is Idle,
            old(self).key_ok(c),
        ensures
            final(self).wf(),
            key_step(*old(self), c, *final(self), r),
    {
        match self.mode {
            Screen::MainMenu => match c {
                KeyCode::Esc => {
                    self.quit = true;
                    OmniRequest::Done
                },
                KeyCode::Up => {
                    let _ = self.slmm.previous();
                    OmniRequest::Done
                },
                KeyCode::Down => {
                    let _ = self.slmm.next();
                    OmniRequest::Done
                },
                KeyCode::Enter => {
                    let next = self.slmm.get().unwrap().next;
                    self.switch_mode(next)
                },
                _ => OmniRequest::Done,
            },
            Screen::OpenDeck => match c {
                KeyCode::Esc => {
                    self.mode = Screen::MainMenu;
                    OmniRequest::Done
                },
                KeyCode::Up => {
                    if self.slod.items.len() > 0 {
                        let _ = self.slod.previous();
                    }
                    OmniRequest::Done
                },
                KeyCode::Down => {
                    let _ = self.slod.next();
                    OmniRequest::Done
                },
                KeyCode::Enter => {
                    match self.slod.get() {
                        Some(d) => {
                            let did = d.id;
                            self.deck_id = did;
                            self.stage = OmniStage::Opening;
                            OmniRequest::ReadDeck(did)
                        },
                        None => OmniRequest::Done,
                    }
                },
                _ => OmniRequest::Done,
            },
            Screen::DeckOmni => self.deck_omni_key(c),
            Screen::DeckCard => self.card_list_key(false, c),
            Screen::DbFilter => self.db_filter_key(c),
            Screen::DbCards => self.card_list_key(true, c),
            Screen::MakeDeck => self.make_deck_key(c),
            Screen::DeckStat => {
                self.mode = Screen::DeckOmni;
                OmniRequest::Done
            },
            Screen::Error(_) => {
                match c {
                    KeyCode::Enter => {
                        self.mode = self.mode_p;
                    },
                    _ => {},
                }
                OmniRequest::Done
            },
            Screen::Settings => OmniRequest::Done,
        }
    }
}


impl AppState {
    /// Takes a list of card names for the deck list (or the database's when
    /// `db`), its first entry highlighted.
    fn fill(&mut self, db: bool, v: Vec<String>)
        requires
            old(self).wf(),
            db ==> !(old(self).mode is DbCards) || v@.len() > 0,
            !db ==> !(old(self).mode is DeckCard) || v@.len() > 0,
        ensures
            final(self).wf(),
            filled(if db { final(self).sldbc } else { final(self).sldc }, v@),
            db ==> *final(self) == (AppState { sldbc: final(self).sldbc, ..*old(self) }),
            !db ==> *final(self) == (AppState { sldc: final(self).sldc, ..*old(self) }),
    {
        let mut l = StatefulList::with_items(v);
        let _ = l.next();
        if db {
            self.sldbc = l;
        } else {
            self.sldc = l;
        }
    }

    /// Removes the cards named `ns` from the deck list, keeping its
    /// highlight inside it.
    fn prune(&mut self, ns: &Vec<String>)
        requires
            old(self).wf(),
        ensures
            names_wf(final(self).sldc),
            (final(self).sldc.items@, final(self).sldc.state.selected) == pruned(
                old(self).sldc.items@,
                old(self).sldc.state.selected,
                crate::text::views(ns@),
            ),
            *final(self) == (AppState { sldc: final(self).sldc, ..*old(self) }),
    {
        let ghost nv = crate::text::views(ns@);
        let mut j: usize = 0;
        while j < ns.len()
            invariant
                j <= ns@.len(),
                nv == crate::text::views(ns@),
                names_wf(self.sldc),
                (self.sldc.items@, self.sldc.state.selected) == pruned(
                    old(self).sldc.items@,
                    old(self).sldc.state.selected,
                    nv.take(j as int),
                ),
                *self == (AppState { sldc: self.sldc, ..*old(self) }),
            decreases ns.len() - j,
        {
            assert(nv.take(j + 1).drop_last() =~= nv.take(j as int));
            assert(nv.take(j + 1).last() == ns@[j as int]@);
            if self.sldc.state.selected.is_some() {
                self.sldc.remove_named(&ns[j]);
                let len = self.sldc.items.len();
                if len == 0 {
                    self.sldc.state.select(None);
                } else if self.sldc.state.selected.unwrap() >= len {
                    self.sldc.state.select(Some(len - 1));
                }
            }
            j += 1;
        }
        assert(nv.take(ns.len() as int) =~= nv);
    }

    /// Takes the answer to the last request and yields the next one.
    pub fn resume(&mut self, a: OmniAnswer) -> (r: OmniRequest)
        requires
            old(self).wf(),
        ensures
            final(self).wf(),
            answer_step(*old(self), a, *final(self), r),
    {
        let mut stage = OmniStage::Idle;
        std::mem::swap(&mut stage, &mut self.stage);
        match stage {
            OmniStage::Idle => OmniRequest::Done,
            OmniStage::Decks => match a {
                OmniAnswer::Decks(v) => {
                    let mut l = StatefulList::with_items(v);
                    let _ = l.next();
                    self.slod = l;
                    OmniRequest::Done
                },
                _ => OmniRequest::Done,
            },
            OmniStage::Opening => match a {
                OmniAnswer::Deck(Some(d)) => {
                    self.deck = Some(d);
                    self.dirty_deck = true;
                    self.init_deck_view()
                },
                _ => OmniRequest::Done,
            },
            OmniStage::InitNames => match a {
                OmniAnswer::Names(v) => {
                    let names = crate::text::clone_strings(&v);
                    self.contents = Some(names);
                    self.dirty_deck = false;
                    self.dirty_cards = Vec::new();
                    self.mode = leave_emptied(self.mode, false, v.len());
                    self.fill(false, v);
                    self.show_deck_card()
                },
                _ => OmniRequest::Done,
            },
            OmniStage::TabNames => match a {
                OmniAnswer::Names(v) => {
                    self.contents = Some(v);
                    self.dirty_deck = false;
                    self.dirty_cards = Vec::new();
                    self.show_db_card()
                },
                _ => OmniRequest::Done,
            },
            OmniStage::ShowCard => match a {
                OmniAnswer::Card(c) => {
                    self.ac = c;
                    OmniRequest::Done
                },
                _ => OmniRequest::Done,
            },
            OmniStage::Filter { db, then } => match a {
                OmniAnswer::Names(v) => {
                    self.mode = leave_emptied(self.mode, db, v.len());
                    self.fill(db, v);
                    match then {
                        Then::Nothing => OmniRequest::Done,
                        Then::DeckCard => self.show_deck_card(),
                        Then::DbCards => self.enter_db_cards(),
                    }
                },
                _ => OmniRequest::Done,
            },
            OmniStage::Toggled => match a {
                OmniAnswer::Card(Some(card)) => {
                    self.ac = Some(card);
                    OmniRequest::Done
                },
                _ => OmniRequest::Done,
            },
            OmniStage::Added => match a {
                OmniAnswer::Names(v) => {
                    let mut v = v;
                    self.dirty_deck = true;
                    self.dirty_cards.append(&mut v);
                    OmniRequest::Done
                },
                _ => OmniRequest::Done,
            },
            OmniStage::CommanderNames => match a {
                OmniAnswer::Names(v) => {
                    self.mdc.commander_names = v;
                    OmniRequest::Done
                },
                _ => OmniRequest::Done,
            },
            OmniStage::CheckCommander(n) => match a {
                OmniAnswer::Card(Some(card)) => {
                    if crate::text::contains_str(card.text.as_str(), "Partner") {
                        self.mdc.commander = n;
                        self.mdc.focus = MakeDeckFocus::SecondaryCommander;
                        OmniRequest::Done
                    } else {
                        self.stage = OmniStage::Created;
                        OmniRequest::CreateDeck(self.mdc.title.clone(), n, String::new())
                    }
                },
                OmniAnswer::Card(None) => {
                    self.mode_p = Screen::MakeDeck;
                    self.mode = Screen::Error(
                        "Commander name not found in database.\nPlease check spelling and try again.\nPress Enter to continue.",
                    );
                    OmniRequest::Done
                },
                _ => OmniRequest::Done,
            },
            OmniStage::CheckPartner(n) => match a {
                OmniAnswer::Card(c) => {
                    let partner = match c {
                        Some(_) => n,
                        None => String::new(),
                    };
                    self.stage = OmniStage::Created;
                    OmniRequest::CreateDeck(self.mdc.title.clone(), self.mdc.commander.clone(), partner)
                },
                _ => OmniRequest::Done,
            },
            OmniStage::Created => match a {
                OmniAnswer::DeckId(did) => {
                    self.deck_id = did;
                    self.mdc = MakeDeckContents::default();
                    self.init_deck_view()
                },
                _ => OmniRequest::Done,
            },
            OmniStage::RemoveRead => match a {
                OmniAnswer::Card(Some(card)) => {
                    let mut ns: Vec<String> = Vec::new();
                    match &card.lo {
                        CardLayout::Paired(_, _, n) => {
                            ns.push(n.clone());
                        },
                        CardLayout::Meld(s, n, m) => {
                            ns.push(m.clone());
                            if *s == 'b' {
                                ns.push(n.clone());
                            }
                        },
                        _ => {},
                    }
                    assert(crate::text::views(ns@) =~= leaving(card.lo));
                    self.prune(&ns);
                    self.mode = leave_emptied(self.mode, false, self.sldc.items.len());
                    let ghost before = ns@;
                    let ghost name = card.name@;
                    ns.push(card.name);
                    assert(crate::text::views(ns@) =~= crate::text::views(before).push(name));
                    self.dirty_deck = true;
                    self.stage = OmniStage::Removed;
                    OmniRequest::RemoveCards(ns, self.deck_id)
                },
                _ => OmniRequest::Done,
            },
            OmniStage::Removed => {
                match self.sldc.state.selected {
                    Some(i) => {
                        if i < self.sldc.items.len() {
                            match self.sldc.remove() {
                                Some(n) => {
                                    self.stage = OmniStage::ShowCard;
                                    OmniRequest::ReadDeckCard(n, self.deck_id)
                                },
                                None => {
                                    self.sldc.state.select(None);
                                    self.ac = None;
                                    self.mode = Screen::DeckOmni;
                                    OmniRequest::Done
                                },
                            }
                        } else {
                            self.ac = None;
                            self.mode = Screen::DeckOmni;
                            OmniRequest::Done
                        }
                    },
                    None => {
                        self.ac = None;
                        self.mode = Screen::DeckOmni;
                        OmniRequest::Done
                    },
                }
            },
            OmniStage::SwitchMeld { rel, rel2, general } => match a {
                OmniAnswer::Card(c) => {
                    let use_meld = match &c {
                        Some(meld) => match &meld.lo {
                            CardLayout::Meld(_, face, _) => str_eq(face.as_str(), rel.as_str()),
                            _ => false,
                        },
                        None => false,
                    };
                    let target = if use_meld {
                        rel2
                    } else {
                        rel
                    };
                    self.read_related(target, general)
                },
                _ => OmniRequest::Done,
            },
            OmniStage::SwitchDeck(rel) => match a {
                OmniAnswer::Card(Some(card)) => {
                    self.ac = Some(card);
                    OmniRequest::Done
                },
                OmniAnswer::Card(None) => {
                    self.stage = OmniStage::ShowCard;
                    OmniRequest::ReadCard(rel)
                },
                _ => OmniRequest::Done,
            },
        }
    }
}

} // verus!
