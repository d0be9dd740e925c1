//! The terminal interface as a state machine over its screens: the main
//! menu, the open-deck, create-deck, settings, deck and statistics screens.
//! A key moves the interface to its next state and yields a request; where
//! the request needs the card database, the caller runs it and hands the
//! answer back through `resume`.
pub mod omnibar;
pub mod util;

use vstd::prelude::*;
use crate::text::{char_len, push_str, string_from};
use crate::util::deck_view::{DeckView, DeckViewAnswer, DeckViewRequest, list_step, omni_step, resume_step, DeckViewSection};
use crate::util::views::{
    commander_step, create_key_step, open_deck_step, settings_step, Changes, CreateDeckRequest,
    CreateDeckView, DeckViewExit, KeyCode, OpenDeckView, OpenDeckViewExit, SettingsSection,
    SettingsView, TagChange, ViewExit,
};
use crate::util::{
    changes_applied, deck_added, deck_dropped, next_index, previous_index, recent_set, tag_added,
    Card, Deck, MainMenuItem, Screen, Settings, StatefulList,
};

verus! {

/// What the interface waits for.
pub enum AppStage {
    /// Nothing: the next key may come.
    Idle,
    /// The decks to list on the open-deck screen.
    Decks,
    /// The deck to open on the deck screen.
    Opening(i32),
    /// The deck whose settings screen opens; its name titles the screen.
    DeckSettings(i32),
    /// The commanders whose names match the typed text.
    Names,
    /// The commander to check.
    Commander,
    /// The id of the deck just created.
    Created,
    /// The answer to the deck screen's request.
    InDeck,
}

/// What the interface asks of its caller.
pub enum AppRequest {
    /// The key is handled.
    Done,
    /// Read all decks; answer `Decks`.
    ReadDecks,
    /// Delete this deck from the database; nothing is answered.
    DeleteDeck(i32),
    /// Read the deck of this id; answer `Deck`.
    ReadDeck(i32),
    /// The create-deck screen's request (a commander lookup, a card to check
    /// or the deck to create); answer `Names`, `Card` or `DeckId`.
    Create(CreateDeckRequest),
    /// The deck screen's request; answer `View`.
    Deck(DeckViewRequest),
    /// Apply these tag edits to the cards of this deck; nothing is answered.
    Retag(i32, Vec<TagChange>),
    /// Show the statistics of this deck; nothing is answered.
    Stats(i32),
}

/// The answer to a request.
pub enum AppAnswer {
    Decks(Vec<Deck>),
    Deck(Option<Deck>),
    Names(Option<Vec<String>>),
    Card(Option<Card>),
    DeckId(Option<i32>),
    View(DeckViewAnswer),
}

/// The interface: the screen shown, the one before it, the screens' states,
/// the main menu, the settings, whether to quit, and what it waits for.
pub struct AppState {
    pub mode: Screen,
    pub mode_p: Screen,
    pub deck_view: Option<DeckView>,
    pub settings_view: Option<SettingsView>,
    pub create_deck_view: CreateDeckView,
    pub open_deck_view: OpenDeckView,
    pub slmm: StatefulList<MainMenuItem>,
    pub settings: Settings,
    pub quit: bool,
    pub stage: AppStage,
}

impl AppState {
    /// Key `c` is one the screen shown can take: a text edit at a cursor
    /// that stands inside a character, or confirming an emptied last tag,
    /// is left out: such a key would panic.
    pub open spec fn key_ok(&self, c: KeyCode) -> bool {
        &&& self.mode == Screen::MakeDeck ==> self.create_deck_view.input_ok(c)
        &&& self.mode == Screen::Settings ==> (self.settings_view matches Some(sv) && sv.input_ok(c))
        &&& self.mode == Screen::DeckView ==> (self.deck_view matches Some(dv) && dv.input_ok(c))
    }

    /// The settings are consistent, each screen's state is, the main menu
    /// has a highlighted entry, and a screen shown (or to return to) exists.
    pub open spec fn wf(&self) -> bool {
        &&& self.settings.wf()
        &&& (self.slmm.state.selected matches Some(i) && i < self.slmm.items@.len())
        &&& self.open_deck_view.wf()
        &&& self.create_deck_view.wf()
        &&& (self.settings_view matches Some(sv) ==> sv.wf())
        &&& (self.deck_view matches Some(dv) ==> dv.wf())
        &&& (self.mode == Screen::DeckView || self.mode == Screen::DeckStat || self.mode_p
            != Screen::MainMenu || self.stage is InDeck) ==> self.deck_view is Some
        &&& self.mode == Screen::Settings ==> self.settings_view is Some
    }
}

/// The main menu for these settings: the most recent deck (when there is
/// one), then creating a deck, opening one, the settings, and quitting.
pub open spec fn menu_items(recent: i32) -> Seq<(Seq<char>, Option<Screen>)> {
    let rest = seq![
        ("Create a new deck"@, Some(Screen::MakeDeck)),
        ("Load a deck"@, Some(Screen::OpenDeck)),
        ("Settings"@, Some(Screen::Settings)),
        ("Quit"@, None::<Screen>),
    ];
    if recent > 0 {
        seq![("Load most recent deck"@, Some(Screen::DeckView))] + rest
    } else {
        rest
    }
}

/// The texts and targets of menu entries.
pub open spec fn menu_view(items: Seq<MainMenuItem>) -> Seq<(Seq<char>, Option<Screen>)> {
    items.map_values(|m: MainMenuItem| (m.text@, m.next))
}

/// `f` differs from `o` at most in its settings, the stage, and the request
/// it made is `r`: it opens deck `did`, first reading the deck.
pub open spec fn opens(o: AppState, did: i32, f: AppState, r: AppRequest) -> bool {
    &&& recent_set(o.settings, did, f.settings)
    &&& f.stage == AppStage::Opening(did)
    &&& r == AppRequest::ReadDeck(did)
    &&& f == AppState { settings: f.settings, stage: f.stage, ..o }
}

/// `f` is `o` with the global settings screen shown.
pub open spec fn global_settings_shown(o: AppState, f: AppState) -> bool {
    &&& f.settings_view matches Some(sv) && {
        &&& sv.wf()
        &&& sv.section == SettingsSection::Tags
        &&& sv.title@ == "Global Settings"@
        &&& sv.df == o.settings.global_spec().df
        &&& sv.ord == o.settings.global_spec().ordering
        &&& sv.oir == Some(false)
        &&& crate::text::views(sv.vt@) == crate::text::sorted_text(
            crate::text::views(o.settings.global_spec().tags@),
        ).push(crate::util::views::add_tag_text())
        &&& sv.vch@.len() == 0
    }
    &&& f == AppState { settings_view: f.settings_view, mode: Screen::Settings, ..o }
}

/// What choosing a main menu target does.
pub open spec fn switch_step(o: AppState, next: Option<Screen>, f: AppState, r: AppRequest) -> bool {
    match next {
        Some(Screen::MakeDeck) => f == AppState { mode: Screen::MakeDeck, ..o } && r is Done,
        Some(Screen::OpenDeck) => f == AppState { mode: Screen::OpenDeck, stage: AppStage::Decks, ..o }
            && r is ReadDecks,
        Some(Screen::Settings) => global_settings_shown(o, f) && r is Done,
        Some(Screen::MainMenu) => f == AppState { mode: Screen::MainMenu, ..o } && r is Done,
        Some(Screen::DeckView) => opens(o, o.settings.global_spec().recent, f, r),
        Some(_) => f == o && r is Done,
        None => f == AppState { quit: true, ..o } && r is Done,
    }
}

/// What the deck screen's request `q` leads to: a finished key reports its
/// exit to the interface, any other request is passed on.
pub open spec fn deck_request_step(o: AppState, q: DeckViewRequest, f: AppState, r: AppRequest) -> bool {
    match q {
        DeckViewRequest::Finish(e) => match e {
            DeckViewExit::Hold => f == AppState { stage: AppStage::Idle, ..o } && r is Done,
            DeckViewExit::MainMenu => f == AppState {
                stage: AppStage::Idle,
                mode: Screen::MainMenu,
                ..o
            } && r is Done,
            DeckViewExit::Stats => f == AppState {
                stage: AppStage::Idle,
                mode: Screen::DeckStat,
                ..o
            } && r == AppRequest::Stats(o.deck_view->0.cf.did),
            DeckViewExit::Settings(did) => f == AppState {
                stage: AppStage::DeckSettings(did),
                mode_p: Screen::DeckView,
                ..o
            } && r == AppRequest::ReadDeck(did),
            DeckViewExit::NewTag(s, did) => tag_added(o.settings, Some(did), s, f.settings) && f
                == AppState { stage: AppStage::Idle, settings: f.settings, ..o } && r is Done,
        },
        _ => f == AppState { stage: AppStage::InDeck, ..o } && r == AppRequest::Deck(q),
    }
}

/// What the create-deck screen's request `q` leads to.
pub open spec fn create_request_step(o: AppState, q: CreateDeckRequest, f: AppState, r: AppRequest) -> bool {
    match q {
        CreateDeckRequest::Hold => f == AppState { stage: AppStage::Idle, ..o } && r is Done,
        CreateDeckRequest::Cancel => f.create_deck_view.section
            == crate::util::views::CreateDeckSection::Title && f.create_deck_view.title@.len() == 0
            && f.create_deck_view.com1@.len() == 0 && f.create_deck_view.com2@.len() == 0
            && f.create_deck_view.vcn@.len() == 0 && f.create_deck_view.vpos.selected is None
            && f.create_deck_view.tpos == 0 && f == AppState {
            stage: AppStage::Idle,
            mode: Screen::MainMenu,
            create_deck_view: f.create_deck_view,
            ..o
        } && r is Done,
        CreateDeckRequest::LookupNames { .. } => f == AppState { stage: AppStage::Names, ..o } && r
            == AppRequest::Create(q),
        CreateDeckRequest::Classify(_) => f == AppState { stage: AppStage::Commander, ..o } && r
            == AppRequest::Create(q),
        CreateDeckRequest::CreateDeck { .. } => f == AppState { stage: AppStage::Created, ..o } && r
            == AppRequest::Create(q),
    }
}

/// One key on the interface in state `o` (waiting for nothing): it becomes
/// `f` and makes request `r`.
pub open spec fn key_step(o: AppState, c: KeyCode, f: AppState, r: AppRequest) -> bool {
    match o.mode {
        Screen::MainMenu => match c {
            KeyCode::Esc => f == AppState { quit: true, ..o } && r is Done,
            KeyCode::Up => f.slmm.items@ == o.slmm.items@ && f.slmm.state.selected == Some(
                previous_index(o.slmm.state.selected, o.slmm.items@.len()),
            ) && f == AppState { slmm: f.slmm, ..o } && r is Done,
            KeyCode::Down => f.slmm.items@ == o.slmm.items@ && f.slmm.state.selected == Some(
                next_index(o.slmm.state.selected, o.slmm.items@.len()),
            ) && f == AppState { slmm: f.slmm, ..o } && r is Done,
            KeyCode::Enter => switch_step(o, o.slmm.items@[o.slmm.state.selected->0 as int].next, f, r),
            _ => f == o && r is Done,
        },
        Screen::OpenDeck => exists|e: OpenDeckViewExit|
            {
                let m = AppState { open_deck_view: f.open_deck_view, ..o };
                &&& #[trigger] open_deck_step(o.open_deck_view, c, f.open_deck_view, e)
                &&& match e {
                    OpenDeckViewExit::Hold => f == m && r is Done,
                    OpenDeckViewExit::Cancel => f == AppState { mode: Screen::MainMenu, ..m } && r is Done,
                    OpenDeckViewExit::OpenDeck(did) => opens(m, did, f, r),
                    OpenDeckViewExit::DeleteDeck(did) => deck_dropped(o.settings, did, f.settings) && f
                        == AppState { settings: f.settings, ..m } && r == AppRequest::DeleteDeck(did),
                }
            },
        Screen::MakeDeck => exists|q: CreateDeckRequest, v: CreateDeckView|
            #[trigger] create_key_step(o.create_deck_view, c, v, q) && v.wf() && create_request_step(
                AppState { create_deck_view: v, ..o },
                q,
                f,
                r,
            ),
        Screen::DeckStat => f == AppState { mode: Screen::DeckView, ..o } && r is Done,
        Screen::Settings => {
            let sv = o.settings_view->0;
            {
                exists|e: ViewExit|
                    {
                        let nsv = f.settings_view->0;
                        let m = AppState { settings_view: f.settings_view, ..o };
                        &&& f.settings_view is Some
                        &&& #[trigger] settings_step(sv, c, f.settings_view->0, e)
                        &&& nsv.wf() && nsv.title == sv.title
                        &&& match e {
                            ViewExit::Save(ch) => if o.mode_p == Screen::MainMenu {
                                &&& (if ch.oir is Some {
                                    changes_applied(o.settings, ch, None, f.settings)
                                } else {
                                    f.settings == o.settings
                                })
                                &&& f == AppState { settings: f.settings, mode: Screen::MainMenu, ..m }
                                &&& r is Done
                            } else {
                                let did = o.deck_view->0.cf.did;
                                &&& changes_applied(o.settings, ch, Some(did), f.settings)
                                &&& f == AppState {
                                    settings: f.settings,
                                    deck_view: f.deck_view,
                                    mode_p: Screen::Settings,
                                    mode: Screen::DeckView,
                                    ..m
                                }
                                &&& f.deck_view matches Some(ndv) && ndv.wf() && {
                                    let odv = o.deck_view->0;
                                    if f.settings.decks_spec().contains_key(did) && crate::text::views(
                                        f.settings.decks_spec()[did].tags@,
                                    ).contains("main"@) {
                                        let ds = f.settings.decks_spec()[did];
                                        &&& ndv.cf.did == did && ndv.cf.color == odv.cf.color
                                        &&& ndv.cf.df == ds.df && ndv.cf.so == ds.ordering
                                        &&& ndv.settings.tags@ == ds.tags@
                                        &&& ndv.omni == odv.omni && ndv.slde == odv.slde
                                        &&& ndv.sldb == odv.sldb && ndv.dvs == odv.dvs
                                    } else {
                                        ndv == odv
                                    }
                                }
                                &&& (r matches AppRequest::Retag(d, v) && d == did && v@ == ch.vtch@)
                            },
                            ViewExit::Cancel => if o.mode_p == Screen::DeckView {
                                f == AppState { mode_p: Screen::Settings, mode: Screen::DeckView, ..m }
                                    && r is Done
                            } else {
                                f == AppState { mode: Screen::MainMenu, ..m } && r is Done
                            },
                            _ => f == m && r is Done,
                        }
                    }
            }
        },
        Screen::DeckView => {
            let dv = o.deck_view->0;
            {
            exists|q: DeckViewRequest|
                {
                    &&& f.deck_view is Some
                    &&& (dv.dvs == DeckViewSection::DeckOmni || dv.dvs == DeckViewSection::DbOmni
                        ==> omni_step(dv, c, f.deck_view->0, q))
                    &&& (dv.dvs == DeckViewSection::DeckCards || dv.dvs == DeckViewSection::DbCards
                        ==> list_step(dv, c, f.deck_view->0, q))
                    &&& f.deck_view->0.wf()
                    &&& #[trigger] deck_request_step(AppState { deck_view: f.deck_view, ..o }, q, f, r)
                }
            }
        },
    }
}


/// The deck screen opened on deck `did` of colors `color` with settings
/// `ds`, as `DeckView::new` makes it.
pub open spec fn fresh_deck_view(dv: DeckView, did: i32, color: Seq<char>, ds: crate::util::DeckSettings) -> bool {
    &&& dv.wf()
    &&& dv.stage is Opening
    &&& dv.dvs == DeckViewSection::DeckOmni
    &&& dv.omni@.len() == 0 && dv.omniprev@.len() == 0 && dv.omnipos == 0
    &&& dv.vsomni@.len() == 0 && dv.vcdec@.len() == 0
    &&& dv.slde.items@.len() == 0 && dv.sldb.items@.len() == 0
    &&& dv.ac is None
    &&& dv.cf.did == did && dv.cf.color@ == color
    &&& dv.cf.df == ds.df && dv.cf.so == ds.ordering
    &&& dv.settings.tags@ == ds.tags@
}

/// The interface in state `o` takes answer `a`: it becomes `f` and makes
/// request `r`. An answer of another kind than the one waited for ends the
/// wait.
pub open spec fn answer_step(o: AppState, a: AppAnswer, f: AppState, r: AppRequest) -> bool {
    let idle = AppState { stage: AppStage::Idle, ..o };
    match o.stage {
        AppStage::Idle => f == o && r is Done,
        AppStage::Decks => match a {
            AppAnswer::Decks(v) => f.open_deck_view.decks@ == v@ && !f.open_deck_view.deleting && (if v@.len()
                > 0 {
                f.open_deck_view.state.selected == Some(0usize)
            } else {
                f.open_deck_view.state.selected is None
            }) && f == AppState { open_deck_view: f.open_deck_view, ..idle } && r is Done,
            _ => f == idle && r is Done,
        },
        AppStage::Opening(did) => match a {
            AppAnswer::Deck(Some(d)) => if o.settings.decks_spec().contains_key(did)
                && crate::text::views(o.settings.decks_spec()[did].tags@).contains("main"@) {
                exists|q: DeckViewRequest|
                    {
                        &&& f.deck_view is Some
                        &&& fresh_deck_view(f.deck_view->0, did, d.color@, o.settings.decks_spec()[did])
                        &&& (q matches DeckViewRequest::ListNames(t) && t@ == crate::db::query_spec(
                            did,
                            d.color@,
                            o.settings.decks_spec()[did].df,
                            o.settings.decks_spec()[did].ordering,
                            false,
                            ""@,
                        ))
                        &&& #[trigger] deck_request_step(
                            AppState { deck_view: f.deck_view, mode: Screen::DeckView, ..idle },
                            q,
                            f,
                            r,
                        )
                    }
            } else {
                f == idle && r is Done
            },
            _ => f == idle && r is Done,
        },
        AppStage::DeckSettings(did) => match a {
            AppAnswer::Deck(Some(d)) => {
                &&& f.settings_view matches Some(sv) && {
                    &&& sv.wf()
                    &&& sv.section == SettingsSection::Tags
                    &&& sv.title@ == "Deck Settings for "@ + d.name@
                    &&& sv.df == (if o.settings.decks_spec().contains_key(did) {
                        o.settings.decks_spec()[did].df
                    } else {
                        o.settings.global_spec().df
                    })
                    &&& sv.ord == (if o.settings.decks_spec().contains_key(did) {
                        o.settings.decks_spec()[did].ordering
                    } else {
                        o.settings.global_spec().ordering
                    })
                    &&& sv.oir is None
                    &&& crate::text::views(sv.vt@) == crate::text::sorted_text(
                        crate::text::views(
                            if o.settings.decks_spec().contains_key(did) {
                                o.settings.decks_spec()[did].tags@
                            } else {
                                o.settings.global_spec().tags@
                            },
                        ),
                    ).push(crate::util::views::add_tag_text())
                    &&& sv.vch@.len() == 0
                }
                &&& f == AppState { settings_view: f.settings_view, mode: Screen::Settings, ..idle }
                &&& r is Done
            },
            _ => f == idle && r is Done,
        },
        AppStage::Names => match a {
            AppAnswer::Names(found) => {
                let (cv, ncv) = (o.create_deck_view, f.create_deck_view);
                &&& ncv.wf()
                &&& ncv.section == cv.section && ncv.title == cv.title && ncv.com1 == cv.com1
                &&& ncv.com2 == cv.com2 && ncv.tpos == cv.tpos
                &&& match found {
                    Some(vs) => ncv.vcn@ == vs@ && ncv.vpos.selected == if vs@.len() > 0 {
                        Some(0usize)
                    } else {
                        None
                    },
                    None => ncv.vcn@.len() == 0 && ncv.vpos.selected is None,
                }
                &&& f == AppState { create_deck_view: ncv, ..idle }
                &&& r is Done
            },
            _ => f == idle && r is Done,
        },
        AppStage::Commander => match a {
            AppAnswer::Card(Some(card)) => exists|q: CreateDeckRequest, v: CreateDeckView|
                #[trigger] commander_step(o.create_deck_view, card, v, q) && v.wf() && v.title
                    == o.create_deck_view.title && v.tpos == 0 && create_request_step(
                    AppState { create_deck_view: v, ..idle },
                    q,
                    f,
                    r,
                ),
            _ => f == idle && r is Done,
        },
        AppStage::Created => match a {
            AppAnswer::DeckId(Some(did)) => exists|m: AppState|
                {
                    &&& #[trigger] deck_added(o.settings, did, m.settings)
                    &&& m.create_deck_view.section == crate::util::views::CreateDeckSection::Title
                    &&& m.create_deck_view.title@.len() == 0 && m.create_deck_view.com1@.len() == 0
                    &&& m.create_deck_view.com2@.len() == 0 && m.create_deck_view.vcn@.len() == 0
                    &&& m.create_deck_view.vpos.selected is None && m.create_deck_view.tpos == 0
                    &&& m == AppState {
                        settings: m.settings,
                        create_deck_view: m.create_deck_view,
                        ..idle
                    }
                    &&& opens(m, did, f, r)
                },
            _ => f == idle && r is Done,
        },
        AppStage::InDeck => match a {
            AppAnswer::View(x) => exists|q: DeckViewRequest|
                {
                    &&& f.deck_view is Some
                    &&& resume_step(o.deck_view->0, x, f.deck_view->0, q)
                    &&& f.deck_view->0.wf()
                    &&& #[trigger] deck_request_step(AppState { deck_view: f.deck_view, ..idle }, q, f, r)
                },
            _ => f == idle && r is Done,
        },
    }
}

impl AppState {
    /// The interface on the main menu for these settings.
    pub fn new(settings: Settings) -> (r: AppState)
        requires
            settings.wf(),
        ensures
            r.wf(),
            r.mode == Screen::MainMenu && r.mode_p == Screen::MainMenu,
            r.deck_view is None && r.settings_view is None,
            r.settings == settings,
            !r.quit && r.stage is Idle,
            menu_view(r.slmm.items@) == menu_items(settings.global_spec().recent),
            r.slmm.state.selected == Some(0usize),
            r.open_deck_view.decks@.len() == 0 && r.open_deck_view.state.selected is None,
            !r.open_deck_view.deleting,
    {
        let recent = settings.rr();
        let mut items: Vec<MainMenuItem> = Vec::new();
        if recent > 0 {
            items.push(MainMenuItem::from_with_screen(string_from("Load most recent deck"), Screen::DeckView));
        }
        items.push(MainMenuItem::from_with_screen(string_from("Create a new deck"), Screen::MakeDeck));
        items.push(MainMenuItem::from_with_screen(string_from("Load a deck"), Screen::OpenDeck));
        items.push(MainMenuItem::from_with_screen(string_from("Settings"), Screen::Settings));
        items.push(MainMenuItem::from(string_from("Quit")));
        assert(menu_view(items@) =~= menu_items(recent));
        let mut slmm = StatefulList::with_items(items);
        slmm.next();
        AppState {
            mode: Screen::MainMenu,
            mode_p: Screen::MainMenu,
            deck_view: None,
            settings_view: None,
            create_deck_view: CreateDeckView::new(),
            open_deck_view: OpenDeckView::new(),
            slmm,
            settings,
            quit: false,
            stage: AppStage::Idle,
        }
    }

    /// Starts opening deck `did` on the deck screen: it becomes the most
    /// recent deck and is read first.
    fn init_deck_view(&mut self, did: i32) -> (r: AppRequest)
        requires
            old(self).wf(),
        ensures
            final(self).wf(),
            opens(*old(self), did, *final(self), r),
    {
        self.settings.sr(did);
        self.stage = AppStage::Opening(did);
        AppRequest::ReadDeck(did)
    }

    /// Shows the global settings screen.
    fn init_settings(&mut self)
        requires
            old(self).wf(),
        ensures
            final(self).wf(),
            global_settings_shown(*old(self), *final(self)),
    {
        let sv = SettingsView::new(
            self.settings.get_tags(),
            self.settings.rdf(None),
            self.settings.rso(None),
            string_from("Global Settings"),
            Some(false),
        );
        self.settings_view = Some(sv);
        self.mode = Screen::Settings;
    }

    /// Goes where a main menu entry leads.
    fn switch_mode(&mut self, next: Option<Screen>) -> (r: AppRequest)
        requires
            old(self).wf(),
            old(self).stage is Idle,
        ensures
            final(self).wf(),
            switch_step(*old(self), next, *final(self), r),
    {
        match next {
            Some(Screen::MakeDeck) => {
                self.mode = Screen::MakeDeck;
                AppRequest::Done
            },
            Some(Screen::OpenDeck) => {
                self.mode = Screen::OpenDeck;
                self.stage = AppStage::Decks;
                AppRequest::ReadDecks
            },
            Some(Screen::Settings) => {
                self.init_settings();
                AppRequest::Done
            },
            Some(Screen::MainMenu) => {
                self.mode = Screen::MainMenu;
                AppRequest::Done
            },
            Some(Screen::DeckView) => {
                let did = self.settings.rr();
                self.init_deck_view(did)
            },
            Some(_) => AppRequest::Done,
            None => {
                self.quit = true;
                AppRequest::Done
            },
        }
    }

    /// Takes the deck screen's request: a finished key's exit is acted on,
    /// any other request is passed on.
    fn deck_request(&mut self, q: DeckViewRequest) -> (r: AppRequest)
        requires
            old(self).wf(),
            old(self).deck_view is Some,
        ensures
            final(self).wf(),
            deck_request_step(*old(self), q, *final(self), r),
    {
        match q {
            DeckViewRequest::Finish(e) => {
                self.stage = AppStage::Idle;
                match e {
                    DeckViewExit::Hold => AppRequest::Done,
                    DeckViewExit::MainMenu => {
                        self.mode = Screen::MainMenu;
                        AppRequest::Done
                    },
                    DeckViewExit::Stats => {
                        self.mode = Screen::DeckStat;
                        let did = self.deck_view.as_ref().unwrap().rdid();
                        AppRequest::Stats(did)
                    },
                    DeckViewExit::Settings(did) => {
                        self.mode_p = Screen::DeckView;
                        self.stage = AppStage::DeckSettings(did);
                        AppRequest::ReadDeck(did)
                    },
                    DeckViewExit::NewTag(s, did) => {
                        let _ = self.settings.it(Some(did), s);
                        AppRequest::Done
                    },
                }
            },
            _ => {
                self.stage = AppStage::InDeck;
                AppRequest::Deck(q)
            },
        }
    }

    /// Takes the create-deck screen's request.
    fn create_request(&mut self, q: CreateDeckRequest) -> (r: AppRequest)
        requires
            old(self).wf(),
        ensures
            final(self).wf(),
            create_request_step(*old(self), q, *final(self), r),
    {
        match q {
            CreateDeckRequest::Hold => {
                self.stage = AppStage::Idle;
                AppRequest::Done
            },
            CreateDeckRequest::Cancel => {
                self.stage = AppStage::Idle;
                self.create_deck_view = CreateDeckView::new();
                self.mode = Screen::MainMenu;
                AppRequest::Done
            },
            CreateDeckRequest::LookupNames { .. } => {
                self.stage = AppStage::Names;
                AppRequest::Create(q)
            },
            CreateDeckRequest::Classify(_) => {
                self.stage = AppStage::Commander;
                AppRequest::Create(q)
            },
            CreateDeckRequest::CreateDeck { .. } => {
                self.stage = AppStage::Created;
                AppRequest::Create(q)
            },
        }
    }
}


impl AppState {
    /// Whether the screen shown can take key `c`.
    pub fn accepts(&self, c: KeyCode) -> (r: bool)
        requires
            self.wf(),
        ensures
            r == self.key_ok(c),
    {
        match self.mode {
            Screen::MakeDeck => self.create_deck_view.accepts(c),
            Screen::Settings => match &self.settings_view {
                Some(sv) => sv.accepts(c),
                None => false,
            },
            Screen::DeckView => match &self.deck_view {
                Some(dv) => dv.accepts(c),
                None => false,
            },
            _ => true,
        }
    }

    /// Answers one key on the screen shown. The request says what the caller
    /// is to do next.
    pub fn handle_input(&mut self, c: KeyCode) -> (r: AppRequest)
        requires
            old(self).wf(),
            old(self).stage is Idle,
            old(self).key_ok(c),
        ensures
            final(self).wf(),
            key_step(*old(self), c, *final(self), r),
    {
        match self.mode {
            Screen::MainMenu => match c {
                KeyCode::Esc => {
                    self.quit = true;
                    AppRequest::Done
                },
                KeyCode::Up => {
                    let _ = self.slmm.previous();
                    AppRequest::Done
                },
                KeyCode::Down => {
                    let _ = self.slmm.next();
                    AppRequest::Done
                },
                KeyCode::Enter => {
                    let next = self.slmm.get().unwrap().next;
                    self.switch_mode(next)
                },
                _ => AppRequest::Done,
            },
            Screen::OpenDeck => {
                let ghost o = *self;
                let e = self.open_deck_view.handle_input(c);
                let ghost m = *self;
                let r = match e {
                    OpenDeckViewExit::Hold => AppRequest::Done,
                    OpenDeckViewExit::Cancel => {
                        self.mode = Screen::MainMenu;
                        AppRequest::Done
                    },
                    OpenDeckViewExit::OpenDeck(did) => self.init_deck_view(did),
                    OpenDeckViewExit::DeleteDeck(did) => {
                        self.settings.dd(did);
                        AppRequest::DeleteDeck(did)
                    },
                };
                assert(open_deck_step(o.open_deck_view, c, self.open_deck_view, e));
                r
            },
            Screen::MakeDeck => {
                let q = self.create_deck_view.handle_input(c);
                let ghost gq = q;
                let ghost v = self.create_deck_view;
                assert(create_key_step(old(self).create_deck_view, c, v, gq));
                self.create_request(q)
            },
            Screen::DeckStat => {
                self.mode = Screen::DeckView;
                AppRequest::Done
            },
            Screen::Settings => self.settings_key(c),
            Screen::DeckView => {
                let mut odv: Option<DeckView> = None;
                std::mem::swap(&mut odv, &mut self.deck_view);
                let mut dv = odv.unwrap();
                let q = dv.handle_input(c);
                let ghost gq = q;
                self.deck_view = Some(dv);
                let r = self.deck_request(q);
                assert(deck_request_step(
                    AppState { deck_view: Some(dv), ..*old(self) },
                    gq,
                    *self,
                    r,
                ));
                r
            },
        }
    }

    /// A key on the settings screen.
    fn settings_key(&mut self, c: KeyCode) -> (r: AppRequest)
        requires
            old(self).wf(),
            old(self).stage is Idle,
            old(self).mode == Screen::Settings,
            old(self).key_ok(c),
        ensures
            final(self).wf(),
            key_step(*old(self), c, *final(self), r),
    {
        let mut osv: Option<SettingsView> = None;
        std::mem::swap(&mut osv, &mut self.settings_view);
        let mut sv = osv.unwrap();
        let e = sv.handle_input(c);
        let ghost ge = e;
        self.settings_view = Some(sv);
        let ghost m = *self;
        let r = match e {
            ViewExit::Save(changes) => {
                if self.mode_p == Screen::MainMenu {
                    if changes.oir.is_some() {
                        self.settings.change(&changes, None);
                    }
                    self.mode = Screen::MainMenu;
                    AppRequest::Done
                } else {
                    let mut odv: Option<DeckView> = None;
                    std::mem::swap(&mut odv, &mut self.deck_view);
                    let mut dv = odv.unwrap();
                    let did = dv.rdid();
                    self.settings.change(&changes, Some(did));
                    if self.settings.has_deck(did) {
                        let ds = self.settings.rds(did);
                        let main = string_from("main");
                        match ds.find_tag(&main) {
                            Some(i) => {
                                assert(crate::text::views(ds.tags@)[i as int] == "main"@);
                                dv.uct(ds);
                            },
                            None => {},
                        }
                    }
                    self.deck_view = Some(dv);
                    self.mode_p = Screen::Settings;
                    self.mode = Screen::DeckView;
                    AppRequest::Retag(did, changes.vtch)
                }
            },
            ViewExit::Cancel => {
                if self.mode_p == Screen::DeckView {
                    self.mode_p = Screen::Settings;
                    self.mode = Screen::DeckView;
                } else {
                    self.mode = Screen::MainMenu;
                }
                AppRequest::Done
            },
            _ => AppRequest::Done,
        };
        assert(settings_step(old(self).settings_view->0, c, self.settings_view->0, ge));
        r
    }

    /// Takes the answer to the last request and yields the next one.
    pub fn resume(&mut self, a: AppAnswer) -> (r: AppRequest)
        requires
            old(self).wf(),
        ensures
            final(self).wf(),
            answer_step(*old(self), a, *final(self), r),
    {
        let mut stage = AppStage::Idle;
        std::mem::swap(&mut stage, &mut self.stage);
        match stage {
            AppStage::Idle => AppRequest::Done,
            AppStage::Decks => match a {
                AppAnswer::Decks(v) => {
                    if v.len() == 0 {
                        self.open_deck_view.state.select(None);
                    }
                    self.open_deck_view.init(v);
                    AppRequest::Done
                },
                _ => AppRequest::Done,
            },
            AppStage::Opening(did) => match a {
                AppAnswer::Deck(Some(d)) => {
                    if self.settings.has_deck(did) {
                        let ds = self.settings.rds(did);
                        let main = string_from("main");
                        let found = ds.find_tag(&main);
                        if let Some(i) = found {
                            assert(crate::text::views(ds.tags@)[i as int] == "main"@);
                            let (dv, q) = DeckView::new(did, d.color.as_str(), ds);
                            let ghost gq = q;
                            self.deck_view = Some(dv);
                            self.mode = Screen::DeckView;
                            let ghost m = *self;
                            let r = self.deck_request(q);
                            assert(deck_request_step(m, gq, *self, r));
                            return r;
                        }
                    }
                    AppRequest::Done
                },
                _ => AppRequest::Done,
            },
            AppStage::DeckSettings(did) => match a {
                AppAnswer::Deck(Some(d)) => {
                    let mut title = string_from("Deck Settings for ");
                    push_str(&mut title, d.name.as_str());
                    let sv = SettingsView::new(
                        self.settings.get_tags_deck(did),
                        self.settings.rdf(Some(did)),
                        self.settings.rso(Some(did)),
                        title,
                        None,
                    );
                    self.settings_view = Some(sv);
                    self.mode = Screen::Settings;
                    AppRequest::Done
                },
                _ => AppRequest::Done,
            },
            AppStage::Names => match a {
                AppAnswer::Names(found) => {
                    self.create_deck_view.on_names(found);
                    AppRequest::Done
                },
                _ => AppRequest::Done,
            },
            AppStage::Commander => match a {
                AppAnswer::Card(Some(card)) => {
                    let ghost o = *self;
                    let q = self.create_deck_view.on_commander(&card);
                    let ghost gq = q;
                    let ghost v = self.create_deck_view;
                    assert(commander_step(o.create_deck_view, card, v, gq));
                    self.create_request(q)
                },
                _ => AppRequest::Done,
            },
            AppStage::Created => match a {
                AppAnswer::DeckId(Some(did)) => {
                    self.settings.id(did);
                    self.create_deck_view = CreateDeckView::new();
                    let ghost m = *self;
                    let r = self.init_deck_view(did);
                    assert(deck_added(old(self).settings, did, m.settings));
                    r
                },
                _ => AppRequest::Done,
            },
            AppStage::InDeck => match a {
                AppAnswer::View(x) => {
                    let mut odv: Option<DeckView> = None;
                    std::mem::swap(&mut odv, &mut self.deck_view);
                    let mut dv = odv.unwrap();
                    let q = dv.resume(x);
                    let ghost gq = q;
                    self.deck_view = Some(dv);
                    let ghost m = *self;
                    let r = self.deck_request(q);
                    assert(deck_request_step(m, gq, *self, r));
                    r
                },
                _ => AppRequest::Done,
            },
        }
    }
}

} // verus!
