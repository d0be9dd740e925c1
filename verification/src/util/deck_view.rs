//! The deck screen as a state machine. A key or an answer from the card
//! database moves it to its next state and yields the next request: either
//! the screen is done with the key (`Finish`), or the caller is to run a
//! database operation and hand its answer back through `resume`.
use vstd::prelude::*;
use crate::cards::trim_text;
use crate::db::{query_spec, CardFilter};
use crate::omni::strip_quotes;
use crate::text::{
    byte_len, byte_len_of, char_at_byte, edit_fits, edit_fits_exec, lemma_char_at_byte,
    string_insert_at_byte,
    string_remove_at_byte, capture_group1, char_len, chars_of, clone_strings, find_string, push_str, regex_group1,
    replace_chars, replace_spec, str_eq, string_from, string_insert, string_of, string_remove,
    views,
};
use crate::util::views::{DeckViewExit, KeyCode};
use crate::util::{next_index, previous_index, Card, CardLayout, Deck, DeckSettings, StatefulList};

verus! {

/// The parts of the deck screen: the omnibar and card list of the deck, and
/// those of the card database.
#[derive(Debug, Copy, Clone, PartialEq, Eq, Structural)]
pub enum DeckViewSection {
    DeckOmni,
    DeckCards,
    DbOmni,
    DbCards,
}

/// What the screen does once the card on show is known: focus the database
/// list when `focus_db`, the database's omnibar has the focus and the list
/// has a highlighted card, then report `exit`.
pub struct Tail {
    pub focus_db: bool,
    pub exit: DeckViewExit,
}

/// What the screen waits for.
pub enum DeckStage {
    /// Nothing: the next key may come.
    Idle,
    /// The deck's card names, to fill the deck list when the screen opens.
    Opening,
    /// Names for the deck list (`db` false) or the database list, which are
    /// then shown with the first highlighted.
    Refill { db: bool, then: Tail },
    /// The card highlighted in the active list.
    Current { then: Tail },
    /// The card to be removed from the deck.
    DeleteCard { cn: String },
    /// The deck, to check that the card is not one of its commanders.
    DeleteDeck { cn: String, card: String, lo: CardLayout },
    /// The removal of the card and those that came with it.
    Removing { flag: bool },
    /// The deck's card names after a removal.
    DeckNames { flag: bool },
    /// The deck list for the last deck query, keeping the highlight.
    Refresh,
    /// The card after its tag was toggled.
    Toggled,
    /// The names of the cards added with the card on show.
    Added,
    /// The related card to show.
    Related,
    /// The meld result of a meld front, to find which card to show.
    MeldFront { n: String, m: String },
    /// The card on show after its price was updated.
    Priced,
}

/// What the deck screen asks of its caller.
pub enum DeckViewRequest {
    /// The key is handled; report this.
    Finish(DeckViewExit),
    /// Read the names of the cards a query finds; answer `Names`.
    ListNames(String),
    /// Read the card of this name, with its tags in this deck if one is
    /// given; answer `Card` (`None` when it cannot be read).
    ReadCard(String, Option<i32>),
    /// Read the deck of this id; answer `Deck`.
    ReadDeck(i32),
    /// Remove these cards from the deck, in order; answer `Done`.
    RemoveCards(Vec<String>),
    /// Toggle the tag (second) on the deck's card (first); answer `Card`
    /// with the card as it now is.
    ToggleTag(String, String),
    /// Add the card on show, and those that come with it, to the deck;
    /// answer `Names` with the names of the cards added.
    AddShownCard,
    /// Look up the price of the card on show; answer `Card` with it
    /// re-read, or `None` when the lookup failed.
    UpdateShownPrice,
}

/// The answer to a request.
pub enum DeckViewAnswer {
    Names(Vec<String>),
    Card(Option<Card>),
    Deck(Option<Deck>),
    Done,
}

/// The deck screen: the omnibar text, the one typed in the other part, the
/// cursor (a character position), the search history, the deck and
/// database lists, the names of the deck's cards, the active tag, the card
/// on show, the filter, the part in focus, the deck's settings, and what it
/// waits for.
pub struct DeckView {
    pub omni: String,
    pub omniprev: String,
    pub omnipos: usize,
    pub vsomni: Vec<String>,
    pub slde: StatefulList<String>,
    pub sldb: StatefulList<String>,
    pub vcdec: Vec<String>,
    pub st: usize,
    pub ac: Option<Card>,
    pub cf: CardFilter,
    pub dvs: DeckViewSection,
    pub settings: DeckSettings,
    pub stage: DeckStage,
}

/// A list's highlight is inside it, and a list with entries has one.
pub open spec fn list_wf(l: StatefulList<String>) -> bool {
    &&& l.state.selected matches Some(i) ==> i < l.items@.len()
    &&& l.items@.len() > 0 ==> l.state.selected is Some
}

/// Whether a section is one of the database's.
pub open spec fn is_db(s: DeckViewSection) -> bool {
    s == DeckViewSection::DbOmni || s == DeckViewSection::DbCards
}

/// The text an omnibar Enter leaves after taking out a `/tag:name` command,
/// and the tag it names.
pub open spec fn entered_text(so: Seq<char>) -> (Seq<char>, Option<Seq<char>>) {
    match regex_group1("/tag:(\\w*)"@, so) {
        Some(t) => (replace_spec(replace_spec(so, "/tag:"@ + t, ""@), "  "@, " "@), Some(t)),
        None => (so, None),
    }
}

/// The omnibar text as Enter reads it: without surrounding white space.
pub open spec fn entered(omni: Seq<char>) -> Seq<char> {
    crate::cards::trim_spec(omni)
}

/// Whether entered text asks for the settings screen.
pub open spec fn is_settings_command(so: Seq<char>) -> bool {
    so == "/settings"@ || so == "/config"@
}

/// Whether Enter on this omnibar text searches (it is no screen command).
pub open spec fn is_search(omni: Seq<char>) -> bool {
    entered(omni) != "/stat"@ && !is_settings_command(entered(omni))
}

/// What an omnibar Enter reports: a new non-empty tag for deck `did`, or
/// nothing.
pub open spec fn tag_exit(e: DeckViewExit, tag: Option<Seq<char>>, did: i32) -> bool {
    match tag {
        Some(t) => if t.len() > 0 {
            e matches DeckViewExit::NewTag(x, d) && x@ == t && d == did
        } else {
            e is Hold
        },
        None => e is Hold,
    }
}

/// The search history after `s` is searched: moved to the end, or added.
pub open spec fn history_after(h: Seq<Seq<char>>, s: Seq<char>) -> Seq<Seq<char>> {
    if s.len() == 0 {
        h
    } else if h.contains(s) {
        let i = choose|i: int| 0 <= i < h.len() && h[i] == s && forall|j: int| 0 <= j < i ==> h[j] != s;
        h.remove(i).push(s)
    } else {
        h.push(s)
    }
}

impl DeckView {
    /// The cursor is inside the omnibar text, the active tag is one of the
    /// deck's tags, both lists are consistent, and a card list in focus has
    /// a highlighted entry.
    pub open spec fn wf(&self) -> bool {
        &&& self.omnipos <= byte_len(self.omni@)
        &&& self.st < self.settings.tags@.len()
        &&& list_wf(self.slde)
        &&& list_wf(self.sldb)
        &&& self.dvs == DeckViewSection::DeckCards ==> self.slde.items@.len() > 0
        &&& self.dvs == DeckViewSection::DbCards ==> self.sldb.items@.len() > 0
    }

    /// Key `c` edits the omnibar where its text can take the edit: a
    /// `String` edit at a byte inside a character would panic.
    pub open spec fn input_ok(&self, c: KeyCode) -> bool {
        (self.dvs == DeckViewSection::DeckOmni || self.dvs == DeckViewSection::DbOmni) ==> edit_fits(
            self.omni@,
            self.omnipos as int,
            c,
        )
    }

    /// Whether the screen can take key `c`.
    pub fn accepts(&self, c: KeyCode) -> (r: bool)
        ensures
            r == self.input_ok(c),
    {
        if self.dvs == DeckViewSection::DeckOmni || self.dvs == DeckViewSection::DbOmni {
            edit_fits_exec(self.omni.as_str(), self.omnipos, c)
        } else {
            true
        }
    }

    /// The list of the part in focus.
    pub open spec fn active_list(&self) -> StatefulList<String> {
        if is_db(self.dvs) {
            self.sldb
        } else {
            self.slde
        }
    }

    /// The query for the active list and the current omnibar text.
    pub open spec fn list_query(&self) -> Seq<char> {
        query_spec(self.cf.did, self.cf.color@, self.cf.df, self.cf.so, is_db(self.dvs), self.omni@)
    }

    /// A screen for deck `did` of colors `color` with its settings, which
    /// contain the tag `main`; it first asks for the deck's card names.
    pub fn new(did: i32, color: &str, settings: DeckSettings) -> (r: (DeckView, DeckViewRequest))
        requires
            views(settings.tags@).contains("main"@),
        ensures
            r.0.wf(),
            r.0.stage is Opening,
            r.0.dvs == DeckViewSection::DeckOmni,
            r.0.omni@.len() == 0 && r.0.omniprev@.len() == 0 && r.0.omnipos == 0,
            r.0.vsomni@.len() == 0 && r.0.vcdec@.len() == 0,
            r.0.slde.items@.len() == 0 && r.0.sldb.items@.len() == 0,
            r.0.ac is None,
            r.0.cf.did == did && r.0.cf.color@ == color@,
            r.0.cf.df == settings.df && r.0.cf.so == settings.ordering,
            r.0.settings.tags@ == settings.tags@,
            r.0.settings.tags@[r.0.st as int]@ == "main"@,
            r.1 matches DeckViewRequest::ListNames(q) && q@ == query_spec(
                did,
                color@,
                settings.df,
                settings.ordering,
                false,
                ""@,
            ),
    {
        let cf = CardFilter::from(did, color, settings.df, settings.ordering);
        let main = string_from("main");
        let st = match settings.find_tag(&main) {
            Some(i) => i,
            None => {
                proof {
                    assert(false);
                }
                0
            },
        };
        let q = cf.make_query(false, "");
        let v = DeckView {
            omni: String::new(),
            omniprev: String::new(),
            omnipos: 0,
            vsomni: Vec::new(),
            slde: StatefulList::new(),
            sldb: StatefulList::new(),
            vcdec: Vec::new(),
            st,
            ac: None,
            cf,
            dvs: DeckViewSection::DeckOmni,
            settings,
            stage: DeckStage::Opening,
        };
        (v, DeckViewRequest::ListNames(q))
    }

    /// The deck's id.
    pub fn rdid(&self) -> (r: i32)
        ensures
            r == self.cf.did,
    {
        self.cf.did
    }

    /// Reports `then.exit`, focusing the database list first when asked and
    /// it has a highlighted card.
    fn finish_tail(&mut self, then: Tail) -> (r: DeckViewRequest)
        requires
            old(self).wf(),
        ensures
            final(self).vsomni == old(self).vsomni && final(self).vcdec == old(self).vcdec,
            final(self).settings == old(self).settings && final(self).cf == old(self).cf,
            final(self).omniprev == old(self).omniprev,
            final(self).wf(),
            final(self).stage is Idle,
            r == DeckViewRequest::Finish(then.exit),
            final(self).dvs == if then.focus_db && old(self).dvs == DeckViewSection::DbOmni && old(self).sldb.state.selected is Some {
                DeckViewSection::DbCards
            } else {
                old(self).dvs
            },
            final(self).omni == old(self).omni && final(self).omnipos == old(self).omnipos,
            final(self).slde == old(self).slde && final(self).sldb == old(self).sldb,
            final(self).ac == old(self).ac && final(self).st == old(self).st,
    {
        if then.focus_db && self.dvs == DeckViewSection::DbOmni && self.sldb.state.selected().is_some() {
            self.dvs = DeckViewSection::DbCards;
        }
        self.stage = DeckStage::Idle;
        DeckViewRequest::Finish(then.exit)
    }

    /// Shows the card highlighted in the active list: asks for it, or, with
    /// nothing highlighted, shows none and finishes with `then`.
    fn uac(&mut self, then: Tail) -> (r: DeckViewRequest)
        requires
            old(self).wf(),
        ensures
            final(self).vsomni == old(self).vsomni && final(self).vcdec == old(self).vcdec,
            final(self).settings == old(self).settings && final(self).cf == old(self).cf,
            final(self).omniprev == old(self).omniprev,
            final(self).wf(),
            final(self).omni == old(self).omni && final(self).omnipos == old(self).omnipos,
            final(self).slde == old(self).slde && final(self).sldb == old(self).sldb,
            final(self).st == old(self).st,
            match old(self).active_list().state.selected {
                Some(i) => final(self).dvs == old(self).dvs
                    && (final(self).stage matches DeckStage::Current { then: t } && t == then)
                    && (r matches DeckViewRequest::ReadCard(n, d)
                    && n@ == old(self).active_list().items@[i as int]@
                    && d == Some(old(self).cf.did)),
                None => final(self).ac is None && final(self).stage is Idle
                    && r == DeckViewRequest::Finish(then.exit)
                    && final(self).dvs == if then.focus_db && old(self).dvs == DeckViewSection::DbOmni && old(self).sldb.state.selected is Some {
                        DeckViewSection::DbCards
                    } else {
                        old(self).dvs
                    },
            },
    {
        let sel = if self.dvs == DeckViewSection::DbOmni || self.dvs == DeckViewSection::DbCards {
            match self.sldb.state.selected() {
                Some(i) => Some(self.sldb.items[i].clone()),
                None => None,
            }
        } else {
            match self.slde.state.selected() {
                Some(i) => Some(self.slde.items[i].clone()),
                None => None,
            }
        };
        match sel {
            Some(n) => {
                self.stage = DeckStage::Current { then };
                DeckViewRequest::ReadCard(n, Some(self.cf.did))
            },
            None => {
                self.ac = None;
                self.finish_tail(then)
            },
        }
    }

    /// Asks for the names the omnibar text finds in the active part; the
    /// list is then refilled and its first card shown.
    fn uvc(&mut self, then: Tail) -> (r: DeckViewRequest)
        requires
            old(self).wf(),
        ensures
            final(self).vsomni == old(self).vsomni && final(self).vcdec == old(self).vcdec,
            final(self).settings == old(self).settings && final(self).cf == old(self).cf,
            final(self).omniprev == old(self).omniprev,
            final(self).wf(),
            final(self).omni == old(self).omni && final(self).omnipos == old(self).omnipos,
            final(self).slde == old(self).slde && final(self).sldb == old(self).sldb,
            final(self).dvs == old(self).dvs && final(self).st == old(self).st,
            final(self).ac == old(self).ac,
            final(self).stage matches DeckStage::Refill { db, then: t } && db == is_db(old(self).dvs)
                && t == then,
            r matches DeckViewRequest::ListNames(q) && q@ == old(self).list_query(),
    {
        let db = self.dvs == DeckViewSection::DbOmni || self.dvs == DeckViewSection::DbCards;
        let q = self.cf.make_query(db, self.omni.as_str());
        self.stage = DeckStage::Refill { db, then };
        DeckViewRequest::ListNames(q)
    }

    /// After an omnibar edit: the deck's part searches again, the
    /// database's waits for Enter.
    fn after_edit(&mut self) -> (r: DeckViewRequest)
        requires
            old(self).wf(),
        ensures
            final(self).vsomni == old(self).vsomni && final(self).vcdec == old(self).vcdec,
            final(self).settings == old(self).settings && final(self).cf == old(self).cf,
            final(self).omniprev == old(self).omniprev,
            final(self).wf(),
            final(self).omni == old(self).omni && final(self).omnipos == old(self).omnipos,
            final(self).slde == old(self).slde && final(self).sldb == old(self).sldb,
            final(self).dvs == old(self).dvs && final(self).st == old(self).st,
            final(self).ac == old(self).ac,
            old(self).dvs == DeckViewSection::DeckOmni ==> (r matches DeckViewRequest::ListNames(q)
                && q@ == old(self).list_query()),
            old(self).dvs != DeckViewSection::DeckOmni ==> r == DeckViewRequest::Finish(
                DeckViewExit::Hold,
            ) && final(self).stage is Idle,
            old(self).dvs == DeckViewSection::DeckOmni ==> (final(self).stage matches DeckStage::Refill { db, then }
                && !db && !then.focus_db && then.exit is Hold),
    {
        if self.dvs == DeckViewSection::DeckOmni {
            self.uvc(Tail { focus_db: false, exit: DeckViewExit::Hold })
        } else {
            self.stage = DeckStage::Idle;
            DeckViewRequest::Finish(DeckViewExit::Hold)
        }
    }
}

impl DeckView {
    /// Keeps a card list in focus non-empty: an emptied one hands the focus
    /// back to its omnibar.
    fn fix_focus(&mut self)
        requires
            old(self).omnipos <= byte_len(old(self).omni@),
            old(self).st < old(self).settings.tags@.len(),
            list_wf(old(self).slde),
            list_wf(old(self).sldb),
        ensures
            final(self).wf(),
            final(self).omni == old(self).omni && final(self).omnipos == old(self).omnipos,
            final(self).slde == old(self).slde && final(self).sldb == old(self).sldb,
            final(self).ac == old(self).ac && final(self).st == old(self).st,
            final(self).vcdec == old(self).vcdec && final(self).vsomni == old(self).vsomni,
            final(self).settings == old(self).settings && final(self).cf == old(self).cf,
            final(self).omniprev == old(self).omniprev && final(self).stage == old(self).stage,
            final(self).dvs == if old(self).dvs == DeckViewSection::DeckCards && old(self).slde.items@.len() == 0 {
                DeckViewSection::DeckOmni
            } else if old(self).dvs == DeckViewSection::DbCards && old(self).sldb.items@.len() == 0 {
                DeckViewSection::DbOmni
            } else {
                old(self).dvs
            },
    {
        if self.dvs == DeckViewSection::DeckCards && self.slde.items.len() == 0 {
            self.dvs = DeckViewSection::DeckOmni;
        }
        if self.dvs == DeckViewSection::DbCards && self.sldb.items.len() == 0 {
            self.dvs = DeckViewSection::DbOmni;
        }
    }

    /// Adds a tag to the deck and makes it the active one.
    fn insert_tag(&mut self, tag: String)
        requires
            old(self).wf(),
        ensures
            final(self).wf(),
            views(final(self).settings.tags@).contains(tag@),
            final(self).settings.tags@[final(self).st as int]@ == tag@,
            views(old(self).settings.tags@).contains(tag@)
                ==> final(self).settings.tags@ == old(self).settings.tags@,
            !views(old(self).settings.tags@).contains(tag@) ==> views(final(self).settings.tags@)
                == crate::text::sorted_text(views(old(self).settings.tags@).push(tag@)),
            final(self).omni == old(self).omni && final(self).omnipos == old(self).omnipos,
            final(self).slde == old(self).slde && final(self).sldb == old(self).sldb,
            final(self).dvs == old(self).dvs && final(self).ac == old(self).ac,
            final(self).vsomni == old(self).vsomni && final(self).vcdec == old(self).vcdec,
            final(self).cf == old(self).cf,
    {
        let t2 = tag.clone();
        self.settings.add_tag(tag);
        match self.settings.find_tag(&t2) {
            Some(i) => {
                self.st = i;
            },
            None => {},
        }
    }

    /// Takes a `/tag:name` command out of the entered text `so`, creating
    /// the tag; returns the text left and the tag.
    fn take_tag(&mut self, so: String) -> (r: (String, Option<String>))
        requires
            old(self).wf(),
        ensures
            final(self).wf(),
            r.0@ == entered_text(so@).0,
            match r.1 {
                Some(t) => entered_text(so@).1 == Some(t@)
                    && final(self).settings.tags@[final(self).st as int]@ == t@,
                None => entered_text(so@).1 is None
                    && final(self).settings.tags@ == old(self).settings.tags@
                    && final(self).st == old(self).st,
            },
            final(self).omni == old(self).omni && final(self).omnipos == old(self).omnipos,
            final(self).slde == old(self).slde && final(self).sldb == old(self).sldb,
            final(self).dvs == old(self).dvs && final(self).ac == old(self).ac,
            final(self).vsomni == old(self).vsomni && final(self).vcdec == old(self).vcdec,
            final(self).cf == old(self).cf,
    {
        match capture_group1("/tag:(\\w*)", so.as_str()) {
            Some(t) => {
                let mut pat = string_from("/tag:");
                push_str(&mut pat, t.as_str());
                proof {
                    reveal_strlit("/tag:");
                    reveal_strlit("  ");
                    reveal_strlit("");
                }
                let sc = chars_of(so.as_str());
                let pc = chars_of(pat.as_str());
                let empty: Vec<char> = Vec::new();
                assert(empty@ =~= ""@);
                let s1 = replace_chars(&sc, &pc, &empty);
                let two = chars_of("  ");
                let one = chars_of(" ");
                let s2 = replace_chars(&s1, &two, &one);
                self.insert_tag(t.clone());
                (string_of(&s2), Some(t))
            },
            None => (so, None),
        }
    }

    /// Puts the omnibar text at the end of the search history.
    fn record_search(&mut self)
        requires
            old(self).wf(),
        ensures
            final(self).wf(),
            views(final(self).vsomni@) == history_after(views(old(self).vsomni@), old(self).omni@),
            final(self).omni == old(self).omni && final(self).omnipos == old(self).omnipos,
            final(self).slde == old(self).slde && final(self).sldb == old(self).sldb,
            final(self).dvs == old(self).dvs && final(self).ac == old(self).ac,
            final(self).settings.tags@ == old(self).settings.tags@ && final(self).st == old(self).st,
            final(self).vcdec == old(self).vcdec && final(self).cf == old(self).cf,
    {
        if char_len(self.omni.as_str()) > 0 {
            let ghost h0 = views(self.vsomni@);
            match find_string(&self.vsomni, self.omni.as_str()) {
                Some(i) => {
                    proof {
                        lemma_first_choice(h0, self.omni@, i as int);
                    }
                    self.vsomni.remove(i);
                    assert(views(self.vsomni@) =~= h0.remove(i as int));
                },
                None => {},
            }
            let ghost h1 = views(self.vsomni@);
            self.vsomni.push(self.omni.clone());
            assert(views(self.vsomni@) =~= h1.push(self.omni@));
        }
    }

    /// Enter in the omnibar: `/stat` and `/settings` (or `/config`) leave
    /// the screen; otherwise a `/tag:name` command creates the tag, the text
    /// is searched (the database's part shows its results, focused when it
    /// found any), and it joins the search history.
    fn enter(&mut self) -> (r: DeckViewRequest)
        requires
            old(self).wf(),
            old(self).dvs == DeckViewSection::DeckOmni || old(self).dvs == DeckViewSection::DbOmni,
        ensures
            final(self).wf(),
            enter_step(*old(self), *final(self), r),
    {
        let so = trim_text(self.omni.as_str());
        proof {
            reveal_strlit("/stat");
            reveal_strlit("/settings");
            reveal_strlit("/config");
            assert("/stat"@.len() != "/settings"@.len());
            assert("/stat"@.len() != "/config"@.len());
        }
        if str_eq(so.as_str(), "/stat") {
            self.stage = DeckStage::Idle;
            return DeckViewRequest::Finish(DeckViewExit::Stats);
        }
        if str_eq(so.as_str(), "/settings") || str_eq(so.as_str(), "/config") {
            self.stage = DeckStage::Idle;
            return DeckViewRequest::Finish(DeckViewExit::Settings(self.cf.did));
        }
        let ghost so_v = so@;
        assert(so_v == entered(old(self).omni@));
        assert(is_search(old(self).omni@));
        let (text, tag) = self.take_tag(so);
        assert(text@ == entered_text(so_v).0);
        let ghost v1 = self.vsomni@;
        assert(v1 == old(self).vsomni@);
        self.omni = text;
        let n = byte_len_of(self.omni.as_str());
        if self.omnipos > n {
            self.omnipos = n;
        }
        self.record_search();
        assert(views(self.vsomni@) == history_after(views(old(self).vsomni@), self.omni@));
        let exit = match &tag {
            Some(t) => {
                if char_len(t.as_str()) > 0 {
                    DeckViewExit::NewTag(self.settings.tags[self.st].clone(), self.cf.did)
                } else {
                    DeckViewExit::Hold
                }
            },
            None => DeckViewExit::Hold,
        };
        if self.dvs == DeckViewSection::DbOmni {
            self.uvc(Tail { focus_db: true, exit })
        } else {
            if self.slde.items.len() > 0 {
                self.dvs = DeckViewSection::DeckCards;
            }
            self.stage = DeckStage::Idle;
            DeckViewRequest::Finish(exit)
        }
    }
}

/// The first index of `s` in `h` is the one `history_after` picks.
proof fn lemma_first_choice(h: Seq<Seq<char>>, s: Seq<char>, i: int)
    requires
        0 <= i < h.len(),
        h[i] == s,
        forall|j: int| 0 <= j < i ==> h[j] != s,
    ensures
        h.contains(s),
        (choose|k: int| 0 <= k < h.len() && h[k] == s && forall|j: int| 0 <= j < k ==> h[j] != s)
            == i,
{
    let k = choose|k: int| 0 <= k < h.len() && h[k] == s && forall|j: int| 0 <= j < k ==> h[j] != s;
    assert(0 <= k < h.len() && h[k] == s && forall|j: int| 0 <= j < k ==> h[j] != s);
    if k < i {
        assert(h[k] != s);
    }
    if i < k {
        assert(h[i] != s);
    }
}

/// What Enter in the omnibar does: `/stat` and `/settings` (or `/config`)
/// leave the screen; otherwise a `/tag:name` command creates the tag, the
/// text is searched (the database's part shows its results, focused when
/// it found any), and it joins the search history.
pub open spec fn enter_step(o: DeckView, f: DeckView, r: DeckViewRequest) -> bool {
    let so = entered(o.omni@);
    let (text, tag) = entered_text(so);
    if so == "/stat"@ {
        r == DeckViewRequest::Finish(DeckViewExit::Stats) && f.omni == o.omni && f.dvs == o.dvs
            && f.stage is Idle
    } else if is_settings_command(so) {
        r == DeckViewRequest::Finish(DeckViewExit::Settings(o.cf.did)) && f.omni == o.omni
            && f.dvs == o.dvs && f.stage is Idle
    } else {
        &&& f.omni@ == text
        &&& f.omnipos == if o.omnipos <= byte_len(text) {
            o.omnipos as int
        } else {
            byte_len(text) as int
        }
        &&& views(f.vsomni@) == history_after(views(o.vsomni@), text)
        &&& (tag matches Some(t) ==> f.settings.tags@[f.st as int]@ == t)
        &&& (tag is None ==> f.settings.tags@ == o.settings.tags@ && f.st == o.st)
        &&& f.slde == o.slde && f.sldb == o.sldb
        &&& if o.dvs == DeckViewSection::DbOmni {
            &&& f.dvs == o.dvs
            &&& (r matches DeckViewRequest::ListNames(q) && q@ == query_spec(
                o.cf.did,
                o.cf.color@,
                o.cf.df,
                o.cf.so,
                true,
                text,
            ))
            &&& (f.stage matches DeckStage::Refill { db, then } && db && then.focus_db
                && tag_exit(then.exit, tag, o.cf.did))
        } else {
            &&& f.dvs == if o.slde.items@.len() > 0 {
                DeckViewSection::DeckCards
            } else {
                o.dvs
            }
            &&& (r matches DeckViewRequest::Finish(e) && tag_exit(e, tag, o.cf.did))
            &&& f.stage is Idle
        }
    }
}

/// The position of the first copy of `s` in `h`.
pub open spec fn first_index(h: Seq<Seq<char>>, s: Seq<char>) -> Option<int>
    decreases h.len(),
{
    if h.len() == 0 {
        None
    } else if h[0] == s {
        Some(0)
    } else {
        match first_index(h.drop_first(), s) {
            Some(i) => Some(i + 1),
            None => None,
        }
    }
}

proof fn lemma_first_index(h: Seq<Seq<char>>, s: Seq<char>, k: int)
    requires
        0 <= k <= h.len(),
        forall|j: int| 0 <= j < k ==> h[j] != s,
    ensures
        k < h.len() && h[k] == s ==> first_index(h, s) == Some(k),
        k == h.len() ==> first_index(h, s) is None,
    decreases k,
{
    if k > 0 {
        lemma_first_index(h.drop_first(), s, k - 1);
    }
}

/// The search Up recalls: the one before the current text in the history,
/// or the last one when the text is not in it.
pub open spec fn history_up(h: Seq<Seq<char>>, s: Seq<char>) -> Option<Seq<char>> {
    match first_index(h, s) {
        Some(i) => if i > 0 {
            Some(h[i - 1])
        } else {
            None
        },
        None => if h.len() > 0 {
            Some(h.last())
        } else {
            None
        },
    }
}

/// The search Down recalls: the one after the current text, or an empty
/// text after the last one; nothing when the text is not in the history.
pub open spec fn history_down(h: Seq<Seq<char>>, s: Seq<char>) -> Option<Seq<char>> {
    match first_index(h, s) {
        Some(i) => if i < h.len() - 1 {
            Some(h[i + 1])
        } else {
            Some(Seq::<char>::empty())
        },
        None => None,
    }
}

/// What the screen keeps through a key that does not touch the deck: its
/// settings, active tag, lists, card names and filter.
pub open spec fn same_model(o: DeckView, f: DeckView) -> bool {
    &&& f.settings == o.settings
    &&& f.st == o.st
    &&& f.slde == o.slde
    &&& f.sldb == o.sldb
    &&& f.vcdec == o.vcdec
    &&& f.cf == o.cf
    &&& f.vsomni == o.vsomni
}

/// After an omnibar edit: in the deck's part, a search for the new text
/// whose results refill the deck list; in the database's, nothing more.
pub open spec fn edit_request(o: DeckView, f: DeckView, r: DeckViewRequest) -> bool {
    if o.dvs == DeckViewSection::DeckOmni {
        &&& (r matches DeckViewRequest::ListNames(q) && q@ == f.list_query())
        &&& (f.stage matches DeckStage::Refill { db, then } && !db && !then.focus_db
            && then.exit is Hold)
        &&& f.ac == o.ac
    } else {
        r == DeckViewRequest::Finish(DeckViewExit::Hold) && f.stage is Idle && f.ac == o.ac
    }
}

/// A key finished with nothing else changed.
pub open spec fn unchanged_finish(o: DeckView, f: DeckView, r: DeckViewRequest, e: DeckViewExit) -> bool {
    &&& same_model(o, f)
    &&& f.omni == o.omni && f.omniprev == o.omniprev && f.omnipos == o.omnipos
    &&& f.dvs == o.dvs && f.ac == o.ac
    &&& r == DeckViewRequest::Finish(e)
    &&& f.stage is Idle
}

/// The text a recalled search puts in the omnibar, with the cursor at its
/// end, followed by the edit request; no recall changes nothing.
pub open spec fn recall_step(o: DeckView, f: DeckView, r: DeckViewRequest, t: Option<Seq<char>>) -> bool {
    match t {
        Some(t) => same_model(o, f) && f.omni@ == t && f.omnipos == byte_len(t) && f.omniprev
            == o.omniprev && f.dvs == o.dvs && edit_request(o, f, r),
        None => unchanged_finish(o, f, r, DeckViewExit::Hold),
    }
}

/// What a key does in the omnibar (other than Enter).
pub open spec fn omni_step(o: DeckView, c: KeyCode, f: DeckView, r: DeckViewRequest) -> bool {
    let len = byte_len(o.omni@);
    let p = o.omnipos as int;
    let edited = same_model(o, f) && f.omniprev == o.omniprev && f.dvs == o.dvs && edit_request(o, f, r);
    match c {
        KeyCode::Left => if p > 0 {
            same_model(o, f) && f.omni == o.omni && f.omniprev == o.omniprev && f.omnipos == p - 1
                && f.dvs == o.dvs && f.ac == o.ac && r == DeckViewRequest::Finish(DeckViewExit::Hold)
                && f.stage is Idle
        } else {
            unchanged_finish(o, f, r, DeckViewExit::Hold)
        },
        KeyCode::Right => if p < len {
            same_model(o, f) && f.omni == o.omni && f.omniprev == o.omniprev && f.omnipos == p + 1
                && f.dvs == o.dvs && f.ac == o.ac && r == DeckViewRequest::Finish(DeckViewExit::Hold)
                && f.stage is Idle
        } else {
            unchanged_finish(o, f, r, DeckViewExit::Hold)
        },
        KeyCode::Home => same_model(o, f) && f.omni == o.omni && f.omniprev == o.omniprev && f.omnipos
            == 0 && f.dvs == o.dvs && f.ac == o.ac && r == DeckViewRequest::Finish(DeckViewExit::Hold)
            && f.stage is Idle,
        KeyCode::End => same_model(o, f) && f.omni == o.omni && f.omniprev == o.omniprev && f.omnipos
            == len && f.dvs == o.dvs && f.ac == o.ac && r == DeckViewRequest::Finish(DeckViewExit::Hold)
            && f.stage is Idle,
        KeyCode::Char(ch) => edited && f.omni@ == o.omni@.insert(char_at_byte(o.omni@, p)->0, ch)
            && f.omnipos == p + 1,
        KeyCode::Delete => edited && f.omnipos == p && f.omni@ == if p < len {
            o.omni@.remove(char_at_byte(o.omni@, p)->0)
        } else {
            o.omni@
        },
        KeyCode::Backspace => edited && if p > 0 {
            f.omni@ == o.omni@.remove(char_at_byte(o.omni@, p - 1)->0) && f.omnipos == p - 1
        } else {
            f.omni == o.omni && f.omnipos == p
        },
        KeyCode::Up => recall_step(o, f, r, history_up(views(o.vsomni@), o.omni@)),
        KeyCode::Down => recall_step(o, f, r, history_down(views(o.vsomni@), o.omni@)),
        KeyCode::Esc => unchanged_finish(o, f, r, DeckViewExit::MainMenu),
        KeyCode::Tab => {
            &&& same_model(o, f)
            &&& f.omni == o.omniprev && f.omniprev == o.omni && f.omnipos == 0
            &&& f.dvs == if o.dvs == DeckViewSection::DbOmni {
                DeckViewSection::DeckOmni
            } else {
                DeckViewSection::DbOmni
            }
            &&& f.shows_current(r)
        },
        KeyCode::Enter => enter_step(o, f, r),
        _ => unchanged_finish(o, f, r, DeckViewExit::Hold),
    }
}

impl DeckView {
    /// After moving in a list: the card now highlighted in the active list
    /// is asked for, or none is shown.
    pub open spec fn shows_current(&self, r: DeckViewRequest) -> bool {
        match self.active_list().state.selected {
            Some(i) => (r matches DeckViewRequest::ReadCard(n, d) && n@
                == self.active_list().items@[i as int]@ && d == Some(self.cf.did))
                && (self.stage matches DeckStage::Current { then } && !then.focus_db
                && then.exit is Hold),
            None => self.ac is None && self.stage is Idle && r == DeckViewRequest::Finish(
                DeckViewExit::Hold,
            ),
        }
    }

    /// Recalls a search into the omnibar.
    fn recall(&mut self, t: Option<String>) -> (r: DeckViewRequest)
        requires
            old(self).wf(),
            old(self).dvs == DeckViewSection::DeckOmni || old(self).dvs == DeckViewSection::DbOmni,
        ensures
            final(self).wf(),
            recall_step(
                *old(self),
                *final(self),
                r,
                match t {
                    Some(s) => Some(s@),
                    None => None,
                },
            ),
    {
        match t {
            Some(s) => {
                self.omnipos = byte_len_of(s.as_str());
                self.omni = s;
                self.after_edit()
            },
            None => {
                self.stage = DeckStage::Idle;
                DeckViewRequest::Finish(DeckViewExit::Hold)
            },
        }
    }

    /// The search Up recalls.
    fn history_up_exec(&self) -> (r: Option<String>)
        ensures
            match r {
                Some(s) => history_up(views(self.vsomni@), self.omni@) == Some(s@),
                None => history_up(views(self.vsomni@), self.omni@) is None,
            },
    {
        let ghost h = views(self.vsomni@);
        match find_string(&self.vsomni, self.omni.as_str()) {
            Some(i) => {
                proof {
                    lemma_first_index(h, self.omni@, i as int);
                }
                if i > 0 {
                    Some(self.vsomni[i - 1].clone())
                } else {
                    None
                }
            },
            None => {
                proof {
                    lemma_first_index(h, self.omni@, h.len() as int);
                }
                let n = self.vsomni.len();
                if n > 0 {
                    Some(self.vsomni[n - 1].clone())
                } else {
                    None
                }
            },
        }
    }

    /// The search Down recalls.
    fn history_down_exec(&self) -> (r: Option<String>)
        ensures
            match r {
                Some(s) => history_down(views(self.vsomni@), self.omni@) == Some(s@),
                None => history_down(views(self.vsomni@), self.omni@) is None,
            },
    {
        let ghost h = views(self.vsomni@);
        match find_string(&self.vsomni, self.omni.as_str()) {
            Some(i) => {
                proof {
                    lemma_first_index(h, self.omni@, i as int);
                }
                if i < self.vsomni.len() - 1 {
                    Some(self.vsomni[i + 1].clone())
                } else {
                    Some(String::new())
                }
            },
            None => {
                proof {
                    lemma_first_index(h, self.omni@, h.len() as int);
                }
                None
            },
        }
    }

    /// A key in the omnibar, other than Enter.
    fn omni_key(&mut self, c: KeyCode) -> (r: DeckViewRequest)
        requires
            old(self).wf(),
            old(self).input_ok(c),
            old(self).dvs == DeckViewSection::DeckOmni || old(self).dvs == DeckViewSection::DbOmni,
        ensures
            final(self).wf(),
            omni_step(*old(self), c, *final(self), r),
    {
        match c {
            KeyCode::Left => {
                if self.omnipos > 0 {
                    self.omnipos -= 1;
                }
                self.stage = DeckStage::Idle;
                DeckViewRequest::Finish(DeckViewExit::Hold)
            },
            KeyCode::Right => {
                if self.omnipos < byte_len_of(self.omni.as_str()) {
                    self.omnipos += 1;
                }
                self.stage = DeckStage::Idle;
                DeckViewRequest::Finish(DeckViewExit::Hold)
            },
            KeyCode::Home => {
                self.omnipos = 0;
                self.stage = DeckStage::Idle;
                DeckViewRequest::Finish(DeckViewExit::Hold)
            },
            KeyCode::End => {
                self.omnipos = byte_len_of(self.omni.as_str());
                self.stage = DeckStage::Idle;
                DeckViewRequest::Finish(DeckViewExit::Hold)
            },
            KeyCode::Char(ch) => {
                let t = string_insert_at_byte(&self.omni, self.omnipos, ch);
                self.omni = t;
                self.omnipos += 1;
                self.after_edit()
            },
            KeyCode::Delete => {
                if self.omnipos < byte_len_of(self.omni.as_str()) {
                    proof {
                        lemma_char_at_byte(self.omni@, self.omnipos as int);
                        assert(self.omni@.take(self.omni@.len() as int) =~= self.omni@);
                    }
                    let t = string_remove_at_byte(&self.omni, self.omnipos);
                    self.omni = t;
                }
                self.after_edit()
            },
            KeyCode::Backspace => {
                if self.omnipos > 0 {
                    proof {
                        lemma_char_at_byte(self.omni@, self.omnipos - 1);
                        assert(self.omni@.take(self.omni@.len() as int) =~= self.omni@);
                    }
                    let t = string_remove_at_byte(&self.omni, self.omnipos - 1);
                    self.omni = t;
                    self.omnipos -= 1;
                }
                self.after_edit()
            },
            KeyCode::Up => {
                let t = self.history_up_exec();
                self.recall(t)
            },
            KeyCode::Down => {
                let t = self.history_down_exec();
                self.recall(t)
            },
            KeyCode::Esc => {
                self.stage = DeckStage::Idle;
                DeckViewRequest::Finish(DeckViewExit::MainMenu)
            },
            KeyCode::Tab => {
                std::mem::swap(&mut self.omni, &mut self.omniprev);
                self.omnipos = 0;
                if self.dvs == DeckViewSection::DbOmni {
                    self.dvs = DeckViewSection::DeckOmni;
                } else {
                    self.dvs = DeckViewSection::DbOmni;
                }
                self.uac(Tail { focus_db: false, exit: DeckViewExit::Hold })
            },
            KeyCode::Enter => self.enter(),
            _ => {
                self.stage = DeckStage::Idle;
                DeckViewRequest::Finish(DeckViewExit::Hold)
            },
        }
    }
}

/// Everything but the lists and the card on show is as it was.
pub open spec fn same_but_lists(o: DeckView, f: DeckView) -> bool {
    &&& f.settings == o.settings && f.st == o.st && f.vcdec == o.vcdec && f.cf == o.cf
    &&& f.vsomni == o.vsomni && f.omni == o.omni && f.omniprev == o.omniprev
    &&& f.omnipos == o.omnipos && f.dvs == o.dvs
}

/// Moving the highlight of the active list to `sel`; the other list stays.
pub open spec fn moved_to(o: DeckView, f: DeckView, sel: usize) -> bool {
    let l = o.active_list();
    let fl = f.active_list();
    &&& same_but_lists(o, f)
    &&& fl.items@ == l.items@ && fl.state.selected == Some(sel)
    &&& if is_db(o.dvs) {
        f.slde == o.slde
    } else {
        f.sldb == o.sldb
    }
}

/// A request that waits on the database with nothing else changed.
pub open spec fn asks(o: DeckView, f: DeckView) -> bool {
    same_model(o, f) && f.omni == o.omni && f.omniprev == o.omniprev && f.omnipos == o.omnipos
        && f.dvs == o.dvs && f.ac == o.ac
}

/// Space on a card: show its other face, or the other part of its meld
/// (a meld front asks for the meld result first, to find its partner).
pub open spec fn related_step(o: DeckView, f: DeckView, r: DeckViewRequest) -> bool {
    match o.ac {
        Some(card) => match card.lo {
            CardLayout::Paired(_, _, n) => asks(o, f) && (r matches DeckViewRequest::ReadCard(x, d)
                && x@ == n@ && d == Some(o.cf.did)) && f.stage is Related,
            CardLayout::Meld(side, n, m) => if side == 'b' {
                asks(o, f) && (r matches DeckViewRequest::ReadCard(x, d) && x@ == n@ && d == Some(
                    o.cf.did,
                )) && f.stage is Related
            } else {
                asks(o, f) && (r matches DeckViewRequest::ReadCard(x, d) && x@ == m@ && d is None)
                    && (f.stage matches DeckStage::MeldFront { n: a, m: b } && a@ == n@ && b@
                    == m@)
            },
            _ => unchanged_finish(o, f, r, DeckViewExit::Hold),
        },
        None => unchanged_finish(o, f, r, DeckViewExit::Hold),
    }
}

/// What a key does in a card list.
pub open spec fn list_step(o: DeckView, c: KeyCode, f: DeckView, r: DeckViewRequest) -> bool {
    let l = o.active_list();
    let n = o.settings.tags@.len();
    match c {
        KeyCode::Up => moved_to(o, f, previous_index(l.state.selected, l.items@.len()))
            && f.shows_current(r),
        KeyCode::Down => moved_to(o, f, next_index(l.state.selected, l.items@.len()))
            && f.shows_current(r),
        KeyCode::Right => same_model_but_tag(o, f) && f.st == (if o.st + 1 >= n {
            0
        } else {
            o.st + 1
        }) && r == DeckViewRequest::Finish(DeckViewExit::Hold) && f.stage is Idle,
        KeyCode::Left => same_model_but_tag(o, f) && f.st == (if o.st > 0 {
            o.st - 1
        } else {
            n - 1
        }) && r == DeckViewRequest::Finish(DeckViewExit::Hold) && f.stage is Idle,
        KeyCode::Delete => asks(o, f) && (r matches DeckViewRequest::ReadCard(x, d) && x@
            == l.items@[l.state.selected->0 as int]@ && d is None) && (f.stage matches DeckStage::DeleteCard {
            cn,
        } && cn@ == l.items@[l.state.selected->0 as int]@),
        KeyCode::Enter => match o.ac {
            Some(card) => if views(o.vcdec@).contains(card.name@) {
                asks(o, f) && (r matches DeckViewRequest::ToggleTag(x, t) && x@ == card.name@ && t@
                    == o.settings.tags@[o.st as int]@) && f.stage is Toggled
            } else {
                asks(o, f) && r is AddShownCard && f.stage is Added
            },
            None => unchanged_finish(o, f, r, DeckViewExit::Hold),
        },
        KeyCode::Esc => unchanged_finish(o, f, r, DeckViewExit::MainMenu),
        KeyCode::Tab => same_model(o, f) && f.omni == o.omni && f.omnipos == o.omnipos && f.ac
            == o.ac && f.dvs == (if o.dvs == DeckViewSection::DeckCards {
            DeckViewSection::DeckOmni
        } else {
            DeckViewSection::DbOmni
        }) && r == DeckViewRequest::Finish(DeckViewExit::Hold) && f.stage is Idle,
        KeyCode::Char(ch) => if ch == ' ' {
            related_step(o, f, r)
        } else if ch == 'u' {
            match o.ac {
                Some(card) => if card.stale {
                    asks(o, f) && r is UpdateShownPrice && f.stage is Priced
                } else {
                    unchanged_finish(o, f, r, DeckViewExit::Hold)
                },
                None => unchanged_finish(o, f, r, DeckViewExit::Hold),
            }
        } else {
            unchanged_finish(o, f, r, DeckViewExit::Hold)
        },
        _ => unchanged_finish(o, f, r, DeckViewExit::Hold),
    }
}

/// Only the active tag changed.
pub open spec fn same_model_but_tag(o: DeckView, f: DeckView) -> bool {
    &&& f.settings == o.settings && f.slde == o.slde && f.sldb == o.sldb && f.vcdec == o.vcdec
    &&& f.cf == o.cf && f.vsomni == o.vsomni && f.omni == o.omni && f.omnipos == o.omnipos
    &&& f.dvs == o.dvs && f.ac == o.ac
}

/// The active tag cycles through the deck's tags: moving it right takes
/// the next tag, wrapping after the last, and moving it left again comes
/// back to the same tag.
pub proof fn lemma_tag_cycle(o: DeckView, f: DeckView, g: DeckView, r1: DeckViewRequest, r2: DeckViewRequest)
    requires
        o.wf(),
        list_step(o, KeyCode::Right, f, r1),
        list_step(f, KeyCode::Left, g, r2),
    ensures
        f.settings == o.settings,
        g.settings == o.settings,
        g.st == o.st,
        f.st == (o.st + 1) % (o.settings.tags@.len() as int),
{
    let n = o.settings.tags@.len() as int;
    let x = o.st + 1;
    if x < n {
        assert(x % n == x) by (nonlinear_arith)
            requires
                0 <= x < n,
        ;
    } else {
        assert(x % n == 0) by (nonlinear_arith)
            requires
                x == n,
                n > 0,
        ;
    }
}

impl DeckView {
    /// Space on a card: asks for its related card.
    fn uacr(&mut self) -> (r: DeckViewRequest)
        requires
            old(self).wf(),
        ensures
            final(self).wf(),
            related_step(*old(self), *final(self), r),
    {
        let did = self.cf.did;
        let req = match &self.ac {
            Some(card) => match &card.lo {
                CardLayout::Paired(_, _, n) => Some((n.clone(), Some(did), None)),
                CardLayout::Meld(side, n, m) => {
                    if *side == 'b' {
                        Some((n.clone(), Some(did), None))
                    } else {
                        Some((m.clone(), None, Some((n.clone(), m.clone()))))
                    }
                },
                _ => None,
            },
            None => None,
        };
        match req {
            Some((name, d, front)) => {
                match front {
                    Some((n, m)) => {
                        self.stage = DeckStage::MeldFront { n, m };
                    },
                    None => {
                        self.stage = DeckStage::Related;
                    },
                }
                DeckViewRequest::ReadCard(name, d)
            },
            None => {
                self.stage = DeckStage::Idle;
                DeckViewRequest::Finish(DeckViewExit::Hold)
            },
        }
    }

    /// A key in a card list.
    fn list_key(&mut self, c: KeyCode) -> (r: DeckViewRequest)
        requires
            old(self).wf(),
            old(self).dvs == DeckViewSection::DeckCards || old(self).dvs == DeckViewSection::DbCards,
        ensures
            final(self).wf(),
            list_step(*old(self), c, *final(self), r),
    {
        let db = self.dvs == DeckViewSection::DbCards;
        match c {
            KeyCode::Up => {
                if db {
                    self.sldb.previous();
                } else {
                    self.slde.previous();
                }
                self.uac(Tail { focus_db: false, exit: DeckViewExit::Hold })
            },
            KeyCode::Down => {
                if db {
                    self.sldb.next();
                } else {
                    self.slde.next();
                }
                self.uac(Tail { focus_db: false, exit: DeckViewExit::Hold })
            },
            KeyCode::Right => {
                let n = self.settings.tags.len();
                self.st += 1;
                if self.st >= n {
                    self.st = 0;
                }
                self.stage = DeckStage::Idle;
                DeckViewRequest::Finish(DeckViewExit::Hold)
            },
            KeyCode::Left => {
                if self.st > 0 {
                    self.st -= 1;
                } else {
                    self.st = self.settings.tags.len() - 1;
                }
                self.stage = DeckStage::Idle;
                DeckViewRequest::Finish(DeckViewExit::Hold)
            },
            KeyCode::Delete => {
                let cn = if db {
                    let i = self.sldb.state.selected().unwrap();
                    self.sldb.items[i].clone()
                } else {
                    let i = self.slde.state.selected().unwrap();
                    self.slde.items[i].clone()
                };
                self.stage = DeckStage::DeleteCard { cn: cn.clone() };
                DeckViewRequest::ReadCard(cn, None)
            },
            KeyCode::Enter => {
                let req = match &self.ac {
                    Some(card) => {
                        if find_string(&self.vcdec, card.name.as_str()).is_some() {
                            Some(Some((card.name.clone(), self.settings.tags[self.st].clone())))
                        } else {
                            Some(None)
                        }
                    },
                    None => None,
                };
                proof {
                    if self.ac is Some {
                        let nm = self.ac->0.name@;
                        if views(self.vcdec@).contains(nm) {
                            let k = choose|k: int| 0 <= k < views(self.vcdec@).len() && views(self.vcdec@)[k] == nm;
                            assert(self.vcdec@[k]@ == nm);
                        }
                    }
                }
                match req {
                    Some(Some((name, tag))) => {
                        self.stage = DeckStage::Toggled;
                        DeckViewRequest::ToggleTag(name, tag)
                    },
                    Some(None) => {
                        self.stage = DeckStage::Added;
                        DeckViewRequest::AddShownCard
                    },
                    None => {
                        self.stage = DeckStage::Idle;
                        DeckViewRequest::Finish(DeckViewExit::Hold)
                    },
                }
            },
            KeyCode::Esc => {
                self.stage = DeckStage::Idle;
                DeckViewRequest::Finish(DeckViewExit::MainMenu)
            },
            KeyCode::Tab => {
                if self.dvs == DeckViewSection::DeckCards {
                    self.dvs = DeckViewSection::DeckOmni;
                } else {
                    self.dvs = DeckViewSection::DbOmni;
                }
                self.stage = DeckStage::Idle;
                DeckViewRequest::Finish(DeckViewExit::Hold)
            },
            KeyCode::Char(' ') => self.uacr(),
            KeyCode::Char('u') => {
                let stale = match &self.ac {
                    Some(card) => card.stale,
                    None => false,
                };
                if stale {
                    self.stage = DeckStage::Priced;
                    DeckViewRequest::UpdateShownPrice
                } else {
                    self.stage = DeckStage::Idle;
                    DeckViewRequest::Finish(DeckViewExit::Hold)
                }
            },
            _ => {
                self.stage = DeckStage::Idle;
                DeckViewRequest::Finish(DeckViewExit::Hold)
            },
        }
    }

    /// Answers one key: in the omnibar, edits, recalls and searches; in a
    /// card list, moves, cycles the active tag, removes, tags or adds the
    /// card, or shows its related card. The request says what the caller is
    /// to do next.
    pub fn handle_input(&mut self, c: KeyCode) -> (r: DeckViewRequest)
        requires
            old(self).wf(),
            old(self).input_ok(c),
        ensures
            final(self).wf(),
            old(self).dvs == DeckViewSection::DeckOmni || old(self).dvs == DeckViewSection::DbOmni
                ==> omni_step(*old(self), c, *final(self), r),
            old(self).dvs == DeckViewSection::DeckCards || old(self).dvs == DeckViewSection::DbCards
                ==> list_step(*old(self), c, *final(self), r),
    {
        if self.dvs == DeckViewSection::DeckOmni || self.dvs == DeckViewSection::DbOmni {
            self.omni_key(c)
        } else {
            self.list_key(c)
        }
    }
}

/// A refilled list's highlight: the first entry equal to the one
/// highlighted before, else the first one; none in an empty list.
pub open spec fn kept_highlight(
    old_items: Seq<String>,
    old_sel: Option<usize>,
    items: Seq<String>,
    sel: Option<usize>,
) -> bool {
    if items.len() == 0 {
        sel is None
    } else {
        match old_sel {
            None => sel == Some(0usize),
            Some(a) => {
                let was = old_items[a as int]@;
                match sel {
                    Some(j) => j < items.len() && ((items[j as int]@ == was && forall|k: int|
                        0 <= k < j ==> items[k]@ != was) || (j == 0 && forall|k: int|
                        0 <= k < items.len() ==> items[k]@ != was)),
                    None => false,
                }
            },
        }
    }
}

/// A list after its highlighted entry `a` is removed.
pub open spec fn after_remove(items: Seq<String>, a: usize) -> (Seq<String>, Option<usize>) {
    let it = items.remove(a as int);
    if it.len() == 0 {
        (it, None)
    } else {
        (it, Some(if a == it.len() { (a - 1) as usize } else { a }))
    }
}

/// A list after the entry named `s` is removed by name (the list's
/// `remove_named`), which only happens while an entry is highlighted.
pub open spec fn after_remove_named(items: Seq<String>, sel: Option<usize>, s: Seq<char>) -> (Seq<String>, Option<usize>) {
    match sel {
        None => (items, sel),
        Some(a) => match crate::util::last_label_index(items, s) {
            Some(j) => if j < 999999 {
                (items.remove(j), Some(if j < a { (a - 1) as usize } else { a }))
            } else {
                (items, sel)
            },
            None => (items, sel),
        },
    }
}

/// A highlight past the end of a list moves to its last entry (none in an
/// empty list).
pub open spec fn clamped(items: Seq<String>, sel: Option<usize>) -> (Seq<String>, Option<usize>) {
    match sel {
        Some(i) => if i >= items.len() {
            (items, if items.len() == 0 { None } else { Some((items.len() - 1) as usize) })
        } else {
            (items, sel)
        },
        None => (items, sel),
    }
}

/// The deck list after the card highlighted at `a` is removed from the
/// deck, with the cards that leave with it.
pub open spec fn pruned(items: Seq<String>, a: usize, lo: CardLayout) -> (Seq<String>, Option<usize>) {
    let (p, q) = pruned_raw(items, a, lo);
    clamped(p, q)
}

/// The deck list after the removals, before the highlight is brought back
/// inside it.
pub open spec fn pruned_raw(items: Seq<String>, a: usize, lo: CardLayout) -> (Seq<String>, Option<usize>) {
    let (i1, s1) = after_remove(items, a);
    match lo {
        CardLayout::Paired(_, _, n) => after_remove_named(i1, s1, n@),
        CardLayout::Meld(side, n, m) => {
            let (i2, s2) = after_remove_named(i1, s1, m@);
            if side == 'b' {
                after_remove_named(i2, s2, n@)
            } else {
                (i2, s2)
            }
        },
        _ => (i1, s1),
    }
}

/// The cards that leave a deck with a card of layout `lo`.
pub open spec fn leaving_with(lo: CardLayout) -> Seq<Seq<char>> {
    match lo {
        CardLayout::Paired(_, _, n) => seq![n@],
        CardLayout::Meld(side, n, m) => if side == 'b' {
            seq![m@, n@]
        } else {
            seq![m@]
        },
        _ => Seq::<Seq<char>>::empty(),
    }
}

/// The query that lists the deck with the given omnibar text.
pub open spec fn deck_query(o: DeckView, text: Seq<char>) -> Seq<char> {
    query_spec(o.cf.did, o.cf.color@, o.cf.df, o.cf.so, false, text)
}

/// The card shown after a database answer: the highlighted card of the
/// active list is asked for, or, with none, none is shown and `then`
/// finishes.
pub open spec fn shows_then(f: DeckView, r: DeckViewRequest, then: Tail, o: DeckView) -> bool {
    match f.active_list().state.selected {
        Some(i) => (r matches DeckViewRequest::ReadCard(n, d) && n@ == f.active_list().items@[i as int]@
            && d == Some(f.cf.did)) && (f.stage matches DeckStage::Current { then: t } && t == then),
        None => f.ac is None && f.stage is Idle && r == DeckViewRequest::Finish(then.exit),
    }
}

/// Finishing with `then` after the card on show is known.
pub open spec fn tail_done(o: DeckView, f: DeckView, r: DeckViewRequest, then: Tail) -> bool {
    &&& f.dvs == if then.focus_db && o.dvs == DeckViewSection::DbOmni && o.sldb.state.selected is Some {
        DeckViewSection::DbCards
    } else {
        o.dvs
    }
    &&& r == DeckViewRequest::Finish(then.exit)
    &&& f.stage is Idle
}

/// The card on show after an answer that may bring one: a card replaces it,
/// a failed read leaves it.
pub open spec fn shown_after(o: DeckView, f: DeckView, c: Option<Card>) -> bool {
    match c {
        Some(card) => f.ac == Some(card),
        None => f.ac == o.ac,
    }
}

/// What an answer from the database does, by what the screen waited for.
pub open spec fn resume_step(o: DeckView, a: DeckViewAnswer, f: DeckView, r: DeckViewRequest) -> bool {
    let did = o.cf.did;
    match o.stage {
        DeckStage::Opening => match a {
            DeckViewAnswer::Names(v) => {
                &&& f.vcdec@ == v@ && f.slde.items@ == v@ && f.sldb == o.sldb
                &&& f.dvs == if o.dvs == DeckViewSection::DeckCards && v@.len() == 0 {
                    DeckViewSection::DeckOmni
                } else {
                    o.dvs
                }
                &&& if v@.len() > 0 {
                    &&& f.slde.state.selected == Some(0usize)
                    &&& (r matches DeckViewRequest::ReadCard(n, d) && n@ == v@[0]@ && d == Some(did))
                    &&& (f.stage matches DeckStage::Current { then } && !then.focus_db && then.exit is Hold)
                } else {
                    r == DeckViewRequest::Finish(DeckViewExit::Hold) && f.stage is Idle
                }
            },
            _ => r == DeckViewRequest::Finish(DeckViewExit::Hold) && f.stage is Idle,
        },
        DeckStage::Refill { db, then } => match a {
            DeckViewAnswer::Names(v) => {
                let fl = if db { f.sldb } else { f.slde };
                &&& fl.items@ == v@
                &&& fl.state.selected == if v@.len() > 0 { Some(0usize) } else { None }
                &&& (if db { f.slde == o.slde } else { f.sldb == o.sldb })
                &&& f.vcdec == o.vcdec
                &&& (if (o.dvs == DeckViewSection::DeckCards && !db && v@.len() == 0)
                    || (o.dvs == DeckViewSection::DbCards && db && v@.len() == 0) {
                    true
                } else {
                    f.dvs == o.dvs || (then.focus_db && f.dvs == DeckViewSection::DbCards)
                })
                &&& shows_then(f, r, then, o)
            },
            _ => r == DeckViewRequest::Finish(DeckViewExit::Hold) && f.stage is Idle,
        },
        DeckStage::Current { then } => match a {
            DeckViewAnswer::Card(c) => f.ac == c && tail_done(o, f, r, then) && f.slde == o.slde
                && f.sldb == o.sldb,
            _ => r == DeckViewRequest::Finish(DeckViewExit::Hold) && f.stage is Idle,
        },
        DeckStage::DeleteCard { cn } => match a {
            DeckViewAnswer::Card(Some(c)) => asks(o, f) && r == DeckViewRequest::ReadDeck(did)
                && (f.stage matches DeckStage::DeleteDeck { cn: x, card, lo } && x == cn && card@
                == c.name@ && lo == c.lo),
            _ => r == DeckViewRequest::Finish(DeckViewExit::Hold) && f.stage is Idle && f.ac == o.ac,
        },
        DeckStage::DeleteDeck { cn, card, lo } => match a {
            DeckViewAnswer::Deck(Some(d)) => if d.commander.name@ == card@ || (d.commander2 matches Some(c2)
                && c2.name@ == card@) || !views(o.vcdec@).contains(cn@) {
                r == DeckViewRequest::Finish(DeckViewExit::Hold) && f.stage is Idle && f.vcdec == o.vcdec
                    && f.slde == o.slde
            } else {
                let flag = o.dvs == DeckViewSection::DeckCards;
                &&& views(f.vcdec@) == crate::db::remove_first(views(o.vcdec@), cn@)
                &&& (r matches DeckViewRequest::RemoveCards(names) && views(names@) == seq![cn@]
                    + leaving_with(lo))
                &&& (f.stage matches DeckStage::Removing { flag: fl } && fl == flag)
                &&& flag ==> (f.slde.items@, f.slde.state.selected) == pruned(
                    o.slde.items@,
                    o.slde.state.selected->0,
                    lo,
                )
                &&& !flag ==> f.slde == o.slde
                &&& f.sldb == o.sldb
            },
            _ => r == DeckViewRequest::Finish(DeckViewExit::Hold) && f.stage is Idle,
        },
        DeckStage::Removing { flag } => match a {
            DeckViewAnswer::Done => asks(o, f) && (r matches DeckViewRequest::ListNames(q) && q@
                == deck_query(o, ""@)) && (f.stage matches DeckStage::DeckNames { flag: fl } && fl
                == flag),
            _ => r == DeckViewRequest::Finish(DeckViewExit::Hold) && f.stage is Idle,
        },
        DeckStage::DeckNames { flag } => match a {
            DeckViewAnswer::Names(v) => {
                let cleared = o.active_list().state.selected is None;
                &&& f.vcdec@ == v@
                &&& f.slde == o.slde && f.sldb == o.sldb
                &&& cleared ==> f.dvs == DeckViewSection::DeckOmni
                &&& !cleared ==> f.dvs == o.dvs
                &&& if !flag {
                    &&& (r matches DeckViewRequest::ListNames(q) && q@ == deck_query(o, o.omniprev@))
                    &&& f.stage is Refresh
                    &&& f.ac == if cleared { None } else { o.ac }
                } else {
                    shows_then(f, r, Tail { focus_db: false, exit: DeckViewExit::Hold }, o)
                }
            },
            _ => r == DeckViewRequest::Finish(DeckViewExit::Hold) && f.stage is Idle,
        },
        DeckStage::Refresh => match a {
            DeckViewAnswer::Names(v) => {
                &&& f.slde.items@ == v@
                &&& kept_highlight(o.slde.items@, o.slde.state.selected, v@, f.slde.state.selected)
                &&& f.sldb == o.sldb && f.ac == o.ac && f.vcdec == o.vcdec
                &&& r == DeckViewRequest::Finish(DeckViewExit::Hold) && f.stage is Idle
            },
            _ => r == DeckViewRequest::Finish(DeckViewExit::Hold) && f.stage is Idle,
        },
        DeckStage::Toggled => match a {
            DeckViewAnswer::Card(c) => f.ac == c && r == DeckViewRequest::Finish(DeckViewExit::Hold)
                && f.stage is Idle && f.vcdec == o.vcdec && f.slde == o.slde,
            _ => r == DeckViewRequest::Finish(DeckViewExit::Hold) && f.stage is Idle,
        },
        DeckStage::Added => match a {
            DeckViewAnswer::Names(v) => f.vcdec@ == o.vcdec@ + v@ && (r matches DeckViewRequest::ListNames(q)
                && q@ == deck_query(o, o.omniprev@)) && f.stage is Refresh && f.ac == o.ac && f.slde
                == o.slde,
            _ => r == DeckViewRequest::Finish(DeckViewExit::Hold) && f.stage is Idle,
        },
        DeckStage::Related | DeckStage::Priced => match a {
            DeckViewAnswer::Card(c) => shown_after(o, f, c) && r == DeckViewRequest::Finish(
                DeckViewExit::Hold,
            ) && f.stage is Idle,
            _ => r == DeckViewRequest::Finish(DeckViewExit::Hold) && f.stage is Idle,
        },
        DeckStage::MeldFront { n, m } => match a {
            DeckViewAnswer::Card(Some(meld)) => {
                let target = if meld.lo matches CardLayout::Meld(_, face, _) && face@ == n@ {
                    m@
                } else {
                    n@
                };
                asks(o, f) && (r matches DeckViewRequest::ReadCard(x, d) && x@ == target && d == Some(did))
                    && f.stage is Related
            },
            _ => r == DeckViewRequest::Finish(DeckViewExit::Hold) && f.stage is Idle,
        },
        DeckStage::Idle => r == DeckViewRequest::Finish(DeckViewExit::Hold) && f.stage is Idle,
    }
}

impl DeckView {
    /// Takes the answer to the last request and yields the next one.
    pub fn resume(&mut self, a: DeckViewAnswer) -> (r: DeckViewRequest)
        requires
            old(self).wf(),
        ensures
            final(self).wf(),
            resume_step(*old(self), a, *final(self), r),
    {
        let mut stage = DeckStage::Idle;
        std::mem::swap(&mut stage, &mut self.stage);
        match stage {
            DeckStage::Opening => match a {
                DeckViewAnswer::Names(v) => self.opened(v),
                _ => DeckViewRequest::Finish(DeckViewExit::Hold),
            },
            DeckStage::Refill { db, then } => match a {
                DeckViewAnswer::Names(v) => {
                    if db {
                        self.sldb.reinitialize(v, false);
                    } else {
                        self.slde.reinitialize(v, false);
                    }
                    self.fix_focus();
                    self.uac(then)
                },
                _ => DeckViewRequest::Finish(DeckViewExit::Hold),
            },
            DeckStage::Current { then } => match a {
                DeckViewAnswer::Card(c) => {
                    self.ac = c;
                    self.finish_tail(then)
                },
                _ => DeckViewRequest::Finish(DeckViewExit::Hold),
            },
            DeckStage::DeleteCard { cn } => match a {
                DeckViewAnswer::Card(Some(c)) => {
                    self.stage = DeckStage::DeleteDeck { cn, card: c.name, lo: c.lo };
                    DeckViewRequest::ReadDeck(self.cf.did)
                },
                _ => DeckViewRequest::Finish(DeckViewExit::Hold),
            },
            DeckStage::DeleteDeck { cn, card, lo } => match a {
                DeckViewAnswer::Deck(Some(d)) => self.delete_checked(cn, card, lo, d),
                _ => DeckViewRequest::Finish(DeckViewExit::Hold),
            },
            DeckStage::Removing { flag } => match a {
                DeckViewAnswer::Done => {
                    let q = self.cf.make_query(false, "");
                    self.stage = DeckStage::DeckNames { flag };
                    DeckViewRequest::ListNames(q)
                },
                _ => DeckViewRequest::Finish(DeckViewExit::Hold),
            },
            DeckStage::DeckNames { flag } => match a {
                DeckViewAnswer::Names(v) => self.deck_names(v, flag),
                _ => DeckViewRequest::Finish(DeckViewExit::Hold),
            },
            DeckStage::Refresh => match a {
                DeckViewAnswer::Names(v) => {
                    self.slde.reinitialize(v, true);
                    self.fix_focus();
                    DeckViewRequest::Finish(DeckViewExit::Hold)
                },
                _ => DeckViewRequest::Finish(DeckViewExit::Hold),
            },
            DeckStage::Toggled => match a {
                DeckViewAnswer::Card(c) => {
                    self.ac = c;
                    DeckViewRequest::Finish(DeckViewExit::Hold)
                },
                _ => DeckViewRequest::Finish(DeckViewExit::Hold),
            },
            DeckStage::Added => match a {
                DeckViewAnswer::Names(v) => {
                    let mut v = v;
                    self.vcdec.append(&mut v);
                    let q = self.cf.make_query(false, self.omniprev.as_str());
                    self.stage = DeckStage::Refresh;
                    DeckViewRequest::ListNames(q)
                },
                _ => DeckViewRequest::Finish(DeckViewExit::Hold),
            },
            DeckStage::Related => match a {
                DeckViewAnswer::Card(c) => {
                    if c.is_some() {
                        self.ac = c;
                    }
                    DeckViewRequest::Finish(DeckViewExit::Hold)
                },
                _ => DeckViewRequest::Finish(DeckViewExit::Hold),
            },
            DeckStage::Priced => match a {
                DeckViewAnswer::Card(c) => {
                    if c.is_some() {
                        self.ac = c;
                    }
                    DeckViewRequest::Finish(DeckViewExit::Hold)
                },
                _ => DeckViewRequest::Finish(DeckViewExit::Hold),
            },
            DeckStage::MeldFront { n, m } => match a {
                DeckViewAnswer::Card(Some(meld)) => {
                    let target = match &meld.lo {
                        CardLayout::Meld(_, face, _) => {
                            if str_eq(face.as_str(), n.as_str()) {
                                m
                            } else {
                                n
                            }
                        },
                        _ => n,
                    };
                    self.stage = DeckStage::Related;
                    DeckViewRequest::ReadCard(target, Some(self.cf.did))
                },
                _ => DeckViewRequest::Finish(DeckViewExit::Hold),
            },
            DeckStage::Idle => DeckViewRequest::Finish(DeckViewExit::Hold),
        }
    }

    /// The deck's card names when the screen opens: they fill the deck list
    /// and the first is shown.
    fn opened(&mut self, v: Vec<String>) -> (r: DeckViewRequest)
        requires
            old(self).wf(),
            old(self).stage is Idle,
        ensures
            final(self).wf(),
            resume_step(DeckView { stage: DeckStage::Opening, ..*old(self) }, DeckViewAnswer::Names(v), *final(self), r),
    {
        self.vcdec = clone_strings(&v);
        self.slde = StatefulList::with_items(v);
        let first = self.slde.next();
        self.fix_focus();
        match first {
            Some(n) => {
                self.stage = DeckStage::Current {
                    then: Tail { focus_db: false, exit: DeckViewExit::Hold },
                };
                DeckViewRequest::ReadCard(n, Some(self.cf.did))
            },
            None => DeckViewRequest::Finish(DeckViewExit::Hold),
        }
    }

    /// The deck's card names after a removal.
    fn deck_names(&mut self, v: Vec<String>, flag: bool) -> (r: DeckViewRequest)
        requires
            old(self).wf(),
            old(self).stage is Idle,
        ensures
            final(self).wf(),
            resume_step(DeckView { stage: DeckStage::DeckNames { flag }, ..*old(self) }, DeckViewAnswer::Names(v), *final(self), r),
    {
        self.vcdec = v;
        let cleared = if self.dvs == DeckViewSection::DbOmni || self.dvs == DeckViewSection::DbCards {
            self.sldb.state.selected().is_none()
        } else {
            self.slde.state.selected().is_none()
        };
        if cleared {
            self.ac = None;
            self.dvs = DeckViewSection::DeckOmni;
        }
        if !flag {
            let q = self.cf.make_query(false, self.omniprev.as_str());
            self.stage = DeckStage::Refresh;
            DeckViewRequest::ListNames(q)
        } else {
            self.uac(Tail { focus_db: false, exit: DeckViewExit::Hold })
        }
    }

    /// Brings the deck list's highlight back inside it.
    fn clamp_deck_selection(&mut self)
        ensures
            (final(self).slde.items@, final(self).slde.state.selected) == clamped(
                old(self).slde.items@,
                old(self).slde.state.selected,
            ),
            final(self).slde.items == old(self).slde.items,
            list_wf(final(self).slde) <== (old(self).slde.items@.len() > 0 ==> old(self).slde.state.selected is Some),
            final(self).sldb == old(self).sldb && final(self).dvs == old(self).dvs,
            final(self).omni == old(self).omni && final(self).omnipos == old(self).omnipos,
            final(self).st == old(self).st && final(self).settings == old(self).settings,
            final(self).vcdec == old(self).vcdec && final(self).ac == old(self).ac,
            final(self).cf == old(self).cf && final(self).vsomni == old(self).vsomni,
            final(self).omniprev == old(self).omniprev,
    {
        match self.slde.state.selected() {
            Some(i) => {
                let n = self.slde.items.len();
                if i >= n {
                    if n == 0 {
                        self.slde.state.select(None);
                    } else {
                        self.slde.state.select(Some(n - 1));
                    }
                }
            },
            None => {},
        }
    }

    /// Removes a card from the deck once it is known not to be a commander.
    fn delete_checked(&mut self, cn: String, card: String, lo: CardLayout, d: Deck) -> (r: DeckViewRequest)
        requires
            old(self).wf(),
            old(self).stage is Idle,
        ensures
            final(self).wf(),
            resume_step(DeckView { stage: DeckStage::DeleteDeck { cn, card, lo }, ..*old(self) }, DeckViewAnswer::Deck(Some(d)), *final(self), r),
    {
        let is_commander = str_eq(d.commander.name.as_str(), card.as_str()) || match &d.commander2 {
            Some(c2) => str_eq(c2.name.as_str(), card.as_str()),
            None => false,
        };
        if is_commander {
            return DeckViewRequest::Finish(DeckViewExit::Hold);
        }
        let ghost v0 = views(self.vcdec@);
        let j = match find_string(&self.vcdec, cn.as_str()) {
            Some(j) => j,
            None => {
                return DeckViewRequest::Finish(DeckViewExit::Hold);
            },
        };
        proof {
            crate::db::lemma_remove_first_at(v0, cn@, j as int);
        }
        self.vcdec.remove(j);
        assert(views(self.vcdec@) =~= v0.remove(j as int));
        let flag = self.dvs == DeckViewSection::DeckCards;
        let mut names: Vec<String> = Vec::new();
        names.push(cn.clone());
        if flag {
            self.slde.remove();
        }
        match &lo {
            CardLayout::Paired(_, _, n) => {
                if flag && self.slde.state.selected().is_some() {
                    self.slde.remove_named(n);
                }
                names.push(n.clone());
            },
            CardLayout::Meld(side, n, m) => {
                if flag && self.slde.state.selected().is_some() {
                    self.slde.remove_named(m);
                }
                names.push(m.clone());
                if *side == 'b' {
                    if flag && self.slde.state.selected().is_some() {
                        self.slde.remove_named(n);
                    }
                    names.push(n.clone());
                }
            },
            _ => {},
        }
        assert(views(names@) =~= seq![cn@] + leaving_with(lo));
        self.clamp_deck_selection();
        self.stage = DeckStage::Removing { flag };
        self.fix_focus();
        DeckViewRequest::RemoveCards(names)
    }

    /// Takes new deck settings (after the settings screen saved them): the
    /// filter follows their order and default field, and an active tag that
    /// is gone falls back to `main`. The tag edits themselves are applied to
    /// the deck's cards by the caller.
    pub fn uct(&mut self, settings: DeckSettings)
        requires
            old(self).wf(),
            views(settings.tags@).contains("main"@),
        ensures
            final(self).wf(),
            final(self).cf.df == settings.df && final(self).cf.so == settings.ordering,
            final(self).cf.did == old(self).cf.did && final(self).cf.color == old(self).cf.color,
            final(self).settings.tags@ == settings.tags@,
            old(self).st < settings.tags@.len() ==> final(self).st == old(self).st,
            old(self).st >= settings.tags@.len() ==> final(self).settings.tags@[final(self).st as int]@
                == "main"@,
            final(self).omni == old(self).omni && final(self).slde == old(self).slde
                && final(self).sldb == old(self).sldb && final(self).dvs == old(self).dvs,
    {
        self.cf.df = settings.df;
        self.cf.so = settings.ordering;
        self.settings = settings;
        if self.st >= self.settings.tags.len() {
            let main = string_from("main");
            match self.settings.find_tag(&main) {
                Some(i) => {
                    self.st = i;
                },
                None => {},
            }
        }
    }
}

} // verus!
