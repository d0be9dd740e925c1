//! The import of a deck list as a state machine: it picks the commanders,
//! creates the deck, then adds each listed card that fits the deck's colours
//! with its tags. The caller runs each request against the card database and
//! hands the answer back.
use vstd::prelude::*;
use crate::cards::{choose_commanders, commanders_spec, fits_colors, fits_deck, lookup_name, lookup_name_spec};
use crate::db::{stovs, ImportCard};
use crate::text::{contains_spec, regex_group1, split_spec, views};
use crate::util::{commander_eligible, Card, CommanderType, Deck, PARTNER_WITH_PATTERN};

verus! {

/// What the import waits for.
pub enum ImportStage {
    /// The list's first card, to learn whether it can lead the deck.
    FirstCommander,
    /// The list's second card, a partner for a first card of this kind.
    SecondCommander(CommanderType),
    /// The id of the deck being created.
    Creating,
    /// The deck just created, for its colours.
    ReadingDeck(i32),
    /// The card of entry `i`, for deck `did` of colours `color`.
    Reading { did: i32, color: String, i: usize },
    /// The addition (or the report) of the card of entry `i`.
    Adding { did: i32, color: String, i: usize },
    /// Nothing: the import is over.
    Over,
}

/// What the import asks of its caller.
pub enum ImportRequest {
    /// Read the card of this name; answer `Card`.
    ReadCard(String),
    /// Create the deck (name, commander, partner); answer `DeckId`.
    CreateDeck(String, String, Option<String>),
    /// Read the deck of this id; answer `Deck`.
    ReadDeck(i32),
    /// Add the card of this name, with these tags, to the deck; answer
    /// `Done`.
    AddCard(String, Vec<String>, i32),
    /// Report that this card was left out for its colour identity; answer
    /// `Done`.
    NotAdded(String),
    /// The import is over: the deck and how many listed cards it took.
    Finished(i32, u64),
    /// No commander could be found; nothing was created.
    NoCommander,
    /// The card of this name is not in the database; the import stops.
    Missing(String),
    /// An answer of the wrong kind, or a failed database step; the import
    /// stops.
    Failed,
}

/// The answer to a request.
pub enum ImportAnswer {
    Card(Option<Card>),
    DeckId(Option<i32>),
    Deck(Option<Deck>),
    Done,
}

/// An import: the deck's name, the commanders named with it, the list, how
/// many cards were added, and what it waits for.
pub struct DeckImport {
    pub deck_name: String,
    pub coms: Vec<String>,
    pub cards: Vec<ImportCard>,
    pub added: u64,
    pub stage: ImportStage,
}

/// `t` is the kind `Card::is_commander` gives for `c`.
pub open spec fn kind_of(c: Card, t: CommanderType) -> bool {
    if !commander_eligible(c.types@, c.text@) {
        t is Invalid
    } else {
        match regex_group1(PARTNER_WITH_PATTERN@, c.text@) {
            Some(p) => t matches CommanderType::PartnerWith(s) && s@ == p,
            None => if contains_spec(c.text@, "Partner"@) {
                t is Partner
            } else {
                t is Default
            },
        }
    }
}

/// An optional string as an optional text.
pub open spec fn opt_view(o: Option<String>) -> Option<Seq<char>> {
    match o {
        Some(x) => Some(x@),
        None => None,
    }
}

/// The tags an entry carries.
pub open spec fn entry_tags(e: ImportCard) -> Seq<Seq<char>> {
    match e.tags {
        Some(t) => split_spec(t@, '|'),
        None => Seq::<Seq<char>>::empty(),
    }
}

/// The first entry at or after `i` whose line names a card (the length of
/// the list when none does).
pub open spec fn next_named(cards: Seq<ImportCard>, i: int) -> int
    decreases cards.len() - i,
{
    if i >= cards.len() {
        cards.len() as int
    } else if lookup_name_spec(cards[i].name@) is Some {
        i
    } else {
        next_named(cards, i + 1)
    }
}

impl DeckImport {
    /// The list leads a deck when no commander is named, the stage's entry
    /// is in the list, and no more cards were added than entries passed.
    pub open spec fn wf(&self) -> bool {
        &&& self.coms@.len() == 0 ==> self.cards@.len() > 0
        &&& match self.stage {
            ImportStage::FirstCommander => self.coms@.len() == 0 && self.added == 0,
            ImportStage::SecondCommander(_) => self.coms@.len() == 0 && self.cards@.len() > 1
                && self.added == 0,
            ImportStage::Creating | ImportStage::ReadingDeck(_) => self.added == 0,
            ImportStage::Reading { i, .. } => i < self.cards@.len() && self.added <= i
                && lookup_name_spec(self.cards@[i as int].name@) is Some,
            ImportStage::Adding { i, .. } => i < self.cards@.len() && self.added <= i + 1,
            ImportStage::Over => self.added <= self.cards@.len(),
        }
    }
}

/// `f` is `o` moving on from entry `i`: the next entry that names a card is
/// read, or, with none left, the import ends.
pub open spec fn goes_on(o: DeckImport, did: i32, color: Seq<char>, i: int, f: DeckImport, r: ImportRequest) -> bool {
    let j = next_named(o.cards@, i);
    if j < o.cards@.len() {
        &&& (f.stage matches ImportStage::Reading { did: d, color: c, i: k } && d == did && c@ == color
            && k == j)
        &&& f == (DeckImport { stage: f.stage, ..o })
        &&& (r matches ImportRequest::ReadCard(n) && lookup_name_spec(o.cards@[j].name@) == Some(n@))
    } else {
        &&& f == (DeckImport { stage: ImportStage::Over, ..o })
        &&& (r matches ImportRequest::Finished(d, n) && d == did && n == o.added)
    }
}

/// `f` is `o` creating the deck with the commanders the kinds `first` and
/// `second` choose, or stopping when no card can lead it.
pub open spec fn creates(o: DeckImport, first: CommanderType, second: CommanderType, f: DeckImport, r: ImportRequest) -> bool {
    match commanders_spec(views(o.coms@), o.cards@, first, second) {
        Some((p, s)) => f == (DeckImport { stage: ImportStage::Creating, ..o }) && (r matches ImportRequest::CreateDeck(
            n,
            c1,
            c2,
        ) && n@ == o.deck_name@ && c1@ == p && opt_view(c2) == s),
        None => f == (DeckImport { stage: ImportStage::Over, ..o }) && r is NoCommander,
    }
}

/// The import in state `o` takes answer `a`: it becomes `f` and makes
/// request `r`.
pub open spec fn import_step(o: DeckImport, a: ImportAnswer, f: DeckImport, r: ImportRequest) -> bool {
    let over = DeckImport { stage: ImportStage::Over, ..o };
    let fails = f == over && r is Failed;
    match o.stage {
        ImportStage::FirstCommander => match a {
            ImportAnswer::Card(Some(c)) => exists|t: CommanderType|
                #[trigger] kind_of(c, t) && if t is Partner && o.cards@.len() > 1 {
                    &&& (f.stage matches ImportStage::SecondCommander(t2) && t2 == t)
                    &&& f == (DeckImport { stage: f.stage, ..o })
                    &&& (r matches ImportRequest::ReadCard(n) && n@ == o.cards@[1].name@)
                } else {
                    creates(o, t, CommanderType::Invalid, f, r)
                },
            ImportAnswer::Card(None) => f == over && (r matches ImportRequest::Missing(n) && n@
                == o.cards@[0].name@),
            _ => fails,
        },
        ImportStage::SecondCommander(first) => match a {
            ImportAnswer::Card(Some(c)) => exists|t: CommanderType|
                #[trigger] kind_of(c, t) && creates(o, first, t, f, r),
            ImportAnswer::Card(None) => f == over && (r matches ImportRequest::Missing(n) && n@
                == o.cards@[1].name@),
            _ => fails,
        },
        ImportStage::Creating => match a {
            ImportAnswer::DeckId(Some(did)) => f == (DeckImport { stage: ImportStage::ReadingDeck(did), ..o })
                && (r matches ImportRequest::ReadDeck(d) && d == did),
            _ => fails,
        },
        ImportStage::ReadingDeck(did) => match a {
            ImportAnswer::Deck(Some(d)) => goes_on(o, did, d.color@, 0, f, r),
            _ => fails,
        },
        ImportStage::Reading { did, color, i } => match a {
            ImportAnswer::Card(Some(c)) => {
                &&& (f.stage matches ImportStage::Adding { did: d, color: cc, i: k } && d == did && cc@
                    == color@ && k == i)
                &&& if fits_colors(c.color_identity@, color@) {
                    &&& f == (DeckImport { stage: f.stage, added: (o.added + 1) as u64, ..o })
                    &&& (r matches ImportRequest::AddCard(n, tags, d) && n@ == c.name@ && d == did
                        && views(tags@) == entry_tags(o.cards@[i as int]))
                } else {
                    &&& f == (DeckImport { stage: f.stage, ..o })
                    &&& (r matches ImportRequest::NotAdded(n) && n@ == c.name@)
                }
            },
            ImportAnswer::Card(None) => f == over && (r matches ImportRequest::Missing(n)
                && lookup_name_spec(o.cards@[i as int].name@) == Some(n@)),
            _ => fails,
        },
        ImportStage::Adding { did, color, i } => match a {
            ImportAnswer::Done => goes_on(o, did, color@, i + 1, f, r),
            _ => fails,
        },
        ImportStage::Over => f == o && r is Failed,
    }
}

/// A card read for a deck is added only when its whole color identity lies
/// in the deck's colors: a card with one identity letter (other than
/// `'\0'`) outside them is reported as not added and leaves the count of
/// added cards as it was; any other card is added, with the entry's tags,
/// and counted.
pub proof fn lemma_import_color_check(
    o: DeckImport,
    f: DeckImport,
    r: ImportRequest,
    c: Card,
    did: i32,
    color: String,
    i: usize,
)
    requires
        o.stage == (ImportStage::Reading { did, color, i }),
        import_step(o, ImportAnswer::Card(Some(c)), f, r),
    ensures
        (exists|k: int|
            0 <= k < c.color_identity@.len() && c.color_identity@[k] != '\0' && !color@.contains(
                #[trigger] c.color_identity@[k],
            )) ==> (r matches ImportRequest::NotAdded(n) && n@ == c.name@) && f.added == o.added,
        !(exists|k: int|
            0 <= k < c.color_identity@.len() && c.color_identity@[k] != '\0' && !color@.contains(
                #[trigger] c.color_identity@[k],
            )) ==> (r matches ImportRequest::AddCard(n, tags, d) && n@ == c.name@ && d == did)
            && f.added == (o.added + 1) as u64,
{
    crate::cards::lemma_fits_colors(c.color_identity@, color@, color@);
}

impl DeckImport {
    /// Starts an import of `cards` as deck `deck_name`: with commanders
    /// named, the deck is created with the first; else the list's first
    /// card is read to learn whether it can lead the deck.
    pub fn new(deck_name: String, coms: Vec<String>, cards: Vec<ImportCard>) -> (r: (DeckImport, ImportRequest))
        requires
            coms@.len() == 0 ==> cards@.len() > 0,
        ensures
            r.0.wf(),
            r.0.deck_name == deck_name && r.0.coms@ == coms@ && r.0.cards@ == cards@,
            r.0.added == 0,
            coms@.len() > 0 ==> r.0.stage is Creating && (r.1 matches ImportRequest::CreateDeck(n, c1, c2)
                && n@ == deck_name@ && c1@ == coms@[0]@ && c2 is None),
            coms@.len() == 0 ==> r.0.stage is FirstCommander && (r.1 matches ImportRequest::ReadCard(n) && n@
                == cards@[0].name@),
    {
        if coms.len() > 0 {
            let c1 = coms[0].clone();
            let n = deck_name.clone();
            (DeckImport { deck_name, coms, cards, added: 0, stage: ImportStage::Creating }, ImportRequest::CreateDeck(
                n,
                c1,
                None,
            ))
        } else {
            let first = cards[0].name.clone();
            (
                DeckImport { deck_name, coms, cards, added: 0, stage: ImportStage::FirstCommander },
                ImportRequest::ReadCard(first),
            )
        }
    }

    /// Moves on from entry `i`: reads the next entry that names a card, or
    /// ends the import.
    fn go_on(&mut self, did: i32, color: String, i: usize) -> (r: ImportRequest)
        requires
            old(self).wf(),
            i <= old(self).cards@.len(),
            old(self).added <= i,
        ensures
            final(self).wf(),
            goes_on(*old(self), did, color@, i as int, *final(self), r),
    {
        let mut j: usize = i;
        while j < self.cards.len()
            invariant
                i <= j <= self.cards@.len(),
                *self == *old(self),
                self.added <= i,
                self.coms@.len() == 0 ==> self.cards@.len() > 0,
                next_named(self.cards@, i as int) == next_named(self.cards@, j as int),
            decreases self.cards.len() - j,
        {
            match lookup_name(self.cards[j].name.as_str()) {
                Some(n) => {
                    self.stage = ImportStage::Reading { did, color, i: j };
                    return ImportRequest::ReadCard(n);
                },
                None => {},
            }
            j += 1;
        }
        self.stage = ImportStage::Over;
        ImportRequest::Finished(did, self.added)
    }

    /// Creates the deck with the commanders the two kinds choose.
    fn create(&mut self, first: &CommanderType, second: &CommanderType) -> (r: ImportRequest)
        requires
            old(self).coms@.len() == 0 ==> old(self).cards@.len() > 0,
            old(self).added == 0,
        ensures
            final(self).wf(),
            creates(*old(self), *first, *second, *final(self), r),
    {
        match choose_commanders(&self.coms, &self.cards, first, second) {
            Some((p, s)) => {
                self.stage = ImportStage::Creating;
                ImportRequest::CreateDeck(self.deck_name.clone(), p, s)
            },
            None => {
                self.stage = ImportStage::Over;
                ImportRequest::NoCommander
            },
        }
    }

    /// Takes the answer to the last request and yields the next one.
    pub fn resume(&mut self, a: ImportAnswer) -> (r: ImportRequest)
        requires
            old(self).wf(),
        ensures
            final(self).wf(),
            import_step(*old(self), a, *final(self), r),
    {
        let mut stage = ImportStage::Over;
        std::mem::swap(&mut stage, &mut self.stage);
        let ghost entries = self.cards.len();
        match stage {
            ImportStage::FirstCommander => match a {
                ImportAnswer::Card(Some(c)) => {
                    let t = c.is_commander();
                    assert(kind_of(c, t));
                    let partner = match &t {
                        CommanderType::Partner => self.cards.len() > 1,
                        _ => false,
                    };
                    if partner {
                        self.stage = ImportStage::SecondCommander(t);
                        ImportRequest::ReadCard(self.cards[1].name.clone())
                    } else {
                        self.create(&t, &CommanderType::Invalid)
                    }
                },
                ImportAnswer::Card(None) => ImportRequest::Missing(self.cards[0].name.clone()),
                _ => ImportRequest::Failed,
            },
            ImportStage::SecondCommander(first) => match a {
                ImportAnswer::Card(Some(c)) => {
                    let t = c.is_commander();
                    assert(kind_of(c, t));
                    self.create(&first, &t)
                },
                ImportAnswer::Card(None) => ImportRequest::Missing(self.cards[1].name.clone()),
                _ => ImportRequest::Failed,
            },
            ImportStage::Creating => match a {
                ImportAnswer::DeckId(Some(did)) => {
                    self.stage = ImportStage::ReadingDeck(did);
                    ImportRequest::ReadDeck(did)
                },
                _ => ImportRequest::Failed,
            },
            ImportStage::ReadingDeck(did) => match a {
                ImportAnswer::Deck(Some(d)) => self.go_on(did, d.color, 0),
                _ => ImportRequest::Failed,
            },
            ImportStage::Reading { did, color, i } => match a {
                ImportAnswer::Card(Some(c)) => {
                    if fits_deck(&c.color_identity, color.as_str()) {
                        let tags = match &self.cards[i].tags {
                            Some(t) => stovs(t.clone()),
                            None => Vec::new(),
                        };
                        assert(views(tags@) =~= entry_tags(self.cards@[i as int]));
                        self.added = self.added + 1;
                        self.stage = ImportStage::Adding { did, color, i };
                        ImportRequest::AddCard(c.name, tags, did)
                    } else {
                        self.stage = ImportStage::Adding { did, color, i };
                        ImportRequest::NotAdded(c.name)
                    }
                },
                ImportAnswer::Card(None) => match lookup_name(self.cards[i].name.as_str()) {
                    Some(n) => ImportRequest::Missing(n),
                    None => ImportRequest::Missing(self.cards[i].name.clone()),
                },
                _ => ImportRequest::Failed,
            },
            ImportStage::Adding { did, color, i } => match a {
                ImportAnswer::Done => self.go_on(did, color, i + 1),
                _ => ImportRequest::Failed,
            },
            ImportStage::Over => ImportRequest::Failed,
        }
    }
}

} // verus!
