//! Settings, the card and deck model, the selection lists of the terminal
//! interface, and the commander rules.
use vstd::prelude::*;
use vstd::multiset::Multiset;
use crate::text::{
    capture_group1, chars_of, clone_strings, contains_spec, contains_str, find_string, i32_text, int_text, join_spec, join_strings, lemma_sorted_text_same,
    lemma_text_order_total, push_chars, push_str, sort_strings, sorted_text, str_eq, string_from,
    regex_group1, split_chars, split_spec, string_of, text_order, views,
};

pub mod deck_view;
pub mod stats;
pub mod views;

use views::{Changes, TagChange};

verus! {

broadcast use vstd::seq_lib::group_to_multiset_ensures;

/// The order in which a card list is shown.
#[derive(Debug, Copy, Clone, PartialEq, Eq, Structural)]
pub enum SortOrder {
    NameAsc,
    NameDesc,
    CmcAsc,
    CmcDesc,
}

impl Default for SortOrder {
    fn default() -> (r: Self)
        ensures
            r == SortOrder::NameAsc,
    {
        SortOrder::NameAsc
    }
}

impl SortOrder {
    /// How the settings file writes this order.
    pub open spec fn text(self) -> Seq<char> {
        match self {
            SortOrder::NameAsc => "+name"@,
            SortOrder::NameDesc => "-name"@,
            SortOrder::CmcAsc => "+cmc"@,
            SortOrder::CmcDesc => "-cmc"@,
        }
    }

    /// The order a settings file names; anything unknown means `NameAsc`.
    pub open spec fn parse(s: Seq<char>) -> SortOrder {
        if s == "-name"@ {
            SortOrder::NameDesc
        } else if s == "+cmc"@ {
            SortOrder::CmcAsc
        } else if s == "-cmc"@ {
            SortOrder::CmcDesc
        } else {
            SortOrder::NameAsc
        }
    }

    /// How the settings file writes this order.
    pub fn to_string(&self) -> (r: String)
        ensures
            r@ == self.text(),
    {
        match self {
            SortOrder::NameAsc => string_from("+name"),
            SortOrder::NameDesc => string_from("-name"),
            SortOrder::CmcAsc => string_from("+cmc"),
            SortOrder::CmcDesc => string_from("-cmc"),
        }
    }

    /// Reads an order as the settings file writes it.
    pub fn from_text(s: &str) -> (r: SortOrder)
        ensures
            r == SortOrder::parse(s@),
    {
        if str_eq(s, "-name") {
            SortOrder::NameDesc
        } else if str_eq(s, "+cmc") {
            SortOrder::CmcAsc
        } else if str_eq(s, "-cmc") {
            SortOrder::CmcDesc
        } else {
            SortOrder::NameAsc
        }
    }

    /// The order that the settings screen moves to next.
    pub open spec fn cycled(self) -> SortOrder {
        match self {
            SortOrder::NameAsc => SortOrder::NameDesc,
            SortOrder::NameDesc => SortOrder::CmcAsc,
            SortOrder::CmcAsc => SortOrder::CmcDesc,
            SortOrder::CmcDesc => SortOrder::NameAsc,
        }
    }
}

/// Which card field a bare filter word searches.
#[derive(Debug, Copy, Clone, PartialEq, Eq, Structural)]
pub enum DefaultFilter {
    Name,
    Text,
}

impl Default for DefaultFilter {
    fn default() -> (r: Self)
        ensures
            r == DefaultFilter::Name,
    {
        DefaultFilter::Name
    }
}

impl DefaultFilter {
    /// How the settings file writes this filter.
    pub open spec fn text(self) -> Seq<char> {
        match self {
            DefaultFilter::Name => "name"@,
            DefaultFilter::Text => "text"@,
        }
    }

    /// The filter a settings file names; anything but `text` means `Name`.
    pub open spec fn parse(s: Seq<char>) -> DefaultFilter {
        if s == "text"@ {
            DefaultFilter::Text
        } else {
            DefaultFilter::Name
        }
    }

    /// The other filter.
    pub open spec fn toggled(self) -> DefaultFilter {
        match self {
            DefaultFilter::Name => DefaultFilter::Text,
            DefaultFilter::Text => DefaultFilter::Name,
        }
    }

    /// How the settings file writes this filter.
    pub fn to_string(&self) -> (r: String)
        ensures
            r@ == self.text(),
    {
        match self {
            DefaultFilter::Name => string_from("name"),
            DefaultFilter::Text => string_from("text"),
        }
    }

    /// Reads a filter as the settings file writes it.
    pub fn from_text(s: &str) -> (r: DefaultFilter)
        ensures
            r == DefaultFilter::parse(s@),
    {
        if str_eq(s, "text") {
            DefaultFilter::Text
        } else {
            DefaultFilter::Name
        }
    }
}

/// Reading back what `to_string` wrote gives the same order and filter.
pub proof fn lemma_setting_text_round_trip(so: SortOrder, df: DefaultFilter)
    ensures
        SortOrder::parse(so.text()) == so,
        DefaultFilter::parse(df.text()) == df,
{
    reveal_strlit("+name");
    reveal_strlit("-name");
    reveal_strlit("+cmc");
    reveal_strlit("-cmc");
    reveal_strlit("name");
    reveal_strlit("text");
    assert("+name"@[0] != "-name"@[0]);
    assert("+name"@.len() != "+cmc"@.len());
    assert("+name"@.len() != "-cmc"@.len());
    assert("-name"@.len() != "+cmc"@.len());
    assert("-name"@.len() != "-cmc"@.len());
    assert("+cmc"@[0] != "-cmc"@[0]);
    assert("name"@[0] != "text"@[0]);
}

/// Whether a card can lead a deck, and how it takes a partner.
#[derive(Debug, Clone, PartialEq)]
pub enum CommanderType {
    Default,
    Partner,
    PartnerWith(String),
    Invalid,
}

/// The screens of the terminal interface.
#[derive(Debug, Copy, Clone, PartialEq, Eq, Structural)]
pub enum Screen {
    MainMenu,
    MakeDeck,
    OpenDeck,
    Settings,
    DeckView,
    DeckStat,
}

/// How a card relates to other faces or cards.
#[derive(Debug, Clone, PartialEq)]
pub enum CardLayout {
    Leveler,
    Meld(char, String, String),
    Paired(char, String, String),
    Normal,
    Saga,
}

impl Default for CardLayout {
    fn default() -> (r: Self)
        ensures
            r is Normal,
    {
        CardLayout::Normal
    }
}

/// The tags of the `[decks.N]` table of a settings file.
#[derive(Debug, Clone)]
pub struct FileDeckSettings {
    pub tags: Vec<String>,
    pub ordering: String,
    pub df: String,
}

/// The `[global]` table of a settings file. `version` holds the number as
/// the file writes it.
#[derive(Debug, Clone)]
pub struct FileGlobalSettings {
    pub tags: Vec<String>,
    pub ordering: String,
    pub df: String,
    pub version: String,
    pub recent: i32,
    pub open_into_recent: bool,
}

/// A settings file as read: the global table and one table per deck id.
#[derive(Debug, Clone)]
pub struct FileSettings {
    pub global: FileGlobalSettings,
    pub decks: Vec<(i32, FileDeckSettings)>,
}

/// Settings that apply where no deck overrides them.
#[derive(Debug)]
pub struct GlobalSettings {
    pub tags: Vec<String>,
    pub ordering: SortOrder,
    pub df: DefaultFilter,
    pub version: String,
    pub recent: i32,
    pub open_into_recent: bool,
}

/// The tags, order and default filter of one deck.
#[derive(Debug)]
pub struct DeckSettings {
    pub tags: Vec<String>,
    pub ordering: SortOrder,
    pub df: DefaultFilter,
}

impl Clone for DeckSettings {
    fn clone(&self) -> (r: Self)
        ensures
            r.tags@ == self.tags@,
            r.ordering == self.ordering,
            r.df == self.df,
    {
        DeckSettings { tags: clone_strings(&self.tags), ordering: self.ordering, df: self.df }
    }
}

impl GlobalSettings {
    /// Reads the global table of a settings file; the tags are kept in
    /// alphabetical order.
    pub fn from(fgs: FileGlobalSettings) -> (r: Self)
        ensures
            views(r.tags@) == sorted_text(views(fgs.tags@)),
            r.ordering == SortOrder::parse(fgs.ordering@),
            r.df == DefaultFilter::parse(fgs.df@),
            r.version@ == fgs.version@,
            r.recent == fgs.recent,
            r.open_into_recent == fgs.open_into_recent,
    {
        let df = DefaultFilter::from_text(fgs.df.as_str());
        let ordering = SortOrder::from_text(fgs.ordering.as_str());
        let mut tags = fgs.tags;
        sort_strings(&mut tags);
        GlobalSettings {
            tags,
            ordering,
            df,
            version: fgs.version,
            recent: fgs.recent,
            open_into_recent: fgs.open_into_recent,
        }
    }

    /// Switches the default filter between name and text.
    pub fn toggle_df(&mut self)
        ensures
            final(self).df == old(self).df.toggled(),
            final(self).tags@ == old(self).tags@,
            final(self).ordering == old(self).ordering,
            final(self).version == old(self).version,
            final(self).recent == old(self).recent,
            final(self).open_into_recent == old(self).open_into_recent,
    {
        if self.df == DefaultFilter::Name {
            self.df = DefaultFilter::Text;
        } else {
            self.df = DefaultFilter::Name;
        }
    }
}

impl DeckSettings {
    /// Reads one deck table of a settings file; the tags are kept in
    /// alphabetical order.
    pub fn from(fds: FileDeckSettings) -> (r: Self)
        ensures
            views(r.tags@) == sorted_text(views(fds.tags@)),
            r.ordering == SortOrder::parse(fds.ordering@),
            r.df == DefaultFilter::parse(fds.df@),
    {
        let df = DefaultFilter::from_text(fds.df.as_str());
        let ordering = SortOrder::from_text(fds.ordering.as_str());
        let mut tags = fds.tags;
        sort_strings(&mut tags);
        DeckSettings { tags, ordering, df }
    }

    /// Settings for a new deck: a copy of the global ones.
    pub fn duplicate(gs: &GlobalSettings) -> (r: Self)
        ensures
            r.tags@ == gs.tags@,
            r.ordering == gs.ordering,
            r.df == gs.df,
    {
        DeckSettings { tags: clone_strings(&gs.tags), ordering: gs.ordering, df: gs.df }
    }

    /// Adds a tag the deck does not have yet, keeping the tags sorted.
    pub fn add_tag(&mut self, tag: String)
        ensures
            views(old(self).tags@).contains(tag@) ==> final(self).tags@ == old(self).tags@,
            !views(old(self).tags@).contains(tag@) ==> views(final(self).tags@) == sorted_text(
                views(old(self).tags@).push(tag@),
            ),
            views(final(self).tags@).contains(tag@),
            final(self).ordering == old(self).ordering,
            final(self).df == old(self).df,
    {
        match find_string(&self.tags, tag.as_str()) {
            Some(_) => {},
            None => {
                let ghost t = tag@;
                self.tags.push(tag);
                assert(views(self.tags@) =~= views(old(self).tags@).push(t));
                sort_strings(&mut self.tags);
                proof {
                    lemma_sorted_text_same(views(old(self).tags@).push(t));
                    assert(views(old(self).tags@).push(t).contains(t)) by {
                        assert(views(old(self).tags@).push(t)[views(old(self).tags@).len() as int] == t);
                    }
                }
            },
        }
    }

    /// The position of `tag` among the deck's tags.
    pub fn find_tag(&self, tag: &String) -> (r: Option<usize>)
        ensures
            match r {
                Some(i) => i < self.tags@.len() && self.tags@[i as int]@ == tag@ && forall|j: int|
                    0 <= j < i ==> self.tags@[j]@ != tag@,
                None => !views(self.tags@).contains(tag@),
            },
    {
        find_string(&self.tags, tag.as_str())
    }

    /// Switches the default filter between name and text.
    pub fn toggle_df(&mut self)
        ensures
            final(self).df == old(self).df.toggled(),
            final(self).tags@ == old(self).tags@,
            final(self).ordering == old(self).ordering,
    {
        if self.df == DefaultFilter::Name {
            self.df = DefaultFilter::Text;
        } else {
            self.df = DefaultFilter::Name;
        }
    }
}

/// One tag edit applied to a collection of tags counted with multiplicity:
/// a rename or removal touches one copy of the old tag, if there is one.
pub open spec fn tag_change_ms(m: Multiset<Seq<char>>, tch: TagChange) -> Multiset<Seq<char>> {
    match tch {
        TagChange::DeleteTag(old) => if m.count(old@) > 0 {
            m.remove(old@)
        } else {
            m
        },
        TagChange::ChangeTag(old, new) => if m.count(old@) > 0 {
            m.remove(old@).insert(new@)
        } else {
            m
        },
        TagChange::InsertTag(new) => m.insert(new@),
    }
}

/// A list of tag edits applied in order.
pub open spec fn tag_changes_ms(m: Multiset<Seq<char>>, ch: Seq<TagChange>) -> Multiset<Seq<char>>
    decreases ch.len(),
{
    if ch.len() == 0 {
        m
    } else {
        tag_change_ms(tag_changes_ms(m, ch.drop_last()), ch.last())
    }
}

/// Applies tag edits to a tag list; after any edit the list is sorted.
fn apply_tag_changes(tags: &mut Vec<String>, vtch: &Vec<TagChange>)
    ensures
        views(final(tags)@).to_multiset() == tag_changes_ms(views(old(tags)@).to_multiset(), vtch@),
        vtch@.len() == 0 ==> final(tags)@ == old(tags)@,
        vtch@.len() > 0 ==> vstd::relations::sorted_by(views(final(tags)@), text_order()),
{
    let ghost m0 = views(tags@).to_multiset();
    let mut i: usize = 0;
    while i < vtch.len()
        invariant
            i <= vtch.len(),
            m0 == views(old(tags)@).to_multiset(),
            views(tags@).to_multiset() == tag_changes_ms(m0, vtch@.take(i as int)),
            i == 0 ==> tags@ == old(tags)@,
            i > 0 ==> vstd::relations::sorted_by(views(tags@), text_order()),
        decreases vtch.len() - i,
    {
        let ghost before = views(tags@);
        let ghost mb = tag_changes_ms(m0, vtch@.take(i as int));
        assert(vtch@.take(i + 1).drop_last() =~= vtch@.take(i as int));
        assert(vtch@.take(i + 1).last() == vtch@[i as int]);
        match &vtch[i] {
            TagChange::DeleteTag(old) => {
                match find_string(tags, old.as_str()) {
                    Some(j) => {
                        tags.remove(j);
                        assert(views(tags@) =~= before.remove(j as int));
                        assert(before.to_multiset().count(old@) > 0) by {
                            assert(before[j as int] == old@);
                        }
                    },
                    None => {
                        assert(before.to_multiset().count(old@) == 0);
                    },
                }
            },
            TagChange::ChangeTag(old, new) => {
                match find_string(tags, old.as_str()) {
                    Some(j) => {
                        tags.remove(j);
                        assert(views(tags@) =~= before.remove(j as int));
                        assert(before.to_multiset().count(old@) > 0) by {
                            assert(before[j as int] == old@);
                        }
                        let ghost mid = views(tags@);
                        tags.push(new.clone());
                        assert(views(tags@) =~= mid.push(new@));
                    },
                    None => {
                        assert(before.to_multiset().count(old@) == 0);
                    },
                }
            },
            TagChange::InsertTag(new) => {
                tags.push(new.clone());
                assert(views(tags@) =~= before.push(new@));
            },
        }
        let ghost unsorted = views(tags@);
        sort_strings(tags);
        proof {
            lemma_sorted_text_same(unsorted);
        }
        i += 1;
    }
    assert(vtch@.take(vtch.len() as int) =~= vtch@);
}

/// All settings: the global ones and those of each deck.
pub struct Settings {
    global: GlobalSettings,
    decks: Vec<(i32, DeckSettings)>,
}

/// The lines of one tag list in the settings file.
pub open spec fn tag_lines(indent: Seq<char>, tags: Seq<Seq<char>>) -> Seq<Seq<char>> {
    tags.map_values(|t: Seq<char>| indent + "\""@ + t + "\","@)
}

/// How `Display` writes a `bool`.
pub open spec fn bool_text(b: bool) -> Seq<char> {
    if b {
        "true"@
    } else {
        "false"@
    }
}

/// The lines of the `[global]` table, up to the `[decks]` header.
pub open spec fn global_lines(g: GlobalSettings) -> Seq<Seq<char>> {
    seq!["[global]"@, "version = "@ + g.version@, "tags = ["@] + tag_lines("\t"@, views(g.tags@))
        + seq![
        "]"@,
        "ordering = \""@ + g.ordering.text() + "\""@,
        "default_filter = \""@ + g.df.text() + "\""@,
        "recent = "@ + int_text(g.recent as int),
        "open_into_recent = "@ + bool_text(g.open_into_recent),
        "\n[decks]"@,
    ]
}

/// The lines of one `[decks.N]` table, ending in an empty line.
pub open spec fn deck_lines(did: i32, d: DeckSettings) -> Seq<Seq<char>> {
    seq!["\t[decks."@ + int_text(did as int) + "]"@, "\ttags = ["@] + tag_lines(
        "\t\t"@,
        views(d.tags@),
    ) + seq![
        "\t]"@,
        "\tordering = \""@ + d.ordering.text() + "\""@,
        "\tdefault_filter = \""@ + d.df.text() + "\""@,
        Seq::<char>::empty(),
    ]
}

/// The lines of the deck tables, in the order given.
pub open spec fn decks_lines(ds: Seq<(i32, DeckSettings)>) -> Seq<Seq<char>>
    decreases ds.len(),
{
    if ds.len() == 0 {
        Seq::empty()
    } else {
        decks_lines(ds.drop_last()) + deck_lines(ds.last().0, ds.last().1)
    }
}

/// Deck ids strictly increase along the list.
pub open spec fn keys_increasing(ds: Seq<(i32, DeckSettings)>) -> bool {
    forall|i: int, j: int| 0 <= i < j < ds.len() ==> ds[i].0 < ds[j].0
}

/// The deck settings of a list, by deck id.
pub open spec fn deck_map_of(ds: Seq<(i32, DeckSettings)>) -> Map<i32, DeckSettings>
    decreases ds.len(),
{
    if ds.len() == 0 {
        Map::empty()
    } else {
        deck_map_of(ds.drop_last()).insert(ds.last().0, ds.last().1)
    }
}

proof fn lemma_deck_map_of_index(ds: Seq<(i32, DeckSettings)>, i: int)
    requires
        keys_increasing(ds),
        0 <= i < ds.len(),
    ensures
        deck_map_of(ds).contains_key(ds[i].0),
        deck_map_of(ds)[ds[i].0] == ds[i].1,
    decreases ds.len(),
{
    if i < ds.len() - 1 {
        lemma_deck_map_of_index(ds.drop_last(), i);
    }
}

proof fn lemma_deck_map_of_dom(ds: Seq<(i32, DeckSettings)>, k: i32)
    ensures
        deck_map_of(ds).contains_key(k) <==> exists|i: int| 0 <= i < ds.len() && ds[i].0 == k,
    decreases ds.len(),
{
    if ds.len() > 0 {
        lemma_deck_map_of_dom(ds.drop_last(), k);
        if deck_map_of(ds.drop_last()).contains_key(k) {
            let i = choose|i: int| 0 <= i < ds.drop_last().len() && ds.drop_last()[i].0 == k;
            assert(ds[i].0 == k);
        }
        if exists|i: int| 0 <= i < ds.len() && ds[i].0 == k {
            let i = choose|i: int| 0 <= i < ds.len() && ds[i].0 == k;
            if i < ds.len() - 1 {
                assert(ds.drop_last()[i].0 == k);
            }
        }
    }
}

proof fn lemma_deck_map_of_update(ds: Seq<(i32, DeckSettings)>, i: int, d: DeckSettings)
    requires
        keys_increasing(ds),
        0 <= i < ds.len(),
    ensures
        deck_map_of(ds.update(i, (ds[i].0, d))) == deck_map_of(ds).insert(ds[i].0, d),
    decreases ds.len(),
{
    let nds = ds.update(i, (ds[i].0, d));
    if i == ds.len() - 1 {
        assert(nds.drop_last() =~= ds.drop_last());
        assert(deck_map_of(nds) =~= deck_map_of(ds).insert(ds[i].0, d));
    } else {
        lemma_deck_map_of_update(ds.drop_last(), i, d);
        assert(nds.drop_last() =~= ds.drop_last().update(i, (ds[i].0, d)));
        assert(ds[i].0 != ds.last().0);
        assert(deck_map_of(nds) =~= deck_map_of(ds).insert(ds[i].0, d));
    }
}

proof fn lemma_deck_map_of_insert(ds: Seq<(i32, DeckSettings)>, i: int, k: i32, d: DeckSettings)
    requires
        keys_increasing(ds),
        0 <= i <= ds.len(),
        forall|j: int| 0 <= j < i ==> ds[j].0 < k,
        forall|j: int| i <= j < ds.len() ==> k < ds[j].0,
    ensures
        deck_map_of(ds.insert(i, (k, d))) == deck_map_of(ds).insert(k, d),
        keys_increasing(ds.insert(i, (k, d))),
    decreases ds.len(),
{
    let nds = ds.insert(i, (k, d));
    if i == ds.len() {
        assert(nds =~= ds.push((k, d)));
        assert(nds.drop_last() =~= ds);
    } else {
        lemma_deck_map_of_insert(ds.drop_last(), i, k, d);
        assert(nds.drop_last() =~= ds.drop_last().insert(i, (k, d)));
        assert(nds.last() == ds.last());
        assert(deck_map_of(nds) =~= deck_map_of(ds).insert(k, d));
    }
}

proof fn lemma_deck_map_of_remove(ds: Seq<(i32, DeckSettings)>, i: int)
    requires
        keys_increasing(ds),
        0 <= i < ds.len(),
    ensures
        deck_map_of(ds.remove(i)) == deck_map_of(ds).remove(ds[i].0),
        keys_increasing(ds.remove(i)),
    decreases ds.len(),
{
    let nds = ds.remove(i);
    let k = ds[i].0;
    if i == ds.len() - 1 {
        assert(nds =~= ds.drop_last());
        assert forall|j: int| 0 <= j < nds.len() implies nds[j].0 != k by {}
        lemma_deck_map_of_dom(nds, k);
        assert(deck_map_of(nds) =~= deck_map_of(ds).remove(k));
    } else {
        lemma_deck_map_of_remove(ds.drop_last(), i);
        assert(nds.drop_last() =~= ds.drop_last().remove(i));
        assert(nds.last() == ds.last());
        assert(ds.last().0 != k);
        assert(deck_map_of(nds) =~= deck_map_of(ds).remove(k));
    }
}

/// `a`, then `b`, then `c`.
fn concat3(a: &str, b: &[char], c: &str) -> (r: String)
    ensures
        r@ == a@ + b@ + c@,
{
    let mut r = string_from(a);
    push_chars(&mut r, b);
    push_str(&mut r, c);
    r
}

/// Appends the lines of a tag list.
fn push_tag_lines(vr: &mut Vec<String>, indent: &str, tags: &Vec<String>)
    ensures
        views(final(vr)@) == views(old(vr)@) + tag_lines(indent@, views(tags@)),
{
    let mut i: usize = 0;
    while i < tags.len()
        invariant
            i <= tags@.len(),
            views(vr@) == views(old(vr)@) + tag_lines(indent@, views(tags@).take(i as int)),
        decreases tags.len() - i,
    {
        let mut line = string_from(indent);
        push_str(&mut line, "\"");
        push_str(&mut line, tags[i].as_str());
        push_str(&mut line, "\",");
        let ghost before = views(vr@);
        vr.push(line);
        assert(views(vr@) =~= before.push(line@));
        assert(views(tags@).take(i + 1) =~= views(tags@).take(i as int).push(tags@[i as int]@));
        assert(tag_lines(indent@, views(tags@).take(i + 1)) =~= tag_lines(
            indent@,
            views(tags@).take(i as int),
        ).push(indent@ + "\""@ + tags@[i as int]@ + "\","@));
        i += 1;
    }
    assert(views(tags@).take(tags.len() as int) =~= views(tags@));
}

/// Appends one line.
fn push_line(vr: &mut Vec<String>, line: String)
    ensures
        views(final(vr)@) == views(old(vr)@).push(line@),
{
    vr.push(line);
    assert(views(vr@) =~= views(old(vr)@).push(line@));
}

/// How `Display` writes a `bool`.
fn bool_string(b: bool) -> (r: &'static str)
    ensures
        r@ == bool_text(b),
{
    if b {
        "true"
    } else {
        "false"
    }
}

/// Appends the lines of one deck table.
fn push_deck_lines(vr: &mut Vec<String>, did: i32, d: &DeckSettings)
    ensures
        views(final(vr)@) == views(old(vr)@) + deck_lines(did, *d),
{
    let ghost start = views(vr@);
    let k = i32_text(did);
    push_line(vr, concat3("\t[decks.", k.as_slice(), "]"));
    push_line(vr, string_from("\ttags = ["));
    let ghost mid = views(vr@);
    push_tag_lines(vr, "\t\t", &d.tags);
    let ghost mid2 = views(vr@);
    push_line(vr, string_from("\t]"));
    let o = d.ordering.to_string();
    let ov = chars_of(o.as_str());
    push_line(vr, concat3("\tordering = \"", ov.as_slice(), "\""));
    let f = d.df.to_string();
    let fv = chars_of(f.as_str());
    push_line(vr, concat3("\tdefault_filter = \"", fv.as_slice(), "\""));
    push_line(vr, String::new());
    assert(views(vr@) =~= start + deck_lines(did, *d));
}

/// `f` is `o` with deck `did` recorded as the most recent.
pub open spec fn recent_set(o: Settings, did: i32, f: Settings) -> bool {
    &&& f.global_spec().recent == did
    &&& f.global_spec().tags == o.global_spec().tags
    &&& f.global_spec().ordering == o.global_spec().ordering
    &&& f.global_spec().df == o.global_spec().df
    &&& f.global_spec().version == o.global_spec().version
    &&& f.global_spec().open_into_recent == o.global_spec().open_into_recent
    &&& f.decks_spec() == o.decks_spec()
}

/// `f` is `o` with deck `did` given a copy of the global tags, order and
/// filter.
pub open spec fn deck_added(o: Settings, did: i32, f: Settings) -> bool {
    &&& f.global_spec() == o.global_spec()
    &&& f.decks_spec().dom() == o.decks_spec().dom().insert(did)
    &&& forall|k: i32|
        k != did && #[trigger] o.decks_spec().contains_key(k) ==> f.decks_spec()[k] == o.decks_spec()[k]
    &&& f.decks_spec()[did].tags@ == o.global_spec().tags@
    &&& f.decks_spec()[did].ordering == o.global_spec().ordering
    &&& f.decks_spec()[did].df == o.global_spec().df
}

/// `f` is `o` without the settings of `deck`.
pub open spec fn deck_dropped(o: Settings, deck: i32, f: Settings) -> bool {
    &&& f.decks_spec() == o.decks_spec().remove(deck)
    &&& f.global_spec() == o.global_spec()
}

/// `f` is `o` with `tag` added to a deck's tags (when `odid` names a
/// deck with settings) or to the global ones, unless already there.
pub open spec fn tag_added(o: Settings, odid: Option<i32>, tag: String, f: Settings) -> bool {
    match odid {
        Some(did) => {
            &&& f.global_spec() == o.global_spec()
            &&& f.decks_spec().dom() =~= o.decks_spec().dom()
            &&& forall|k: i32|
                k != did && #[trigger] o.decks_spec().contains_key(k) ==> f.decks_spec()[k] == o.decks_spec()[k]
            &&& o.decks_spec().contains_key(did) ==> {
                let before = o.decks_spec()[did];
                let after = f.decks_spec()[did];
                &&& after.ordering == before.ordering
                &&& after.df == before.df
                &&& views(before.tags@).contains(tag@) ==> after.tags@ == before.tags@
                &&& !views(before.tags@).contains(tag@) ==> views(after.tags@)
                    == sorted_text(views(before.tags@).push(tag@))
            }
        },
        None => {
            &&& f.decks_spec() == o.decks_spec()
            &&& views(f.global_spec().tags@) == sorted_text(
                views(o.global_spec().tags@).push(tag@),
            )
            &&& f.global_spec().ordering == o.global_spec().ordering
            &&& f.global_spec().df == o.global_spec().df
            &&& f.global_spec().version == o.global_spec().version
            &&& f.global_spec().recent == o.global_spec().recent
            &&& f.global_spec().open_into_recent == o.global_spec().open_into_recent
        },
    }
}

/// `f` is `o` with the saved `changes` applied to a deck's settings (when
/// `odid` names a deck that has some) or to the global ones.
pub open spec fn changes_applied(o: Settings, changes: Changes, odid: Option<i32>, f: Settings) -> bool {
    match odid {
        Some(did) => {
            &&& f.global_spec() == o.global_spec()
            &&& f.decks_spec().dom() =~= o.decks_spec().dom()
            &&& forall|k: i32|
                k != did && #[trigger] o.decks_spec().contains_key(k) ==> f.decks_spec()[k] == o.decks_spec()[k]
            &&& o.decks_spec().contains_key(did) ==> {
                let before = o.decks_spec()[did];
                let after = f.decks_spec()[did];
                &&& after.ordering == changes.so
                &&& after.df == changes.df
                &&& views(after.tags@).to_multiset() == tag_changes_ms(
                    views(before.tags@).to_multiset(),
                    changes.vtch@,
                )
                &&& changes.vtch@.len() == 0 ==> after.tags@ == before.tags@
                &&& changes.vtch@.len() > 0 ==> vstd::relations::sorted_by(
                    views(after.tags@),
                    text_order(),
                )
            }
        },
        None => {
            let before = o.global_spec();
            let after = f.global_spec();
            &&& f.decks_spec() == o.decks_spec()
            &&& after.ordering == changes.so
            &&& after.df == changes.df
            &&& after.open_into_recent == changes.oir->0
            &&& after.version == before.version
            &&& after.recent == before.recent
            &&& views(after.tags@).to_multiset() == tag_changes_ms(
                views(before.tags@).to_multiset(),
                changes.vtch@,
            )
            &&& changes.vtch@.len() == 0 ==> after.tags@ == before.tags@
            &&& changes.vtch@.len() > 0 ==> vstd::relations::sorted_by(
                views(after.tags@),
                text_order(),
            )
        },
    }
}

/// Entry `i` of the deck tables `d` is the last of the first `n` for deck
/// `did`.
pub open spec fn last_deck_entry(d: Seq<(i32, FileDeckSettings)>, did: i32, i: int, n: int) -> bool {
    &&& 0 <= i < n <= d.len()
    &&& d[i].0 == did
    &&& forall|j: int| i < j < n ==> #[trigger] d[j].0 != did
}

/// `ds` is what `DeckSettings::from` reads from `fds`.
pub open spec fn read_from(fds: FileDeckSettings, ds: DeckSettings) -> bool {
    &&& views(ds.tags@) == sorted_text(views(fds.tags@))
    &&& ds.ordering == SortOrder::parse(fds.ordering@)
    &&& ds.df == DefaultFilter::parse(fds.df@)
}

impl Settings {
    /// Deck ids are kept in strictly increasing order.
    pub closed spec fn wf(self) -> bool {
        keys_increasing(self.decks@)
    }

    /// The global settings.
    pub closed spec fn global_spec(self) -> GlobalSettings {
        self.global
    }

    /// The settings of each deck, by deck id.
    pub closed spec fn decks_spec(self) -> Map<i32, DeckSettings> {
        deck_map_of(self.decks@)
    }

    /// The text of the settings file, deck tables in ascending id order.
    pub closed spec fn toml_spec(self) -> Seq<char> {
        join_spec(global_lines(self.global) + decks_lines(self.decks@), "\n"@)
    }

    /// The position of a deck's entry, or where it would go.
    fn locate(&self, did: i32) -> (r: (usize, bool))
        requires
            self.wf(),
        ensures
            r.0 <= self.decks@.len(),
            forall|j: int| 0 <= j < r.0 ==> self.decks@[j].0 < did,
            r.1 ==> r.0 < self.decks@.len() && self.decks@[r.0 as int].0 == did,
            !r.1 ==> forall|j: int| r.0 <= j < self.decks@.len() ==> did < self.decks@[j].0,
            r.1 <==> self.decks_spec().contains_key(did),
            r.1 ==> self.decks_spec()[did] == self.decks@[r.0 as int].1,
    {
        let mut i: usize = 0;
        while i < self.decks.len()
            invariant
                i <= self.decks@.len(),
                keys_increasing(self.decks@),
                forall|j: int| 0 <= j < i ==> self.decks@[j].0 < did,
            decreases self.decks.len() - i,
        {
            if self.decks[i].0 == did {
                proof {
                    lemma_deck_map_of_index(self.decks@, i as int);
                }
                return (i, true);
            }
            if self.decks[i].0 > did {
                proof {
                    lemma_deck_map_of_dom(self.decks@, did);
                }
                return (i, false);
            }
            i += 1;
        }
        proof {
            lemma_deck_map_of_dom(self.decks@, did);
        }
        (i, false)
    }

    /// Sets the settings of deck `did`, replacing any it had.
    fn put_deck(&mut self, did: i32, ds: DeckSettings)
        requires
            old(self).wf(),
        ensures
            final(self).wf(),
            final(self).decks_spec() == old(self).decks_spec().insert(did, ds),
            final(self).global_spec() == old(self).global_spec(),
    {
        let (i, found) = self.locate(did);
        if found {
            let ghost d0 = self.decks@;
            self.decks.remove(i);
            self.decks.insert(i, (did, ds));
            proof {
                assert(self.decks@ =~= d0.update(i as int, (did, ds)));
                lemma_deck_map_of_update(d0, i as int, ds);
            }
        } else {
            let ghost d0 = self.decks@;
            proof {
                lemma_deck_map_of_insert(d0, i as int, did, ds);
            }
            self.decks.insert(i, (did, ds));
        }
    }

    /// Builds the settings from a settings file.
    pub fn from(fs: FileSettings) -> (r: Self)
        ensures
            r.wf(),
            views(r.global_spec().tags@) == sorted_text(views(fs.global.tags@)),
            r.global_spec().ordering == SortOrder::parse(fs.global.ordering@),
            r.global_spec().df == DefaultFilter::parse(fs.global.df@),
            r.global_spec().version@ == fs.global.version@,
            r.global_spec().recent == fs.global.recent,
            r.global_spec().open_into_recent == fs.global.open_into_recent,
            forall|did: i32|
                #![trigger r.decks_spec().contains_key(did)]
                r.decks_spec().contains_key(did) <==> exists|i: int|
                    0 <= i < fs.decks@.len() && fs.decks@[i].0 == did,
            forall|did: i32|
                #![trigger r.decks_spec().contains_key(did)]
                r.decks_spec().contains_key(did) ==> exists|i: int|
                    last_deck_entry(fs.decks@, did, i, fs.decks@.len() as int) && read_from(
                        fs.decks@[i].1,
                        r.decks_spec()[did],
                    ),
    {
        let FileSettings { global, decks } = fs;
        let gs = GlobalSettings::from(global);
        let mut settings = Settings { global: gs, decks: Vec::new() };
        let mut decks = decks;
        let ghost all = decks@;
        let mut i: usize = 0;
        while i < decks.len()
            invariant
                i <= decks@.len(),
                decks@ == all,
                settings.wf(),
                settings.global_spec() == gs,
                forall|did: i32|
                    #![trigger settings.decks_spec().contains_key(did)]
                    settings.decks_spec().contains_key(did) <==> exists|j: int|
                        0 <= j < i && all[j].0 == did,
                forall|did: i32|
                    #![trigger settings.decks_spec().contains_key(did)]
                    settings.decks_spec().contains_key(did) ==> exists|j: int|
                        last_deck_entry(all, did, j, i as int) && read_from(
                            all[j].1,
                            settings.decks_spec()[did],
                        ),
            decreases decks.len() - i,
        {
            let did = decks[i].0;
            let fds = FileDeckSettings {
                tags: clone_strings(&decks[i].1.tags),
                ordering: decks[i].1.ordering.clone(),
                df: decks[i].1.df.clone(),
            };
            let ds = DeckSettings::from(fds);
            let ghost m0 = settings.decks_spec();
            settings.put_deck(did, ds);
            assert forall|k: i32|
                #![trigger settings.decks_spec().contains_key(k)]
                settings.decks_spec().contains_key(k) implies exists|j: int|
                    last_deck_entry(all, k, j, i + 1) && read_from(all[j].1, settings.decks_spec()[k]) by {
                if k == did {
                    assert(last_deck_entry(all, k, i as int, i + 1));
                } else {
                    assert(m0.contains_key(k));
                    let j = choose|j: int| last_deck_entry(all, k, j, i as int) && read_from(all[j].1, m0[k]);
                    assert(last_deck_entry(all, k, j, i + 1));
                }
            }
            assert forall|k: i32|
                #![trigger settings.decks_spec().contains_key(k)]
                settings.decks_spec().contains_key(k) <==> exists|j: int|
                    0 <= j < i + 1 && all[j].0 == k by {
                if k == did {
                    assert(all[i as int].0 == k);
                } else if exists|j: int| 0 <= j < i + 1 && all[j].0 == k {
                    let j = choose|j: int| 0 <= j < i + 1 && all[j].0 == k;
                    assert(j < i);
                }
            }
            i += 1;
        }
        assert(all == fs.decks@);
        settings
    }

    /// Whether deck `did` has settings of its own.
    pub fn has_deck(&self, did: i32) -> (r: bool)
        requires
            self.wf(),
        ensures
            r == self.decks_spec().contains_key(did),
    {
        let (_, found) = self.locate(did);
        found
    }

    /// The global tag list.
    pub fn get_tags(&self) -> (r: Vec<String>)
        requires
            self.wf(),
        ensures
            r@ == self.global_spec().tags@,
    {
        clone_strings(&self.global.tags)
    }

    /// The tags of deck `did`, or the global ones if it has no settings.
    pub fn get_tags_deck(&self, did: i32) -> (r: Vec<String>)
        requires
            self.wf(),
        ensures
            self.decks_spec().contains_key(did) ==> r@ == self.decks_spec()[did].tags@,
            !self.decks_spec().contains_key(did) ==> r@ == self.global_spec().tags@,
    {
        let (i, found) = self.locate(did);
        if found {
            clone_strings(&self.decks[i].1.tags)
        } else {
            clone_strings(&self.global.tags)
        }
    }

    /// A copy of the settings of deck `did`, which must have some.
    pub fn rds(&self, did: i32) -> (r: DeckSettings)
        requires
            self.wf(),
            self.decks_spec().contains_key(did),
        ensures
            r.tags@ == self.decks_spec()[did].tags@,
            r.ordering == self.decks_spec()[did].ordering,
            r.df == self.decks_spec()[did].df,
    {
        let (i, found) = self.locate(did);
        self.decks[i].1.clone()
    }

    /// The sort order for a deck, or the global one.
    pub fn rso(&self, odid: Option<i32>) -> (r: SortOrder)
        requires
            self.wf(),
        ensures
            r == match odid {
                Some(did) => if self.decks_spec().contains_key(did) {
                    self.decks_spec()[did].ordering
                } else {
                    self.global_spec().ordering
                },
                None => self.global_spec().ordering,
            },
    {
        match odid {
            Some(did) => {
                let (i, found) = self.locate(did);
                if found {
                    self.decks[i].1.ordering
                } else {
                    self.global.ordering
                }
            },
            None => self.global.ordering,
        }
    }

    /// The default filter for a deck, or the global one.
    pub fn rdf(&self, odid: Option<i32>) -> (r: DefaultFilter)
        requires
            self.wf(),
        ensures
            r == match odid {
                Some(did) => if self.decks_spec().contains_key(did) {
                    self.decks_spec()[did].df
                } else {
                    self.global_spec().df
                },
                None => self.global_spec().df,
            },
    {
        match odid {
            Some(did) => {
                let (i, found) = self.locate(did);
                if found {
                    self.decks[i].1.df
                } else {
                    self.global.df
                }
            },
            None => self.global.df,
        }
    }

    /// The most recently opened deck.
    pub fn rr(&self) -> (r: i32)
        requires
            self.wf(),
        ensures
            r == self.global_spec().recent,
    {
        self.global.recent
    }

    /// Records the most recently opened deck.
    pub fn sr(&mut self, did: i32)
        requires
            old(self).wf(),
        ensures
            final(self).wf(),
            recent_set(*old(self), did, *final(self)),
    {
        self.global.recent = did;
    }

    /// Gives deck `did` a copy of the global settings.
    pub fn id(&mut self, did: i32)
        requires
            old(self).wf(),
        ensures
            final(self).wf(),
            deck_added(*old(self), did, *final(self)),
    {
        let ds = DeckSettings::duplicate(&self.global);
        self.put_deck(did, ds);
    }

    /// Forgets the settings of deck `did`.
    pub fn dd(&mut self, deck: i32)
        requires
            old(self).wf(),
        ensures
            final(self).wf(),
            deck_dropped(*old(self), deck, *final(self)),
    {
        let (i, found) = self.locate(deck);
        if found {
            proof {
                lemma_deck_map_of_remove(self.decks@, i as int);
            }
            self.decks.remove(i);
        } else {
            assert(self.decks_spec().remove(deck) =~= self.decks_spec());
        }
    }

    /// Adds a tag to a deck (when `odid` names one that has settings) or to
    /// the global list. Answers whether the tag went somewhere.
    pub fn it(&mut self, odid: Option<i32>, tag: String) -> (added: bool)
        requires
            old(self).wf(),
        ensures
            final(self).wf(),
            tag_added(*old(self), odid, tag, *final(self)),
            added == match odid {
                Some(did) => old(self).decks_spec().contains_key(did),
                None => true,
            },
    {
        match odid {
            Some(did) => {
                let (i, found) = self.locate(did);
                if found {
                    let mut ds = self.decks[i].1.clone();
                    ds.add_tag(tag);
                    self.put_deck(did, ds);
                    true
                } else {
                    false
                }
            },
            None => {
                let ghost t = tag@;
                self.global.tags.push(tag);
                assert(views(self.global.tags@) =~= views(old(self).global.tags@).push(t));
                sort_strings(&mut self.global.tags);
                true
            },
        }
    }

    /// Applies what the settings screen saved, to a deck's settings (when
    /// `odid` names a deck that has some) or to the global ones. Tags
    /// are sorted after each edit.
    pub fn change(&mut self, changes: &Changes, odid: Option<i32>)
        requires
            old(self).wf(),
            odid is None ==> changes.oir is Some,
        ensures
            final(self).wf(),
            changes_applied(*old(self), *changes, odid, *final(self)),
    {
        match odid {
            Some(did) => {
                let (i, found) = self.locate(did);
                if found {
                    let mut ds = self.decks[i].1.clone();
                    ds.df = changes.df;
                    ds.ordering = changes.so;
                    apply_tag_changes(&mut ds.tags, &changes.vtch);
                    self.put_deck(did, ds);
                }
            },
            None => {
                self.global.df = changes.df;
                self.global.ordering = changes.so;
                self.global.open_into_recent = changes.oir.unwrap();
                apply_tag_changes(&mut self.global.tags, &changes.vtch);
            },
        }
    }

    /// The settings file text: the global table, then each deck table in
    /// ascending id order, lines joined with newlines.
    pub fn to_toml(&self) -> (r: String)
        requires
            self.wf(),
        ensures
            r@ == self.toml_spec(),
    {
        let mut vr: Vec<String> = Vec::new();
        let g = &self.global;
        push_line(&mut vr, string_from("[global]"));
        let vv = chars_of(g.version.as_str());
        push_line(&mut vr, concat3("version = ", vv.as_slice(), ""));
        push_line(&mut vr, string_from("tags = ["));
        push_tag_lines(&mut vr, "\t", &g.tags);
        push_line(&mut vr, string_from("]"));
        let o = g.ordering.to_string();
        let ov = chars_of(o.as_str());
        push_line(&mut vr, concat3("ordering = \"", ov.as_slice(), "\""));
        let f = g.df.to_string();
        let fv = chars_of(f.as_str());
        push_line(&mut vr, concat3("default_filter = \"", fv.as_slice(), "\""));
        let rv = i32_text(g.recent);
        push_line(&mut vr, concat3("recent = ", rv.as_slice(), ""));
        let bv = chars_of(bool_string(g.open_into_recent));
        push_line(&mut vr, concat3("open_into_recent = ", bv.as_slice(), ""));
        push_line(&mut vr, string_from("\n[decks]"));
        proof {
            reveal_strlit("");
            assert(views(vr@) =~= global_lines(self.global));
        }
        let mut i: usize = 0;
        while i < self.decks.len()
            invariant
                i <= self.decks@.len(),
                views(vr@) == global_lines(self.global) + decks_lines(self.decks@.take(i as int)),
            decreases self.decks.len() - i,
        {
            push_deck_lines(&mut vr, self.decks[i].0, &self.decks[i].1);
            assert(self.decks@.take(i + 1).drop_last() =~= self.decks@.take(i as int));
            i += 1;
        }
        assert(self.decks@.take(self.decks.len() as int) =~= self.decks@);
        join_strings(&vr, "\n")
    }
}

/// A card as the deck screens show it. `cmc` and `price` hold the numbers
/// as they are displayed.
#[derive(Debug, Clone, PartialEq, Default)]
pub struct Card {
    pub cmc: String,
    pub color_identity: Vec<char>,
    pub loyalty: String,
    pub mana_cost: String,
    pub name: String,
    pub power: String,
    pub tags: Vec<String>,
    pub text: String,
    pub toughness: String,
    pub types: String,
    pub lo: CardLayout,
    pub rarity: String,
    pub price: Option<String>,
    pub stale: bool,
}

/// The day a `YYYY-MM-DD` text names, counted as chrono counts days from
/// the start of the common era, or `None` when the text is no such date.
pub uninterp spec fn date_day(s: Seq<char>) -> Option<int>;

/// Parses a date with chrono's `NaiveDate::parse_from_str(s, "%Y-%m-%d")`
/// and gives its `Datelike::num_days_from_ce`; `None` when the text does not
/// parse as a date.
#[verifier::external_body]
fn day_of_date(s: &str) -> (r: Option<i32>)
    ensures
        match r {
            Some(n) => date_day(s@) == Some(n as int),
            None => date_day(s@) is None,
        },
{
    match chrono::NaiveDate::parse_from_str(s, "%Y-%m-%d") {
        Ok(d) => Some(chrono::Datelike::num_days_from_ce(&d)),
        Err(_) => None,
    }
}

/// A price read on the day `retrieved` names is out of date on day `today`
/// (same count) when more than two weeks have passed since, or when no
/// date was recorded in that form.
pub open spec fn stale_spec(retrieved: Seq<char>, today: int) -> bool {
    match date_day(retrieved) {
        Some(d) => today - d > 14,
        None => true,
    }
}

/// Whether a price read on `retrieved` is out of date on day `today`.
pub fn is_stale(retrieved: &str, today: i32) -> (r: bool)
    ensures
        r == stale_spec(retrieved@, today as int),
{
    match day_of_date(retrieved) {
        Some(d) => (today as i64) - (d as i64) > 14,
        None => true,
    }
}

/// The pattern that finds a commander's named partner in its rules text.
pub const PARTNER_WITH_PATTERN: &'static str = "Partner with ([\\w, ]+)(?:\\n| \\()";

/// A legendary creature, or a planeswalker whose text allows it, can lead a
/// deck.
pub open spec fn commander_eligible(types: Seq<char>, text: Seq<char>) -> bool {
    (contains_spec(types, "Legendary"@) && contains_spec(types, "Creature"@)) || (contains_spec(
        types,
        "Planeswalker"@,
    ) && contains_spec(text, "can be your commander"@))
}

/// The lines a rules text splits into.
pub open spec fn text_lines(text: Seq<char>) -> Seq<Seq<char>> {
    split_spec(text, '\n')
}

/// The opening lines of the card panel: name, cost and mana value, types,
/// rarity, an empty line, then the rules text.
pub open spec fn display_head(c: Card) -> Seq<Seq<char>> {
    seq![c.name@, c.mana_cost@ + ", ("@ + c.cmc@ + ")"@, c.types@, c.rarity@, Seq::<char>::empty()]
        + text_lines(c.text@)
}

/// Power and toughness, else loyalty, after an empty line.
pub open spec fn display_stats(c: Card) -> Seq<Seq<char>> {
    if c.power@.len() > 0 {
        seq![Seq::<char>::empty(), "Power/Toughness: "@ + c.power@ + "/"@ + c.toughness@]
    } else if c.loyalty@.len() > 0 {
        seq![Seq::<char>::empty(), "Loyalty: "@ + c.loyalty@]
    } else {
        Seq::<Seq<char>>::empty()
    }
}

/// The related card, after an empty line.
pub open spec fn display_related(c: Card) -> Seq<Seq<char>> {
    match c.lo {
        CardLayout::Paired(_, message, rel) => seq![Seq::<char>::empty(), message@ + ": "@ + rel@],
        CardLayout::Meld(side, face, meld) => if side == 'a' {
            seq![Seq::<char>::empty(), "Melds with "@ + face@ + " to form "@ + meld@]
        } else if side == 'b' {
            seq![Seq::<char>::empty(), "Melds from "@ + face@ + " and "@ + meld@]
        } else {
            seq![Seq::<char>::empty()]
        },
        _ => Seq::<Seq<char>>::empty(),
    }
}

/// An empty line, then the price and the tags.
pub open spec fn display_tail(c: Card) -> Seq<Seq<char>> {
    let price = match c.price {
        Some(p) => seq!["Price: $"@ + p@],
        None => Seq::<Seq<char>>::empty(),
    };
    let tags = if c.tags@.len() > 0 {
        seq!["Tags: "@ + join_spec(views(c.tags@), " "@)]
    } else {
        Seq::<Seq<char>>::empty()
    };
    seq![Seq::<char>::empty()] + price + tags
}

/// The lines of the card panel: name, cost and mana value, types, rarity,
/// the rules text, then power and toughness or loyalty, the related card,
/// the price and the tags, with empty lines between the parts.
pub open spec fn display_spec(c: Card) -> Seq<Seq<char>> {
    display_head(c) + display_stats(c) + display_related(c) + display_tail(c)
}

/// The card panel opens with the card's name, its cost followed by its
/// mana value in brackets, its types and its rarity, and then shows, after
/// the rules text and an empty line, the card's power then its toughness
/// as `Power/Toughness: power/toughness` when it has a power, else its
/// loyalty as `Loyalty: loyalty` when it has one.
pub proof fn lemma_stats_line(c: Card)
    ensures
        display_spec(c)[0] == c.name@,
        display_spec(c)[1] == c.mana_cost@ + ", ("@ + c.cmc@ + ")"@,
        display_spec(c)[2] == c.types@,
        display_spec(c)[3] == c.rarity@,
        ({
            let at = 6 + text_lines(c.text@).len() as int;
            &&& c.power@.len() > 0 ==> display_spec(c)[at - 1] == Seq::<char>::empty()
                && display_spec(c)[at] == "Power/Toughness: "@ + c.power@ + "/"@ + c.toughness@
            &&& c.power@.len() == 0 && c.loyalty@.len() > 0 ==> display_spec(c)[at - 1]
                == Seq::<char>::empty() && display_spec(c)[at] == "Loyalty: "@ + c.loyalty@
        }),
{
    let h = display_head(c);
    assert(h.len() == 5 + text_lines(c.text@).len());
    let rest = display_stats(c) + display_related(c) + display_tail(c);
    assert(display_spec(c) =~= h + rest);
}

impl Card {
    /// The lines of the card panel (see `display_spec`); the price line,
    /// when there is one, is the one that starts with `Price: $`.
    pub fn display(&self) -> (r: Vec<String>)
        ensures
            views(r@) == display_spec(*self),
    {
        let mut v: Vec<String> = Vec::new();
        self.push_head(&mut v);
        self.push_stats(&mut v);
        self.push_related(&mut v);
        self.push_tail(&mut v);
        assert(views(v@) =~= display_spec(*self));
        v
    }

    fn push_head(&self, v: &mut Vec<String>)
        ensures
            views(final(v)@) == views(old(v)@) + display_head(*self),
    {
        push_line(v, self.name.clone());
        let mut cost = self.mana_cost.clone();
        push_str(&mut cost, ", (");
        push_str(&mut cost, self.cmc.as_str());
        push_str(&mut cost, ")");
        push_line(v, cost);
        push_line(v, self.types.clone());
        push_line(v, self.rarity.clone());
        push_line(v, String::new());
        let text = chars_of(self.text.as_str());
        let parts = split_chars(&text, '\n');
        let ghost head = views(v@);
        let mut j: usize = 0;
        while j < parts.len()
            invariant
                j <= parts.len(),
                parts@.map_values(|p: Vec<char>| p@) == split_spec(self.text@, '\n'),
                views(v@) == head + split_spec(self.text@, '\n').take(j as int),
            decreases parts.len() - j,
        {
            let line = string_of(&parts[j]);
            assert(split_spec(self.text@, '\n').take(j + 1) =~= split_spec(self.text@, '\n').take(
                j as int,
            ).push(line@));
            push_line(v, line);
            j += 1;
        }
        assert(split_spec(self.text@, '\n').take(parts.len() as int) =~= split_spec(self.text@, '\n'));
        assert(views(v@) =~= views(old(v)@) + display_head(*self));
    }

    fn push_stats(&self, v: &mut Vec<String>)
        ensures
            views(final(v)@) == views(old(v)@) + display_stats(*self),
    {
        if crate::text::char_len(self.power.as_str()) > 0 {
            push_line(v, String::new());
            let mut st = string_from("Power/Toughness: ");
            push_str(&mut st, self.power.as_str());
            push_str(&mut st, "/");
            push_str(&mut st, self.toughness.as_str());
            push_line(v, st);
        } else if crate::text::char_len(self.loyalty.as_str()) > 0 {
            push_line(v, String::new());
            let mut st = string_from("Loyalty: ");
            push_str(&mut st, self.loyalty.as_str());
            push_line(v, st);
        }
        assert(views(v@) =~= views(old(v)@) + display_stats(*self));
    }

    fn push_related(&self, v: &mut Vec<String>)
        ensures
            views(final(v)@) == views(old(v)@) + display_related(*self),
    {
        match &self.lo {
            CardLayout::Paired(_, message, rel) => {
                push_line(v, String::new());
                let mut st = message.clone();
                push_str(&mut st, ": ");
                push_str(&mut st, rel.as_str());
                push_line(v, st);
            },
            CardLayout::Meld(side, face, meld) => {
                push_line(v, String::new());
                if *side == 'a' {
                    let mut st = string_from("Melds with ");
                    push_str(&mut st, face.as_str());
                    push_str(&mut st, " to form ");
                    push_str(&mut st, meld.as_str());
                    push_line(v, st);
                } else if *side == 'b' {
                    let mut st = string_from("Melds from ");
                    push_str(&mut st, face.as_str());
                    push_str(&mut st, " and ");
                    push_str(&mut st, meld.as_str());
                    push_line(v, st);
                }
            },
            _ => {},
        }
        assert(views(v@) =~= views(old(v)@) + display_related(*self));
    }

    fn push_tail(&self, v: &mut Vec<String>)
        ensures
            views(final(v)@) == views(old(v)@) + display_tail(*self),
    {
        push_line(v, String::new());
        match &self.price {
            Some(p) => {
                let mut st = string_from("Price: $");
                push_str(&mut st, p.as_str());
                push_line(v, st);
            },
            None => {},
        }
        if self.tags.len() > 0 {
            let mut st = string_from("Tags: ");
            let joined = join_strings(&self.tags, " ");
            push_str(&mut st, joined.as_str());
            push_line(v, st);
        }
        assert(views(v@) =~= views(old(v)@) + display_tail(*self));
    }

    /// The card's name.
    pub fn to_string(&self) -> (r: String)
        ensures
            r@ == self.name@,
    {
        self.name.clone()
    }

    /// Whether the card can lead a deck, and how it takes a partner: a named
    /// partner found by `PARTNER_WITH_PATTERN`, else any partner when its text
    /// mentions `Partner`.
    pub fn is_commander(&self) -> (r: CommanderType)
        ensures
            !commander_eligible(self.types@, self.text@) ==> r is Invalid,
            commander_eligible(self.types@, self.text@) ==> match regex_group1(
                PARTNER_WITH_PATTERN@,
                self.text@,
            ) {
                Some(p) => r matches CommanderType::PartnerWith(s) && s@ == p,
                None => if contains_spec(self.text@, "Partner"@) {
                    r is Partner
                } else {
                    r is Default
                },
            },
    {
        if (contains_str(self.types.as_str(), "Legendary") && contains_str(
            self.types.as_str(),
            "Creature",
        )) || (contains_str(self.types.as_str(), "Planeswalker") && contains_str(
            self.text.as_str(),
            "can be your commander",
        )) {
            if let Some(cap) = capture_group1(PARTNER_WITH_PATTERN, self.text.as_str()) {
                return CommanderType::PartnerWith(cap);
            }
            if contains_str(self.text.as_str(), "Partner") {
                return CommanderType::Partner;
            }
            return CommanderType::Default;
        }
        CommanderType::Invalid
    }
}

/// A deck: its name, commanders, color identity letters and database id.
#[derive(Debug, Clone)]
pub struct Deck {
    pub name: String,
    pub commander: Card,
    pub commander2: Option<Card>,
    pub color: String,
    pub id: i32,
}

impl Deck {
    /// The deck's name.
    pub fn to_string(&self) -> (r: String)
        ensures
            r@ == self.name@,
    {
        self.name.clone()
    }
}

/// Which entry of a list or table is highlighted.
#[derive(Debug, Clone, Copy, PartialEq, Eq, Structural, Default)]
pub struct ListState {
    pub selected: Option<usize>,
}

/// Which row of a table is highlighted.
pub type TableState = ListState;

impl ListState {
    /// The highlighted entry.
    pub fn selected(&self) -> (r: Option<usize>)
        ensures
            r == self.selected,
    {
        self.selected
    }

    /// Highlights an entry, or none.
    pub fn select(&mut self, index: Option<usize>)
        ensures
            final(self).selected == index,
    {
        self.selected = index;
    }
}

/// An entry of a selection list: it has a label, can be compared and copied.
pub trait ListEntry: Sized {
    /// The label shown for the entry.
    spec fn label_spec(&self) -> Seq<char>;

    /// When two entries are equal.
    spec fn same_spec(&self, other: &Self) -> bool;

    /// The label shown for the entry.
    fn label(&self) -> (r: String)
        ensures
            r@ == self.label_spec(),
    ;

    /// Whether two entries are equal.
    fn same(&self, other: &Self) -> (r: bool)
        ensures
            r == self.same_spec(other),
    ;

    /// A copy of the entry.
    fn duplicate(&self) -> (r: Self)
        ensures
            r == *self,
    ;
}

impl ListEntry for String {
    open spec fn label_spec(&self) -> Seq<char> {
        self@
    }

    open spec fn same_spec(&self, other: &Self) -> bool {
        self@ == other@
    }

    fn label(&self) -> (r: String) {
        self.clone()
    }

    fn same(&self, other: &Self) -> (r: bool) {
        str_eq(self.as_str(), other.as_str())
    }

    fn duplicate(&self) -> (r: Self) {
        self.clone()
    }
}

/// A main menu entry and the screen it leads to (none means quit).
#[derive(Debug, PartialEq, Clone)]
pub struct MainMenuItem {
    pub text: String,
    pub next: Option<Screen>,
}

impl MainMenuItem {
    /// An entry that leads nowhere.
    pub fn from(s: String) -> (r: MainMenuItem)
        ensures
            r.text == s,
            r.next is None,
    {
        MainMenuItem { text: s, next: None }
    }

    /// An entry that leads to `screen`.
    pub fn from_with_screen(s: String, screen: Screen) -> (r: MainMenuItem)
        ensures
            r.text == s,
            r.next == Some(screen),
    {
        MainMenuItem { text: s, next: Some(screen) }
    }

    /// The entry's text.
    pub fn to_string(&self) -> (r: String)
        ensures
            r@ == self.text@,
    {
        self.text.clone()
    }
}

impl ListEntry for MainMenuItem {
    open spec fn label_spec(&self) -> Seq<char> {
        self.text@
    }

    open spec fn same_spec(&self, other: &Self) -> bool {
        self.text@ == other.text@ && self.next == other.next
    }

    fn label(&self) -> (r: String) {
        self.text.clone()
    }

    fn same(&self, other: &Self) -> (r: bool) {
        str_eq(self.text.as_str(), other.text.as_str()) && match (self.next, other.next) {
            (Some(a), Some(b)) => a == b,
            (None, None) => true,
            _ => false,
        }
    }

    fn duplicate(&self) -> (r: Self) {
        MainMenuItem { text: self.text.clone(), next: self.next }
    }
}

/// The index that moving down from `sel` reaches in a list of `len > 0`
/// entries: the next one, wrapping to the top.
pub open spec fn next_index(sel: Option<usize>, len: nat) -> usize {
    match sel {
        Some(i) => if i >= len - 1 {
            0
        } else {
            (i + 1) as usize
        },
        None => 0,
    }
}

/// The index that moving up from `sel` reaches in a list of `len > 0`
/// entries: the previous one, wrapping to the bottom.
pub open spec fn previous_index(sel: Option<usize>, len: nat) -> usize {
    match sel {
        Some(i) => if i == 0 {
            (len - 1) as usize
        } else {
            (i - 1) as usize
        },
        None => 0,
    }
}

/// A list of entries of which at most one is highlighted.
pub struct StatefulList<T: ListEntry> {
    pub state: ListState,
    pub items: Vec<T>,
}

impl<T: ListEntry> StatefulList<T> {
    /// An empty list with nothing highlighted.
    pub fn new() -> (r: StatefulList<T>)
        ensures
            r.items@.len() == 0,
            r.state.selected is None,
    {
        StatefulList { state: ListState { selected: None }, items: Vec::new() }
    }

    /// A list of `items` with nothing highlighted.
    pub fn with_items(items: Vec<T>) -> (r: StatefulList<T>)
        ensures
            r.items@ == items@,
            r.state.selected is None,
    {
        StatefulList { state: ListState { selected: None }, items }
    }

    /// Replaces the entries. With `restore_pos`, the entry that was
    /// highlighted stays highlighted where it is still present; otherwise the
    /// first entry is, or none in an empty list.
    pub fn reinitialize(&mut self, items: Vec<T>, restore_pos: bool)
        requires
            old(self).state.selected matches Some(i) ==> i < old(self).items@.len(),
        ensures
            final(self).items@ == items@,
            items@.len() == 0 ==> final(self).state.selected is None,
            items@.len() > 0 && (!restore_pos || old(self).state.selected is None)
                ==> final(self).state.selected == Some(0usize),
            items@.len() > 0 && restore_pos && old(self).state.selected is Some ==> {
                let old_item = old(self).items@[old(self).state.selected->0 as int];
                match final(self).state.selected {
                    Some(j) => {
                        &&& j < items@.len()
                        &&& (items@[j as int].same_spec(&old_item) && forall|k: int|
                            0 <= k < j ==> !items@[k].same_spec(&old_item)) || (j == 0
                            && forall|k: int|
                            0 <= k < items@.len() ==> !items@[k].same_spec(&old_item))
                    },
                    None => false,
                }
            },
    {
        let old = match self.state.selected() {
            Some(i) => Some(self.items[i].duplicate()),
            None => None,
        };
        self.items = items;
        if self.items.len() > 0 {
            if restore_pos && old.is_some() {
                let old = old.unwrap();
                let mut i: usize = 0;
                let mut found = false;
                while !found && i < self.items.len()
                    invariant
                        i <= self.items@.len(),
                        self.items@ == items@,
                        found ==> i < items@.len() && items@[i as int].same_spec(&old),
                        forall|k: int| 0 <= k < i ==> !items@[k].same_spec(&old),
                    decreases self.items.len() - i, if found { 0int } else { 1int },
                {
                    if self.items[i].same(&old) {
                        found = true;
                    } else {
                        i += 1;
                    }
                }
                if found {
                    self.state.select(Some(i));
                } else {
                    self.state.select(Some(0));
                }
            } else {
                self.state.select(Some(0));
            }
        } else {
            self.state.select(None);
        }
    }

    /// Highlights the next entry (the first after the last, or the first
    /// when none is highlighted) and returns its label; an empty list is left
    /// as it is.
    pub fn next(&mut self) -> (r: Option<String>)
        ensures
            final(self).items@ == old(self).items@,
            old(self).items@.len() == 0 ==> r is None && final(self).state == old(self).state,
            old(self).items@.len() > 0 ==> {
                let i = next_index(old(self).state.selected, old(self).items@.len());
                &&& final(self).state.selected == Some(i)
                &&& (r matches Some(t) && t@ == old(self).items@[i as int].label_spec())
            },
    {
        if self.items.len() > 0 {
            let i = match self.state.selected() {
                Some(i) => {
                    if i >= self.items.len() - 1 {
                        0
                    } else {
                        i + 1
                    }
                },
                None => 0,
            };
            self.state.select(Some(i));
            Some(self.items[i].label())
        } else {
            None
        }
    }

    /// Highlights the previous entry (the last before the first, or the first
    /// when none is highlighted) and returns its label.
    pub fn previous(&mut self) -> (r: String)
        requires
            old(self).items@.len() > 0,
            old(self).state.selected matches Some(i) ==> i <= old(self).items@.len(),
        ensures
            final(self).items@ == old(self).items@,
            final(self).state.selected == Some(
                previous_index(old(self).state.selected, old(self).items@.len()),
            ),
            r@ == old(self).items@[previous_index(
                old(self).state.selected,
                old(self).items@.len(),
            ) as int].label_spec(),
    {
        let i = match self.state.selected() {
            Some(i) => {
                if i == 0 {
                    self.items.len() - 1
                } else {
                    i - 1
                }
            },
            None => 0,
        };
        self.state.select(Some(i));
        self.items[i].label()
    }

    /// Highlights the first entry equal to `selected`, if any.
    pub fn select(&mut self, selected: &T)
        ensures
            final(self).items@ == old(self).items@,
            (exists|k: int| 0 <= k < old(self).items@.len() && old(self).items@[k].same_spec(selected))
                ==> (final(self).state.selected matches Some(i) && i < old(self).items@.len()
                && old(self).items@[i as int].same_spec(selected) && forall|k: int|
                0 <= k < i ==> !old(self).items@[k].same_spec(selected)),
            !(exists|k: int| 0 <= k < old(self).items@.len() && old(self).items@[k].same_spec(selected))
                ==> final(self).state == old(self).state,
    {
        let mut i: usize = 0;
        while i < self.items.len()
            invariant
                i <= self.items@.len(),
                self.items@ == old(self).items@,
                self.state == old(self).state,
                forall|k: int| 0 <= k < i ==> !self.items@[k].same_spec(selected),
            decreases self.items.len() - i,
        {
            if self.items[i].same(selected) {
                self.state.select(Some(i));
                return;
            }
            i += 1;
        }
    }

    /// Highlights nothing.
    pub fn unselect(&mut self)
        ensures
            final(self).items@ == old(self).items@,
            final(self).state.selected is None,
    {
        self.state.select(None);
    }

    /// The highlighted entry.
    pub fn get(&self) -> (r: Option<&T>)
        requires
            self.state.selected matches Some(i) ==> i < self.items@.len(),
        ensures
            match self.state.selected {
                Some(i) => r == Some(&self.items@[i as int]),
                None => r is None,
            },
    {
        if let Some(s) = self.state.selected() {
            Some(&self.items[s])
        } else {
            None
        }
    }

    /// The label of the highlighted entry, or nothing in an empty list.
    pub fn get_string(&self) -> (r: Option<String>)
        requires
            self.items@.len() > 0 ==> (self.state.selected matches Some(i) && i < self.items@.len()),
        ensures
            self.items@.len() == 0 ==> r is None,
            self.items@.len() > 0 ==> (r matches Some(t) && t@ == self.items@[self.state.selected->0 as int].label_spec()),
    {
        if self.items.len() > 0 {
            let i = self.state.selected().unwrap();
            return Some(self.items[i].label());
        }
        None
    }

    /// Removes and returns the highlighted entry; the highlight stays at the
    /// same position, moves up from the end, or goes when the list empties.
    pub fn remove(&mut self) -> (r: T)
        requires
            old(self).state.selected matches Some(i) && i < old(self).items@.len(),
        ensures
            ({
                let a = old(self).state.selected->0;
                &&& r == old(self).items@[a as int]
                &&& final(self).items@ == old(self).items@.remove(a as int)
                &&& final(self).items@.len() == 0 ==> final(self).state.selected is None
                &&& final(self).items@.len() > 0 ==> final(self).state.selected == Some(
                    if a == final(self).items@.len() {
                        (a - 1) as usize
                    } else {
                        a
                    },
                )
            }),
    {
        let mut a = self.state.selected().unwrap();
        let removed = self.items.remove(a);
        if self.items.len() > 0 {
            if a == self.items.len() {
                a -= 1;
            }
            self.state.select(Some(a));
        } else {
            self.state.select(None);
        }
        removed
    }

    /// Removes the last entry labelled `s` when it stands before position
    /// 999999, moving the highlight up when the entry stood above it.
    pub fn remove_named(&mut self, s: &String)
        requires
            old(self).state.selected is Some,
        ensures
            ({
                let a = old(self).state.selected->0;
                let items = old(self).items@;
                match last_label_index(items, s@) {
                    Some(j) => if j < 999999 {
                        &&& final(self).items@ == items.remove(j)
                        &&& final(self).state.selected == if j < a {
                            Some((a - 1) as usize)
                        } else {
                            Some(a)
                        }
                    } else {
                        final(self).items@ == items && final(self).state == old(self).state
                    },
                    None => final(self).items@ == items && final(self).state == old(self).state,
                }
            }),
    {
        let mut i: usize = 999999;
        let a = self.state.selected().unwrap();
        let mut j: usize = 0;
        while j < self.items.len()
            invariant
                j <= self.items@.len(),
                self.items@ == old(self).items@,
                self.state == old(self).state,
                match last_label_index(self.items@.take(j as int), s@) {
                    Some(k) => i == k,
                    None => i == 999999,
                },
            decreases self.items.len() - j,
        {
            let l = self.items[j].label();
            assert(self.items@.take(j + 1).drop_last() =~= self.items@.take(j as int));
            if str_eq(l.as_str(), s.as_str()) {
                i = j;
            }
            j += 1;
        }
        assert(self.items@.take(self.items.len() as int) =~= self.items@);
        if i < 999999 {
            proof {
                lemma_last_label_index_bound(self.items@, s@);
            }
            self.items.remove(i);
            if i < a {
                self.state.select(Some(a - 1));
            }
        }
    }

    /// Puts `obj` in place of the highlighted entry.
    pub fn replace(&mut self, obj: T)
        requires
            old(self).state.selected matches Some(i) && i < old(self).items@.len(),
        ensures
            final(self).items@ == old(self).items@.update(old(self).state.selected->0 as int, obj),
            final(self).state == old(self).state,
    {
        let a = self.state.selected().unwrap();
        self.items.remove(a);
        self.items.insert(a, obj);
        assert(self.items@ =~= old(self).items@.update(a as int, obj));
    }
}

/// The position of the last entry of `items` labelled `s`.
pub open spec fn last_label_index<T: ListEntry>(items: Seq<T>, s: Seq<char>) -> Option<int>
    decreases items.len(),
{
    if items.len() == 0 {
        None
    } else if items.last().label_spec() == s {
        Some(items.len() - 1)
    } else {
        last_label_index(items.drop_last(), s)
    }
}

proof fn lemma_last_label_index_bound<T: ListEntry>(items: Seq<T>, s: Seq<char>)
    ensures
        last_label_index(items, s) matches Some(j) ==> 0 <= j < items.len() && items[j].label_spec() == s,
    decreases items.len(),
{
    if items.len() > 0 {
        lemma_last_label_index_bound(items.drop_last(), s);
    }
}

/// The decks offered on the open-deck screen and the highlighted row.
pub struct OpenDeckTable {
    pub decks: Vec<Deck>,
    pub state: TableState,
}

/// The cells of a deck's row in the deck table: id, name, commanders (the
/// second on its own line), colors.
pub open spec fn deck_row(d: Deck) -> Seq<Seq<char>> {
    let com2 = match d.commander2 {
        Some(c) => c.name@,
        None => Seq::<char>::empty(),
    };
    seq![int_text(d.id as int), d.name@, d.commander.name@ + "\n"@ + com2, d.color@]
}

/// The rows of the deck table, one per deck; a row with a second commander
/// is two lines high.
pub fn deck_rows(decks: &Vec<Deck>) -> (r: Vec<(Vec<String>, u16)>)
    ensures
        r@.len() == decks@.len(),
        forall|i: int|
            0 <= i < decks@.len() ==> views(#[trigger] r@[i].0@) == deck_row(decks@[i]) && r@[i].1 == (
            if decks@[i].commander2 is Some {
                2u16
            } else {
                1u16
            }),
{
    let mut rows: Vec<(Vec<String>, u16)> = Vec::new();
    let mut j: usize = 0;
    while j < decks.len()
        invariant
            j <= decks@.len(),
            rows@.len() == j,
            forall|i: int|
                0 <= i < j ==> views(#[trigger] rows@[i].0@) == deck_row(decks@[i]) && rows@[i].1 == (
                if decks@[i].commander2 is Some {
                    2u16
                } else {
                    1u16
                }),
        decreases decks.len() - j,
    {
        let d = &decks[j];
        let (height, com2) = match &d.commander2 {
            Some(c) => (2u16, c.name.clone()),
            None => (1u16, String::new()),
        };
        let mut cells: Vec<String> = Vec::new();
        let idt = i32_text(d.id);
        let mut coms = d.commander.name.clone();
        push_str(&mut coms, "\n");
        push_str(&mut coms, com2.as_str());
        push_line(&mut cells, crate::text::string_of(&idt));
        push_line(&mut cells, d.name.clone());
        push_line(&mut cells, coms);
        push_line(&mut cells, d.color.clone());
        assert(views(cells@) =~= deck_row(decks@[j as int]));
        let ghost gc = cells@;
        let ghost before = rows@;
        rows.push((cells, height));
        assert(rows@[j as int].0@ == gc);
        assert(forall|i: int| 0 <= i < j ==> rows@[i] == before[i]);
        j += 1;
    }
    rows
}

impl OpenDeckTable {
    /// A table with no decks.
    pub fn new() -> (r: OpenDeckTable)
        ensures
            r.decks@.len() == 0,
            r.state.selected is None,
    {
        OpenDeckTable { decks: Vec::new(), state: ListState { selected: None } }
    }

    /// The table's rows (see `deck_rows`).
    pub fn rdt(&self) -> (r: Vec<(Vec<String>, u16)>)
        ensures
            r@.len() == self.decks@.len(),
            forall|i: int|
                0 <= i < self.decks@.len() ==> views(#[trigger] r@[i].0@) == deck_row(self.decks@[i])
                    && r@[i].1 == (if self.decks@[i].commander2 is Some {
                    2u16
                } else {
                    1u16
                }),
    {
        deck_rows(&self.decks)
    }

    /// Fills the table with the decks read from the database, highlighting
    /// the first row when there is one.
    pub fn init(&mut self, decks: Vec<Deck>)
        ensures
            final(self).decks@ == decks@,
            decks@.len() > 0 ==> final(self).state.selected == Some(0usize),
            decks@.len() == 0 ==> final(self).state == old(self).state,
    {
        if decks.len() > 0 {
            self.state.select(Some(0));
        }
        self.decks = decks;
    }

    /// Moves the highlight down, wrapping to the top.
    pub fn next(&mut self)
        ensures
            final(self).decks@ == old(self).decks@,
            old(self).decks@.len() == 0 ==> final(self).state == old(self).state,
            old(self).decks@.len() > 0 ==> final(self).state.selected == Some(
                next_index(old(self).state.selected, old(self).decks@.len()),
            ),
    {
        if self.decks.len() == 0 {
            return;
        }
        let i = match self.state.selected() {
            Some(i) => {
                if i >= self.decks.len() - 1 {
                    0
                } else {
                    i + 1
                }
            },
            None => 0,
        };
        self.state.select(Some(i));
    }

    /// Moves the highlight up, wrapping to the bottom.
    pub fn previous(&mut self)
        ensures
            final(self).decks@ == old(self).decks@,
            old(self).decks@.len() == 0 ==> final(self).state == old(self).state,
            old(self).decks@.len() > 0 ==> final(self).state.selected == Some(
                previous_index(old(self).state.selected, old(self).decks@.len()),
            ),
    {
        if self.decks.len() == 0 {
            return;
        }
        let i = match self.state.selected() {
            Some(i) => {
                if i == 0 {
                    self.decks.len() - 1
                } else {
                    i - 1
                }
            },
            None => 0,
        };
        self.state.select(Some(i));
    }

    /// The highlighted deck.
    pub fn get(&self) -> (r: Option<&Deck>)
        ensures
            r == match self.state.selected {
                Some(i) => if i < self.decks@.len() {
                    Some(&self.decks@[i as int])
                } else {
                    None
                },
                None => None,
            },
    {
        if self.decks.len() == 0 {
            return None;
        }
        if let Some(i) = self.state.selected() {
            if i < self.decks.len() {
                Some(&self.decks[i])
            } else {
                None
            }
        } else {
            None
        }
    }

    /// Removes the highlighted deck; the highlight moves up from the end and
    /// goes when the table empties.
    pub fn remove(&mut self) -> (r: Option<Deck>)
        requires
            old(self).decks@.len() > 0 ==> (old(self).state.selected matches Some(i) && i
                < old(self).decks@.len()),
        ensures
            old(self).decks@.len() == 0 ==> r is None && final(self).decks@ == old(self).decks@
                && final(self).state == old(self).state,
            old(self).decks@.len() > 0 ==> {
                let a = old(self).state.selected->0;
                &&& r == Some(old(self).decks@[a as int])
                &&& final(self).decks@ == old(self).decks@.remove(a as int)
                &&& final(self).decks@.len() == 0 ==> final(self).state.selected is None
                &&& final(self).decks@.len() > 0 ==> final(self).state.selected == Some(
                    if a == final(self).decks@.len() {
                        (a - 1) as usize
                    } else {
                        a
                    },
                )
            },
    {
        if self.decks.len() == 0 {
            return None;
        }
        let a = self.state.selected().unwrap();
        let d = self.decks.remove(a);
        if self.decks.len() == 0 {
            self.state = ListState { selected: None };
        } else if self.decks.len() == a {
            self.state.select(Some(a - 1));
        }
        Some(d)
    }
}

/// Moving down and then up in a list of at least one entry comes back to
/// the highlighted entry, and so does moving up and then down.
pub proof fn lemma_next_previous_inverse(i: usize, len: nat)
    requires
        i < len <= usize::MAX,
    ensures
        previous_index(Some(next_index(Some(i), len)), len) == i,
        next_index(Some(previous_index(Some(i), len)), len) == i,
{
}

/// Toggling the default filter twice gives back the filter.
pub proof fn lemma_toggle_df_involution(df: DefaultFilter)
    ensures
        df.toggled().toggled() == df,
        df.toggled() != df,
{
}

} // verus!
