//! The screens of the terminal interface as state machines: each takes a key
//! and answers with its next state and what the caller should do.
use vstd::prelude::*;
use crate::text::{
    byte_len, byte_len_of, char_at_byte, edit_fits, edit_fits_exec, lemma_char_at_byte,
    starts_char, string_insert_at_byte,
    string_remove_at_byte, char_len, count_string, count_text, lemma_count_text_multiset,
    lemma_sorted_text_same,
    set_string, sort_strings,
    sorted_text, str_eq, string_from, string_insert, string_remove, views,
};
use crate::util::{
    commander_eligible, next_index, previous_index, Card, CommanderType, Deck, DefaultFilter,
    ListState, SortOrder, TableState, PARTNER_WITH_PATTERN,
};
use crate::text::{contains_spec, regex_group1};

verus! {

/// The keys the screens react to; every other key is `Other`.
#[derive(Debug, Clone, Copy, PartialEq, Eq, Structural)]
pub enum KeyCode {
    Backspace,
    Enter,
    Left,
    Right,
    Up,
    Down,
    Home,
    End,
    Tab,
    BackTab,
    Delete,
    Esc,
    Char(char),
    Other,
}

/// One edit of a tag list made on the settings screen.
#[derive(Debug, PartialEq)]
pub enum TagChange {
    DeleteTag(String),
    ChangeTag(String, String),
    InsertTag(String),
}

impl Clone for TagChange {
    fn clone(&self) -> (r: Self)
        ensures
            r == *self,
    {
        match self {
            TagChange::DeleteTag(a) => TagChange::DeleteTag(a.clone()),
            TagChange::ChangeTag(a, b) => TagChange::ChangeTag(a.clone(), b.clone()),
            TagChange::InsertTag(a) => TagChange::InsertTag(a.clone()),
        }
    }
}

/// A copy of a list of tag edits.
fn clone_changes(v: &Vec<TagChange>) -> (r: Vec<TagChange>)
    ensures
        r@ == v@,
{
    let mut r: Vec<TagChange> = Vec::new();
    let mut i: usize = 0;
    while i < v.len()
        invariant
            i <= v@.len(),
            r@ == v@.take(i as int),
        decreases v.len() - i,
    {
        r.push(v[i].clone());
        assert(v@.take(i + 1) =~= v@.take(i as int).push(v@[i as int]));
        i += 1;
    }
    assert(v@.take(v.len() as int) =~= v@);
    r
}

/// What the settings screen hands back when saved.
pub struct Changes {
    pub df: DefaultFilter,
    pub so: SortOrder,
    pub oir: Option<bool>,
    pub vtch: Vec<TagChange>,
}

/// The parts of the settings screen.
#[derive(Debug, Copy, Clone, PartialEq, Eq, Structural)]
pub enum SettingsSection {
    Tags,
    TagText,
    DefaultFilter,
    Order,
    OpenIntoRecent,
    Save,
    Exit,
}

/// What a screen asks of its caller after a key.
pub enum ViewExit {
    Save(Changes),
    NewDeck(i32),
    Hold,
    Cancel,
}

/// The settings screen: the tag list being edited (its last entry is the
/// `{Add new tag}` placeholder), the highlighted tag `vpos`, the cursor
/// `tpos` (a byte position) in the tag being typed, the old text `wt`
/// of that tag, the choices, and the edits made so far.
pub struct SettingsView {
    pub section: SettingsSection,
    pub title: String,
    pub vt: Vec<String>,
    pub wt: String,
    pub vpos: usize,
    pub tpos: usize,
    pub df: DefaultFilter,
    pub ord: SortOrder,
    pub oir: Option<bool>,
    pub vch: Vec<TagChange>,
}

/// The placeholder entry that starts a new tag.
pub open spec fn add_tag_text() -> Seq<char> {
    "{Add new tag}"@
}

/// The `main` tag.
pub open spec fn main_text() -> Seq<char> {
    "main"@
}

/// The highlighted tag may be edited unless it is the only `main` tag.
pub open spec fn tag_editable(vt: Seq<Seq<char>>, vpos: int) -> bool {
    vt[vpos] != main_text() || count_text(vt, main_text()) > 1
}

/// The ordering shown after `ord` on the settings screen.
pub open spec fn next_order(ord: SortOrder) -> SortOrder {
    ord.cycled()
}

/// The section below `s` (the quickstart choice shows only with `oir`).
pub open spec fn section_below(s: SettingsSection, oir: Option<bool>) -> SettingsSection {
    match s {
        SettingsSection::Tags => SettingsSection::DefaultFilter,
        SettingsSection::TagText => SettingsSection::TagText,
        SettingsSection::DefaultFilter => SettingsSection::Order,
        SettingsSection::Order => if oir is None {
            SettingsSection::Save
        } else {
            SettingsSection::OpenIntoRecent
        },
        SettingsSection::OpenIntoRecent => SettingsSection::Save,
        SettingsSection::Save => SettingsSection::Tags,
        SettingsSection::Exit => SettingsSection::Tags,
    }
}

/// The section above `s`.
pub open spec fn section_above(s: SettingsSection, oir: Option<bool>) -> SettingsSection {
    match s {
        SettingsSection::Tags => SettingsSection::Save,
        SettingsSection::TagText => SettingsSection::TagText,
        SettingsSection::DefaultFilter => SettingsSection::Tags,
        SettingsSection::Order => SettingsSection::DefaultFilter,
        SettingsSection::OpenIntoRecent => SettingsSection::Order,
        SettingsSection::Save | SettingsSection::Exit => if oir is None {
            SettingsSection::Order
        } else {
            SettingsSection::OpenIntoRecent
        },
    }
}

/// The quickstart choice after Left or Right.
pub open spec fn flip_oir(oir: Option<bool>) -> Option<bool> {
    match oir {
        Some(f) => Some(!f),
        None => None,
    }
}

/// What one key does to the settings screen `o`, leaving it as `f` and
/// answering `r`.
pub open spec fn settings_step(o: SettingsView, c: KeyCode, f: SettingsView, r: ViewExit) -> bool {

                                                let cur = o.vt@[o.vpos as int]@;
                let n = o.vt@.len();
                match c {
                    KeyCode::Esc => r is Cancel && f == o,
                    KeyCode::Right | KeyCode::Left => r is Hold && match o.section {
                        SettingsSection::Tags => f.same_content(&o) && f.section == o.section
                            && f.tpos == o.tpos && f.vpos == if c == KeyCode::Right {
                            ((o.vpos + 1) % (n as int)) as usize
                        } else if o.vpos == 0 {
                            (n - 1) as usize
                        } else {
                            (o.vpos - 1) as usize
                        },
                        SettingsSection::TagText => f.same_content(&o) && f.section == o.section
                            && f.vpos == o.vpos && f.tpos == if c == KeyCode::Right {
                            if o.tpos < byte_len(cur) {
                                (o.tpos + 1) as usize
                            } else {
                                o.tpos
                            }
                        } else if o.tpos > 0 {
                            (o.tpos - 1) as usize
                        } else {
                            o.tpos
                        },
                        SettingsSection::DefaultFilter => f.df == o.df.toggled() && f.section
                            == o.section && f.vpos == o.vpos && f.tpos == o.tpos && f.vt@ == o.vt@
                            && f.wt == o.wt && f.ord == o.ord && f.oir == o.oir && f.vch@
                            == o.vch@,
                        SettingsSection::Order => f.ord == next_order(o.ord) && f.section
                            == o.section && f.vpos == o.vpos && f.tpos == o.tpos && f.vt@ == o.vt@
                            && f.wt == o.wt && f.df == o.df && f.oir == o.oir && f.vch@ == o.vch@,
                        SettingsSection::OpenIntoRecent => f.oir == flip_oir(o.oir) && f.section
                            == o.section && f.vpos == o.vpos && f.tpos == o.tpos && f.vt@ == o.vt@
                            && f.wt == o.wt && f.df == o.df && f.ord == o.ord && f.vch@ == o.vch@,
                        SettingsSection::Save => f.same_content(&o) && f.vpos == o.vpos && f.tpos
                            == o.tpos && f.section == SettingsSection::Exit,
                        SettingsSection::Exit => f.same_content(&o) && f.vpos == o.vpos && f.tpos
                            == o.tpos && f.section == SettingsSection::Save,
                    },
                    KeyCode::Down => r is Hold && f.same_content(&o) && f.vpos == o.vpos && f.tpos
                        == o.tpos && f.section == section_below(o.section, o.oir),
                    KeyCode::Up => r is Hold && f.same_content(&o) && f.vpos == o.vpos && f.tpos
                        == o.tpos && f.section == section_above(o.section, o.oir),
                    KeyCode::Enter => match o.section {
                        SettingsSection::Tags => r is Hold && f.vpos == o.vpos && f.tpos == o.tpos
                            && f.df == o.df && f.ord == o.ord && f.oir == o.oir && f.vch@ == o.vch@
                            && if tag_editable(views(o.vt@), o.vpos as int) {
                            &&& f.section == SettingsSection::TagText
                            &&& if o.vpos == n - 1 {
                                &&& views(f.vt@) == views(o.vt@).update(o.vpos as int, Seq::empty())
                                &&& f.wt@.len() == 0
                            } else {
                                f.vt@ == o.vt@ && f.wt@ == cur
                            }
                        } else {
                            f.same_content(&o) && f.section == o.section
                        },
                        SettingsSection::TagText => r is Hold && f.section == SettingsSection::Tags
                            && f.tpos == 0 && f.vpos == o.vpos && f.df == o.df && f.ord == o.ord
                            && f.oir == o.oir && f.wt == o.wt && ({
                            let vt1 = if cur.len() == 0 {
                                views(o.vt@).remove(o.vpos as int)
                            } else {
                                views(o.vt@)
                            };
                            let ch1 = if cur.len() == 0 {
                                o.vch@.push(TagChange::DeleteTag(o.wt))
                            } else {
                                o.vch@
                            };
                            if o.wt@.len() == 0 {
                                &&& f.vch@.len() == ch1.len() + 1
                                &&& f.vch@.take(ch1.len() as int) == ch1
                                &&& (f.vch@.last() matches TagChange::InsertTag(t) && t@
                                    == vt1[o.vpos as int])
                                &&& views(f.vt@) == sorted_text(vt1).push(add_tag_text())
                            } else {
                                &&& f.vch@.len() == ch1.len() + 1
                                &&& f.vch@.take(ch1.len() as int) == ch1
                                &&& (f.vch@.last() matches TagChange::ChangeTag(a, b) && a == o.wt
                                    && b@ == vt1[o.vpos as int])
                                &&& views(f.vt@) == sorted_text(vt1.drop_last()).push(vt1.last())
                            }
                        }),
                        SettingsSection::DefaultFilter | SettingsSection::Order
                        | SettingsSection::OpenIntoRecent => r is Hold && f == o,
                        SettingsSection::Save => f == o && (r matches ViewExit::Save(ch) && ch.df
                            == o.df && ch.so == o.ord && ch.oir == o.oir && ch.vtch@ == o.vch@),
                        SettingsSection::Exit => f == o && r is Cancel,
                    },
                    KeyCode::Delete => r is Hold && f.section == o.section && f.tpos == o.tpos
                        && f.vpos == o.vpos && f.df == o.df && f.ord == o.ord && f.oir == o.oir
                        && f.wt == o.wt && match o.section {
                        SettingsSection::Tags => if o.vpos < n - 1 && tag_editable(
                            views(o.vt@),
                            o.vpos as int,
                        ) {
                            f.vt@ == o.vt@.remove(o.vpos as int) && f.vch@ == o.vch@.push(
                                TagChange::DeleteTag(o.vt@[o.vpos as int]),
                            )
                        } else {
                            f.vt@ == o.vt@ && f.vch@ == o.vch@
                        },
                        SettingsSection::TagText => f.vch@ == o.vch@ && if o.tpos < byte_len(cur) {
                            views(f.vt@) == views(o.vt@).update(
                                o.vpos as int,
                                cur.remove(char_at_byte(cur, o.tpos as int)->0),
                            )
                        } else {
                            f.vt@ == o.vt@
                        },
                        _ => f.vt@ == o.vt@ && f.vch@ == o.vch@,
                    },
                    KeyCode::Backspace => r is Hold && f.section == o.section && f.vpos == o.vpos
                        && f.df == o.df && f.ord == o.ord && f.oir == o.oir && f.wt == o.wt
                        && f.vch@ == o.vch@ && if o.tpos > 0 {
                        &&& views(f.vt@) == views(o.vt@).update(
                            o.vpos as int,
                            cur.remove(char_at_byte(cur, o.tpos - 1)->0),
                        )
                        &&& f.tpos == o.tpos - 1
                    } else {
                        f.vt@ == o.vt@ && f.tpos == o.tpos
                    },
                    KeyCode::Char(ch) => r is Hold && f.section == o.section && f.vpos == o.vpos
                        && f.df == o.df && f.ord == o.ord && f.oir == o.oir && f.wt == o.wt
                        && f.vch@ == o.vch@ && if o.section == SettingsSection::TagText
                        && tag_editable(views(o.vt@), o.vpos as int) {
                        &&& views(f.vt@) == views(o.vt@).update(
                            o.vpos as int,
                            cur.insert(char_at_byte(cur, o.tpos as int)->0, ch),
                        )
                        &&& f.tpos == o.tpos + 1
                    } else {
                        f.vt@ == o.vt@ && f.tpos == o.tpos
                    },
                    _ => r is Hold && f == o,
                }
}

/// The tag list holds `main`, and while a tag is being typed the other
/// tags hold it too.
pub open spec fn keeps_main(v: SettingsView) -> bool {
    &&& views(v.vt@).contains(main_text())
    &&& v.section == SettingsSection::TagText ==> views(v.vt@).remove(v.vpos as int).contains(
        main_text(),
    )
}

/// An editable highlighted tag leaves a `main` among the other tags.
proof fn lemma_editable_leaves_main(vt: Seq<Seq<char>>, vpos: int)
    requires
        0 <= vpos < vt.len(),
        vt.contains(main_text()),
        tag_editable(vt, vpos),
    ensures
        vt.remove(vpos).contains(main_text()),
{
    broadcast use vstd::seq_lib::group_to_multiset_ensures;
    if vt[vpos] == main_text() {
        lemma_count_text_multiset(vt, main_text());
        assert(vt.remove(vpos).to_multiset().count(main_text()) > 0);
    } else {
        let j = choose|j: int| 0 <= j < vt.len() && vt[j] == main_text();
        if j < vpos {
            assert(vt.remove(vpos)[j] == main_text());
        } else {
            assert(vt.remove(vpos)[j - 1] == main_text());
        }
    }
}

/// The quickstart row shows only where the screen has the choice: a screen
/// without it never reaches that row and keeps it absent, and on a screen
/// with it Down from the ordering and Up from Save or Exit reach it.
pub proof fn lemma_quickstart_row(o: SettingsView, c: KeyCode, f: SettingsView, r: ViewExit)
    requires
        o.wf(),
        o.input_ok(c),
        settings_step(o, c, f, r),
    ensures
        o.oir is None && o.section != SettingsSection::OpenIntoRecent ==> f.oir is None && f.section
            != SettingsSection::OpenIntoRecent,
        o.oir is Some && c == KeyCode::Down && o.section == SettingsSection::Order ==> f.section
            == SettingsSection::OpenIntoRecent,
        o.oir is Some && c == KeyCode::Up && (o.section == SettingsSection::Save || o.section
            == SettingsSection::Exit) ==> f.section == SettingsSection::OpenIntoRecent,
{
}

/// What `vt` holds, its sorted copy followed by the placeholder holds, and
/// so does its front sorted with its last tag after it.
proof fn lemma_contains_after_sort(vt: Seq<Seq<char>>, t: Seq<char>)
    requires
        vt.len() > 0,
        vt.contains(t),
    ensures
        sorted_text(vt).push(add_tag_text()).contains(t),
        sorted_text(vt.drop_last()).push(vt.last()).contains(t),
{
    lemma_sorted_text_same(vt);
    lemma_sorted_text_same(vt.drop_last());
    let i = choose|i: int| 0 <= i < vt.len() && vt[i] == t;
    assert(sorted_text(vt).contains(t));
    let k = choose|k: int| 0 <= k < sorted_text(vt).len() && sorted_text(vt)[k] == t;
    assert(sorted_text(vt).push(add_tag_text())[k] == t);
    if i == vt.len() - 1 {
        assert(sorted_text(vt.drop_last()).push(vt.last())[vt.len() - 1] == t);
    } else {
        assert(vt.drop_last()[i] == t);
        assert(vt.drop_last().contains(t));
        assert(sorted_text(vt.drop_last()).contains(t));
        let m = choose|m: int| 0 <= m < sorted_text(vt.drop_last()).len() && sorted_text(vt.drop_last())[m] == t;
        assert(sorted_text(vt.drop_last()).push(vt.last())[m] == t);
    }
}

/// Changing only the typed tag keeps the `main` among the others.
proof fn lemma_other_tags_kept(vt: Seq<Seq<char>>, fvt: Seq<Seq<char>>, p: int)
    requires
        0 <= p < vt.len(),
        fvt.len() == vt.len(),
        fvt.remove(p) == vt.remove(p),
        vt.remove(p).contains(main_text()),
    ensures
        fvt.contains(main_text()),
        fvt.remove(p).contains(main_text()),
{
    let j = choose|j: int| 0 <= j < vt.remove(p).len() && vt.remove(p)[j] == main_text();
    if j < p {
        assert(fvt.remove(p)[j] == fvt[j]);
    } else {
        assert(fvt.remove(p)[j] == fvt[j + 1]);
    }
}

/// A screen that holds `main` and is not typing a tag starts every run of
/// keys in a state `lemma_main_kept` covers, so `main` survives every key
/// from there on: while the only `main` stands, it can be neither typed
/// over nor deleted.
pub proof fn lemma_keeps_main_start(v: SettingsView)
    requires
        views(v.vt@).contains(main_text()),
        v.section != SettingsSection::TagText,
    ensures
        keeps_main(v),
{
}

/// The settings screen never gives up the `main` tag: no key deletes,
/// renames or empties the last one.
pub proof fn lemma_main_kept(o: SettingsView, c: KeyCode, f: SettingsView, r: ViewExit)
    requires
        o.wf(),
        o.input_ok(c),
        keeps_main(o),
        settings_step(o, c, f, r),
    ensures
        keeps_main(f),
{
    let vt = views(o.vt@);
    let fvt = views(f.vt@);
    let p = o.vpos as int;
    assert(vt.len() == o.vt@.len());
    assert(fvt.len() == f.vt@.len());
    if o.section == SettingsSection::TagText {
        match c {
            KeyCode::Enter => {
                let cur = vt[p];
                let vt1 = if cur.len() == 0 {
                    vt.remove(p)
                } else {
                    vt
                };
                assert(vt1.contains(main_text())) by {
                    if cur.len() != 0 {
                        let j = choose|j: int| 0 <= j < vt.remove(p).len() && vt.remove(p)[j] == main_text();
                        if j < p {
                            assert(vt[j] == main_text());
                        } else {
                            assert(vt[j + 1] == main_text());
                        }
                    }
                }
                lemma_contains_after_sort(vt1, main_text());
            },
            KeyCode::Delete | KeyCode::Backspace | KeyCode::Char(_) => {
                assert(fvt.remove(p) =~= vt.remove(p));
                lemma_other_tags_kept(vt, fvt, p);
            },
            _ => {},
        }
    } else {
        match c {
            KeyCode::Enter => {
                if o.section == SettingsSection::Tags && tag_editable(vt, p) {
                    lemma_editable_leaves_main(vt, p);
                    let j = choose|j: int| 0 <= j < vt.remove(p).len() && vt.remove(p)[j] == main_text();
                    let q = if j < p { j } else { j + 1 };
                    assert(vt[q] == main_text() && q != p);
                    if o.vpos == vt.len() - 1 {
                        assert(fvt[q] == main_text());
                        assert(fvt.remove(p) =~= vt.remove(p));
                    }
                }
            },
            KeyCode::Delete => {
                if o.section == SettingsSection::Tags && o.vpos < vt.len() - 1 && tag_editable(vt, p) {
                    lemma_editable_leaves_main(vt, p);
                    assert(fvt =~= vt.remove(p));
                }
            },
            _ => {},
        }
    }
}

impl SettingsView {
    /// The tag list is never empty, the highlight is on a tag, the cursor is
    /// inside the highlighted tag, and away from typing it is at 0.
    pub open spec fn wf(&self) -> bool {
        &&& self.vt@.len() > 0
        &&& self.vpos < self.vt@.len()
        &&& self.tpos <= byte_len(self.vt@[self.vpos as int]@)
        &&& self.section != SettingsSection::TagText ==> self.tpos == 0
    }

    /// The one input on which the screen has no defined answer: confirming
    /// an emptied tag that stands last in the list.
    pub open spec fn input_ok(&self, c: KeyCode) -> bool {
        let cur = self.vt@[self.vpos as int]@;
        let p = self.tpos as int;
        &&& !(c == KeyCode::Enter && self.section == SettingsSection::TagText && cur.len() == 0
            && self.vpos == self.vt@.len() - 1)
        &&& c is Char && self.section == SettingsSection::TagText && tag_editable(
            views(self.vt@),
            self.vpos as int,
        ) ==> char_at_byte(cur, p) is Some
        &&& c is Delete && self.section == SettingsSection::TagText && p < byte_len(cur)
            ==> char_at_byte(cur, p) is Some
        &&& c is Backspace && p > 0 ==> char_at_byte(cur, p - 1) is Some
    }

    /// Whether the screen can take key `c`.
    pub fn accepts(&self, c: KeyCode) -> (r: bool)
        requires
            self.wf(),
        ensures
            r == self.input_ok(c),
    {
        let cur = self.vt[self.vpos].as_str();
        let p = self.tpos;
        let typing = self.section == SettingsSection::TagText;
        if c == KeyCode::Enter && typing && char_len(cur) == 0 && self.vpos == self.vt.len() - 1 {
            return false;
        }
        match c {
            KeyCode::Char(_) => !(typing && self.editable()) || starts_char(cur, p),
            KeyCode::Delete => !typing || p >= byte_len_of(cur) || starts_char(cur, p),
            KeyCode::Backspace => p == 0 || starts_char(cur, p - 1),
            _ => true,
        }
    }

    /// Everything but the section, highlight and cursor is as in `other`.
    pub open spec fn same_content(&self, other: &SettingsView) -> bool {
        &&& self.title == other.title
        &&& self.vt@ == other.vt@
        &&& self.wt == other.wt
        &&& self.df == other.df
        &&& self.ord == other.ord
        &&& self.oir == other.oir
        &&& self.vch@ == other.vch@
    }

    /// The screen for a tag list (sorted, then followed by the placeholder)
    /// and the current choices.
    pub fn new(vt: Vec<String>, df: DefaultFilter, ord: SortOrder, n: String, oir: Option<bool>) -> (r: SettingsView)
        ensures
            r.wf(),
            r.section == SettingsSection::Tags,
            r.title == n,
            views(r.vt@) == sorted_text(views(vt@)).push(add_tag_text()),
            r.wt@.len() == 0,
            r.vpos == 0,
            r.tpos == 0,
            r.df == df,
            r.ord == ord,
            r.oir == oir,
            r.vch@.len() == 0,
    {
        let mut vt = vt;
        let ghost v0 = views(vt@);
        sort_strings(&mut vt);
        let ghost v1 = views(vt@);
        vt.push(string_from("{Add new tag}"));
        assert(views(vt@) =~= v1.push(add_tag_text()));
        SettingsView {
            section: SettingsSection::Tags,
            title: n,
            vt,
            wt: String::new(),
            vpos: 0,
            tpos: 0,
            df,
            ord,
            oir,
            vch: Vec::new(),
        }
    }

    /// Whether the highlighted tag may be edited.
    fn editable(&self) -> (r: bool)
        requires
            self.vpos < self.vt@.len(),
        ensures
            r == tag_editable(views(self.vt@), self.vpos as int),
    {
        !str_eq(self.vt[self.vpos].as_str(), "main") || count_string(&self.vt, "main") > 1
    }

    /// Answers one key.
    ///
    /// Left and Right move among the tags, move the cursor while a tag is
    /// typed, or change the filter, ordering, quickstart choice or the
    /// Save/Cancel button; Up and Down move among sections; Enter starts or
    /// ends typing a tag (an emptied tag is deleted) or saves; Delete removes
    /// a tag; Esc cancels.
    pub fn handle_input(&mut self, c: KeyCode) -> (r: ViewExit)
        requires
            old(self).wf(),
            old(self).input_ok(c),
        ensures
            final(self).wf(),
            final(self).title == old(self).title,
            settings_step(*old(self), c, *final(self), r),
    {
        match c {
            KeyCode::Esc => ViewExit::Cancel,
            KeyCode::Right => self.key_left_right(true),
            KeyCode::Left => self.key_left_right(false),
            KeyCode::Down | KeyCode::Up => self.key_up_down(c == KeyCode::Down),
            KeyCode::Enter => self.key_enter(),
            KeyCode::Delete => self.key_delete(),
            KeyCode::Backspace => self.key_backspace(),
            KeyCode::Char(ch) => self.key_char(ch),
            _ => ViewExit::Hold,
        }
    }

    fn key_left_right(&mut self, right: bool) -> (r: ViewExit)
        requires
            old(self).wf(),
            old(self).input_ok(if right { KeyCode::Right } else { KeyCode::Left }),
        ensures
            final(self).wf(),
            final(self).title == old(self).title,
            settings_step(*old(self), if right { KeyCode::Right } else { KeyCode::Left }, *final(self), r),
    {

                                match self.section {
                    SettingsSection::Tags => {
                        if right {
                            let n = self.vt.len();
                            assert(self.vpos < n);
                            self.vpos = (self.vpos + 1) % n;
                        } else if self.vpos == 0 {
                            self.vpos = self.vt.len() - 1;
                        } else {
                            self.vpos -= 1;
                        }
                    },
                    SettingsSection::TagText => {
                        if right {
                            let max = byte_len_of(self.vt[self.vpos].as_str());
                            if self.tpos < max {
                                self.tpos += 1;
                            }
                        } else if self.tpos > 0 {
                            self.tpos -= 1;
                        }
                    },
                    SettingsSection::DefaultFilter => {
                        self.df = match self.df {
                            DefaultFilter::Name => DefaultFilter::Text,
                            DefaultFilter::Text => DefaultFilter::Name,
                        };
                    },
                    SettingsSection::Order => {
                        self.ord = match self.ord {
                            SortOrder::NameAsc => SortOrder::NameDesc,
                            SortOrder::NameDesc => SortOrder::CmcAsc,
                            SortOrder::CmcAsc => SortOrder::CmcDesc,
                            SortOrder::CmcDesc => SortOrder::NameAsc,
                        };
                    },
                    SettingsSection::OpenIntoRecent => {
                        if let Some(f) = self.oir {
                            self.oir = Some(!f);
                        };
                    },
                    SettingsSection::Save => self.section = SettingsSection::Exit,
                    SettingsSection::Exit => self.section = SettingsSection::Save,
                };
                ViewExit::Hold
            
    }

    fn key_up_down(&mut self, down: bool) -> (r: ViewExit)
        requires
            old(self).wf(),
            old(self).input_ok(if down { KeyCode::Down } else { KeyCode::Up }),
        ensures
            final(self).wf(),
            final(self).title == old(self).title,
            settings_step(*old(self), if down { KeyCode::Down } else { KeyCode::Up }, *final(self), r),
    {
        if down {

                self.section = match self.section {
                    SettingsSection::Tags => SettingsSection::DefaultFilter,
                    SettingsSection::TagText => SettingsSection::TagText,
                    SettingsSection::DefaultFilter => SettingsSection::Order,
                    SettingsSection::Order => {
                        if self.oir.is_none() {
                            SettingsSection::Save
                        } else {
                            SettingsSection::OpenIntoRecent
                        }
                    },
                    SettingsSection::OpenIntoRecent => SettingsSection::Save,
                    SettingsSection::Save => SettingsSection::Tags,
                    SettingsSection::Exit => SettingsSection::Tags,
                };
        } else {

                self.section = match self.section {
                    SettingsSection::Tags => SettingsSection::Save,
                    SettingsSection::TagText => SettingsSection::TagText,
                    SettingsSection::DefaultFilter => SettingsSection::Tags,
                    SettingsSection::Order => SettingsSection::DefaultFilter,
                    SettingsSection::OpenIntoRecent => SettingsSection::Order,
                    SettingsSection::Save => {
                        if self.oir.is_none() {
                            SettingsSection::Order
                        } else {
                            SettingsSection::OpenIntoRecent
                        }
                    },
                    SettingsSection::Exit => {
                        if self.oir.is_none() {
                            SettingsSection::Order
                        } else {
                            SettingsSection::OpenIntoRecent
                        }
                    },
                };
        }
        ViewExit::Hold
    }

    fn key_enter(&mut self) -> (r: ViewExit)
        requires
            old(self).wf(),
            old(self).input_ok(KeyCode::Enter),
        ensures
            final(self).wf(),
            final(self).title == old(self).title,
            settings_step(*old(self), KeyCode::Enter, *final(self), r),
    {
        match self.section {
                SettingsSection::Tags => {
                    if self.editable() {
                        self.section = SettingsSection::TagText;
                        if self.vpos == self.vt.len() - 1 {
                            set_string(&mut self.vt, self.vpos, String::new());
                            self.wt = String::new();
                        } else {
                            self.wt = self.vt[self.vpos].clone();
                        }
                    }
                    ViewExit::Hold
                },
                SettingsSection::TagText => {
                    self.tpos = 0;
                    self.section = SettingsSection::Tags;
                    let ghost v0 = views(self.vt@);
                    if char_len(self.vt[self.vpos].as_str()) == 0 {
                        self.vt.remove(self.vpos);
                        assert(views(self.vt@) =~= v0.remove(self.vpos as int));
                        self.vch.push(TagChange::DeleteTag(self.wt.clone()));
                    }
                    let ghost vt1 = views(self.vt@);
                    let ghost ch1 = self.vch@;
                    if char_len(self.wt.as_str()) == 0 {
                        self.vch.push(TagChange::InsertTag(self.vt[self.vpos].clone()));
                        assert(self.vch@.take(ch1.len() as int) =~= ch1);
                        sort_strings(&mut self.vt);
                        proof {
                            lemma_sorted_text_same(vt1);
                        }
                        let ghost vt2 = views(self.vt@);
                        self.vt.push(string_from("{Add new tag}"));
                        assert(views(self.vt@) =~= vt2.push(add_tag_text()));
                    } else {
                        self.vch.push(
                            TagChange::ChangeTag(self.wt.clone(), self.vt[self.vpos].clone()),
                        );
                        assert(self.vch@.take(ch1.len() as int) =~= ch1);
                        let s = self.vt.pop().unwrap();
                        assert(views(self.vt@) =~= vt1.drop_last());
                        sort_strings(&mut self.vt);
                        proof {
                            lemma_sorted_text_same(vt1.drop_last());
                        }
                        let ghost vt2 = views(self.vt@);
                        self.vt.push(s);
                        assert(views(self.vt@) =~= vt2.push(vt1.last()));
                    }
                    ViewExit::Hold
                },
                SettingsSection::DefaultFilter => ViewExit::Hold,
                SettingsSection::Order => ViewExit::Hold,
                SettingsSection::OpenIntoRecent => ViewExit::Hold,
                SettingsSection::Save => {
                    let changes = Changes {
                        df: self.df,
                        so: self.ord,
                        oir: self.oir,
                        vtch: clone_changes(&self.vch),
                    };
                    ViewExit::Save(changes)
                },
                SettingsSection::Exit => ViewExit::Cancel,
            }
    }

    fn key_delete(&mut self) -> (r: ViewExit)
        requires
            old(self).wf(),
            old(self).input_ok(KeyCode::Delete),
        ensures
            final(self).wf(),
            final(self).title == old(self).title,
            settings_step(*old(self), KeyCode::Delete, *final(self), r),
    {

                match self.section {
                    SettingsSection::Tags => {
                        if self.vpos < self.vt.len() - 1 && self.editable() {
                            self.vch.push(TagChange::DeleteTag(self.vt[self.vpos].clone()));
                            self.vt.remove(self.vpos);
                        }
                    },
                    SettingsSection::TagText => {
                        if self.tpos < byte_len_of(self.vt[self.vpos].as_str()) {
                            proof {
                                let cur = self.vt@[self.vpos as int]@;
                                lemma_char_at_byte(cur, self.tpos as int);
                                assert(cur.take(cur.len() as int) =~= cur);
                            }
                            let s = string_remove_at_byte(&self.vt[self.vpos], self.tpos);
                            set_string(&mut self.vt, self.vpos, s);
                        }
                    },
                    _ => {},
                }
                ViewExit::Hold
            
    }

    fn key_backspace(&mut self) -> (r: ViewExit)
        requires
            old(self).wf(),
            old(self).input_ok(KeyCode::Backspace),
        ensures
            final(self).wf(),
            final(self).title == old(self).title,
            settings_step(*old(self), KeyCode::Backspace, *final(self), r),
    {

                if self.tpos > 0 {
                    proof {
                        let cur = self.vt@[self.vpos as int]@;
                        lemma_char_at_byte(cur, self.tpos - 1);
                        assert(cur.take(cur.len() as int) =~= cur);
                    }
                    let s = string_remove_at_byte(&self.vt[self.vpos], self.tpos - 1);
                    set_string(&mut self.vt, self.vpos, s);
                    self.tpos -= 1;
                }
                ViewExit::Hold
            
    }

    fn key_char(&mut self, ch: char) -> (r: ViewExit)
        requires
            old(self).wf(),
            old(self).input_ok(KeyCode::Char(ch)),
        ensures
            final(self).wf(),
            final(self).title == old(self).title,
            settings_step(*old(self), KeyCode::Char(ch), *final(self), r),
    {

                if self.section == SettingsSection::TagText {
                    if self.editable() {
                        let s = string_insert_at_byte(&self.vt[self.vpos], self.tpos, ch);
                        set_string(&mut self.vt, self.vpos, s);
                        self.tpos += 1;
                    }
                }
                ViewExit::Hold
            
    }
}


/// What the deck screen asks of its caller.
pub enum DeckViewExit {
    Hold,
    MainMenu,
    Stats,
    Settings(i32),
    NewTag(String, i32),
}

/// What the open-deck screen asks of its caller.
#[derive(Debug, Clone, Copy, PartialEq, Eq, Structural)]
pub enum OpenDeckViewExit {
    Hold,
    Cancel,
    OpenDeck(i32),
    DeleteDeck(i32),
}

/// The open-deck screen: the decks, the highlighted row, and whether a
/// deletion waits for confirmation.
pub struct OpenDeckView {
    pub decks: Vec<Deck>,
    pub state: TableState,
    pub deleting: bool,
}

/// One key on the open-deck screen: `o` becomes `f` and the screen reports `r`.
pub open spec fn open_deck_step(o: OpenDeckView, c: KeyCode, f: OpenDeckView, r: OpenDeckViewExit) -> bool {
    let n = o.decks@.len();
    match c {
        KeyCode::Up => r == OpenDeckViewExit::Hold && !f.deleting && f.decks@ == o.decks@
            && (n == 0 ==> f.state == o.state) && (n > 0 ==> f.state.selected == Some(
            previous_index(o.state.selected, n),
        )),
        KeyCode::Down => r == OpenDeckViewExit::Hold && !f.deleting && f.decks@
            == o.decks@ && (n == 0 ==> f.state == o.state) && (n > 0
            ==> f.state.selected == Some(next_index(o.state.selected, n))),
        KeyCode::Delete => r == OpenDeckViewExit::Hold && f.decks@ == o.decks@
            && f.state == o.state && f.deleting == (o.state.selected is Some),
        KeyCode::Enter => !f.deleting && if o.deleting && n > 0 {
            let a = o.state.selected->0;
            &&& r == OpenDeckViewExit::DeleteDeck(o.decks@[a as int].id)
            &&& f.decks@ == o.decks@.remove(a as int)
            &&& f.decks@.len() == 0 ==> f.state.selected is None
            &&& f.decks@.len() > 0 ==> f.state.selected == Some(
                if a == f.decks@.len() {
                    (a - 1) as usize
                } else {
                    a
                },
            )
        } else if !o.deleting && o.state.selected is Some {
            r == OpenDeckViewExit::OpenDeck(o.decks@[o.state.selected->0 as int].id)
                && f.decks@ == o.decks@ && f.state == o.state
        } else {
            r == OpenDeckViewExit::Hold && f.decks@ == o.decks@ && f.state == o.state
        },
        KeyCode::Esc => r == OpenDeckViewExit::Cancel && f == o,
        _ => r == OpenDeckViewExit::Hold && !f.deleting && f.decks@ == o.decks@
            && f.state == o.state,
    }
}

/// The keys `ks` led the open-deck screen through the states `s`, key `i`
/// taking `s[i]` to `s[i + 1]` and answering `e[i]`.
pub open spec fn open_deck_run(s: Seq<OpenDeckView>, ks: Seq<KeyCode>, e: Seq<OpenDeckViewExit>) -> bool {
    &&& s.len() == ks.len() + 1
    &&& e.len() == ks.len()
    &&& forall|i: int| 0 <= i < ks.len() ==> #[trigger] open_deck_step(s[i], ks[i], s[i + 1], e[i])
}

/// Key `j` armed a deletion that still waits before key `m`: it was Delete
/// with a deck highlighted, and every key after it was Esc.
pub open spec fn armed_by(s: Seq<OpenDeckView>, ks: Seq<KeyCode>, j: int, m: int) -> bool {
    &&& 0 <= j < m
    &&& ks[j] == KeyCode::Delete
    &&& s[j].state.selected is Some
    &&& forall|k: int| j < k < m ==> #[trigger] ks[k] == KeyCode::Esc
}

/// A deletion waits at state `m` only if a Delete with a deck highlighted
/// came before it and only Esc since.
proof fn lemma_deleting_armed(s: Seq<OpenDeckView>, ks: Seq<KeyCode>, e: Seq<OpenDeckViewExit>, m: int)
    requires
        open_deck_run(s, ks, e),
        !s[0].deleting,
        0 <= m <= ks.len(),
        s[m].deleting,
    ensures
        exists|j: int| armed_by(s, ks, j, m),
    decreases m,
{
    if m > 0 {
        let i = m - 1;
        assert(open_deck_step(s[i], ks[i], s[i + 1], e[i]));
        if ks[i] == KeyCode::Esc {
            lemma_deleting_armed(s, ks, e, i);
            let j = choose|j: int| armed_by(s, ks, j, i);
            assert(armed_by(s, ks, j, m));
        } else {
            assert(ks[i] == KeyCode::Delete);
            assert(armed_by(s, ks, i, m));
        }
    }
}

/// The open-deck screen deletes a deck only on confirmation: starting with
/// no deletion waiting, Enter deletes a deck only when the last key before
/// it other than Esc was Delete, pressed with a deck highlighted; the deck
/// deleted is the highlighted one, and it leaves the table.
pub proof fn lemma_delete_confirmed(s: Seq<OpenDeckView>, ks: Seq<KeyCode>, e: Seq<OpenDeckViewExit>, m: int)
    requires
        open_deck_run(s, ks, e),
        !s[0].deleting,
        0 <= m < ks.len(),
        ks[m] == KeyCode::Enter,
        e[m] is DeleteDeck,
    ensures
        exists|j: int| armed_by(s, ks, j, m),
        s[m].state.selected is Some,
        e[m] == OpenDeckViewExit::DeleteDeck(s[m].decks@[s[m].state.selected->0 as int].id),
        s[m + 1].decks@ == s[m].decks@.remove(s[m].state.selected->0 as int),
{
    assert(open_deck_step(s[m], ks[m], s[m + 1], e[m]));
    assert(s[m].deleting);
    lemma_deleting_armed(s, ks, e, m);
    let j = choose|j: int| armed_by(s, ks, j, m);
    lemma_armed_keeps_highlight(s, ks, e, j, m, m);
}

/// After the Delete that armed a deletion, only Esc came, so the highlight
/// stands where it was.
proof fn lemma_armed_keeps_highlight(
    s: Seq<OpenDeckView>,
    ks: Seq<KeyCode>,
    e: Seq<OpenDeckViewExit>,
    j: int,
    m: int,
    k: int,
)
    requires
        open_deck_run(s, ks, e),
        armed_by(s, ks, j, m),
        m <= ks.len(),
        j < k <= m,
    ensures
        s[k].state == s[j].state,
    decreases k - j,
{
    let i = k - 1;
    assert(open_deck_step(s[i], ks[i], s[i + 1], e[i]));
    if i > j {
        assert(ks[i] == KeyCode::Esc);
        lemma_armed_keeps_highlight(s, ks, e, j, m, i);
    }
}

/// After the Delete that armed a deletion, only Esc came, so the deletion
/// still waits.
proof fn lemma_armed_waits(
    s: Seq<OpenDeckView>,
    ks: Seq<KeyCode>,
    e: Seq<OpenDeckViewExit>,
    j: int,
    m: int,
    k: int,
)
    requires
        open_deck_run(s, ks, e),
        armed_by(s, ks, j, m),
        m <= ks.len(),
        j < k <= m,
    ensures
        s[k].deleting,
    decreases k - j,
{
    let i = k - 1;
    assert(open_deck_step(s[i], ks[i], s[i + 1], e[i]));
    if i > j {
        assert(ks[i] == KeyCode::Esc);
        lemma_armed_waits(s, ks, e, j, m, i);
    }
}

/// What Enter answers on the open-deck screen with a deck highlighted,
/// starting with no deletion waiting: it deletes the highlighted deck if the
/// last key before it other than Esc was Delete pressed with a deck
/// highlighted, and opens the highlighted deck otherwise.
pub proof fn lemma_enter_answer(s: Seq<OpenDeckView>, ks: Seq<KeyCode>, e: Seq<OpenDeckViewExit>, m: int)
    requires
        open_deck_run(s, ks, e),
        !s[0].deleting,
        0 <= m < ks.len(),
        ks[m] == KeyCode::Enter,
        s[m].state.selected is Some,
        s[m].decks@.len() > 0,
    ensures
        (exists|j: int| armed_by(s, ks, j, m)) ==> e[m] == OpenDeckViewExit::DeleteDeck(
            s[m].decks@[s[m].state.selected->0 as int].id,
        ),
        !(exists|j: int| armed_by(s, ks, j, m)) ==> e[m] == OpenDeckViewExit::OpenDeck(
            s[m].decks@[s[m].state.selected->0 as int].id,
        ),
{
    assert(open_deck_step(s[m], ks[m], s[m + 1], e[m]));
    if exists|j: int| armed_by(s, ks, j, m) {
        let j = choose|j: int| armed_by(s, ks, j, m);
        lemma_armed_waits(s, ks, e, j, m, m);
    } else if s[m].deleting {
        lemma_deleting_armed(s, ks, e, m);
    }
}

impl OpenDeckView {
    /// A screen with no decks.
    pub fn new() -> (r: Self)
        ensures
            r.decks@.len() == 0,
            r.state.selected is None,
            !r.deleting,
    {
        OpenDeckView { decks: Vec::new(), state: ListState { selected: None }, deleting: false }
    }

    /// The highlighted row, if any, is a row of the table, and a deletion
    /// waits only for a highlighted row.
    pub open spec fn wf(&self) -> bool {
        &&& self.state.selected matches Some(i) ==> i < self.decks@.len()
        &&& self.deleting ==> self.state.selected is Some
    }

    /// The table's rows (see `deck_rows`).
    pub fn rdt(&self) -> (r: Vec<(Vec<String>, u16)>)
        ensures
            r@.len() == self.decks@.len(),
            forall|i: int|
                0 <= i < self.decks@.len() ==> crate::text::views(#[trigger] r@[i].0@)
                    == crate::util::deck_row(self.decks@[i]) && r@[i].1 == (
                if self.decks@[i].commander2 is Some {
                    2u16
                } else {
                    1u16
                }),
    {
        crate::util::deck_rows(&self.decks)
    }

    /// Shows the decks read from the database, highlighting the first.
    pub fn init(&mut self, decks: Vec<Deck>)
        ensures
            final(self).decks@ == decks@,
            decks@.len() > 0 ==> final(self).state.selected == Some(0usize),
            decks@.len() == 0 ==> final(self).state == old(self).state,
            !final(self).deleting,
    {
        if decks.len() > 0 {
            self.state.select(Some(0));
        }
        self.decks = decks;
        self.deleting = false;
    }

    /// Answers one key: Up and Down move the highlight, Delete asks to
    /// confirm deleting the highlighted deck, Enter confirms that deletion or
    /// opens the highlighted deck, Esc cancels; any key but Delete drops a
    /// pending deletion.
    pub fn handle_input(&mut self, c: KeyCode) -> (r: OpenDeckViewExit)
        requires
            old(self).wf(),
        ensures
            final(self).wf(),
            open_deck_step(*old(self), c, *final(self), r),
    {
        match c {
            KeyCode::Up => self.previous(),
            KeyCode::Down => self.next(),
            KeyCode::Delete => {
                if self.state.selected().is_some() {
                    self.deleting = true;
                    return OpenDeckViewExit::Hold;
                }
            },
            KeyCode::Enter => {
                if self.deleting {
                    self.deleting = false;
                    let removed = self.remove();
                    if let Some(d) = removed {
                        let did = d.id;
                        return OpenDeckViewExit::DeleteDeck(did);
                    }
                } else {
                    if let Some(i) = self.state.selected() {
                        let did = self.decks[i].id;
                        return OpenDeckViewExit::OpenDeck(did);
                    }
                }
            },
            KeyCode::Esc => return OpenDeckViewExit::Cancel,
            _ => {},
        }
        self.deleting = false;
        OpenDeckViewExit::Hold
    }

    /// Removes the highlighted deck; the highlight moves up from the end and
    /// goes when the table empties.
    fn remove(&mut self) -> (r: Option<Deck>)
        requires
            old(self).wf(),
            old(self).decks@.len() > 0 ==> old(self).state.selected is Some,
        ensures
            final(self).state.selected matches Some(i) ==> i < final(self).decks@.len(),
            final(self).deleting == old(self).deleting,
            old(self).decks@.len() == 0 ==> r is None && final(self).decks@ == old(self).decks@
                && final(self).state == old(self).state,
            old(self).decks@.len() > 0 ==> old(self).state.selected is Some,
            old(self).decks@.len() > 0 ==> {
                let a = old(self).state.selected->0;
                &&& r == Some(old(self).decks@[a as int])
                &&& final(self).decks@ == old(self).decks@.remove(a as int)
                &&& final(self).decks@.len() == 0 ==> final(self).state.selected is None
                &&& final(self).decks@.len() > 0 ==> final(self).state.selected == Some(
                    if a == final(self).decks@.len() {
                        (a - 1) as usize
                    } else {
                        a
                    },
                )
            },
    {
        if self.decks.len() == 0 {
            return None;
        }
        let a = self.state.selected().unwrap();
        let d = self.decks.remove(a);
        if self.decks.len() == 0 {
            self.state = ListState { selected: None };
        } else if self.decks.len() == a {
            self.state.select(Some(a - 1));
        }
        Some(d)
    }

    fn next(&mut self)
        requires
            old(self).wf(),
        ensures
            final(self).wf(),
            final(self).deleting == old(self).deleting,
            final(self).decks@ == old(self).decks@,
            old(self).decks@.len() == 0 ==> final(self).state == old(self).state,
            old(self).decks@.len() > 0 ==> final(self).state.selected == Some(
                next_index(old(self).state.selected, old(self).decks@.len()),
            ),
    {
        if self.decks.len() == 0 {
            return;
        }
        let i = match self.state.selected() {
            Some(i) => {
                if i >= self.decks.len() - 1 {
                    0
                } else {
                    i + 1
                }
            },
            None => 0,
        };
        self.state.select(Some(i));
    }

    fn previous(&mut self)
        requires
            old(self).wf(),
        ensures
            final(self).wf(),
            final(self).deleting == old(self).deleting,
            final(self).decks@ == old(self).decks@,
            old(self).decks@.len() == 0 ==> final(self).state == old(self).state,
            old(self).decks@.len() > 0 ==> final(self).state.selected == Some(
                previous_index(old(self).state.selected, old(self).decks@.len()),
            ),
    {
        if self.decks.len() == 0 {
            return;
        }
        let i = match self.state.selected() {
            Some(i) => {
                if i == 0 {
                    self.decks.len() - 1
                } else {
                    i - 1
                }
            },
            None => 0,
        };
        self.state.select(Some(i));
    }
}

/// The parts of the create-deck screen.
#[derive(Debug, Copy, Clone, PartialEq, Eq, Structural)]
pub enum CreateDeckSection {
    Title,
    PrimaryCommander,
    SecondaryCommander,
}

/// What the create-deck screen needs done after a key.
pub enum CreateDeckRequest {
    /// Nothing: the screen waits for the next key.
    Hold,
    /// The screen is left without a deck.
    Cancel,
    /// Look up the commanders whose names contain `text` (only those with a
    /// partner ability when `partner`), then hand the answer to `on_names`.
    LookupNames { partner: bool, text: String },
    /// Read the card named here, then hand it to `on_commander`.
    Classify(String),
    /// Create the deck with these commanders; the new deck is opened.
    CreateDeck { title: String, commander: String, partner: Option<String> },
}

/// The create-deck screen: the three text fields, the cursor `tpos` (a
/// byte position) in the active one, and the commanders offered.
pub struct CreateDeckView {
    pub section: CreateDeckSection,
    pub title: String,
    pub com1: String,
    pub com2: String,
    pub vcn: Vec<String>,
    pub vpos: ListState,
    pub tpos: usize,
}

/// One key on the create-deck screen: `o` becomes `f` and asks for `r`.
pub open spec fn create_key_step(o: CreateDeckView, c: KeyCode, f: CreateDeckView, r: CreateDeckRequest) -> bool {
    let a = o.active_spec();
    let looked_up = (o.section == CreateDeckSection::Title ==> r is Hold)
        && (o.section != CreateDeckSection::Title ==> (r matches CreateDeckRequest::LookupNames {
        partner,
        text,
    } && partner == (o.section == CreateDeckSection::SecondaryCommander) && text@
        == f.active_spec()));
    match c {
        KeyCode::Esc => r is Cancel && f == o,
        KeyCode::End => r is Hold && f.same_but_text(&o) && f.active_spec() == a
            && f.tpos == byte_len(a),
        KeyCode::Home => r is Hold && f.same_but_text(&o) && f.active_spec() == a
            && f.tpos == 0,
        KeyCode::Char(ch) => looked_up && f.same_but_text(&o) && f.active_spec()
            == a.insert(char_at_byte(a, o.tpos as int)->0, ch) && f.tpos == o.tpos + 1,
        KeyCode::Backspace => looked_up && f.same_but_text(&o) && if o.tpos > 0 {
            f.active_spec() == a.remove(char_at_byte(a, o.tpos - 1)->0) && f.tpos == o.tpos - 1
        } else {
            f.active_spec() == a && f.tpos == o.tpos
        },
        KeyCode::Delete => looked_up && f.same_but_text(&o) && f.tpos == o.tpos && if o.tpos
            < byte_len(a) {
            f.active_spec() == a.remove(char_at_byte(a, o.tpos as int)->0)
        } else {
            f.active_spec() == a
        },
        KeyCode::BackTab => r is Hold && f.section == CreateDeckSection::Title
            && f.tpos == 0 && f.title == o.title && f.com1@.len() == 0 && f.com2@.len()
            == 0 && f.vcn@ == o.vcn@ && f.vpos == o.vpos,
        KeyCode::Up | KeyCode::Down => r is Hold && f.section == o.section && f.title
            == o.title && f.com1 == o.com1 && f.com2 == o.com2 && f.vcn@ == o.vcn@
            && f.tpos == o.tpos && if o.section != CreateDeckSection::Title
            && o.vcn@.len() > 0 {
            f.vpos.selected == Some(
                if c == KeyCode::Up {
                    previous_index(o.vpos.selected, o.vcn@.len())
                } else {
                    match o.vpos.selected {
                        Some(i) => ((i + 1) % (o.vcn@.len() as int)) as usize,
                        None => 0,
                    }
                },
            )
        } else {
            f.vpos == o.vpos
        },
        KeyCode::Left => r is Hold && f.same_but_text(&o) && f.active_spec() == a
            && f.tpos == if o.tpos > 0 {
            (o.tpos - 1) as usize
        } else {
            o.tpos
        },
        KeyCode::Right => r is Hold && f.same_but_text(&o) && f.active_spec() == a
            && f.tpos == if o.tpos < byte_len(a) {
            (o.tpos + 1) as usize
        } else {
            o.tpos
        },
        KeyCode::Enter => f.tpos == 0 && match o.section {
            CreateDeckSection::Title => r is Hold && f.section
                == CreateDeckSection::PrimaryCommander && f.title == o.title && f.com1
                == o.com1 && f.com2 == o.com2 && f.vcn@ == o.vcn@ && f.vpos == o.vpos,
            CreateDeckSection::PrimaryCommander => f.section == o.section && f.title
                == o.title && f.com1 == o.com1 && f.com2 == o.com2 && f.vcn@ == o.vcn@
                && f.vpos == o.vpos && match o.vpos.selected {
                Some(i) => r matches CreateDeckRequest::Classify(n) && n@ == o.vcn@[i as int]@,
                None => r is Hold,
            },
            CreateDeckSection::SecondaryCommander => f.section == o.section && f.title
                == o.title && f.com1 == o.com1 && f.com2 == o.com2 && f.vcn@ == o.vcn@
                && f.vpos == o.vpos && (r matches CreateDeckRequest::CreateDeck {
                title,
                commander,
                partner,
            } && title@ == o.title@ && commander@ == o.com1@ && match o.vpos.selected {
                Some(i) => partner matches Some(p) && p@ == o.vcn@[i as int]@,
                None => partner is None,
            }),
        },
        _ => r is Hold && f == o,
    }
}

/// The create-deck screen `o` takes the checked commander `card`: it
/// becomes `f` and asks for `r`.
pub open spec fn commander_step(o: CreateDeckView, card: Card, f: CreateDeckView, r: CreateDeckRequest) -> bool {
    &&& !commander_eligible(card.types@, card.text@) ==> r is Hold && f.section == o.section
        && f.com1 == o.com1 && f.com2 == o.com2 && f.vcn@ == o.vcn@ && f.vpos == o.vpos
    &&& commander_eligible(card.types@, card.text@) ==> match regex_group1(
        PARTNER_WITH_PATTERN@,
        card.text@,
    ) {
        Some(p) => r is Hold && f.section == CreateDeckSection::SecondaryCommander
            && f.com1@ == card.name@ && f.com2@ == p && f.vcn@.len() == 1
            && f.vcn@[0]@ == p && f.vpos.selected == Some(0usize),
        None => if contains_spec(card.text@, "Partner"@) {
            r is Hold && f.section == CreateDeckSection::SecondaryCommander && f.com1@
                == card.name@ && f.com2 == o.com2 && f.vcn@.len() == 0
                && f.vpos.selected is None
        } else {
            f.section == o.section && f.com1 == o.com1 && f.com2 == o.com2 && f.vcn@
                == o.vcn@ && f.vpos == o.vpos && (r matches CreateDeckRequest::CreateDeck {
                title,
                commander,
                partner,
            } && title@ == o.title@ && commander@ == card.name@ && partner is None)
        },
    }
}

impl CreateDeckView {
    /// The text being typed in the active section.
    pub open spec fn active_spec(&self) -> Seq<char> {
        match self.section {
            CreateDeckSection::Title => self.title@,
            CreateDeckSection::PrimaryCommander => self.com1@,
            CreateDeckSection::SecondaryCommander => self.com2@,
        }
    }

    /// The cursor is inside the active text and the highlighted commander is
    /// one of those offered.
    pub open spec fn wf(&self) -> bool {
        &&& self.tpos <= byte_len(self.active_spec())
        &&& self.vpos.selected matches Some(i) ==> i < self.vcn@.len()
    }

    /// Key `c` edits the active text where it can take the edit: a
    /// `String` edit at a byte inside a character would panic.
    pub open spec fn input_ok(&self, c: KeyCode) -> bool {
        edit_fits(self.active_spec(), self.tpos as int, c)
    }

    /// Whether the screen can take key `c`.
    pub fn accepts(&self, c: KeyCode) -> (r: bool)
        ensures
            r == self.input_ok(c),
    {
        edit_fits_exec(self.active().as_str(), self.tpos, c)
    }

    /// The fields other than the active text and the cursor are as in `o`.
    pub open spec fn same_but_text(&self, o: &CreateDeckView) -> bool {
        &&& self.section == o.section
        &&& self.vcn@ == o.vcn@
        &&& self.vpos == o.vpos
        &&& self.section != CreateDeckSection::Title ==> self.title == o.title
        &&& self.section != CreateDeckSection::PrimaryCommander ==> self.com1 == o.com1
        &&& self.section != CreateDeckSection::SecondaryCommander ==> self.com2 == o.com2
    }

    /// An empty screen on the title.
    pub fn new() -> (r: Self)
        ensures
            r.wf(),
            r.section == CreateDeckSection::Title,
            r.title@.len() == 0,
            r.com1@.len() == 0,
            r.com2@.len() == 0,
            r.vcn@.len() == 0,
            r.vpos.selected is None,
            r.tpos == 0,
    {
        CreateDeckView {
            section: CreateDeckSection::Title,
            title: String::new(),
            com1: String::new(),
            com2: String::new(),
            vcn: Vec::new(),
            vpos: ListState { selected: None },
            tpos: 0,
        }
    }

    /// The text being typed.
    fn active(&self) -> (r: &String)
        ensures
            r@ == self.active_spec(),
    {
        match self.section {
            CreateDeckSection::Title => &self.title,
            CreateDeckSection::PrimaryCommander => &self.com1,
            CreateDeckSection::SecondaryCommander => &self.com2,
        }
    }

    /// Replaces the text being typed.
    fn set_active(&mut self, s: String)
        ensures
            final(self).active_spec() == s@,
            final(self).same_but_text(&*old(self)),
            final(self).tpos == old(self).tpos,
    {
        match self.section {
            CreateDeckSection::Title => self.title = s,
            CreateDeckSection::PrimaryCommander => self.com1 = s,
            CreateDeckSection::SecondaryCommander => self.com2 = s,
        }
    }

    /// The lookup to make after the commander text changed.
    fn lookup(&self) -> (r: CreateDeckRequest)
        ensures
            self.section == CreateDeckSection::Title ==> r is Hold,
            self.section != CreateDeckSection::Title ==> (r matches CreateDeckRequest::LookupNames {
                partner,
                text,
            } && partner == (self.section == CreateDeckSection::SecondaryCommander) && text@
                == self.active_spec()),
    {
        if self.section != CreateDeckSection::Title {
            CreateDeckRequest::LookupNames {
                partner: self.section == CreateDeckSection::SecondaryCommander,
                text: self.active().clone(),
            }
        } else {
            CreateDeckRequest::Hold
        }
    }

    /// Answers one key. Typing edits the active text (and, in a commander
    /// field, asks for the matching commanders); Up and Down move among the
    /// commanders offered; Enter moves from the title to the commander,
    /// asks to check the highlighted commander, or creates the deck; BackTab
    /// starts over from the title; Esc cancels.
    pub fn handle_input(&mut self, c: KeyCode) -> (r: CreateDeckRequest)
        requires
            old(self).wf(),
            old(self).input_ok(c),
        ensures
            final(self).wf(),
            create_key_step(*old(self), c, *final(self), r),
    {
        match c {
            KeyCode::Esc => return CreateDeckRequest::Cancel,
            KeyCode::End => {
                self.tpos = byte_len_of(self.active().as_str());
            },
            KeyCode::Home => self.tpos = 0,
            KeyCode::Char(ch) => {
                let s = string_insert_at_byte(self.active(), self.tpos, ch);
                self.set_active(s);
                self.tpos += 1;
                return self.lookup();
            },
            KeyCode::Backspace => {
                if self.tpos > 0 {
                    proof {
                        lemma_char_at_byte(self.active_spec(), self.tpos - 1);
                        assert(self.active_spec().take(self.active_spec().len() as int) =~= self.active_spec());
                    }
                    let s = string_remove_at_byte(self.active(), self.tpos - 1);
                    self.set_active(s);
                    self.tpos -= 1;
                }
                return self.lookup();
            },
            KeyCode::Delete => {
                if self.tpos < byte_len_of(self.active().as_str()) {
                    proof {
                        lemma_char_at_byte(self.active_spec(), self.tpos as int);
                        assert(self.active_spec().take(self.active_spec().len() as int) =~= self.active_spec());
                    }
                    let s = string_remove_at_byte(self.active(), self.tpos);
                    self.set_active(s);
                }
                return self.lookup();
            },
            KeyCode::BackTab => {
                self.section = CreateDeckSection::Title;
                self.tpos = 0;
                self.com1 = String::new();
                self.com2 = String::new();
            },
            KeyCode::Up => {
                if self.section != CreateDeckSection::Title && self.vcn.len() > 0 {
                    let i = match self.vpos.selected() {
                        Some(i) => {
                            if i == 0 {
                                self.vcn.len() - 1
                            } else {
                                i - 1
                            }
                        },
                        None => 0,
                    };
                    self.vpos.select(Some(i));
                }
            },
            KeyCode::Down => {
                if self.section != CreateDeckSection::Title && self.vcn.len() > 0 {
                    let i = match self.vpos.selected() {
                        Some(i) => (i + 1) % self.vcn.len(),
                        None => 0,
                    };
                    self.vpos.select(Some(i));
                }
            },
            KeyCode::Left => {
                if self.tpos > 0 {
                    self.tpos -= 1;
                }
            },
            KeyCode::Right => {
                if self.tpos < byte_len_of(self.active().as_str()) {
                    self.tpos += 1;
                }
            },
            KeyCode::Enter => {
                self.tpos = 0;
                match self.section {
                    CreateDeckSection::Title => {
                        self.section = CreateDeckSection::PrimaryCommander;
                    },
                    CreateDeckSection::PrimaryCommander => {
                        if let Some(i) = self.vpos.selected() {
                            return CreateDeckRequest::Classify(self.vcn[i].clone());
                        }
                    },
                    CreateDeckSection::SecondaryCommander => {
                        match self.vpos.selected() {
                            Some(i) => {
                                return CreateDeckRequest::CreateDeck {
                                    title: self.title.clone(),
                                    commander: self.com1.clone(),
                                    partner: Some(self.vcn[i].clone()),
                                };
                            },
                            None => {
                                return CreateDeckRequest::CreateDeck {
                                    title: self.title.clone(),
                                    commander: self.com1.clone(),
                                    partner: None,
                                };
                            },
                        }
                    },
                }
            },
            _ => {},
        }
        CreateDeckRequest::Hold
    }

    /// Takes the commanders found for the typed text (`None` when the lookup
    /// failed): they are offered with the first highlighted.
    pub fn on_names(&mut self, found: Option<Vec<String>>)
        requires
            old(self).tpos <= byte_len(old(self).active_spec()),
        ensures
            final(self).wf(),
            final(self).section == old(self).section,
            final(self).title == old(self).title,
            final(self).com1 == old(self).com1,
            final(self).com2 == old(self).com2,
            final(self).tpos == old(self).tpos,
            match found {
                Some(vs) => final(self).vcn@ == vs@ && final(self).vpos.selected == if vs@.len()
                    > 0 {
                    Some(0usize)
                } else {
                    None
                },
                None => final(self).vcn@.len() == 0 && final(self).vpos.selected is None,
            },
    {
        match found {
            Some(vs) => {
                if vs.len() > 0 {
                    self.vpos.select(Some(0));
                } else {
                    self.vpos.select(None);
                }
                self.vcn = vs;
            },
            None => {
                self.vpos.select(None);
                self.vcn = Vec::new();
            },
        }
    }

    /// Takes the card checked after Enter on a commander: a lone commander
    /// creates the deck, a partner commander moves on to the second
    /// commander (offering the named partner, if it has one), and a card that
    /// cannot lead a deck changes nothing.
    pub fn on_commander(&mut self, card: &Card) -> (r: CreateDeckRequest)
        requires
            old(self).wf(),
        ensures
            final(self).wf(),
            final(self).title == old(self).title,
            final(self).tpos == 0,
            commander_step(*old(self), *card, *final(self), r),
    {
        self.tpos = 0;
        match card.is_commander() {
            CommanderType::Default => {
                CreateDeckRequest::CreateDeck {
                    title: self.title.clone(),
                    commander: card.name.clone(),
                    partner: None,
                }
            },
            CommanderType::Partner => {
                self.com1 = card.name.clone();
                self.section = CreateDeckSection::SecondaryCommander;
                self.vcn = Vec::new();
                self.vpos.select(None);
                CreateDeckRequest::Hold
            },
            CommanderType::PartnerWith(scn) => {
                self.com1 = card.name.clone();
                self.com2 = scn.clone();
                self.section = CreateDeckSection::SecondaryCommander;
                let mut v: Vec<String> = Vec::new();
                v.push(scn);
                self.vcn = v;
                self.vpos.select(Some(0));
                CreateDeckRequest::Hold
            },
            CommanderType::Invalid => CreateDeckRequest::Hold,
        }
    }
}

} // verus!
