//! The omnibar's editable text, the main menu's entries, the deck creation
//! form, and the selection list the screens share.
use vstd::prelude::*;
use crate::text::{
    byte_len, byte_len_of, capture_group1, char_at_byte, chars_of, lemma_char_at_byte,
    lemma_char_at_byte_start, regex_group1, str_eq, string_insert, string_insert_at_byte,
    string_remove, string_remove_at_byte,
};
use crate::util::{ListEntry, ListState, next_index, previous_index};

verus! {

/// The screens and input areas of the interface; `Error` carries a message.
#[derive(Debug, Copy, Clone, PartialEq)]
pub enum Screen {
    MainMenu,
    MakeDeck,
    OpenDeck,
    Settings,
    DeckOmni,
    DeckCard,
    DbFilter,
    DbCards,
    DeckStat,
    Error(&'static str),
}

/// The text in lower case, as `str::to_lowercase` gives it (Unicode case
/// mapping, which may change the length).
pub uninterp spec fn lowercase(s: Seq<char>) -> Seq<char>;

/// Lower-cases `s` with `str::to_lowercase`.
#[verifier::external_body]
fn to_lower(s: &str) -> (r: String)
    ensures
        r@ == lowercase(s@),
{
    s.to_lowercase()
}

/// The pattern that finds a tag being created in the omnibar.
pub const NEW_TAG_PATTERN: &'static str = "/tag:(\\w*)";

/// The omnibar's text and the cursor within it, counted in characters.
pub struct Omnitext {
    pub text: String,
    position: usize,
}

impl View for Omnitext {
    type V = (Seq<char>, int);

    /// The text and the cursor position.
    closed spec fn view(&self) -> (Seq<char>, int) {
        (self.text@, self.position as int)
    }
}

impl Default for Omnitext {
    fn default() -> (r: Self)
        ensures
            r@ == (Seq::<char>::empty(), 0int),
            r.wf(),
    {
        Omnitext { text: String::new(), position: 0 }
    }
}

impl Omnitext {
    /// The cursor stands within the text (a byte position).
    pub closed spec fn wf(&self) -> bool {
        self.position <= byte_len(self.text@)
    }

    /// The omnibar is well formed exactly when its cursor, a byte position,
    /// stands between the start and the end of its text; the cursor is never
    /// before the start.
    pub proof fn lemma_wf(&self)
        ensures
            self.wf() <==> 0 <= self@.1 <= byte_len(self@.0),
            0 <= self@.1,
    {
    }

    /// Typing at the cursor is possible: it starts a character or is the end
    /// (`String::insert` panics elsewhere).
    pub open spec fn insert_ok(&self) -> bool {
        char_at_byte(self@.0, self@.1) is Some
    }

    /// Deleting at the cursor is possible: there is nothing under it, or it
    /// starts a character (`String::remove` panics elsewhere).
    pub open spec fn delete_ok(&self) -> bool {
        self@.1 < byte_len(self@.0) ==> char_at_byte(self@.0, self@.1) is Some
    }

    /// Backspace is possible: the cursor is at the start, or the byte before
    /// it starts a character.
    pub open spec fn backspace_ok(&self) -> bool {
        self@.1 > 0 ==> char_at_byte(self@.0, self@.1 - 1) is Some
    }

    /// Moves the cursor one byte left, unless at the start.
    pub fn left(&mut self)
        requires
            old(self).wf(),
        ensures
            final(self).wf(),
            final(self)@.0 == old(self)@.0,
            final(self)@.1 == if old(self)@.1 > 0 {
                old(self)@.1 - 1
            } else {
                0
            },
    {
        if self.position > 0 {
            self.position -= 1;
        }
    }

    /// Moves the cursor one byte right, unless at the end.
    pub fn right(&mut self)
        requires
            old(self).wf(),
        ensures
            final(self).wf(),
            final(self)@.0 == old(self)@.0,
            final(self)@.1 == if old(self)@.1 < byte_len(old(self)@.0) {
                old(self)@.1 + 1
            } else {
                old(self)@.1
            },
    {
        let n = byte_len_of(self.text.as_str());
        if self.position < n {
            self.position += 1;
        }
    }

    /// Types `c` at the cursor, which moves one byte on.
    pub fn insert(&mut self, c: char)
        requires
            old(self).wf(),
            old(self).insert_ok(),
        ensures
            final(self).wf(),
            final(self)@.0 == old(self)@.0.insert(char_at_byte(old(self)@.0, old(self)@.1)->0, c),
            final(self)@.1 == old(self)@.1 + 1,
    {
        let t = string_insert_at_byte(&self.text, self.position, c);
        self.text = t;
        self.position += 1;
    }

    /// Deletes the character under the cursor, if any.
    pub fn delete(&mut self)
        requires
            old(self).wf(),
            old(self).delete_ok(),
        ensures
            final(self).wf(),
            final(self)@.1 == old(self)@.1,
            final(self)@.0 == if old(self)@.1 < byte_len(old(self)@.0) {
                old(self)@.0.remove(char_at_byte(old(self)@.0, old(self)@.1)->0)
            } else {
                old(self)@.0
            },
    {
        let n = byte_len_of(self.text.as_str());
        if self.position < n {
            proof {
                lemma_char_at_byte(self.text@, self.position as int);
                assert(self.text@.take(self.text@.len() as int) =~= self.text@);
            }
            let t = string_remove_at_byte(&self.text, self.position);
            self.text = t;
        }
    }

    /// Deletes the character that starts at the byte before the cursor, if
    /// any, and moves back one byte.
    pub fn backspace(&mut self)
        requires
            old(self).wf(),
            old(self).backspace_ok(),
        ensures
            final(self).wf(),
            old(self)@.1 > 0 ==> final(self)@ == (old(self)@.0.remove(
                char_at_byte(old(self)@.0, old(self)@.1 - 1)->0,
            ), old(self)@.1 - 1),
            old(self)@.1 <= 0 ==> final(self)@ == old(self)@,
    {
        if self.position > 0 {
            proof {
                lemma_char_at_byte(self.text@, self.position - 1);
                assert(self.text@.take(self.text@.len() as int) =~= self.text@);
            }
            let t = string_remove_at_byte(&self.text, self.position - 1);
            self.text = t;
            self.position -= 1;
        }
    }

    /// Whether the text is `s`.
    pub fn text_is(&self, s: &str) -> (r: bool)
        ensures
            r == (self@.0 == s@),
    {
        str_eq(self.text.as_str(), s)
    }

    /// The text in lower case, as filters read it.
    pub fn get(&self) -> (r: String)
        ensures
            r@ == lowercase(self@.0),
    {
        to_lower(self.text.as_str())
    }

    /// The tag a `/tag:name` command in the text creates, if there is one.
    pub fn rt(&self) -> (r: Option<String>)
        ensures
            r is Some <==> regex_group1(NEW_TAG_PATTERN@, self@.0) is Some,
            r is Some ==> r->0@ == regex_group1(NEW_TAG_PATTERN@, self@.0)->0,
    {
        capture_group1(NEW_TAG_PATTERN, self.text.as_str())
    }
}

/// Backspace undoes typing: an omnibar `o` that takes a character (becoming
/// `m`, as `insert` leaves it) and then a backspace (becoming `f`, as
/// `backspace` leaves it) is as it was, whatever the character's size.
pub proof fn lemma_backspace_undoes_insert(o: Omnitext, m: Omnitext, f: Omnitext, c: char)
    requires
        o.wf(),
        o.insert_ok(),
        m@.0 == o@.0.insert(char_at_byte(o@.0, o@.1)->0, c),
        m@.1 == o@.1 + 1,
        m@.1 > 0 ==> f@ == (m@.0.remove(char_at_byte(m@.0, m@.1 - 1)->0), m@.1 - 1),
        m@.1 <= 0 ==> f@ == m@,
    ensures
        f@ == o@,
{
    o.lemma_wf();
    let k = char_at_byte(o@.0, o@.1)->0;
    lemma_char_at_byte(o@.0, o@.1);
    assert(m@.0.take(k) =~= o@.0.take(k));
    lemma_char_at_byte_start(m@.0, k);
    assert(m@.0.remove(k) =~= o@.0);
}

/// Left undoes Right: an omnibar `o` whose cursor is before the end, moved
/// right (becoming `m`) and then left (becoming `f`), is as it was.
pub proof fn lemma_left_undoes_right(o: Omnitext, m: Omnitext, f: Omnitext)
    requires
        o.wf(),
        o@.1 < byte_len(o@.0),
        m@.0 == o@.0,
        m@.1 == if o@.1 < byte_len(o@.0) { o@.1 + 1 } else { o@.1 },
        f@.0 == m@.0,
        f@.1 == if m@.1 > 0 { m@.1 - 1 } else { 0 },
    ensures
        f@ == o@,
{
    o.lemma_wf();
}

/// A main menu entry and the screen it leads to (none means quit).
#[derive(Debug, PartialEq, Clone)]
pub struct MainMenuItem {
    pub text: String,
    pub next: Option<Screen>,
}

impl MainMenuItem {
    /// An entry that leads nowhere.
    pub fn from(s: String) -> (r: MainMenuItem)
        ensures
            r.text == s,
            r.next is None,
    {
        MainMenuItem { text: s, next: None }
    }

    /// An entry that leads to `screen`.
    pub fn from_with_screen(s: String, screen: Screen) -> (r: MainMenuItem)
        ensures
            r.text == s,
            r.next == Some(screen),
    {
        MainMenuItem { text: s, next: Some(screen) }
    }

    /// The entry's text.
    pub fn to_string(&self) -> (r: String)
        ensures
            r@ == self.text@,
    {
        self.text.clone()
    }
}

/// Which field of the deck creation form has the focus.
#[derive(Debug, Copy, Clone, PartialEq, Eq, Structural)]
pub enum MakeDeckFocus {
    Title,
    Commander,
    SecondaryCommander,
}

impl Default for MakeDeckFocus {
    fn default() -> (r: Self)
        ensures
            r == MakeDeckFocus::Title,
    {
        MakeDeckFocus::Title
    }
}

/// What the deck creation form holds.
#[derive(Debug)]
pub struct MakeDeckContents {
    pub focus: MakeDeckFocus,
    pub title: String,
    pub commander: String,
    pub commander2: String,
    pub commander_names: Vec<String>,
}

impl Default for MakeDeckContents {
    fn default() -> (r: Self)
        ensures
            r.focus == MakeDeckFocus::Title,
            r.title@.len() == 0,
            r.commander@.len() == 0,
            r.commander2@.len() == 0,
            r.commander_names@.len() == 0,
    {
        MakeDeckContents {
            focus: MakeDeckFocus::Title,
            title: String::new(),
            commander: String::new(),
            commander2: String::new(),
            commander_names: Vec::new(),
        }
    }
}

/// The position of the first entry of `items` labelled `s`.
pub open spec fn first_label_index<T: ListEntry>(items: Seq<T>, s: Seq<char>) -> Option<int>
    decreases items.len(),
{
    if items.len() == 0 {
        None
    } else if items[0].label_spec() == s {
        Some(0)
    } else {
        match first_label_index(items.drop_first(), s) {
            Some(i) => Some(i + 1),
            None => None,
        }
    }
}

proof fn lemma_first_label_index<T: ListEntry>(items: Seq<T>, s: Seq<char>, k: int)
    requires
        0 <= k <= items.len(),
        forall|j: int| 0 <= j < k ==> items[j].label_spec() != s,
    ensures
        k < items.len() && items[k].label_spec() == s ==> first_label_index(items, s) == Some(k),
        k == items.len() ==> first_label_index(items, s) is None,
    decreases k,
{
    if k > 0 {
        lemma_first_label_index(items.drop_first(), s, k - 1);
    }
}

/// A list of entries of which at most one is highlighted, as the deck
/// screens use it.
pub struct StatefulList<T: ListEntry> {
    pub state: ListState,
    pub items: Vec<T>,
}

impl<T: ListEntry> StatefulList<T> {
    /// An empty list with nothing highlighted.
    pub fn new() -> (r: StatefulList<T>)
        ensures
            r.items@.len() == 0,
            r.state.selected is None,
    {
        StatefulList { state: ListState { selected: None }, items: Vec::new() }
    }

    /// A list of `items` with nothing highlighted.
    pub fn with_items(items: Vec<T>) -> (r: StatefulList<T>)
        ensures
            r.items@ == items@,
            r.state.selected is None,
    {
        StatefulList { state: ListState { selected: None }, items }
    }

    /// Highlights the next entry (the first after the last, or the first
    /// when none is highlighted) and returns its label; an empty list is left
    /// as it is.
    pub fn next(&mut self) -> (r: Option<String>)
        ensures
            final(self).items@ == old(self).items@,
            old(self).items@.len() == 0 ==> r is None && final(self).state == old(self).state,
            old(self).items@.len() > 0 ==> {
                let i = next_index(old(self).state.selected, old(self).items@.len());
                &&& final(self).state.selected == Some(i)
                &&& (r matches Some(t) && t@ == old(self).items@[i as int].label_spec())
            },
    {
        if self.items.len() > 0 {
            let i = match self.state.selected() {
                Some(i) => {
                    if i >= self.items.len() - 1 {
                        0
                    } else {
                        i + 1
                    }
                },
                None => 0,
            };
            self.state.select(Some(i));
            Some(self.items[i].label())
        } else {
            None
        }
    }

    /// Highlights the previous entry (the last before the first, or the first
    /// when none is highlighted) and returns its label.
    pub fn previous(&mut self) -> (r: String)
        requires
            old(self).items@.len() > 0,
            old(self).state.selected matches Some(i) ==> i <= old(self).items@.len(),
        ensures
            final(self).items@ == old(self).items@,
            final(self).state.selected == Some(
                previous_index(old(self).state.selected, old(self).items@.len()),
            ),
            r@ == old(self).items@[previous_index(
                old(self).state.selected,
                old(self).items@.len(),
            ) as int].label_spec(),
    {
        let i = match self.state.selected() {
            Some(i) => {
                if i == 0 {
                    self.items.len() - 1
                } else {
                    i - 1
                }
            },
            None => 0,
        };
        self.state.select(Some(i));
        self.items[i].label()
    }

    /// Highlights nothing.
    pub fn unselect(&mut self)
        ensures
            final(self).items@ == old(self).items@,
            final(self).state.selected is None,
    {
        self.state.select(None);
    }

    /// The highlighted entry, or nothing in an empty list.
    pub fn get(&self) -> (r: Option<&T>)
        requires
            self.items@.len() > 0 ==> (self.state.selected matches Some(i) && i < self.items@.len()),
        ensures
            self.items@.len() == 0 ==> r is None,
            self.items@.len() > 0 ==> r == Some(&self.items@[self.state.selected->0 as int]),
    {
        if self.items.len() > 0 {
            let i = self.state.selected().unwrap();
            return Some(&self.items[i]);
        }
        None
    }

    /// The label of the highlighted entry, or nothing in an empty list.
    pub fn get_string(&self) -> (r: Option<String>)
        requires
            self.items@.len() > 0 ==> (self.state.selected matches Some(i) && i < self.items@.len()),
        ensures
            self.items@.len() == 0 ==> r is None,
            self.items@.len() > 0 ==> (r matches Some(t) && t@ == self.items@[self.state.selected->0 as int].label_spec()),
    {
        if self.items.len() > 0 {
            let i = self.state.selected().unwrap();
            return Some(self.items[i].label());
        }
        None
    }

    /// Removes the highlighted entry; the highlight stays at the same
    /// position or moves up from the end, and the label of the entry now
    /// highlighted is returned. When the list empties, nothing is returned
    /// and the highlight is left as it was.
    pub fn remove(&mut self) -> (r: Option<String>)
        requires
            old(self).state.selected matches Some(i) && i < old(self).items@.len(),
        ensures
            ({
                let a = old(self).state.selected->0;
                let items = old(self).items@.remove(a as int);
                &&& final(self).items@ == items
                &&& items.len() == 0 ==> r is None && final(self).state == old(self).state
                &&& items.len() > 0 ==> {
                    let b = if a == items.len() {
                        (a - 1) as usize
                    } else {
                        a
                    };
                    &&& final(self).state.selected == Some(b)
                    &&& (r matches Some(t) && t@ == items[b as int].label_spec())
                }
            }),
    {
        let mut a = self.state.selected().unwrap();
        self.items.remove(a);
        if self.items.len() > 0 {
            if a == self.items.len() {
                a -= 1;
            }
            self.state.select(Some(a));
            Some(self.items[a].label())
        } else {
            None
        }
    }

    /// Removes the first entry labelled `s`, moving the highlight up when
    /// the entry stood above it.
    pub fn remove_named(&mut self, s: &String)
        requires
            old(self).state.selected is Some,
        ensures
            ({
                let a = old(self).state.selected->0;
                let items = old(self).items@;
                match first_label_index(items, s@) {
                    Some(j) => {
                        &&& final(self).items@ == items.remove(j)
                        &&& final(self).state.selected == if j < a {
                            Some((a - 1) as usize)
                        } else {
                            Some(a)
                        }
                    },
                    None => final(self).items@ == items && final(self).state == old(self).state,
                }
            }),
    {
        let a = self.state.selected().unwrap();
        let mut i: usize = 0;
        while i < self.items.len()
            invariant
                i <= self.items@.len(),
                self.items@ == old(self).items@,
                self.state == old(self).state,
                old(self).state.selected == Some(a),
                forall|j: int| 0 <= j < i ==> self.items@[j].label_spec() != s@,
            decreases self.items.len() - i,
        {
            let l = self.items[i].label();
            if str_eq(l.as_str(), s.as_str()) {
                proof {
                    lemma_first_label_index(self.items@, s@, i as int);
                }
                assert(first_label_index(old(self).items@, s@) == Some(i as int));
                self.items.remove(i);
                assert(self.items@ == old(self).items@.remove(i as int));
                if i < a {
                    self.state.select(Some(a - 1));
                }
                return;
            }
            i += 1;
        }
        proof {
            lemma_first_label_index(self.items@, s@, i as int);
        }
    }

    /// Puts `obj` in place of the highlighted entry.
    pub fn replace(&mut self, obj: T)
        requires
            old(self).state.selected matches Some(i) && i < old(self).items@.len(),
        ensures
            final(self).items@ == old(self).items@.update(old(self).state.selected->0 as int, obj),
            final(self).state == old(self).state,
    {
        let a = self.state.selected().unwrap();
        self.items.remove(a);
        self.items.insert(a, obj);
        assert(self.items@ =~= old(self).items@.update(a as int, obj));
    }
}

impl ListEntry for MainMenuItem {
    open spec fn label_spec(&self) -> Seq<char> {
        self.text@
    }

    open spec fn same_spec(&self, other: &Self) -> bool {
        self.text@ == other.text@ && same_screen_spec(self.next, other.next)
    }

    fn label(&self) -> (r: String) {
        self.text.clone()
    }

    fn same(&self, other: &Self) -> (r: bool) {
        str_eq(self.text.as_str(), other.text.as_str()) && same_screen(self.next, other.next)
    }

    fn duplicate(&self) -> (r: Self) {
        MainMenuItem { text: self.text.clone(), next: self.next }
    }
}

/// Two optional screens are the same: the same screen, or error screens
/// with the same message.
pub open spec fn same_screen_spec(a: Option<Screen>, b: Option<Screen>) -> bool {
    match (a, b) {
        (Some(Screen::Error(m)), Some(Screen::Error(n))) => m@ == n@,
        (Some(Screen::Error(_)), _) => false,
        (_, Some(Screen::Error(_))) => false,
        _ => a == b,
    }
}

/// Whether two optional screens are the same.
fn same_screen(a: Option<Screen>, b: Option<Screen>) -> (r: bool)
    ensures
        r == same_screen_spec(a, b),
{
    match (a, b) {
        (Some(x), Some(y)) => match (x, y) {
            (Screen::MainMenu, Screen::MainMenu) => true,
            (Screen::MakeDeck, Screen::MakeDeck) => true,
            (Screen::OpenDeck, Screen::OpenDeck) => true,
            (Screen::Settings, Screen::Settings) => true,
            (Screen::DeckOmni, Screen::DeckOmni) => true,
            (Screen::DeckCard, Screen::DeckCard) => true,
            (Screen::DbFilter, Screen::DbFilter) => true,
            (Screen::DbCards, Screen::DbCards) => true,
            (Screen::DeckStat, Screen::DeckStat) => true,
            (Screen::Error(m), Screen::Error(n)) => str_eq(m, n),
            _ => false,
        },
        (None, None) => true,
        _ => false,
    }
}

} // verus!
