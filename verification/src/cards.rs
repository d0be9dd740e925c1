//! Rules on card records: how a stored layout becomes a `CardLayout`, how
//! two-faced cards are named when imported, which colors a deck has, which
//! related cards come along when a card is added, and how an import file
//! chooses its commanders.
use vstd::prelude::*;
use crate::db::ImportCard;
use crate::text::{
    split_chars, char_len, chars_of, find_string, occurs_at, occurs_at_exec, str_eq,
    string_from, string_of, views, push_str,
};
use crate::util::{CardLayout, CommanderType};

verus! {

/// The first position at or after `i` where `pat` occurs in `s`.
pub open spec fn find_from(s: Seq<char>, pat: Seq<char>, i: int) -> Option<int>
    decreases s.len() + 1 - i,
{
    if i < 0 || i + pat.len() > s.len() {
        None
    } else if occurs_at(s, pat, i) {
        Some(i)
    } else {
        find_from(s, pat, i + 1)
    }
}

/// The text before and after the first `pat` in `s` (`str::split_once`).
pub open spec fn split_once_spec(s: Seq<char>, pat: Seq<char>) -> Option<(Seq<char>, Seq<char>)> {
    match find_from(s, pat, 0) {
        Some(i) => Some((s.take(i), s.skip(i + pat.len()))),
        None => None,
    }
}

/// Where `pat` first occurs in `s`.
fn find_exec(s: &[char], pat: &[char]) -> (r: Option<usize>)
    ensures
        match r {
            Some(i) => find_from(s@, pat@, 0) == Some(i as int),
            None => find_from(s@, pat@, 0) is None,
        },
{
    if pat.len() > s.len() {
        return None;
    }
    let limit = s.len() - pat.len();
    let mut i: usize = 0;
    loop
        invariant
            pat@.len() <= s@.len(),
            limit == s@.len() - pat@.len(),
            i <= limit,
            find_from(s@, pat@, 0) == find_from(s@, pat@, i as int),
        decreases limit - i,
    {
        if occurs_at_exec(s, pat, i) {
            return Some(i);
        }
        if i == limit {
            assert(find_from(s@, pat@, i + 1) is None);
            return None;
        }
        i += 1;
    }
}

/// The text before and after the first `pat` in `s`.
pub(crate) fn split_once_exec(s: &[char], pat: &[char]) -> (r: Option<(Vec<char>, Vec<char>)>)
    ensures
        match r {
            Some((a, b)) => split_once_spec(s@, pat@) == Some((a@, b@)),
            None => split_once_spec(s@, pat@) is None,
        },
{
    match find_exec(s, pat) {
        Some(i) => {
            proof {
                lemma_find_from_bounds(s@, pat@, 0);
            }
            assert(i + pat@.len() <= s@.len());
            let mut a: Vec<char> = Vec::new();
            let mut k: usize = 0;
            while k < i
                invariant
                    i + pat@.len() <= s@.len(),
                    k <= i,
                    a@ == s@.take(k as int),
                decreases i - k,
            {
                a.push(s[k]);
                assert(a@ =~= s@.take(k + 1));
                k += 1;
            }
            let mut b: Vec<char> = Vec::new();
            let n = s.len();
            assert(i + pat@.len() <= n);
            let mut m: usize = i + pat.len();
            let start = m;
            while m < s.len()
                invariant
                    start <= m <= s@.len(),
                    b@ == s@.subrange(start as int, m as int),
                decreases s.len() - m,
            {
                b.push(s[m]);
                assert(b@ =~= s@.subrange(start as int, m + 1));
                m += 1;
            }
            assert(b@ =~= s@.skip(start as int));
            Some((a, b))
        },
        None => None,
    }
}

proof fn lemma_find_from_bounds(s: Seq<char>, pat: Seq<char>, i: int)
    ensures
        match find_from(s, pat, i) {
            Some(k) => i <= k && k + pat.len() <= s.len() && occurs_at(s, pat, k),
            None => true,
        },
    decreases s.len() + 1 - i,
{
    if !(i < 0 || i + pat.len() > s.len()) && !occurs_at(s, pat, i) {
        lemma_find_from_bounds(s, pat, i + 1);
    }
}

/// What the card text says of the other face of a two-faced layout, or
/// `None` for other layouts.
pub open spec fn paired_description(layout: Seq<char>, side: char) -> Option<Seq<char>> {
    if layout == "adventure"@ {
        Some(if side == 'a' { "Also has Adventure"@ } else { "Adventure of"@ })
    } else if layout == "aftermath"@ {
        Some(if side == 'a' { "Also has Aftermath"@ } else { "Aftermath of"@ })
    } else if layout == "flip"@ {
        Some(if side == 'a' { "Also has Flip side"@ } else { "Flip side of"@ })
    } else if layout == "modal_dfc"@ {
        Some(
            if side == 'a' {
                "Modal Face. You may instead cast"@
            } else {
                "Modal Back. You may instead cast"@
            },
        )
    } else if layout == "split"@ {
        Some("You may instead cast"@)
    } else if layout == "transform"@ {
        Some(if side == 'a' { "Transforms into"@ } else { "Transforms from"@ })
    } else {
        None
    }
}

/// Whether `lo` is the layout a stored record describes: its layout name,
/// related card(s) (`a|b` for a meld) and side letter.
pub open spec fn layout_from_record(lo: CardLayout, layout: Seq<char>, rel: Seq<char>, side: char) -> bool {
    match paired_description(layout, side) {
        Some(d) => lo matches CardLayout::Paired(s, desc, n) && s == side && desc@ == d && n@ == rel,
        None => if layout == "leveler"@ {
            lo is Leveler
        } else if layout == "meld"@ {
            lo matches CardLayout::Meld(s, face, transform) && s == side && split_once_spec(
                rel,
                "|"@,
            ) == Some((face@, transform@))
        } else if layout == "saga"@ {
            lo is Saga
        } else {
            lo is Normal
        },
    }
}

fn paired_description_exec(layout: &str, side: char) -> (r: Option<&'static str>)
    ensures
        match r {
            Some(d) => paired_description(layout@, side) == Some(d@),
            None => paired_description(layout@, side) is None,
        },
{
    if str_eq(layout, "adventure") {
        Some(if side == 'a' { "Also has Adventure" } else { "Adventure of" })
    } else if str_eq(layout, "aftermath") {
        Some(if side == 'a' { "Also has Aftermath" } else { "Aftermath of" })
    } else if str_eq(layout, "flip") {
        Some(if side == 'a' { "Also has Flip side" } else { "Flip side of" })
    } else if str_eq(layout, "modal_dfc") {
        Some(
            if side == 'a' {
                "Modal Face. You may instead cast"
            } else {
                "Modal Back. You may instead cast"
            },
        )
    } else if str_eq(layout, "split") {
        Some("You may instead cast")
    } else if str_eq(layout, "transform") {
        Some(if side == 'a' { "Transforms into" } else { "Transforms from" })
    } else {
        None
    }
}

/// The layout of a stored card record. A meld record names its two related
/// cards as `face|transform`.
pub fn card_layout(layout: &str, rel: &str, side: char) -> (lo: CardLayout)
    requires
        paired_description(layout@, side) is None && layout@ == "meld"@ ==> split_once_spec(
            rel@,
            "|"@,
        ) is Some,
    ensures
        layout_from_record(lo, layout@, rel@, side),
{
    match paired_description_exec(layout, side) {
        Some(d) => CardLayout::Paired(side, string_from(d), string_from(rel)),
        None => {
            if str_eq(layout, "leveler") {
                CardLayout::Leveler
            } else if str_eq(layout, "meld") {
                let rc = chars_of(rel);
                let bar = chars_of("|");
                match split_once_exec(&rc, &bar) {
                    Some((a, b)) => CardLayout::Meld(side, string_of(&a), string_of(&b)),
                    None => CardLayout::Normal,
                }
            } else if str_eq(layout, "saga") {
                CardLayout::Saga
            } else {
                CardLayout::Normal
            }
        },
    }
}

/// A two-faced layout whose record name holds both faces as `a // b`.
pub open spec fn is_two_faced(layout: Seq<char>) -> bool {
    layout == "split"@ || layout == "transform"@ || layout == "aftermath"@ || layout == "flip"@
        || layout == "adventure"@ || layout == "modal_dfc"@
}

/// The face name, side letter and related name under which an imported
/// card record is stored.
pub open spec fn face_names_spec(name: Seq<char>, layout: Seq<char>, side: Option<char>) -> (
    Seq<char>,
    Seq<char>,
    Seq<char>,
) {
    let (front, back) = match split_once_spec(name, " // "@) {
        Some((a, b)) => (a, b),
        None => (Seq::<char>::empty(), Seq::<char>::empty()),
    };
    if is_two_faced(layout) {
        if side == Some('a') {
            (front, "a"@, back)
        } else {
            (back, "b"@, front)
        }
    } else if layout == "meld"@ {
        if side == Some('a') {
            (front, "a"@, back)
        } else {
            (name, "b"@, "UNKNOWN"@)
        }
    } else {
        (name, Seq::<char>::empty(), Seq::<char>::empty())
    }
}

/// How an imported card record is named: a two-faced card, and the front
/// of a meld pair, is stored under the name of its own face, with the
/// other face as its related card.
pub fn face_names(name: &str, layout: &str, side: Option<char>) -> (r: (String, String, String))
    requires
        is_two_faced(layout@) || (layout@ == "meld"@ && side == Some('a')) ==> split_once_spec(
            name@,
            " // "@,
        ) is Some,
    ensures
        (r.0@, r.1@, r.2@) == face_names_spec(name@, layout@, side),
{
    let two_faced = str_eq(layout, "split") || str_eq(layout, "transform") || str_eq(
        layout,
        "aftermath",
    ) || str_eq(layout, "flip") || str_eq(layout, "adventure") || str_eq(layout, "modal_dfc");
    let nc = chars_of(name);
    let sep = chars_of(" // ");
    if two_faced || (str_eq(layout, "meld") && side == Some('a')) {
        match split_once_exec(&nc, &sep) {
            Some((a, b)) => {
                if side == Some('a') {
                    (string_of(&a), string_from("a"), string_of(&b))
                } else if two_faced {
                    (string_of(&b), string_from("b"), string_of(&a))
                } else {
                    (string_from(name), string_from("b"), string_from("UNKNOWN"))
                }
            },
            None => (string_from(name), String::new(), String::new()),
        }
    } else if str_eq(layout, "meld") {
        (string_from(name), string_from("b"), string_from("UNKNOWN"))
    } else {
        (string_from(name), String::new(), String::new())
    }
}

/// The letters of `WUBRG` in either commander's color identity, in that
/// order.
pub open spec fn deck_color_spec(base: Seq<char>, ci1: Seq<char>, ci2: Seq<char>) -> Seq<char>
    decreases base.len(),
{
    if base.len() == 0 {
        base
    } else if ci1.contains(base.last()) || ci2.contains(base.last()) {
        deck_color_spec(base.drop_last(), ci1, ci2).push(base.last())
    } else {
        deck_color_spec(base.drop_last(), ci1, ci2)
    }
}

/// Whether `c` is one of `v`.
fn holds(v: &Vec<char>, c: char) -> (r: bool)
    ensures
        r == v@.contains(c),
{
    let mut i: usize = 0;
    while i < v.len()
        invariant
            i <= v@.len(),
            forall|k: int| 0 <= k < i ==> v@[k] != c,
        decreases v.len() - i,
    {
        if v[i] == c {
            return true;
        }
        i += 1;
    }
    false
}

/// A deck's colors: the letters of `WUBRG` in its commanders' color
/// identities.
pub fn deck_color(ci1: &Vec<char>, ci2: &Vec<char>) -> (r: String)
    ensures
        r@ == deck_color_spec("WUBRG"@, ci1@, ci2@),
{
    let base = chars_of("WUBRG");
    let mut out: Vec<char> = Vec::new();
    let mut i: usize = 0;
    while i < base.len()
        invariant
            i <= base@.len(),
            base@ == "WUBRG"@,
            out@ == deck_color_spec(base@.take(i as int), ci1@, ci2@),
        decreases base.len() - i,
    {
        assert(base@.take(i + 1).drop_last() =~= base@.take(i as int));
        assert(base@.take(i + 1).last() == base@[i as int]);
        if holds(ci1, base[i]) || holds(ci2, base[i]) {
            out.push(base[i]);
        }
        i += 1;
    }
    assert(base@.take(base@.len() as int) =~= base@);
    string_of(&out)
}

/// A deck's colors as the deck list shows them: `C` for a colorless deck.
pub fn listed_deck_color(ci1: &Vec<char>, ci2: &Vec<char>) -> (r: String)
    ensures
        deck_color_spec("WUBRG"@, ci1@, ci2@).len() == 0 ==> r@ == "C"@,
        deck_color_spec("WUBRG"@, ci1@, ci2@).len() > 0 ==> r@ == deck_color_spec(
            "WUBRG"@,
            ci1@,
            ci2@,
        ),
{
    let c = deck_color(ci1, ci2);
    if char_len(c.as_str()) == 0 {
        string_from("C")
    } else {
        c
    }
}

/// A card fits a deck when each letter of its color identity is one of the
/// deck's colors; `'\0'` stands for an empty identity.
pub open spec fn fits_colors(ci: Seq<char>, color: Seq<char>) -> bool {
    forall|i: int| 0 <= i < ci.len() ==> ci[i] == '\0' || color.contains(ci[i])
}

/// A card fits a deck exactly when none of its identity letters, other
/// than `'\0'`, is missing from the deck's colors: one letter outside the
/// colors shuts it out, whatever its other letters; a card with no letters
/// fits every deck; and a deck with more colors takes every card a deck
/// with fewer took.
pub proof fn lemma_fits_colors(ci: Seq<char>, color: Seq<char>, more: Seq<char>)
    ensures
        fits_colors(ci, color) <==> !(exists|i: int|
            0 <= i < ci.len() && ci[i] != '\0' && !color.contains(#[trigger] ci[i])),
        ci.len() == 0 ==> fits_colors(ci, color),
        (forall|x: char| color.contains(x) ==> more.contains(x)) && fits_colors(ci, color)
            ==> fits_colors(ci, more),
{
    if fits_colors(ci, color) {
        assert forall|i: int| 0 <= i < ci.len() implies !(ci[i] != '\0' && !color.contains(
            ci[i],
        )) by {}
    } else {
        let i = choose|i: int| 0 <= i < ci.len() && !(ci[i] == '\0' || color.contains(ci[i]));
        assert(0 <= i < ci.len() && ci[i] != '\0' && !color.contains(ci[i]));
    }
}

/// Whether a card of color identity `ci` may be added to a deck of colors
/// `color`.
pub fn fits_deck(ci: &Vec<char>, color: &str) -> (r: bool)
    ensures
        r == fits_colors(ci@, color@),
{
    let cc = chars_of(color);
    let mut i: usize = 0;
    while i < ci.len()
        invariant
            i <= ci@.len(),
            cc@ == color@,
            forall|k: int| 0 <= k < i ==> ci@[k] == '\0' || color@.contains(ci@[k]),
        decreases ci.len() - i,
    {
        if ci[i] != '\0' && !holds(&cc, ci[i]) {
            return false;
        }
        i += 1;
    }
    true
}

/// The cards that come along when a card is added to a deck: the other
/// face of a two-faced card; both other parts of a meld result; the meld
/// result of a meld front whose partner is already in the deck.
pub open spec fn companions_spec(lo: CardLayout, deck: Seq<Seq<char>>) -> Seq<Seq<char>> {
    match lo {
        CardLayout::Paired(_, _, n) => seq![n@],
        CardLayout::Meld(s, n, m) => if s == 'b' {
            seq![n@, m@]
        } else if deck.contains(n@) {
            seq![m@]
        } else {
            Seq::<Seq<char>>::empty()
        },
        _ => Seq::<Seq<char>>::empty(),
    }
}

/// The names of the cards that come along when a card of layout `lo` is
/// added to a deck holding the cards named `deck`.
pub fn companions(lo: &CardLayout, deck: &Vec<String>) -> (r: Vec<String>)
    ensures
        views(r@) == companions_spec(*lo, views(deck@)),
{
    let mut r: Vec<String> = Vec::new();
    match lo {
        CardLayout::Paired(_, _, n) => {
            r.push(n.clone());
        },
        CardLayout::Meld(s, n, m) => {
            if *s == 'b' {
                r.push(n.clone());
                r.push(m.clone());
            } else {
                match find_string(deck, n.as_str()) {
                    Some(i) => {
                        assert(views(deck@)[i as int] == n@);
                        r.push(m.clone());
                    },
                    None => {},
                }
            }
        },
        _ => {},
    }
    assert(views(r@) =~= companions_spec(*lo, views(deck@)));
    r
}

/// The name a price search uses: both faces for a card with a related card
/// (but not a meld card).
pub open spec fn price_name_spec(name: Seq<char>, layout: Seq<char>, related: Seq<char>) -> Seq<char> {
    if related.len() > 0 && layout != "meld"@ {
        name + " // "@ + related
    } else {
        name
    }
}

/// The name a price search uses for a stored card.
pub fn price_name(name: &str, layout: &str, related: &str) -> (r: String)
    ensures
        r@ == price_name_spec(name@, layout@, related@),
{
    if char_len(related) > 0 && !str_eq(layout, "meld") {
        let mut s = string_from(name);
        push_str(&mut s, " // ");
        push_str(&mut s, related);
        s
    } else {
        string_from(name)
    }
}

/// The name a quick price search uses: a two-faced card with its other
/// face after it.
pub fn quick_price_name(cn: &str, lo: &CardLayout) -> (r: String)
    ensures
        lo matches CardLayout::Paired(_, _, rel) ==> r@ == cn@ + " // "@ + rel@,
        !(lo is Paired) ==> r@ == cn@,
{
    match lo {
        CardLayout::Paired(_, _, rel) => {
            let mut s = string_from(cn);
            push_str(&mut s, " // ");
            push_str(&mut s, rel.as_str());
            s
        },
        _ => string_from(cn),
    }
}

/// The full name a detailed price search uses: front face first.
pub fn detailed_price_name(name: &str, lo: &CardLayout) -> (r: String)
    ensures
        lo matches CardLayout::Paired(s, _, rel) ==> (s == 'a' ==> r@ == name@ + " // "@ + rel@),
        lo matches CardLayout::Paired(s, _, rel) ==> (s == 'b' ==> r@ == rel@ + " // "@ + name@),
        !(lo matches CardLayout::Paired(s, _, _) && (s == 'a' || s == 'b')) ==> r@ == name@,
{
    match lo {
        CardLayout::Paired('a', _, rel) => {
            let mut s = string_from(name);
            push_str(&mut s, " // ");
            push_str(&mut s, rel.as_str());
            s
        },
        CardLayout::Paired('b', _, rel) => {
            let mut s = string_from(rel.as_str());
            push_str(&mut s, " // ");
            push_str(&mut s, name);
            s
        },
        _ => string_from(name),
    }
}

/// The names whose stored price a price update sets: for a two-faced card
/// the layout's second and third parts, else the card's own name.
pub fn priced_names(name: &str, lo: &CardLayout) -> (r: Vec<String>)
    ensures
        lo matches CardLayout::Paired(_, d, rel) ==> views(r@) == seq![d@, rel@],
        !(lo is Paired) ==> views(r@) == seq![name@],
{
    let mut r: Vec<String> = Vec::new();
    match lo {
        CardLayout::Paired(_, d, rel) => {
            r.push(d.clone());
            r.push(rel.clone());
        },
        _ => {
            r.push(string_from(name));
        },
    }
    assert(lo is Paired ==> views(r@) =~= seq![r@[0]@, r@[1]@]);
    assert(!(lo is Paired) ==> views(r@) =~= seq![r@[0]@]);
    r
}

/// A white-space character: the Unicode `White_Space` property, which
/// `str::trim` strips.
pub open spec fn is_white_space(c: char) -> bool {
    ('\u{9}' <= c <= '\u{d}') || c == ' ' || c == '\u{85}' || c == '\u{a0}' || c == '\u{1680}'
        || ('\u{2000}' <= c <= '\u{200a}') || c == '\u{2028}' || c == '\u{2029}' || c
        == '\u{202f}' || c == '\u{205f}' || c == '\u{3000}'
}

/// `s` without leading white space.
pub open spec fn trim_start_spec(s: Seq<char>) -> Seq<char>
    decreases s.len(),
{
    if s.len() > 0 && is_white_space(s[0]) {
        trim_start_spec(s.drop_first())
    } else {
        s
    }
}

/// `s` without trailing white space.
pub open spec fn trim_end_spec(s: Seq<char>) -> Seq<char>
    decreases s.len(),
{
    if s.len() > 0 && is_white_space(s.last()) {
        trim_end_spec(s.drop_last())
    } else {
        s
    }
}

/// `s` without leading and trailing white space (`str::trim`).
pub open spec fn trim_spec(s: Seq<char>) -> Seq<char> {
    trim_end_spec(trim_start_spec(s))
}

/// Removes leading and trailing white space with `str::trim`.
#[verifier::external_body]
pub(crate) fn trim_text(s: &str) -> (r: String)
    ensures
        r@ == trim_spec(s@),
{
    s.trim().to_string()
}

/// The name under which an import line is looked up: the line without
/// surrounding white space and, for a two-faced card written `a // b`, its
/// front face; `None` for a blank line.
pub open spec fn lookup_name_spec(line: Seq<char>) -> Option<Seq<char>> {
    let t = trim_spec(line);
    if t.len() == 0 {
        None
    } else {
        match split_once_spec(t, " // "@) {
            Some((front, _)) => Some(front),
            None => Some(t),
        }
    }
}

/// The name under which an import line is looked up.
pub fn lookup_name(line: &str) -> (r: Option<String>)
    ensures
        match r {
            Some(n) => lookup_name_spec(line@) == Some(n@),
            None => lookup_name_spec(line@) is None,
        },
{
    let t = trim_text(line);
    let tc = chars_of(t.as_str());
    if tc.len() == 0 {
        return None;
    }
    let sep = chars_of(" // ");
    match split_once_exec(&tc, &sep) {
        Some((front, _)) => Some(string_of(&front)),
        None => Some(t),
    }
}

/// The names of import entries.
pub open spec fn entry_names(cards: Seq<ImportCard>) -> Seq<Seq<char>> {
    cards.map_values(|c: ImportCard| c.name@)
}

/// The commanders an import chooses: those named on the command line (the
/// first one), or else the first card of the file, joined by the second
/// card when both take any partner, or by the named partner when the file
/// holds it; `None` when the first card cannot lead a deck. `second` is the
/// kind of the file's second card and is only consulted for a first card
/// that takes any partner.
pub open spec fn commanders_spec(
    coms: Seq<Seq<char>>,
    cards: Seq<ImportCard>,
    first: CommanderType,
    second: CommanderType,
) -> Option<(Seq<char>, Option<Seq<char>>)> {
    if coms.len() > 0 {
        Some((coms[0], None))
    } else {
        let lead = cards[0].name@;
        match first {
            CommanderType::Default => Some((lead, None)),
            CommanderType::Partner => if cards.len() > 1 && second is Partner {
                Some((lead, Some(cards[1].name@)))
            } else {
                Some((lead, None))
            },
            CommanderType::PartnerWith(p) => if entry_names(cards).contains(p@) {
                Some((lead, Some(p@)))
            } else {
                Some((lead, None))
            },
            CommanderType::Invalid => None,
        }
    }
}

/// Chooses the commanders of an imported deck.
pub fn choose_commanders(
    coms: &Vec<String>,
    cards: &Vec<ImportCard>,
    first: &CommanderType,
    second: &CommanderType,
) -> (r: Option<(String, Option<String>)>)
    requires
        coms@.len() == 0 ==> cards@.len() > 0,
    ensures
        match r {
            Some((p, s)) => commanders_spec(views(coms@), cards@, *first, *second) == Some(
                (
                    p@,
                    match s {
                        Some(x) => Some(x@),
                        None => None,
                    },
                ),
            ),
            None => commanders_spec(views(coms@), cards@, *first, *second) is None,
        },
{
    if coms.len() > 0 {
        assert(views(coms@)[0] == coms@[0]@);
        return Some((coms[0].clone(), None));
    }
    let lead = cards[0].name.clone();
    match first {
        CommanderType::Default => Some((lead, None)),
        CommanderType::Partner => {
            if cards.len() > 1 && matches!(second, CommanderType::Partner) {
                Some((lead, Some(cards[1].name.clone())))
            } else {
                Some((lead, None))
            }
        },
        CommanderType::PartnerWith(p) => {
            let mut i: usize = 0;
            let mut found = false;
            while i < cards.len()
                invariant
                    i <= cards@.len(),
                    found <==> exists|k: int| 0 <= k < i && cards@[k].name@ == p@,
                decreases cards.len() - i,
            {
                if str_eq(cards[i].name.as_str(), p.as_str()) {
                    found = true;
                }
                i += 1;
            }
            proof {
                if found {
                    let k = choose|k: int| 0 <= k < cards@.len() && cards@[k].name@ == p@;
                    assert(entry_names(cards@)[k] == p@);
                } else {
                    assert forall|k: int| 0 <= k < entry_names(cards@).len() implies entry_names(
                        cards@,
                    )[k] != p@ by {
                        assert(entry_names(cards@)[k] == cards@[k].name@);
                    }
                }
            }
            if found {
                Some((lead, Some(p.clone())))
            } else {
                Some((lead, None))
            }
        },
        CommanderType::Invalid => None,
    }
}

/// The pieces of the tags of the import entries that have tags, in order.
pub open spec fn tag_pieces(cards: Seq<ImportCard>) -> Seq<Seq<char>>
    decreases cards.len(),
{
    if cards.len() == 0 {
        Seq::<Seq<char>>::empty()
    } else {
        tag_pieces(cards.drop_last()) + match cards.last().tags {
            Some(t) => crate::text::split_spec(t@, '|'),
            None => Seq::<Seq<char>>::empty(),
        }
    }
}

/// The non-empty pieces, each once, in order of first appearance.
pub open spec fn first_appearances(ps: Seq<Seq<char>>) -> Seq<Seq<char>>
    decreases ps.len(),
{
    if ps.len() == 0 {
        ps
    } else {
        let d = first_appearances(ps.drop_last());
        if ps.last().len() == 0 || d.contains(ps.last()) {
            d
        } else {
            d.push(ps.last())
        }
    }
}

/// The tags an import file uses, each once, in order of first appearance.
pub fn import_tags(cards: &Vec<ImportCard>) -> (r: Vec<String>)
    ensures
        views(r@) == first_appearances(tag_pieces(cards@)),
{
    let mut r: Vec<String> = Vec::new();
    let mut i: usize = 0;
    while i < cards.len()
        invariant
            i <= cards@.len(),
            views(r@) == first_appearances(tag_pieces(cards@.take(i as int))),
        decreases cards.len() - i,
    {
        assert(cards@.take(i + 1).drop_last() =~= cards@.take(i as int));
        assert(cards@.take(i + 1).last() == cards@[i as int]);
        let ghost base = tag_pieces(cards@.take(i as int));
        match &cards[i].tags {
            Some(t) => {
                let tc = chars_of(t.as_str());
                let pieces = split_chars(&tc, '|');
                let ghost pv = pieces@.map_values(|p: Vec<char>| p@);
                let mut j: usize = 0;
                assert(base + pv.take(0) =~= base);
                while j < pieces.len()
                    invariant
                        j <= pieces@.len(),
                        pv == pieces@.map_values(|p: Vec<char>| p@),
                        views(r@) == first_appearances(base + pv.take(j as int)),
                    decreases pieces.len() - j,
                {
                    assert((base + pv.take(j + 1)).drop_last() =~= base + pv.take(j as int));
                    assert((base + pv.take(j + 1)).last() == pv[j as int]);
                    let piece = string_of(pieces[j].as_slice());
                    if pieces[j].len() > 0 && find_string(&r, piece.as_str()).is_none() {
                        let ghost before = r@;
                        r.push(piece);
                        assert(views(r@) =~= views(before).push(pv[j as int]));
                    }
                    j += 1;
                }
                assert(pv.take(pieces@.len() as int) =~= pv);
                assert(tag_pieces(cards@.take(i + 1)) =~= base + pv);
            },
            None => {
                assert(tag_pieces(cards@.take(i + 1)) =~= base);
            },
        }
        i += 1;
    }
    assert(cards@.take(cards@.len() as int) =~= cards@);
    r
}

/// The first entry named `n`.
pub open spec fn first_named(s: Seq<ImportCard>, n: Seq<char>) -> int
    decreases s.len(),
{
    if s.len() == 0 || s[0].name@ == n {
        0
    } else {
        1 + first_named(s.drop_first(), n)
    }
}

/// `s` with its entry `i` moved to position `to`.
pub open spec fn moved(s: Seq<ImportCard>, i: int, to: int) -> Seq<ImportCard> {
    s.remove(i).insert(to, s[i])
}

proof fn lemma_first_named(s: Seq<ImportCard>, n: Seq<char>, k: int)
    requires
        0 <= k < s.len(),
        s[k].name@ == n,
        forall|j: int| 0 <= j < k ==> s[j].name@ != n,
    ensures
        first_named(s, n) == k,
    decreases k,
{
    if k > 0 {
        lemma_first_named(s.drop_first(), n, k - 1);
    }
}

/// The position of the first entry named `n`, which `v` holds.
fn position_named(v: &Vec<ImportCard>, n: &String) -> (i: usize)
    requires
        entry_names(v@).contains(n@),
    ensures
        i < v@.len(),
        i == first_named(v@, n@),
{
    let mut i: usize = 0;
    while i < v.len()
        invariant
            i <= v@.len(),
            entry_names(v@).contains(n@),
            forall|j: int| 0 <= j < i ==> v@[j].name@ != n@,
        decreases v.len() - i,
    {
        if str_eq(v[i].name.as_str(), n.as_str()) {
            proof {
                lemma_first_named(v@, n@, i as int);
            }
            return i;
        }
        i += 1;
    }
    proof {
        let k = choose|k: int| 0 <= k < entry_names(v@).len() && entry_names(v@)[k] == n@;
        assert(v@[k].name@ == n@);
    }
    0
}

/// An exported deck list puts its commander first and its second
/// commander, if any, second.
pub fn commanders_first(cards: &mut Vec<ImportCard>, c1: &String, c2: &Option<String>)
    requires
        entry_names(old(cards)@).contains(c1@),
        c2 matches Some(n) ==> entry_names(moved(
            old(cards)@,
            first_named(old(cards)@, c1@),
            0,
        )).contains(n@),
        old(cards)@.len() >= 2 || c2 is None,
    ensures
        c2 is None ==> final(cards)@ == moved(old(cards)@, first_named(old(cards)@, c1@), 0),
        c2 matches Some(n) ==> {
            let once = moved(old(cards)@, first_named(old(cards)@, c1@), 0);
            final(cards)@ == moved(once, first_named(once, n@), 1)
        },
{
    let i = position_named(cards, c1);
    let ic = cards.remove(i);
    cards.insert(0, ic);
    assert(cards@ =~= moved(old(cards)@, i as int, 0));
    match c2 {
        Some(n) => {
            let ghost once = cards@;
            let j = position_named(cards, n);
            let ic2 = cards.remove(j);
            cards.insert(1, ic2);
            assert(cards@ =~= moved(once, j as int, 1));
        },
        None => {},
    }
}


/// The two fronts of a meld result `cn` among the recorded meld fronts
/// (each a pair of the result and the front's name): the first found, and
/// the last one found after it (a front with an empty name leaves the first
/// slot open).
pub open spec fn meld_fronts(bases: Seq<(String, String)>, cn: Seq<char>) -> (Seq<char>, Seq<char>)
    decreases bases.len(),
{
    if bases.len() == 0 {
        (Seq::<char>::empty(), Seq::<char>::empty())
    } else {
        let (a, b) = meld_fronts(bases.drop_last(), cn);
        let base = bases.last();
        if base.0@ == cn {
            if a.len() == 0 {
                (base.1@, b)
            } else {
                (a, base.1@)
            }
        } else {
            (a, b)
        }
    }
}

/// The related-card entries to record for one meld result: each front is
/// related to the other front and the result, and the result to both
/// fronts in text order.
pub open spec fn meld_entry(bases: Seq<(String, String)>, cn: Seq<char>) -> Seq<(Seq<char>, Seq<char>)> {
    let (a, b) = meld_fronts(bases, cn);
    let (lo, hi) = if crate::text::text_le(b, a) && a != b {
        (b, a)
    } else {
        (a, b)
    };
    seq![(a, b + "|"@ + cn), (b, a + "|"@ + cn), (cn, lo + "|"@ + hi)]
}

/// The related-card entries for all meld results, in order.
pub open spec fn meld_entries(melds: Seq<String>, bases: Seq<(String, String)>) -> Seq<(Seq<char>, Seq<char>)>
    decreases melds.len(),
{
    if melds.len() == 0 {
        Seq::<(Seq<char>, Seq<char>)>::empty()
    } else {
        meld_entries(melds.drop_last(), bases) + meld_entry(bases, melds.last()@)
    }
}

/// `a`, `|`, `b`.
fn piped(a: &String, b: &String) -> (r: String)
    ensures
        r@ == a@ + "|"@ + b@,
{
    let mut r = a.clone();
    push_str(&mut r, "|");
    push_str(&mut r, b.as_str());
    r
}

/// The related-card entries (card name, related cards) that link the cards
/// of each meld pair once a set's cards are stored: `melds` are the meld
/// results read, `bases` the fronts read, each as (result, front).
pub fn meld_links(melds: &Vec<String>, bases: &Vec<(String, String)>) -> (r: Vec<(String, String)>)
    ensures
        crate::field_filter::pairs_view(r@) == meld_entries(melds@, bases@),
{
    let mut r: Vec<(String, String)> = Vec::new();
    let mut i: usize = 0;
    while i < melds.len()
        invariant
            i <= melds@.len(),
            crate::field_filter::pairs_view(r@) == meld_entries(melds@.take(i as int), bases@),
        decreases melds.len() - i,
    {
        assert(melds@.take(i + 1).drop_last() =~= melds@.take(i as int));
        let cn = &melds[i];
        let mut a = String::new();
        let mut b = String::new();
        let mut j: usize = 0;
        while j < bases.len()
            invariant
                j <= bases@.len(),
                (a@, b@) == meld_fronts(bases@.take(j as int), cn@),
            decreases bases.len() - j,
        {
            assert(bases@.take(j + 1).drop_last() =~= bases@.take(j as int));
            if str_eq(bases[j].0.as_str(), cn.as_str()) {
                if crate::text::char_len(a.as_str()) == 0 {
                    a = bases[j].1.clone();
                } else {
                    b = bases[j].1.clone();
                }
            }
            j += 1;
        }
        assert(bases@.take(bases.len() as int) =~= bases@);
        let ghost before = crate::field_filter::pairs_view(r@);
        r.push((a.clone(), piped(&b, cn)));
        r.push((b.clone(), piped(&a, cn)));
        let swap = crate::text::text_le_exec(b.as_str(), a.as_str()) && !str_eq(b.as_str(), a.as_str());
        if swap {
            r.push((cn.clone(), piped(&b, &a)));
        } else {
            r.push((cn.clone(), piped(&a, &b)));
        }
        assert(crate::field_filter::pairs_view(r@) =~= before + meld_entry(bases@, cn@));
        i += 1;
    }
    assert(melds@.take(melds.len() as int) =~= melds@);
    r
}

} // verus!
