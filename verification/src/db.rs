//! The card database's record rules: how stored lists are split, how
//! legalities are written, how filter arguments become SQL conditions, and
//! the card filter that turns an omnibar query into SQL.
use vstd::prelude::*;
use crate::text::{
    chars_eq, chars_of, contains_spec, contains_str, join_spec, join_strings, replace_chars,
    replace_spec, split_chars, split_spec, split_string, str_eq, string_from, string_of, views,
};
use crate::util::{DefaultFilter, SortOrder};
use crate::omni::{clause_views, parse_omni, parse_omni_exec, strip_quotes};
use crate::text::{
    find_string, i32_text, int_text, lemma_sorted_text_same, push_chars, push_str, sort_strings,
    sorted_text, text_le, text_le_exec,
};
use crate::util::views::TagChange;

verus! {

/// A card named in an import file, with its tags as the file writes them
/// (`tag|tag`).
#[derive(Debug)]
pub struct ImportCard {
    pub name: String,
    pub tags: Option<String>,
}

/// Two import entries are the same card when their names agree.
impl PartialEq for ImportCard {
    fn eq(&self, other: &Self) -> (r: bool) {
        str_eq(self.name.as_str(), other.name.as_str())
    }
}

impl vstd::std_specs::cmp::PartialEqSpecImpl for ImportCard {
    open spec fn obeys_eq_spec() -> bool {
        true
    }

    open spec fn eq_spec(&self, other: &ImportCard) -> bool {
        self.name@ == other.name@
    }
}

/// A printed set as the set list describes it.
#[derive(Debug, Clone)]
pub struct CardSet {
    pub code: String,
    pub name: String,
    pub date: String,
    pub set_type: String,
}

/// The default mana cost of a card record that has none.
pub fn zero() -> (r: String)
    ensures
        r@ == "0"@,
{
    string_from("0")
}

/// The pieces of a stored `a|b|c` list.
pub fn stovs(ss: String) -> (vs: Vec<String>)
    ensures
        views(vs@) == split_spec(ss@, '|'),
{
    split_string(ss.as_str(), '|')
}

/// The first character of a piece, or `'\0'` for an empty one.
pub open spec fn first_or_nul(p: Seq<char>) -> char {
    if p.len() > 0 {
        p[0]
    } else {
        '\0'
    }
}

/// The first character of each piece of a stored `a|b|c` list.
pub fn stovch(sch: String) -> (vch: Vec<char>)
    ensures
        vch@ == split_spec(sch@, '|').map_values(|p: Seq<char>| first_or_nul(p)),
{
    let chars = chars_of(sch.as_str());
    let pieces = split_chars(&chars, '|');
    let ghost pv = pieces@.map_values(|p: Vec<char>| p@);
    let mut vch: Vec<char> = Vec::new();
    let mut i: usize = 0;
    while i < pieces.len()
        invariant
            i <= pieces@.len(),
            pv == pieces@.map_values(|p: Vec<char>| p@),
            pv == split_spec(sch@, '|'),
            vch@ == pv.take(i as int).map_values(|p: Seq<char>| first_or_nul(p)),
        decreases pieces.len() - i,
    {
        let c = if pieces[i].len() > 0 {
            pieces[i][0]
        } else {
            '\0'
        };
        vch.push(c);
        assert(vch@ =~= pv.take(i + 1).map_values(|p: Seq<char>| first_or_nul(p)));
        i += 1;
    }
    assert(pv.take(pieces@.len() as int) =~= pv);
    vch
}

proof fn lemma_join_push(parts: Seq<Seq<char>>, sep: Seq<char>, c: char)
    requires
        parts.len() >= 1,
    ensures
        join_spec(parts.update(parts.len() - 1, parts.last().push(c)), sep) == join_spec(
            parts,
            sep,
        ).push(c),
{
    let up = parts.update(parts.len() - 1, parts.last().push(c));
    if parts.len() == 1 {
        assert(up[0] == parts[0].push(c));
    } else {
        assert(up.drop_last() =~= parts.drop_last());
        assert(up.last() == parts.last().push(c));
        assert(join_spec(up, sep) == join_spec(up.drop_last(), sep) + sep + up.last());
        assert(join_spec(parts, sep) == join_spec(parts.drop_last(), sep) + sep + parts.last());
        assert(join_spec(up, sep) =~= join_spec(parts, sep).push(c));
    }
}

/// Splitting at a separator and joining the pieces with it gives the text
/// back.
pub proof fn lemma_split_join(s: Seq<char>, sep: char)
    ensures
        join_spec(split_spec(s, sep), seq![sep]) == s,
    decreases s.len(),
{
    if s.len() == 0 {
        assert(split_spec(s, sep) == seq![Seq::<char>::empty()]);
        assert(join_spec(split_spec(s, sep), seq![sep]) == Seq::<char>::empty());
    } else {
        let init = split_spec(s.drop_last(), sep);
        lemma_split_join(s.drop_last(), sep);
        lemma_split_len(s.drop_last(), sep);
        if s.last() == sep {
            let parts = init.push(Seq::<char>::empty());
            assert(parts.drop_last() =~= init);
            assert(join_spec(parts, seq![sep]) == join_spec(init, seq![sep]) + seq![sep]
                + Seq::<char>::empty());
            assert(s =~= s.drop_last() + seq![sep] + Seq::<char>::empty());
        } else {
            lemma_join_push(init, seq![sep], s.last());
            assert(s =~= s.drop_last().push(s.last()));
        }
    }
}

/// Splitting always yields at least one piece.
pub proof fn lemma_split_len(s: Seq<char>, sep: char)
    ensures
        split_spec(s, sep).len() >= 1,
    decreases s.len(),
{
    if s.len() > 0 {
        lemma_split_len(s.drop_last(), sep);
    }
}

/// Which legality entries count as allowed: neither empty nor `Banned`.
pub open spec fn is_legal(status: Seq<char>) -> bool {
    status != Seq::<char>::empty() && status != "Banned"@
}

/// A card's legality in each format, as the card data gives it.
#[derive(Debug, Clone)]
pub struct Legalities {
    pub brawl: String,
    pub commander: String,
    pub duel: String,
    pub future: String,
    pub frontier: String,
    pub historic: String,
    pub legacy: String,
    pub modern: String,
    pub pauper: String,
    pub penny: String,
    pub pioneer: String,
    pub standard: String,
    pub vintage: String,
}

impl Legalities {
    /// Every format unknown.
    pub open spec fn all_empty(self) -> bool {
        &&& self.brawl@ == Seq::<char>::empty()
        &&& self.commander@ == Seq::<char>::empty()
        &&& self.duel@ == Seq::<char>::empty()
        &&& self.future@ == Seq::<char>::empty()
        &&& self.frontier@ == Seq::<char>::empty()
        &&& self.historic@ == Seq::<char>::empty()
        &&& self.legacy@ == Seq::<char>::empty()
        &&& self.modern@ == Seq::<char>::empty()
        &&& self.pauper@ == Seq::<char>::empty()
        &&& self.penny@ == Seq::<char>::empty()
        &&& self.pioneer@ == Seq::<char>::empty()
        &&& self.standard@ == Seq::<char>::empty()
        &&& self.vintage@ == Seq::<char>::empty()
    }

    /// The formats the stored legality list names, in the order it writes
    /// them.
    pub open spec fn listed(self) -> Seq<Seq<char>> {
        (if is_legal(self.brawl@) {
            seq!["brawl"@]
        } else {
            Seq::<Seq<char>>::empty()
        }) + (if is_legal(self.commander@) {
            seq!["commander"@]
        } else {
            Seq::<Seq<char>>::empty()
        }) + (if is_legal(self.modern@) {
            seq!["modern"@]
        } else {
            Seq::<Seq<char>>::empty()
        }) + (if is_legal(self.standard@) {
            seq!["standard"@]
        } else {
            Seq::<Seq<char>>::empty()
        })
    }

    /// Legalities read back from a stored list: only commander is known.
    pub fn from(s: String) -> (l: Legalities)
        ensures
            contains_spec(s@, "commander"@) ==> l.commander@ == "Allowed"@,
            !contains_spec(s@, "commander"@) ==> l.commander@ == Seq::<char>::empty(),
            (Legalities { commander: l.brawl, ..l }).all_empty(),
    {
        let mut l = Legalities::default();
        if contains_str(s.as_str(), "commander") {
            l.commander = string_from("Allowed");
        }
        l
    }

    /// The stored form: the allowed formats among brawl, commander, modern
    /// and standard, joined with `|`.
    pub fn to_string(&self) -> (r: String)
        ensures
            r@ == join_spec(self.listed(), "|"@),
    {
        let mut vs: Vec<String> = Vec::new();
        if allowed(&self.brawl) {
            vs.push(string_from("brawl"));
        }
        if allowed(&self.commander) {
            vs.push(string_from("commander"));
        }
        if allowed(&self.modern) {
            vs.push(string_from("modern"));
        }
        if allowed(&self.standard) {
            vs.push(string_from("standard"));
        }
        assert(views(vs@) =~= self.listed());
        join_strings(&vs, "|")
    }
}

impl Default for Legalities {
    fn default() -> (r: Self)
        ensures
            r.all_empty(),
    {
        Legalities {
            brawl: String::new(),
            commander: String::new(),
            duel: String::new(),
            future: String::new(),
            frontier: String::new(),
            historic: String::new(),
            legacy: String::new(),
            modern: String::new(),
            pauper: String::new(),
            penny: String::new(),
            pioneer: String::new(),
            standard: String::new(),
            vintage: String::new(),
        }
    }
}

/// Whether a legality entry allows the card.
fn allowed(status: &String) -> (r: bool)
    ensures
        r == is_legal(status@),
{
    let empty = String::new();
    !(str_eq(status.as_str(), empty.as_str()) || str_eq(status.as_str(), "Banned"))
}

/// The kind of condition `parse_args` writes for each listed item.
#[derive(Debug, Copy, Clone, PartialEq, Eq, Structural)]
pub enum ParseMode {
    Text,
    Tags,
    Color,
}

/// The condition template of a mode, with `{:col}`, `{:req}` and `{:item}`
/// to be filled in.
pub open spec fn template(mode: ParseMode) -> Seq<char> {
    match mode {
        ParseMode::Text => "{:col} {:req} \"%{:item}%\""@,
        ParseMode::Tags => "{:col} {:req} '\\|?{:item}(?:$|\\|)'"@,
        ParseMode::Color => "instr({:col}, '{:item}') {:req} 0"@,
    }
}

/// A template with its holes filled, one `str::replace` after another.
pub open spec fn fill_spec(t: Seq<char>, col: Seq<char>, req: Seq<char>, item: Seq<char>) -> Seq<
    char,
> {
    replace_spec(replace_spec(replace_spec(t, "{:col}"@, col), "{:req}"@, req), "{:item}"@, item)
}

/// The comparison a mode uses, negated or not.
pub open spec fn requirement(mode: ParseMode, negated: bool) -> Seq<char> {
    match mode {
        ParseMode::Text => if negated {
            "NOT LIKE"@
        } else {
            "LIKE"@
        },
        ParseMode::Tags => if negated {
            "NOT REGEXP"@
        } else {
            "REGEXP"@
        },
        ParseMode::Color => if negated {
            "="@
        } else {
            ">"@
        },
    }
}

/// The text in upper case, as `str::to_uppercase` gives it (Unicode case
/// mapping, which may change the length).
pub uninterp spec fn uppercase(s: Seq<char>) -> Seq<char>;

/// Upper-cases `s` with `str::to_uppercase`.
#[verifier::external_body]
fn to_upper(s: &str) -> (r: String)
    ensures
        r@ == uppercase(s@),
{
    s.to_uppercase()
}

/// A group starts with a one-byte character: `str::get(0..1)` finds it.
pub open spec fn leads_with_ascii(g: Seq<char>) -> bool {
    g.len() > 0 && (g[0] as u32) < 128
}

/// The items of a group: `&`-separated words, or single characters of the
/// upper-cased group for colors.
pub open spec fn group_items(mode: ParseMode, rest: Seq<char>) -> Seq<Seq<char>> {
    match mode {
        ParseMode::Color => uppercase(rest).map_values(|c: char| seq![c]),
        _ => split_spec(rest, '&'),
    }
}

/// The conditions of one `|`-separated group, or `None` when the group is
/// skipped (empty, or not led by a one-byte character).
pub open spec fn group_spec(col: Seq<char>, mode: ParseMode, g: Seq<char>) -> Option<Seq<char>> {
    if mode == ParseMode::Tags && g == "!"@ {
        Some("tags IS NULL"@)
    } else if !leads_with_ascii(g) {
        None
    } else {
        let negated = g[0] == '!';
        let rest = if negated {
            g.drop_first()
        } else {
            g
        };
        let conds = group_items(mode, rest).map_values(
            |it: Seq<char>| fill_spec(template(mode), col, requirement(mode, negated), it),
        );
        let all = if mode == ParseMode::Tags {
            seq!["tags IS NOT NULL"@] + conds
        } else {
            conds
        };
        Some("("@ + join_spec(all, " AND "@) + ")"@)
    }
}

/// The conditions of the groups that are not skipped, in order.
pub open spec fn kept_groups(col: Seq<char>, mode: ParseMode, gs: Seq<Seq<char>>) -> Seq<Seq<char>>
    decreases gs.len(),
{
    if gs.len() == 0 {
        Seq::<Seq<char>>::empty()
    } else {
        let init = kept_groups(col, mode, gs.drop_last());
        match group_spec(col, mode, gs.last()) {
            Some(c) => init.push(c),
            None => init,
        }
    }
}

/// What `parse_args` writes: the kept groups, ORed, after `AND`.
pub open spec fn parse_args_spec(col: Seq<char>, mode: ParseMode, items: Seq<char>) -> Seq<char> {
    "AND ("@ + join_spec(kept_groups(col, mode, split_spec(items, '|')), " OR "@) + ")"@
}

/// Fills the holes of a template.
fn fill(t: &str, col: &str, req: &str, item: &[char]) -> (r: String)
    ensures
        r@ == fill_spec(t@, col@, req@, item@),
{
    proof {
        reveal_strlit("{:col}");
        reveal_strlit("{:req}");
        reveal_strlit("{:item}");
    }
    let hole_col = chars_of("{:col}");
    let hole_req = chars_of("{:req}");
    let hole_item = chars_of("{:item}");
    let tc = chars_of(t);
    let cc = chars_of(col);
    let rc = chars_of(req);
    let a = replace_chars(&tc, &hole_col, &cc);
    let b = replace_chars(&a, &hole_req, &rc);
    let c = replace_chars(&b, &hole_item, item);
    string_of(&c)
}

fn template_of(mode: ParseMode) -> (r: &'static str)
    ensures
        r@ == template(mode),
{
    match mode {
        ParseMode::Text => "{:col} {:req} \"%{:item}%\"",
        ParseMode::Tags => "{:col} {:req} '\\|?{:item}(?:$|\\|)'",
        ParseMode::Color => "instr({:col}, '{:item}') {:req} 0",
    }
}

fn requirement_of(mode: ParseMode, negated: bool) -> (r: &'static str)
    ensures
        r@ == requirement(mode, negated),
{
    match mode {
        ParseMode::Text => if negated {
            "NOT LIKE"
        } else {
            "LIKE"
        },
        ParseMode::Tags => if negated {
            "NOT REGEXP"
        } else {
            "REGEXP"
        },
        ParseMode::Color => if negated {
            "="
        } else {
            ">"
        },
    }
}

/// The items of a group as character vectors.
fn items_of(mode: ParseMode, rest: &[char]) -> (r: Vec<Vec<char>>)
    ensures
        r@.map_values(|p: Vec<char>| p@) == group_items(mode, rest@),
{
    match mode {
        ParseMode::Color => {
            let up = to_upper(string_of(rest).as_str());
            let uc = chars_of(up.as_str());
            let mut r: Vec<Vec<char>> = Vec::new();
            let mut i: usize = 0;
            while i < uc.len()
                invariant
                    i <= uc@.len(),
                    uc@ == uppercase(rest@),
                    r@.map_values(|p: Vec<char>| p@) == uc@.take(i as int).map_values(
                        |c: char| seq![c],
                    ),
                decreases uc.len() - i,
            {
                let mut one: Vec<char> = Vec::new();
                one.push(uc[i]);
                let ghost before = r@;
                r.push(one);
                assert(r@ =~= before.push(one));
                assert(one@ =~= seq![uc@[i as int]]);
                assert(r@.map_values(|p: Vec<char>| p@) =~= before.map_values(|p: Vec<char>| p@).push(one@));
                assert(uc@.take(i + 1).map_values(|c: char| seq![c]) =~= uc@.take(i as int).map_values(
                    |c: char| seq![c],
                ).push(seq![uc@[i as int]]));
                assert(r@.map_values(|p: Vec<char>| p@) =~= uc@.take(i + 1).map_values(
                    |c: char| seq![c],
                ));
                i += 1;
            }
            assert(uc@.take(uc@.len() as int) =~= uc@);
            r
        },
        _ => split_chars(rest, '&'),
    }
}

/// The conditions of one group, or `None` when it is skipped.
fn group_conditions(column: &str, mode: ParseMode, g: &[char]) -> (r: Option<String>)
    ensures
        r is Some <==> group_spec(column@, mode, g@) is Some,
        r is Some ==> r->0@ == group_spec(column@, mode, g@)->0,
{
    proof {
        reveal_strlit("!");
    }
    let bang = chars_of("!");
    if mode == ParseMode::Tags && chars_eq(g, &bang) {
        return Some(string_from("tags IS NULL"));
    }
    if g.len() == 0 || (g[0] as u32) >= 128 {
        return None;
    }
    let negated = g[0] == '!';
    let mut rest: Vec<char> = Vec::new();
    let mut k: usize = if negated {
        1
    } else {
        0
    };
    let start = k;
    while k < g.len()
        invariant
            start <= k <= g@.len(),
            start == (if negated { 1int } else { 0int }),
            rest@ == g@.subrange(start as int, k as int),
        decreases g.len() - k,
    {
        rest.push(g[k]);
        assert(rest@ =~= g@.subrange(start as int, k + 1));
        k += 1;
    }
    assert(negated ==> rest@ =~= g@.drop_first());
    assert(!negated ==> rest@ =~= g@);
    let items = items_of(mode, &rest);
    let ghost iv = items@.map_values(|p: Vec<char>| p@);
    let t = template_of(mode);
    let req = requirement_of(mode, negated);
    let mut conds: Vec<String> = Vec::new();
    if mode == ParseMode::Tags {
        conds.push(string_from("tags IS NOT NULL"));
    }
    let ghost lead = views(conds@);
    let mut i: usize = 0;
    while i < items.len()
        invariant
            i <= items@.len(),
            iv == items@.map_values(|p: Vec<char>| p@),
            t@ == template(mode),
            req@ == requirement(mode, negated),
            views(conds@) == lead + iv.take(i as int).map_values(
                |it: Seq<char>| fill_spec(template(mode), column@, requirement(mode, negated), it),
            ),
        decreases items.len() - i,
    {
        let c = fill(t, column, req, items[i].as_slice());
        let ghost before = conds@;
        conds.push(c);
        assert(conds@ =~= before.push(c));
        assert(views(conds@) =~= views(before).push(c@));
        assert(iv.take(i + 1).map_values(
            |it: Seq<char>| fill_spec(template(mode), column@, requirement(mode, negated), it),
        ) =~= iv.take(i as int).map_values(
            |it: Seq<char>| fill_spec(template(mode), column@, requirement(mode, negated), it),
        ).push(fill_spec(template(mode), column@, requirement(mode, negated), iv[i as int])));
        i += 1;
    }
    assert(iv.take(items@.len() as int) =~= iv);
    assert(mode == ParseMode::Tags ==> lead =~= seq!["tags IS NOT NULL"@]);
    assert(mode != ParseMode::Tags ==> lead =~= Seq::<Seq<char>>::empty());
    assert(mode != ParseMode::Tags ==> views(conds@) =~= iv.map_values(
        |it: Seq<char>| fill_spec(template(mode), column@, requirement(mode, negated), it),
    ));
    let joined = join_strings(&conds, " AND ");
    let mut out = string_from("(");
    let jc = chars_of(joined.as_str());
    crate::text::push_chars(&mut out, &jc);
    crate::text::push_str(&mut out, ")");
    Some(out)
}

/// SQL conditions for a filter argument: `|` separates alternatives, `&`
/// separates required items, and a leading `!` negates a group.
pub fn parse_args(column: &str, mode: ParseMode, items: &str) -> (r: String)
    ensures
        r@ == parse_args_spec(column@, mode, items@),
{
    let ic = chars_of(items);
    let groups = split_chars(&ic, '|');
    let ghost gv = groups@.map_values(|p: Vec<char>| p@);
    let mut v_or: Vec<String> = Vec::new();
    let mut i: usize = 0;
    while i < groups.len()
        invariant
            i <= groups@.len(),
            gv == groups@.map_values(|p: Vec<char>| p@),
            gv == split_spec(items@, '|'),
            views(v_or@) == kept_groups(column@, mode, gv.take(i as int)),
        decreases groups.len() - i,
    {
        assert(gv.take(i + 1).drop_last() =~= gv.take(i as int));
        assert(gv.take(i + 1).last() == gv[i as int]);
        match group_conditions(column, mode, groups[i].as_slice()) {
            Some(c) => {
                let ghost before = v_or@;
                v_or.push(c);
                assert(v_or@ =~= before.push(c));
                assert(views(v_or@) =~= views(before).push(c@));
            },
            None => {},
        }
        i += 1;
    }
    assert(gv.take(groups@.len() as int) =~= gv);
    let joined = join_strings(&v_or, " OR ");
    let mut out = string_from("AND (");
    let jc = chars_of(joined.as_str());
    crate::text::push_chars(&mut out, &jc);
    crate::text::push_str(&mut out, ")");
    out
}

/// What a card list is filtered by: the deck, its colors, the field a bare
/// word searches, and the order of the results.
pub struct CardFilter {
    pub did: i32,
    pub color: String,
    pub df: DefaultFilter,
    pub so: SortOrder,
}

/// The ordering clause of a sort order.
pub open spec fn ordering_sql(so: SortOrder) -> Seq<char> {
    match so {
        SortOrder::NameAsc => "ORDER BY name ASC;"@,
        SortOrder::NameDesc => "ORDER BY name DESC;"@,
        SortOrder::CmcAsc => "ORDER BY cmc ASC;"@,
        SortOrder::CmcDesc => "ORDER BY cmc DESC;"@,
    }
}

/// The letters of `base` that `color` does not hold, in order.
pub open spec fn absent_letters(base: Seq<char>, color: Seq<char>) -> Seq<char>
    decreases base.len(),
{
    if base.len() == 0 {
        base
    } else if color.contains(base.last()) {
        absent_letters(base.drop_last(), color)
    } else {
        absent_letters(base.drop_last(), color).push(base.last())
    }
}

/// How a query starts: the deck's cards, or (for a database search) every
/// card, marked when in the deck, whose color identity fits the deck.
pub open spec fn initial_sql(did: i32, color: Seq<char>, general: bool) -> Seq<char> {
    if general {
        let missing = absent_letters("WUBRG"@, color);
        let ci = if missing.len() == 0 {
            "1=1"@
        } else {
            "color_identity REGEXP '^[^"@ + missing + "]*$'"@
        };
        "\nLEFT OUTER JOIN deck_contents\nON cards.name = deck_contents.card_name\nAND deck_contents.deck = "@
            + int_text(did as int) + "\nWHERE "@ + ci
    } else {
        "\nINNER JOIN deck_contents\nON cards.name = deck_contents.card_name\nWHERE deck_contents.deck = "@
            + int_text(did as int)
    }
}

/// The filters and ordering after applying the parsed clauses in order: a
/// condition is added, a sort replaces the ordering.
pub open spec fn fold_clauses(fs: Seq<(bool, Seq<char>)>, ordering: Seq<char>) -> (Seq<char>, Seq<char>)
    decreases fs.len(),
{
    if fs.len() == 0 {
        (Seq::<char>::empty(), ordering)
    } else {
        let (f, o) = fold_clauses(fs.drop_last(), ordering);
        if fs.last().0 {
            (f, fs.last().1)
        } else {
            (f + "\nAND ("@ + fs.last().1 + ")"@, o)
        }
    }
}

/// A query's clauses act in order: a later sort replaces the ordering that
/// came before and adds no condition; a later condition is added after the
/// earlier ones, in parentheses, and leaves the ordering as it was.
pub proof fn lemma_fold_clauses_push(fs: Seq<(bool, Seq<char>)>, ordering: Seq<char>, c: Seq<char>)
    ensures
        fold_clauses(fs.push((true, c)), ordering) == (fold_clauses(fs, ordering).0, c),
        fold_clauses(fs.push((false, c)), ordering) == (fold_clauses(fs, ordering).0 + "\nAND ("@
            + c + ")"@, fold_clauses(fs, ordering).1),
{
    assert(fs.push((true, c)).drop_last() =~= fs);
    assert(fs.push((false, c)).drop_last() =~= fs);
}

/// The column a bare search looks in.
pub open spec fn default_column(df: DefaultFilter) -> Seq<char> {
    match df {
        DefaultFilter::Name => "name"@,
        DefaultFilter::Text => "card_text"@,
    }
}

/// The filter for a query that does not parse: the whole text, without
/// quotes, searched in the default column, unless it starts with `/` (a
/// command being typed).
pub open spec fn fallback_sql(df: DefaultFilter, omni: Seq<char>) -> Seq<char> {
    if omni.len() > 0 && omni[0] == '/' {
        Seq::<char>::empty()
    } else {
        "\nAND "@ + default_column(df) + " LIKE \"%"@ + strip_quotes(omni) + "%\""@
    }
}

/// The SQL a card filter writes for a query.
pub open spec fn query_spec(
    did: i32,
    color: Seq<char>,
    df: DefaultFilter,
    so: SortOrder,
    general: bool,
    omni: Seq<char>,
) -> Seq<char> {
    let (filters, ordering) = match parse_omni(omni) {
        Some(fs) => fold_clauses(fs, ordering_sql(so)),
        None => (fallback_sql(df, omni), ordering_sql(so)),
    };
    "\n"@ + initial_sql(did, color, general) + filters + "\n"@ + ordering
}

/// The letters left out of a colour are exactly those of the base it does
/// not hold.
pub proof fn lemma_absent_letters(base: Seq<char>, color: Seq<char>, x: char)
    ensures
        absent_letters(base, color).contains(x) <==> base.contains(x) && !color.contains(x),
    decreases base.len(),
{
    if base.len() > 0 {
        let init = base.drop_last();
        let last = base.last();
        let r0 = absent_letters(init, color);
        let r = absent_letters(base, color);
        lemma_absent_letters(init, color, x);
        assert(init.contains(x) ==> base.contains(x)) by {
            if init.contains(x) {
                let i = choose|i: int| 0 <= i < init.len() && init[i] == x;
                assert(base[i] == x);
            }
        }
        assert(base.contains(x) ==> init.contains(x) || x == last) by {
            if base.contains(x) {
                let i = choose|i: int| 0 <= i < base.len() && base[i] == x;
                if i < init.len() {
                    assert(init[i] == x);
                }
            }
        }
        assert(base[base.len() - 1] == last);
        if !color.contains(last) {
            assert(r == r0.push(last));
            assert(r0.contains(x) ==> r.contains(x)) by {
                if r0.contains(x) {
                    let i = choose|i: int| 0 <= i < r0.len() && r0[i] == x;
                    assert(r[i] == x);
                }
            }
            assert(r.contains(x) ==> r0.contains(x) || x == last) by {
                if r.contains(x) {
                    let i = choose|i: int| 0 <= i < r.len() && r[i] == x;
                    if i < r0.len() {
                        assert(r0[i] == x);
                    }
                }
            }
            assert(r[r0.len() as int] == last);
        }
    }
}

/// A database search of a deck keeps to the deck's colours: its query opens
/// by excluding every card whose colour identity holds one of the five
/// colours the deck lacks, and the omnibar only adds conditions after that.
pub proof fn lemma_general_query_colors(
    did: i32,
    color: Seq<char>,
    df: DefaultFilter,
    so: SortOrder,
    omni: Seq<char>,
    x: char,
)
    ensures
        query_spec(did, color, df, so, true, omni).take(("\n"@ + initial_sql(did, color, true)).len() as int)
            == "\n"@ + initial_sql(did, color, true),
        absent_letters("WUBRG"@, color).contains(x) <==> "WUBRG"@.contains(x) && !color.contains(x),
{
    let pre = "\n"@ + initial_sql(did, color, true);
    let (filters, ordering) = match parse_omni(omni) {
        Some(fs) => fold_clauses(fs, ordering_sql(so)),
        None => (fallback_sql(df, omni), ordering_sql(so)),
    };
    assert(query_spec(did, color, df, so, true, omni) == pre + (filters + "\n"@ + ordering));
    assert((pre + (filters + "\n"@ + ordering)).take(pre.len() as int) =~= pre);
    lemma_absent_letters("WUBRG"@, color, x);
}

impl Default for CardFilter {
    fn default() -> (r: Self)
        ensures
            r.did == 0,
            r.color@ == Seq::<char>::empty(),
            r.df == DefaultFilter::Name,
            r.so == SortOrder::NameAsc,
    {
        CardFilter {
            did: 0,
            color: String::new(),
            df: DefaultFilter::Name,
            so: SortOrder::NameAsc,
        }
    }
}

impl CardFilter {
    /// A filter for no deck, searching names in name order.
    pub fn new() -> (r: CardFilter)
        ensures
            r.did == 0,
            r.color@ == Seq::<char>::empty(),
            r.df == DefaultFilter::Name,
            r.so == SortOrder::NameAsc,
    {
        CardFilter::default()
    }

    /// A filter for a deck of the given colors.
    pub fn from(did: i32, color: &str, default_filter: DefaultFilter, sort_order: SortOrder) -> (r:
        CardFilter)
        ensures
            r.did == did,
            r.color@ == color@,
            r.df == default_filter,
            r.so == sort_order,
    {
        CardFilter { did, color: string_from(color), df: default_filter, so: sort_order }
    }

    /// The query that lists the deck's cards (`general` false) or searches
    /// the database for cards the deck may hold (`general` true), filtered by
    /// the omnibar text `omni` and ordered by the filter's sort order or by
    /// the query's last sort field.
    pub fn make_query(&self, general: bool, omni: &str) -> (r: String)
        ensures
            r@ == query_spec(self.did, self.color@, self.df, self.so, general, omni@),
    {
        let initial = initial_query(self.did, self.color.as_str(), general);
        let mut ordering = chars_of(ordering_text(self.so));
        let mut filters: Vec<char> = Vec::new();
        let oc = chars_of(omni);
        match parse_omni_exec(&oc) {
            Some(fs) => {
                let ghost fv = clause_views(fs@);
                let ghost o0 = ordering@;
                let mut i: usize = 0;
                while i < fs.len()
                    invariant
                        i <= fs@.len(),
                        fv == clause_views(fs@),
                        o0 == ordering_sql(self.so),
                        (filters@, ordering@) == fold_clauses(fv.take(i as int), o0),
                    decreases fs.len() - i,
                {
                    assert(fv.take(i + 1).drop_last() =~= fv.take(i as int));
                    assert(fv.take(i + 1).last() == fv[i as int]);
                    if fs[i].0 {
                        ordering = clone_chars(&fs[i].1);
                    } else {
                        let ghost before = filters@;
                        let open = chars_of("\nAND (");
                        filters.extend_from_slice(open.as_slice());
                        filters.extend_from_slice(fs[i].1.as_slice());
                        filters.push(')');
                        proof {
                            reveal_strlit(")");
                        }
                        assert(filters@ =~= before + "\nAND ("@ + fv[i as int].1 + ")"@);
                    }
                    i += 1;
                }
                assert(fv.take(fs@.len() as int) =~= fv);
            },
            None => {
                if !(oc.len() > 0 && oc[0] == '/') {
                    let col = chars_of(default_column_text(self.df));
                    let stripped = crate::omni::strip_quotes_exec(&oc);
                    let mut f = chars_of("\nAND ");
                    f.extend_from_slice(col.as_slice());
                    let mid = chars_of(" LIKE \"%");
                    f.extend_from_slice(mid.as_slice());
                    f.extend_from_slice(stripped.as_slice());
                    let close = chars_of("%\"");
                    f.extend_from_slice(close.as_slice());
                    filters = f;
                }
            },
        }
        let mut r = string_from("\n");
        push_chars(&mut r, &initial);
        push_chars(&mut r, &filters);
        push_str(&mut r, "\n");
        push_chars(&mut r, &ordering);
        r
    }
}

/// A copy of a character vector.
fn clone_chars(v: &Vec<char>) -> (r: Vec<char>)
    ensures
        r@ == v@,
{
    let mut r: Vec<char> = Vec::new();
    r.extend_from_slice(v.as_slice());
    r
}

fn ordering_text(so: SortOrder) -> (r: &'static str)
    ensures
        r@ == ordering_sql(so),
{
    match so {
        SortOrder::NameAsc => "ORDER BY name ASC;",
        SortOrder::NameDesc => "ORDER BY name DESC;",
        SortOrder::CmcAsc => "ORDER BY cmc ASC;",
        SortOrder::CmcDesc => "ORDER BY cmc DESC;",
    }
}

fn default_column_text(df: DefaultFilter) -> (r: &'static str)
    ensures
        r@ == default_column(df),
{
    match df {
        DefaultFilter::Name => "name",
        DefaultFilter::Text => "card_text",
    }
}

/// The letters of `WUBRG` that `color` does not hold.
fn absent_letters_exec(color: &str) -> (r: Vec<char>)
    ensures
        r@ == absent_letters("WUBRG"@, color@),
{
    let base = chars_of("WUBRG");
    let cc = chars_of(color);
    let mut r: Vec<char> = Vec::new();
    let mut i: usize = 0;
    while i < base.len()
        invariant
            i <= base@.len(),
            base@ == "WUBRG"@,
            cc@ == color@,
            r@ == absent_letters(base@.take(i as int), color@),
        decreases base.len() - i,
    {
        assert(base@.take(i + 1).drop_last() =~= base@.take(i as int));
        assert(base@.take(i + 1).last() == base@[i as int]);
        if !holds_char(&cc, base[i]) {
            r.push(base[i]);
        }
        i += 1;
    }
    assert(base@.take(base@.len() as int) =~= base@);
    r
}

/// Whether `c` is one of `v`.
fn holds_char(v: &Vec<char>, c: char) -> (r: bool)
    ensures
        r == v@.contains(c),
{
    let mut i: usize = 0;
    while i < v.len()
        invariant
            i <= v@.len(),
            forall|k: int| 0 <= k < i ==> v@[k] != c,
        decreases v.len() - i,
    {
        if v[i] == c {
            return true;
        }
        i += 1;
    }
    false
}

/// How a query starts.
fn initial_query(did: i32, color: &str, general: bool) -> (r: Vec<char>)
    ensures
        r@ == initial_sql(did, color@, general),
{
    let d = i32_text(did);
    if general {
        let missing = absent_letters_exec(color);
        let ci = if missing.len() == 0 {
            chars_of("1=1")
        } else {
            let mut c = chars_of("color_identity REGEXP '^[^");
            c.extend_from_slice(missing.as_slice());
            let close = chars_of("]*$'");
            c.extend_from_slice(close.as_slice());
            c
        };
        let mut r = chars_of(
            "\nLEFT OUTER JOIN deck_contents\nON cards.name = deck_contents.card_name\nAND deck_contents.deck = ",
        );
        r.extend_from_slice(d.as_slice());
        let w = chars_of("\nWHERE ");
        r.extend_from_slice(w.as_slice());
        r.extend_from_slice(ci.as_slice());
        r
    } else {
        let mut r = chars_of(
            "\nINNER JOIN deck_contents\nON cards.name = deck_contents.card_name\nWHERE deck_contents.deck = ",
        );
        r.extend_from_slice(d.as_slice());
        r
    }
}

/// How a card's tags are stored: joined with `|`, or nothing when there are
/// none.
pub open spec fn stored_tags(tags: Seq<Seq<char>>) -> Option<Seq<char>> {
    if tags.len() == 0 {
        None
    } else {
        Some(join_spec(tags, "|"@))
    }
}

/// `s` without its first copy of `t`.
pub open spec fn remove_first(s: Seq<Seq<char>>, t: Seq<char>) -> Seq<Seq<char>>
    decreases s.len(),
{
    if s.len() == 0 {
        s
    } else if s[0] == t {
        s.drop_first()
    } else {
        seq![s[0]] + remove_first(s.drop_first(), t)
    }
}

/// A card's tags after the tag `t` is toggled: its first copy removed if it
/// has one, else `t` added and the tags sorted.
pub open spec fn toggled_tags(s: Seq<Seq<char>>, t: Seq<char>) -> Seq<Seq<char>> {
    if s.contains(t) {
        remove_first(s, t)
    } else {
        sorted_text(s.push(t))
    }
}

pub(crate) proof fn lemma_remove_first_at(s: Seq<Seq<char>>, t: Seq<char>, i: int)
    requires
        0 <= i < s.len(),
        s[i] == t,
        forall|j: int| 0 <= j < i ==> s[j] != t,
    ensures
        remove_first(s, t) == s.remove(i),
    decreases i,
{
    if i == 0 {
        assert(s.drop_first() =~= s.remove(0));
    } else {
        lemma_remove_first_at(s.drop_first(), t, i - 1);
        assert(seq![s[0]] + s.drop_first().remove(i - 1) =~= s.remove(i));
    }
}

proof fn lemma_remove_first_multiset(s: Seq<Seq<char>>, t: Seq<char>)
    requires
        s.contains(t),
    ensures
        remove_first(s, t).to_multiset() == s.to_multiset().remove(t),
        remove_first(s, t).len() == s.len() - 1,
    decreases s.len(),
{
    broadcast use vstd::seq_lib::group_to_multiset_ensures;
    if s[0] == t {
        assert(s =~= seq![s[0]] + s.drop_first());
        assert(s.to_multiset() =~= s.drop_first().to_multiset().insert(t)) by {
            vstd::seq_lib::lemma_multiset_commutative(seq![s[0]], s.drop_first());
            assert(seq![s[0]].to_multiset() =~= vstd::multiset::Multiset::empty().insert(s[0]));
        }
    } else {
        let k = choose|k: int| 0 <= k < s.len() && s[k] == t;
        assert(s.drop_first()[k - 1] == t);
        lemma_remove_first_multiset(s.drop_first(), t);
        assert(s =~= seq![s[0]] + s.drop_first());
        vstd::seq_lib::lemma_multiset_commutative(seq![s[0]], s.drop_first());
        vstd::seq_lib::lemma_multiset_commutative(seq![s[0]], remove_first(s.drop_first(), t));
        assert(seq![s[0]].to_multiset() =~= vstd::multiset::Multiset::empty().insert(s[0]));
        assert(s.to_multiset() =~= s.drop_first().to_multiset().insert(s[0]));
        assert(remove_first(s, t).to_multiset() =~= remove_first(s.drop_first(), t).to_multiset().insert(s[0]));
    }
}

/// Toggling the same tag twice leaves a card with the tags it had, counted
/// with multiplicity, when it held that tag at most once.
pub proof fn lemma_toggle_twice(s: Seq<Seq<char>>, t: Seq<char>)
    requires
        s.to_multiset().count(t) <= 1,
    ensures
        toggled_tags(toggled_tags(s, t), t).to_multiset() == s.to_multiset(),
{
    broadcast use vstd::seq_lib::group_to_multiset_ensures;
    if s.contains(t) {
        lemma_remove_first_multiset(s, t);
        let once = remove_first(s, t);
        assert(!once.contains(t)) by {
            assert(once.to_multiset().count(t) == 0);
        }
        lemma_sorted_text_same(once.push(t));
        assert(toggled_tags(once, t) == sorted_text(once.push(t)));
        assert(sorted_text(once.push(t)).to_multiset() =~= once.to_multiset().insert(t));
        assert(s.to_multiset() =~= once.to_multiset().insert(t));
    } else {
        lemma_sorted_text_same(s.push(t));
        let once = sorted_text(s.push(t));
        assert(once.to_multiset() == s.push(t).to_multiset());
        assert(once.contains(t)) by {
            assert(s.push(t)[s.len() as int] == t);
            assert(s.push(t).contains(t));
        }
        lemma_remove_first_multiset(once, t);
        assert(s.to_multiset() =~= s.push(t).to_multiset().remove(t));
    }
}

/// Toggles tag `t` on a card's tags; returns how they are to be stored.
pub fn toggle_tag(tags: &mut Vec<String>, t: &String) -> (stored: Option<String>)
    ensures
        views(final(tags)@) == toggled_tags(views(old(tags)@), t@),
        match stored {
            Some(st) => stored_tags(views(final(tags)@)) == Some(st@),
            None => stored_tags(views(final(tags)@)) is None,
        },
{
    let ghost s0 = views(tags@);
    match find_string(tags, t.as_str()) {
        Some(i) => {
            proof {
                lemma_remove_first_at(s0, t@, i as int);
                assert(s0[i as int] == t@);
                assert(s0.contains(t@));
            }
            tags.remove(i);
            assert(views(tags@) =~= s0.remove(i as int));
            if tags.len() == 0 {
                None
            } else {
                Some(join_strings(tags, "|"))
            }
        },
        None => {
            tags.push(t.clone());
            assert(views(tags@) =~= s0.push(t@));
            sort_strings(tags);
            proof {
                lemma_sorted_text_same(s0.push(t@));
                assert(s0.push(t@)[s0.len() as int] == t@);
            }
            Some(join_strings(tags, "|"))
        },
    }
}

/// The other face's tags after the card's tags changed: it gains or loses
/// `t` to match the card.
pub open spec fn synced_tags(card: Seq<Seq<char>>, other: Seq<Seq<char>>, t: Seq<char>) -> Seq<
    Seq<char>,
> {
    if !card.contains(t) && other.contains(t) {
        remove_first(other, t)
    } else if card.contains(t) && !other.contains(t) {
        other.push(t)
    } else {
        other
    }
}

/// After syncing, the other face holds `t` exactly when the card does,
/// provided it held at most one copy.
pub proof fn lemma_synced_agree(card: Seq<Seq<char>>, other: Seq<Seq<char>>, t: Seq<char>)
    requires
        other.to_multiset().count(t) <= 1,
    ensures
        synced_tags(card, other, t).contains(t) <==> card.contains(t),
{
    broadcast use vstd::seq_lib::group_to_multiset_ensures;
    if !card.contains(t) && other.contains(t) {
        lemma_remove_first_multiset(other, t);
        assert(remove_first(other, t).to_multiset().count(t) == 0);
    } else if card.contains(t) && !other.contains(t) {
        assert(other.push(t)[other.len() as int] == t);
    }
}

/// Brings the other face of a two-faced card in step with the card for
/// tag `t`; returns how its tags are to be stored.
pub fn sync_other_face(card: &Vec<String>, other: &mut Vec<String>, t: &String) -> (stored: Option<
    String,
>)
    ensures
        views(final(other)@) == synced_tags(views(card@), views(old(other)@), t@),
        match stored {
            Some(st) => stored_tags(views(final(other)@)) == Some(st@),
            None => stored_tags(views(final(other)@)) is None,
        },
{
    let ghost o0 = views(other@);
    let in_card = find_string(card, t.as_str()).is_some();
    let found = find_string(other, t.as_str());
    proof {
        if in_card {
            let k = choose|k: int| 0 <= k < card@.len() && card@[k]@ == t@;
            assert(views(card@)[k] == t@);
        }
    }
    match found {
        Some(i) => {
            if !in_card {
                proof {
                    lemma_remove_first_at(o0, t@, i as int);
                    assert(o0[i as int] == t@);
                }
                other.remove(i);
                assert(views(other@) =~= o0.remove(i as int));
            } else {
                assert(o0[i as int] == t@);
            }
        },
        None => {
            if in_card {
                other.push(t.clone());
                assert(views(other@) =~= o0.push(t@));
            }
        },
    }
    if other.len() == 0 {
        None
    } else {
        Some(join_strings(other, "|"))
    }
}

/// What a settings tag edit does to one card holding the edited tag: a
/// deletion drops its first copy, a rename drops it, adds the new name and
/// sorts; an insertion changes no card.
pub open spec fn retagged(s: Seq<Seq<char>>, change: TagChange) -> Seq<Seq<char>> {
    match change {
        TagChange::DeleteTag(tag) => remove_first(s, tag@),
        TagChange::ChangeTag(old, new) => sorted_text(remove_first(s, old@).push(new@)),
        TagChange::InsertTag(_) => s,
    }
}

/// Applies a settings tag edit to the tags of a card found holding the
/// edited tag; returns `None` when nothing is to be stored (an insertion),
/// else how the tags are to be stored.
pub fn retag(tags: &mut Vec<String>, change: &TagChange) -> (r: Option<Option<String>>)
    requires
        change matches TagChange::DeleteTag(tag) ==> views(old(tags)@).contains(tag@),
        change matches TagChange::ChangeTag(o, _) ==> views(old(tags)@).contains(o@),
    ensures
        views(final(tags)@) == retagged(views(old(tags)@), *change),
        r is None <==> change is InsertTag,
        match r {
            Some(Some(st)) => stored_tags(views(final(tags)@)) == Some(st@),
            Some(None) => stored_tags(views(final(tags)@)) is None,
            None => true,
        },
{
    let ghost s0 = views(tags@);
    match change {
        TagChange::DeleteTag(tag) => {
            let i = first_copy(tags, tag);
            proof {
                lemma_remove_first_at(s0, tag@, i as int);
            }
            tags.remove(i);
            assert(views(tags@) =~= s0.remove(i as int));
            if tags.len() == 0 {
                Some(None)
            } else {
                Some(Some(join_strings(tags, "|")))
            }
        },
        TagChange::ChangeTag(old, new) => {
            let i = first_copy(tags, old);
            proof {
                lemma_remove_first_at(s0, old@, i as int);
            }
            tags.remove(i);
            assert(views(tags@) =~= s0.remove(i as int));
            let ghost mid = views(tags@);
            tags.push(new.clone());
            assert(views(tags@) =~= mid.push(new@));
            sort_strings(tags);
            proof {
                lemma_sorted_text_same(mid.push(new@));
                assert(mid.push(new@)[mid.len() as int] == new@);
            }
            Some(Some(join_strings(tags, "|")))
        },
        TagChange::InsertTag(_) => None,
    }
}

/// The position of the first copy of a tag the list is known to hold.
fn first_copy(tags: &Vec<String>, t: &String) -> (i: usize)
    requires
        views(tags@).contains(t@),
    ensures
        i < tags@.len(),
        tags@[i as int]@ == t@,
        forall|j: int| 0 <= j < i ==> tags@[j]@ != t@,
{
    match find_string(tags, t.as_str()) {
        Some(i) => i,
        None => {
            proof {
                let k = choose|k: int| 0 <= k < views(tags@).len() && views(tags@)[k] == t@;
                assert(tags@[k]@ == t@);
            }
            0
        },
    }
}

/// The query that finds the deck's cards holding `tag`.
pub fn tag_query(cf: &CardFilter, tag: &String) -> (r: String)
    ensures
        r@ == query_spec(cf.did, cf.color@, cf.df, cf.so, false, "tag:"@ + tag@),
{
    let mut q = string_from("tag:");
    push_str(&mut q, tag.as_str());
    cf.make_query(false, q.as_str())
}

/// The columns a card query reads, in the order a card is built from.
pub open spec fn card_columns() -> Seq<char> {
    "cmc, color_identity, legalities, loyalty, mana_cost, name, power, card_text, toughness, types, layout, related_cards, side, tags, rarity, price, date_price_retrieved"@
}

/// The query that reads whole cards for a filter's conditions.
pub fn card_select(query: &str) -> (r: String)
    ensures
        r@ == "SELECT "@ + card_columns() + "\nFROM `cards`\n"@ + query@,
{
    let mut r = string_from("SELECT ");
    push_str(
        &mut r,
        "cmc, color_identity, legalities, loyalty, mana_cost, name, power, card_text, toughness, types, layout, related_cards, side, tags, rarity, price, date_price_retrieved",
    );
    push_str(&mut r, "\nFROM `cards`\n");
    push_str(&mut r, query);
    r
}

/// The query that reads card names for a filter's conditions.
pub fn name_select(query: &str) -> (r: String)
    ensures
        r@ == "SELECT name\nFROM cards\n"@ + query@,
{
    let mut r = string_from("SELECT name\nFROM cards\n");
    push_str(&mut r, query);
    r
}

/// The column and direction a sort order sorts a deck's cards by.
pub open spec fn sort_parts(so: SortOrder) -> (Seq<char>, Seq<char>) {
    match so {
        SortOrder::NameAsc => ("name"@, "ASC"@),
        SortOrder::NameDesc => ("name"@, "DESC"@),
        SortOrder::CmcAsc => ("cmc"@, "ASC"@),
        SortOrder::CmcDesc => ("cmc"@, "DESC"@),
    }
}

/// The query that reads a deck's cards (deck id bound as `:did`) in the
/// given order.
pub fn deck_cards_query(so: SortOrder) -> (r: String)
    ensures
        r@ == "SELECT \n        "@ + card_columns()
            + "\n        FROM cards \n        INNER JOIN deck_contents\n        ON cards.name = deck_contents.card_name\n        WHERE deck_contents.deck = :did\n        ORDER BY "@
            + sort_parts(so).0 + " "@ + sort_parts(so).1 + ";"@,
{
    let (sort_on, order) = match so {
        SortOrder::NameAsc => ("name", "ASC"),
        SortOrder::NameDesc => ("name", "DESC"),
        SortOrder::CmcAsc => ("cmc", "ASC"),
        SortOrder::CmcDesc => ("cmc", "DESC"),
    };
    let mut r = string_from("SELECT \n        ");
    push_str(
        &mut r,
        "cmc, color_identity, legalities, loyalty, mana_cost, name, power, card_text, toughness, types, layout, related_cards, side, tags, rarity, price, date_price_retrieved",
    );
    push_str(
        &mut r,
        "\n        FROM cards \n        INNER JOIN deck_contents\n        ON cards.name = deck_contents.card_name\n        WHERE deck_contents.deck = :did\n        ORDER BY ",
    );
    push_str(&mut r, sort_on);
    push_str(&mut r, " ");
    push_str(&mut r, order);
    push_str(&mut r, ";");
    r
}

/// The query that finds the commanders whose names hold `n` (only those
/// that take a partner when `partner`); `None` for an empty `n`, which
/// finds nothing.
pub fn commander_search(n: &str, partner: bool) -> (r: Option<String>)
    ensures
        n@.len() == 0 <==> r is None,
        r matches Some(q) ==> q@ == "\nSELECT name\nFROM cards\nWHERE name LIKE \"%"@ + n@
            + "%\"\nAND types LIKE 'Legendary%'\n"@ + (if partner {
            "AND card_text LIKE '%Partner%'\n"@
        } else {
            ""@
        }) + "AND (types LIKE '%Creature%' OR card_text LIKE '%can be your commander%')\nORDER BY name ASC;"@,
{
    if crate::text::char_len(n) == 0 {
        return None;
    }
    let mut q = string_from("\nSELECT name\nFROM cards\nWHERE name LIKE \"%");
    push_str(&mut q, n);
    push_str(&mut q, "%\"\nAND types LIKE 'Legendary%'\n");
    if partner {
        push_str(&mut q, "AND card_text LIKE '%Partner%'\n");
    } else {
        push_str(&mut q, "");
    }
    push_str(
        &mut q,
        "AND (types LIKE '%Creature%' OR card_text LIKE '%can be your commander%')\nORDER BY name ASC;",
    );
    Some(q)
}

/// The set types whose cards may be played in commander decks.
pub open spec fn is_legal_set_type(t: Seq<char>) -> bool {
    t == "expansion"@ || t == "core"@ || t == "commander"@ || t == "draft_innovation"@
}

/// The sets of a legal type, in order.
pub open spec fn legal_sets_spec(sets: Seq<CardSet>) -> Seq<CardSet>
    decreases sets.len(),
{
    if sets.len() == 0 {
        sets
    } else if is_legal_set_type(sets.last().set_type@) {
        legal_sets_spec(sets.drop_last()).push(sets.last())
    } else {
        legal_sets_spec(sets.drop_last())
    }
}

/// A card-data row's key and rarity: its face name when it has one, else its
/// name.
pub open spec fn rarity_row_key(row: (Option<String>, String, String)) -> Seq<char> {
    match row.0 {
        Some(f) => f@,
        None => row.1@,
    }
}

/// The rarity to record for each card of the rows read so far: rows of
/// rarity `special` or `bonus` are passed over, and a later row for a card
/// replaces an earlier one.
pub open spec fn rarity_map(rows: Seq<(Option<String>, String, String)>) -> Seq<(Seq<char>, Seq<char>)>
    decreases rows.len(),
{
    if rows.len() == 0 {
        Seq::<(Seq<char>, Seq<char>)>::empty()
    } else {
        let m = rarity_map(rows.drop_last());
        let row = rows.last();
        if row.2@ == "special"@ || row.2@ == "bonus"@ {
            m
        } else {
            crate::field_filter::set_value(m, rarity_row_key(row), row.2@)
        }
    }
}

/// The rarities to write to the card table from the rows of another card
/// database (face name, name, rarity), one per card.
pub fn rarity_updates(rows: Vec<(Option<String>, String, String)>) -> (r: Vec<(String, String)>)
    ensures
        crate::field_filter::pairs_view(r@) == rarity_map(rows@),
{
    let ghost all = rows@;
    let mut m: Vec<(String, String)> = Vec::new();
    let mut rest = rows;
    let n = rest.len();
    let mut i: usize = 0;
    assert(crate::field_filter::pairs_view(m@) =~= rarity_map(all.take(0)));
    while i < n
        invariant
            n == all.len(),
            i <= n,
            rest@ == all.skip(i as int),
            crate::field_filter::pairs_view(m@) == rarity_map(all.take(i as int)),
        decreases n - i,
    {
        assert(all.take(i + 1).drop_last() =~= all.take(i as int));
        let row = rest.remove(0);
        assert(all.take(i + 1).last() == row);
        assert(rest@ =~= all.skip(i + 1));
        let (face, name, rarity) = row;
        if !str_eq(rarity.as_str(), "special") && !str_eq(rarity.as_str(), "bonus") {
            let key = match face {
                Some(f) => f,
                None => name,
            };
            crate::field_filter::set_value_exec(&mut m, key, rarity);
        }
        i += 1;
    }
    assert(all.take(n as int) =~= all);
    m
}

/// Two set records are the same when all their fields are.
pub open spec fn same_set(a: CardSet, b: CardSet) -> bool {
    a.code@ == b.code@ && a.name@ == b.name@ && a.date@ == b.date@ && a.set_type@ == b.set_type@
}

/// `x` placed into the date-ordered `sorted` after every set of the same or
/// an earlier date.
pub open spec fn insert_by_date(sorted: Seq<CardSet>, x: CardSet) -> Seq<CardSet>
    decreases sorted.len(),
{
    if sorted.len() == 0 {
        seq![x]
    } else if text_le(sorted.last().date@, x.date@) {
        sorted.push(x)
    } else {
        insert_by_date(sorted.drop_last(), x).push(sorted.last())
    }
}

/// The sets ordered by release date; sets of one date keep their order (a
/// stable sort by date).
pub open spec fn sets_by_date(s: Seq<CardSet>) -> Seq<CardSet>
    decreases s.len(),
{
    if s.len() == 0 {
        s
    } else {
        insert_by_date(sets_by_date(s.drop_last()), s.last())
    }
}

/// The sets of `sorted`, in order, that are not among `existing` and were
/// released by `today` (dates compared as text).
pub open spec fn unseen_released(sorted: Seq<CardSet>, existing: Seq<CardSet>, today: Seq<char>) -> Seq<CardSet>
    decreases sorted.len(),
{
    if sorted.len() == 0 {
        sorted
    } else {
        let init = unseen_released(sorted.drop_last(), existing, today);
        let x = sorted.last();
        if !(exists|i: int| 0 <= i < existing.len() && same_set(#[trigger] existing[i], x))
            && text_le(x.date@, today) {
            init.push(x)
        } else {
            init
        }
    }
}

proof fn lemma_insert_by_date_at(sorted: Seq<CardSet>, x: CardSet, p: int)
    requires
        0 <= p <= sorted.len(),
        p > 0 ==> text_le(sorted[p - 1].date@, x.date@),
        forall|j: int| p <= j < sorted.len() ==> !text_le(#[trigger] sorted[j].date@, x.date@),
    ensures
        insert_by_date(sorted, x) == sorted.insert(p, x),
    decreases sorted.len(),
{
    if sorted.len() == 0 {
        assert(sorted.insert(p, x) =~= seq![x]);
    } else if p == sorted.len() {
        assert(sorted.insert(p, x) =~= sorted.push(x));
    } else {
        let n = sorted.len() - 1;
        assert(!text_le(sorted[n].date@, x.date@));
        lemma_insert_by_date_at(sorted.drop_last(), x, p);
        assert(sorted.drop_last().insert(p, x).push(sorted.last()) =~= sorted.insert(p, x));
    }
}

/// Whether a set with the same fields as `x` is among `existing`.
fn has_set(existing: &Vec<CardSet>, x: &CardSet) -> (r: bool)
    ensures
        r == exists|i: int| 0 <= i < existing@.len() && same_set(#[trigger] existing@[i], *x),
{
    let mut i: usize = 0;
    while i < existing.len()
        invariant
            i <= existing@.len(),
            forall|j: int| 0 <= j < i ==> !same_set(#[trigger] existing@[j], *x),
        decreases existing.len() - i,
    {
        let e = &existing[i];
        if str_eq(e.code.as_str(), x.code.as_str()) && str_eq(e.name.as_str(), x.name.as_str())
            && str_eq(e.date.as_str(), x.date.as_str()) && str_eq(
            e.set_type.as_str(),
            x.set_type.as_str(),
        ) {
            assert(same_set(existing@[i as int], *x));
            return true;
        }
        i += 1;
    }
    false
}

/// The sets a database update adds, oldest first: the listed sets ordered
/// by release date, less those the database has and those not released by
/// `today` (a `YYYY-MM-DD` date).
pub fn new_sets(sets: Vec<CardSet>, existing: &Vec<CardSet>, today: &str) -> (r: Vec<CardSet>)
    ensures
        r@ == unseen_released(sets_by_date(sets@), existing@, today@),
{
    let ghost all = sets@;
    let mut sorted: Vec<CardSet> = Vec::new();
    let mut rest = sets;
    let n = rest.len();
    let mut i: usize = 0;
    while i < n
        invariant
            n == all.len(),
            i <= n,
            rest@ == all.skip(i as int),
            sorted@ == sets_by_date(all.take(i as int)),
        decreases n - i,
    {
        let x = rest.remove(0);
        assert(all.take(i + 1).drop_last() =~= all.take(i as int));
        assert(all.take(i + 1).last() == x);
        assert(rest@ =~= all.skip(i + 1));
        let mut p = sorted.len();
        while p > 0 && !text_le_exec(sorted[p - 1].date.as_str(), x.date.as_str())
            invariant
                p <= sorted@.len(),
                forall|j: int| p <= j < sorted@.len() ==> !text_le(#[trigger] sorted@[j].date@, x.date@),
            decreases p,
        {
            p -= 1;
        }
        proof {
            lemma_insert_by_date_at(sorted@, x, p as int);
        }
        sorted.insert(p, x);
        i += 1;
    }
    assert(all.take(n as int) =~= all);
    let ghost ordered = sorted@;
    let mut r: Vec<CardSet> = Vec::new();
    let mut k: usize = 0;
    let m = sorted.len();
    while k < m
        invariant
            k <= m,
            m == ordered.len(),
            sorted@ == ordered.skip(k as int),
            r@ == unseen_released(ordered.take(k as int), existing@, today@),
        decreases m - k,
    {
        assert(ordered.take(k + 1).drop_last() =~= ordered.take(k as int));
        assert(ordered.take(k + 1).last() == ordered[k as int]);
        let x = sorted.remove(0);
        assert(sorted@ =~= ordered.skip(k + 1));
        if !has_set(existing, &x) && text_le_exec(x.date.as_str(), today) {
            r.push(x);
        }
        k += 1;
    }
    assert(ordered.take(m as int) =~= ordered);
    r
}

/// Keeps the sets whose cards may be played in commander decks.
pub fn commander_legal_sets(sets: Vec<CardSet>) -> (r: Vec<CardSet>)
    ensures
        r@ == legal_sets_spec(sets@),
{
    let mut r: Vec<CardSet> = Vec::new();
    let mut rest = sets;
    let ghost all = rest@;
    let mut i: usize = 0;
    let n = rest.len();
    while i < n
        invariant
            n == all.len(),
            i <= n,
            rest@ == all.skip(i as int),
            r@ == legal_sets_spec(all.take(i as int)),
        decreases n - i,
    {
        let set = rest.remove(0);
        assert(set == all[i as int]);
        assert(rest@ =~= all.skip(i + 1));
        assert(all.take(i + 1).drop_last() =~= all.take(i as int));
        assert(all.take(i + 1).last() == all[i as int]);
        let keep = {
            let t = set.set_type.as_str();
            str_eq(t, "expansion") || str_eq(t, "core") || str_eq(t, "commander") || str_eq(
                t,
                "draft_innovation",
            )
        };
        if keep {
            r.push(set);
        }
        i += 1;
    }
    assert(all.take(n as int) =~= all);
    r
}

} // verus!
