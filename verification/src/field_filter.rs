//! The keyed card filter: an omnibar query read into one value per field
//! (`name`, `text`, `tag`, `type`, `color`, `color_identity`, `cmc`,
//! `power`, `toughness`, `sort`), then written as SQL conditions.
//!
//! The query is read left to right, field after field, until a position
//! where neither a field nor spaces follow; what was read up to there is
//! kept. A later value for a field replaces the earlier one.
use vstd::prelude::*;
use crate::db::leads_with_ascii;
use crate::text::{
    chars_eq, chars_of, int_text, join_chars, join_spec, join_strings, replace_chars, replace_spec, split_chars,
    split_spec, string_from, string_of, views,
};

verus! {

/// `lit` stands in `s` at position `i`.
pub open spec fn lit_at(s: Seq<char>, i: int, lit: Seq<char>) -> bool {
    0 <= i && i + lit.len() <= s.len() && s.subrange(i, i + lit.len()) == lit
}

/// The end of the first of `lits` that stands at `i`.
pub open spec fn first_alias(s: Seq<char>, i: int, lits: Seq<Seq<char>>) -> Option<int>
    decreases lits.len(),
{
    if lits.len() == 0 {
        None
    } else if lit_at(s, i, lits[0]) {
        Some(i + lits[0].len())
    } else {
        first_alias(s, i, lits.drop_first())
    }
}

/// A character of a word.
pub open spec fn is_word_char(c: char) -> bool {
    ('a' <= c <= 'z') || ('0' <= c <= '9') || c == '{' || c == '}' || c == '\'' || c == '.' || c
        == '_'
}

/// A color letter.
pub open spec fn is_color(c: char) -> bool {
    c == 'c' || c == 'w' || c == 'u' || c == 'b' || c == 'g' || c == 'r'
}

/// A decimal digit.
pub open spec fn is_digit(c: char) -> bool {
    '0' <= c <= '9'
}

/// `+` or `&`.
pub open spec fn is_and(c: char) -> bool {
    c == '+' || c == '&'
}

/// `|` or `/`.
pub open spec fn is_or(c: char) -> bool {
    c == '|' || c == '/'
}

/// Which run a scan follows.
#[derive(Debug, Copy, Clone, PartialEq, Eq, Structural)]
pub enum Run {
    Word,
    Color,
    Digit,
}

/// Whether `c` continues a run of kind `k`.
pub open spec fn in_run(k: Run, c: char) -> bool {
    match k {
        Run::Word => is_word_char(c),
        Run::Color => is_color(c),
        Run::Digit => is_digit(c),
    }
}

/// The first position at or after `i` that does not continue the run.
pub open spec fn run_end(s: Seq<char>, i: int, k: Run) -> int
    decreases s.len() - i,
{
    if 0 <= i < s.len() && in_run(k, s[i]) {
        run_end(s, i + 1, k)
    } else {
        i
    }
}

/// A word at `i`: an optional `!`, then word characters.
pub open spec fn word_at(s: Seq<char>, i: int) -> Option<int> {
    let k = if 0 <= i < s.len() && s[i] == '!' {
        i + 1
    } else {
        i
    };
    let e = run_end(s, k, Run::Word);
    if 0 <= i && e > k {
        Some(e)
    } else {
        None
    }
}

/// The end of a phrase's text: words, spaces, `+`, `:` and `/`.
pub open spec fn phrase_body(s: Seq<char>, i: int) -> int
    decreases s.len() - i,
{
    match word_at(s, i) {
        Some(e) => if i < e <= s.len() {
            phrase_body(s, e)
        } else {
            i
        },
        None => if 0 <= i < s.len() && (s[i] == ' ' || s[i] == '+' || s[i] == ':' || s[i] == '/') {
            phrase_body(s, i + 1)
        } else {
            i
        },
    }
}

/// A phrase at `i`: an optional `!`, then a quoted text.
pub open spec fn phrase_at(s: Seq<char>, i: int) -> Option<int> {
    let k = if 0 <= i < s.len() && s[i] == '!' {
        i + 1
    } else {
        i
    };
    if 0 <= i && k < s.len() && s[k] == '"' {
        let b = phrase_body(s, k + 1);
        if b > k + 1 && b < s.len() && s[b] == '"' {
            Some(b + 1)
        } else {
            None
        }
    } else {
        None
    }
}

/// A word, else a phrase.
pub open spec fn word_or_phrase(s: Seq<char>, i: int) -> Option<int> {
    match word_at(s, i) {
        Some(e) => Some(e),
        None => phrase_at(s, i),
    }
}

/// A phrase, else a word.
pub open spec fn phrase_or_word(s: Seq<char>, i: int) -> Option<int> {
    match phrase_at(s, i) {
        Some(e) => Some(e),
        None => word_at(s, i),
    }
}

/// An item of a group: a word or phrase for text, a word for types.
pub open spec fn item_at(s: Seq<char>, i: int, words_only: bool) -> Option<int> {
    if words_only {
        word_at(s, i)
    } else {
        word_or_phrase(s, i)
    }
}

/// Further items of a group after `j`, each after `+` or `&`.
pub open spec fn group_rest(s: Seq<char>, j: int, words_only: bool, acc: Seq<Seq<char>>) -> (Seq<Seq<char>>, int)
    decreases s.len() - j,
{
    if 0 <= j < s.len() && is_and(s[j]) {
        match item_at(s, j + 1, words_only) {
            Some(e) => if j + 1 < e <= s.len() {
                group_rest(s, e, words_only, acc.push(s.subrange(j + 1, e)))
            } else {
                (acc, j)
            },
            None => (acc, j),
        }
    } else {
        (acc, j)
    }
}

/// A group at `i`: items joined by `+` or `&`, maybe none.
pub open spec fn group_at(s: Seq<char>, i: int, words_only: bool) -> (Seq<Seq<char>>, int) {
    match item_at(s, i, words_only) {
        Some(e) => if 0 <= i < e <= s.len() {
            group_rest(s, e, words_only, seq![s.subrange(i, e)])
        } else {
            (Seq::<Seq<char>>::empty(), i)
        },
        None => (Seq::<Seq<char>>::empty(), i),
    }
}

/// Further groups after `j`, each after a separator (`|`/`/` when `or`,
/// `+`/`&` otherwise); each group is written with its items joined by `&`.
pub open spec fn groups_rest(s: Seq<char>, j: int, words_only: bool, or: bool, acc: Seq<Seq<char>>) -> (Seq<Seq<char>>, int)
    decreases s.len() - j,
{
    if 0 <= j < s.len() && (if or { is_or(s[j]) } else { is_and(s[j]) }) {
        let (g, e) = group_at(s, j + 1, words_only);
        if j + 1 <= e <= s.len() {
            groups_rest(s, e, words_only, or, acc.push(join_spec(g, "&"@)))
        } else {
            (acc, j)
        }
    } else {
        (acc, j)
    }
}

/// Groups at `i`, the first maybe empty.
pub open spec fn groups_at(s: Seq<char>, i: int, words_only: bool, or: bool) -> (Seq<Seq<char>>, int) {
    let (g, e) = group_at(s, i, words_only);
    if 0 <= i <= e <= s.len() {
        groups_rest(s, e, words_only, or, seq![join_spec(g, "&"@)])
    } else {
        (seq![join_spec(g, "&"@)], i)
    }
}

/// Further runs of color letters after `j`, each after `|` or `/`.
pub open spec fn colors_rest(s: Seq<char>, j: int, acc: Seq<Seq<char>>) -> (Seq<Seq<char>>, int)
    decreases s.len() - j,
{
    if 0 <= j < s.len() && is_or(s[j]) {
        let e = run_end(s, j + 1, Run::Color);
        if j + 1 < e <= s.len() {
            colors_rest(s, e, acc.push(s.subrange(j + 1, e)))
        } else {
            (acc, j)
        }
    } else {
        (acc, j)
    }
}

/// Runs of color letters at `i`, separated by `|` or `/`; maybe none.
pub open spec fn colors_at(s: Seq<char>, i: int) -> (Seq<Seq<char>>, int) {
    let e = run_end(s, i, Run::Color);
    if 0 <= i < e <= s.len() {
        colors_rest(s, e, seq![s.subrange(i, e)])
    } else {
        (Seq::<Seq<char>>::empty(), i)
    }
}

/// A mana value at `i`: `-n`, `>n`, `<n`, or `n`, `n-` or `n-m`.
pub open spec fn number_range_at(s: Seq<char>, i: int) -> Option<int> {
    if !(0 <= i < s.len()) {
        None
    } else if s[i] == '-' || s[i] == '>' || s[i] == '<' {
        let e = run_end(s, i + 1, Run::Digit);
        if e > i + 1 {
            Some(e)
        } else {
            None
        }
    } else {
        let e = run_end(s, i, Run::Digit);
        if e == i {
            None
        } else {
            let e2 = if e < s.len() && s[e] == '-' {
                e + 1
            } else {
                e
            };
            Some(run_end(s, e2, Run::Digit))
        }
    }
}

/// A power or toughness value at `i`: digits, a `-`, digits, each maybe
/// missing.
pub open spec fn stat_end(s: Seq<char>, i: int) -> int {
    let e = run_end(s, i, Run::Digit);
    let e2 = if 0 <= e < s.len() && s[e] == '-' {
        e + 1
    } else {
        e
    };
    run_end(s, e2, Run::Digit)
}

/// A sort value at `i`: `+` or `-`, then `name` or `cmc`.
pub open spec fn sort_value_at(s: Seq<char>, i: int) -> Option<int> {
    if 0 <= i < s.len() && (s[i] == '+' || s[i] == '-') {
        if lit_at(s, i + 1, "name"@) {
            Some(i + 5)
        } else if lit_at(s, i + 1, "cmc"@) {
            Some(i + 4)
        } else {
            None
        }
    } else {
        None
    }
}

/// The spellings of a field's key, in the order they are tried.
pub open spec fn text_aliases() -> Seq<Seq<char>> {
    seq!["text"@, "te"@]
}

pub open spec fn tag_aliases() -> Seq<Seq<char>> {
    seq!["tag"@, "tags"@]
}

pub open spec fn color_aliases() -> Seq<Seq<char>> {
    seq!["color"@, "c"@]
}

pub open spec fn type_aliases() -> Seq<Seq<char>> {
    seq!["type"@, "ty"@]
}

pub open spec fn identity_aliases() -> Seq<Seq<char>> {
    seq!["color_identity"@, "coloridentity"@, "ci"@]
}

pub open spec fn power_aliases() -> Seq<Seq<char>> {
    seq!["power"@, "p"@]
}

pub open spec fn toughness_aliases() -> Seq<Seq<char>> {
    seq!["toughness"@, "t"@]
}

pub open spec fn name_aliases() -> Seq<Seq<char>> {
    seq!["name:"@, "n:"@]
}

/// The end of a key among `lits` followed by `:`, at `i`.
pub open spec fn key_colon(s: Seq<char>, i: int, lits: Seq<Seq<char>>) -> Option<int> {
    match first_alias(s, i, lits) {
        Some(a) => if 0 <= a < s.len() && s[a] == ':' {
            Some(a + 1)
        } else {
            None
        },
        None => None,
    }
}

/// What a field records and where it ends; `None` when it does not stand
/// at the position.
pub type FieldRead = Option<(Option<(Seq<char>, Seq<char>)>, int)>;

/// A group-valued field (`text` or `type`): recorded when its first group is
/// not empty.
pub open spec fn grouped_field(s: Seq<char>, i: int, lits: Seq<Seq<char>>, key: Seq<char>, words_only: bool, or: bool, always: bool) -> FieldRead {
    match key_colon(s, i, lits) {
        Some(a) => {
            let (gs, e) = groups_at(s, a, words_only, or);
            Some((if always || gs[0].len() > 0 { Some((key, join_spec(gs, "|"@))) } else { None }, e))
        },
        None => None,
    }
}

/// A color-valued field: recorded when it names some colors.
pub open spec fn colored_field(s: Seq<char>, i: int, lits: Seq<Seq<char>>, key: Seq<char>) -> FieldRead {
    match key_colon(s, i, lits) {
        Some(a) => {
            let (cs, e) = colors_at(s, a);
            Some((if cs.len() > 0 { Some((key, join_spec(cs, "|"@))) } else { None }, e))
        },
        None => None,
    }
}

/// A power or toughness field: recorded when its value is not empty.
pub open spec fn stat_field(s: Seq<char>, i: int, lits: Seq<Seq<char>>, key: Seq<char>) -> FieldRead {
    match key_colon(s, i, lits) {
        Some(a) => {
            let e = stat_end(s, a);
            Some((if e > a { Some((key, s.subrange(a, e))) } else { None }, e))
        },
        None => None,
    }
}

/// The `cmc:` field.
pub open spec fn cmc_field(s: Seq<char>, i: int) -> FieldRead {
    if lit_at(s, i, "cmc:"@) {
        match number_range_at(s, i + 4) {
            Some(e) => Some((Some(("cmc"@, s.subrange(i + 4, e))), e)),
            None => None,
        }
    } else {
        None
    }
}

/// The `sort:` field.
pub open spec fn sort_field(s: Seq<char>, i: int) -> FieldRead {
    if lit_at(s, i, "sort:"@) {
        match sort_value_at(s, i + 5) {
            Some(e) => Some((Some(("sort"@, s.subrange(i + 5, e))), e)),
            None => None,
        }
    } else {
        None
    }
}

/// A name: after `name:` or `n:`, or bare, a phrase or a word.
pub open spec fn name_field(s: Seq<char>, i: int) -> FieldRead {
    let a = match first_alias(s, i, name_aliases()) {
        Some(a) => a,
        None => i,
    };
    match phrase_or_word(s, a) {
        Some(e) => Some((Some(("name"@, s.subrange(a, e))), e)),
        None => None,
    }
}

/// The first of two readings that stands.
pub open spec fn or_else(a: FieldRead, b: FieldRead) -> FieldRead {
    match a {
        Some(x) => Some(x),
        None => b,
    }
}

/// A field read at `i`: the value it records (a key and a value), if any,
/// and the position after it. Fields are tried in this order: text, tag,
/// color, type, cmc, color identity, power, toughness, sort, and last a
/// bare name.
pub open spec fn field_at(s: Seq<char>, i: int) -> FieldRead {
    or_else(grouped_field(s, i, text_aliases(), "text"@, false, true, false),
    or_else(grouped_field(s, i, tag_aliases(), "tag"@, false, false, true),
    or_else(colored_field(s, i, color_aliases(), "color"@),
    or_else(grouped_field(s, i, type_aliases(), "type"@, true, true, false),
    or_else(cmc_field(s, i),
    or_else(colored_field(s, i, identity_aliases(), "color_identity"@),
    or_else(stat_field(s, i, power_aliases(), "power"@),
    or_else(stat_field(s, i, toughness_aliases(), "toughness"@),
    or_else(sort_field(s, i), name_field(s, i))))))))))
}

/// `m` with `k` set to `v`: in place when `k` is there, else at the end.
pub open spec fn set_value(m: Seq<(Seq<char>, Seq<char>)>, k: Seq<char>, v: Seq<char>) -> Seq<(Seq<char>, Seq<char>)>
    decreases m.len(),
{
    if m.len() == 0 {
        seq![(k, v)]
    } else if m[0].0 == k {
        m.update(0, (k, v))
    } else {
        seq![m[0]] + set_value(m.drop_first(), k, v)
    }
}

/// The values read from `i` on, added to `m`.
pub open spec fn read_fields(s: Seq<char>, i: int, m: Seq<(Seq<char>, Seq<char>)>) -> Seq<(Seq<char>, Seq<char>)>
    decreases s.len() - i,
{
    if !(0 <= i < s.len()) {
        m
    } else {
        match field_at(s, i) {
            Some((rec, e)) => if i < e <= s.len() {
                let m2 = match rec {
                    Some((k, v)) => set_value(m, k, v),
                    None => m,
                };
                read_fields(s, e, m2)
            } else {
                m
            },
            None => if s[i] == ' ' {
                read_fields(s, i + 1, m)
            } else {
                m
            },
        }
    }
}

/// The values a query gives each field, in the order the fields were first
/// read.
pub open spec fn omni_fields(s: Seq<char>) -> Seq<(Seq<char>, Seq<char>)> {
    read_fields(s, 0, Seq::<(Seq<char>, Seq<char>)>::empty())
}

/// The views of character vectors.
pub open spec fn vv(v: Seq<Vec<char>>) -> Seq<Seq<char>> {
    v.map_values(|p: Vec<char>| p@)
}

/// Whether `lit` stands in `s` at `i`.
fn lit_at_exec(s: &[char], i: usize, lit: &str) -> (r: bool)
    ensures
        r == lit_at(s@, i as int, lit@),
{
    let l = chars_of(lit);
    let n = s.len();
    if i > n || l.len() > n - i {
        return false;
    }
    let mut k: usize = 0;
    while k < l.len()
        invariant
            i + l@.len() <= s@.len(),
            n == s@.len(),
            k <= l@.len(),
            l@ == lit@,
            forall|j: int| 0 <= j < k ==> s@[i + j] == l@[j],
        decreases l.len() - k,
    {
        if s[i + k] != l[k] {
            assert(s@.subrange(i as int, i + l@.len())[k as int] != lit@[k as int]);
            return false;
        }
        k += 1;
    }
    assert(s@.subrange(i as int, i + l@.len()) =~= lit@);
    true
}

/// The end of the first of two spellings that stands at `i`.
fn alias2(s: &[char], i: usize, a: &str, b: &str) -> (r: Option<usize>)
    ensures
        match r {
            Some(e) => first_alias(s@, i as int, seq![a@, b@]) == Some(e as int) && e <= s@.len(),
            None => first_alias(s@, i as int, seq![a@, b@]) is None,
        },
{
    let ghost lits = seq![a@, b@];
    proof {
        reveal_with_fuel(first_alias, 3);
    }
    assert(lits.drop_first() =~= seq![b@]);
    assert(lits.drop_first().drop_first() =~= Seq::<Seq<char>>::empty());
    let n = s.len();
    if lit_at_exec(s, i, a) {
        assert(i + a@.len() <= n);
        Some(i + chars_of(a).len())
    } else if lit_at_exec(s, i, b) {
        assert(i + b@.len() <= n);
        Some(i + chars_of(b).len())
    } else {
        None
    }
}

/// The end of the first of three spellings that stands at `i`.
fn alias3(s: &[char], i: usize, a: &str, b: &str, c: &str) -> (r: Option<usize>)
    ensures
        match r {
            Some(e) => first_alias(s@, i as int, seq![a@, b@, c@]) == Some(e as int) && e <= s@.len(),
            None => first_alias(s@, i as int, seq![a@, b@, c@]) is None,
        },
{
    let ghost lits = seq![a@, b@, c@];
    proof {
        reveal_with_fuel(first_alias, 4);
    }
    assert(lits.drop_first() =~= seq![b@, c@]);
    assert(lits.drop_first().drop_first() =~= seq![c@]);
    assert(lits.drop_first().drop_first().drop_first() =~= Seq::<Seq<char>>::empty());
    let n = s.len();
    if lit_at_exec(s, i, a) {
        assert(i + a@.len() <= n);
        Some(i + chars_of(a).len())
    } else if lit_at_exec(s, i, b) {
        assert(i + b@.len() <= n);
        Some(i + chars_of(b).len())
    } else if lit_at_exec(s, i, c) {
        assert(i + c@.len() <= n);
        Some(i + chars_of(c).len())
    } else {
        None
    }
}

fn in_run_exec(k: Run, c: char) -> (r: bool)
    ensures
        r == in_run(k, c),
{
    match k {
        Run::Word => ('a' <= c && c <= 'z') || ('0' <= c && c <= '9') || c == '{' || c == '}' || c
            == '\'' || c == '.' || c == '_',
        Run::Color => c == 'c' || c == 'w' || c == 'u' || c == 'b' || c == 'g' || c == 'r',
        Run::Digit => '0' <= c && c <= '9',
    }
}

/// The first position at or after `i` that does not continue the run.
fn run_end_exec(s: &[char], i: usize, k: Run) -> (r: usize)
    requires
        i <= s@.len(),
    ensures
        r == run_end(s@, i as int, k),
        i <= r <= s@.len(),
{
    let mut j = i;
    while j < s.len() && in_run_exec(k, s[j])
        invariant
            i <= j <= s@.len(),
            run_end(s@, j as int, k) == run_end(s@, i as int, k),
        decreases s.len() - j,
    {
        j += 1;
    }
    j
}

/// A word at `i`.
fn word_at_exec(s: &[char], i: usize) -> (r: Option<usize>)
    requires
        i <= s@.len(),
    ensures
        match r {
            Some(e) => word_at(s@, i as int) == Some(e as int) && i < e <= s@.len(),
            None => word_at(s@, i as int) is None,
        },
{
    let k = if i < s.len() && s[i] == '!' {
        i + 1
    } else {
        i
    };
    let e = run_end_exec(s, k, Run::Word);
    if e > k {
        Some(e)
    } else {
        None
    }
}

/// The end of a phrase's text.
fn phrase_body_exec(s: &[char], i: usize) -> (r: usize)
    requires
        i <= s@.len(),
    ensures
        r == phrase_body(s@, i as int),
        i <= r <= s@.len(),
{
    let mut j = i;
    loop
        invariant
            i <= j <= s@.len(),
            phrase_body(s@, j as int) == phrase_body(s@, i as int),
        decreases s@.len() - j,
    {
        match word_at_exec(s, j) {
            Some(e) => {
                j = e;
            },
            None => {
                if j < s.len() && (s[j] == ' ' || s[j] == '+' || s[j] == ':' || s[j] == '/') {
                    j += 1;
                } else {
                    return j;
                }
            },
        }
    }
}

/// A phrase at `i`.
fn phrase_at_exec(s: &[char], i: usize) -> (r: Option<usize>)
    requires
        i <= s@.len(),
    ensures
        match r {
            Some(e) => phrase_at(s@, i as int) == Some(e as int) && i < e <= s@.len(),
            None => phrase_at(s@, i as int) is None,
        },
{
    let k = if i < s.len() && s[i] == '!' {
        i + 1
    } else {
        i
    };
    if k < s.len() && s[k] == '"' {
        let b = phrase_body_exec(s, k + 1);
        if b > k + 1 && b < s.len() && s[b] == '"' {
            Some(b + 1)
        } else {
            None
        }
    } else {
        None
    }
}

/// An item of a group at `i`.
fn item_at_exec(s: &[char], i: usize, words_only: bool) -> (r: Option<usize>)
    requires
        i <= s@.len(),
    ensures
        match r {
            Some(e) => item_at(s@, i as int, words_only) == Some(e as int) && i < e <= s@.len(),
            None => item_at(s@, i as int, words_only) is None,
        },
{
    if words_only {
        word_at_exec(s, i)
    } else {
        match word_at_exec(s, i) {
            Some(e) => Some(e),
            None => phrase_at_exec(s, i),
        }
    }
}

/// A phrase, else a word, at `i`.
fn phrase_or_word_exec(s: &[char], i: usize) -> (r: Option<usize>)
    requires
        i <= s@.len(),
    ensures
        match r {
            Some(e) => phrase_or_word(s@, i as int) == Some(e as int) && i < e <= s@.len(),
            None => phrase_or_word(s@, i as int) is None,
        },
{
    match phrase_at_exec(s, i) {
        Some(e) => Some(e),
        None => word_at_exec(s, i),
    }
}

/// The characters of `s` from `a` to `b`.
fn slice(s: &[char], a: usize, b: usize) -> (r: Vec<char>)
    requires
        a <= b <= s@.len(),
    ensures
        r@ == s@.subrange(a as int, b as int),
{
    let mut r: Vec<char> = Vec::new();
    let mut k = a;
    while k < b
        invariant
            a <= k <= b <= s@.len(),
            r@ == s@.subrange(a as int, k as int),
        decreases b - k,
    {
        r.push(s[k]);
        assert(r@ =~= s@.subrange(a as int, k + 1));
        k += 1;
    }
    r
}

/// A group at `i`: its items and the position after it.
fn group_at_exec(s: &[char], i: usize, words_only: bool) -> (r: (Vec<Vec<char>>, usize))
    requires
        i <= s@.len(),
    ensures
        group_at(s@, i as int, words_only) == (vv(r.0@), r.1 as int),
        i <= r.1 <= s@.len(),
{
    match item_at_exec(s, i, words_only) {
        Some(e) => {
            let mut acc: Vec<Vec<char>> = Vec::new();
            acc.push(slice(s, i, e));
            assert(vv(acc@) =~= seq![s@.subrange(i as int, e as int)]);
            let mut j = e;
            loop
                invariant
                    i < j <= s@.len(),
                    group_at(s@, i as int, words_only) == group_rest(s@, j as int, words_only, vv(acc@)),
                decreases s@.len() - j,
            {
                if j < s.len() && (s[j] == '+' || s[j] == '&') {
                    match item_at_exec(s, j + 1, words_only) {
                        Some(e2) => {
                            let ghost before = acc@;
                            acc.push(slice(s, j + 1, e2));
                            assert(vv(acc@) =~= vv(before).push(s@.subrange(j + 1, e2 as int)));
                            j = e2;
                        },
                        None => {
                            return (acc, j);
                        },
                    }
                } else {
                    return (acc, j);
                }
            }
        },
        None => (Vec::new(), i),
    }
}

/// Groups at `i`, each written with its items joined by `&`.
fn groups_at_exec(s: &[char], i: usize, words_only: bool, or: bool) -> (r: (Vec<Vec<char>>, usize))
    requires
        i <= s@.len(),
    ensures
        groups_at(s@, i as int, words_only, or) == (vv(r.0@), r.1 as int),
        i <= r.1 <= s@.len(),
{
    proof {
        reveal_strlit("&");
    }
    let amp = chars_of("&");
    let (g, e) = group_at_exec(s, i, words_only);
    let mut acc: Vec<Vec<char>> = Vec::new();
    acc.push(crate::text::join_chars(&g, &amp));
    assert(vv(acc@) =~= seq![join_spec(vv(g@), "&"@)]);
    let mut j = e;
    loop
        invariant
            i <= j <= s@.len(),
            amp@ == "&"@,
            groups_at(s@, i as int, words_only, or) == groups_rest(s@, j as int, words_only, or, vv(acc@)),
        decreases s@.len() - j,
    {
        let sep = j < s.len() && (if or {
            s[j] == '|' || s[j] == '/'
        } else {
            s[j] == '+' || s[j] == '&'
        });
        if sep {
            let (g2, e2) = group_at_exec(s, j + 1, words_only);
            let ghost before = acc@;
            acc.push(crate::text::join_chars(&g2, &amp));
            assert(vv(acc@) =~= vv(before).push(join_spec(vv(g2@), "&"@)));
            j = e2;
        } else {
            return (acc, j);
        }
    }
}

/// Runs of color letters at `i`.
fn colors_at_exec(s: &[char], i: usize) -> (r: (Vec<Vec<char>>, usize))
    requires
        i <= s@.len(),
    ensures
        colors_at(s@, i as int) == (vv(r.0@), r.1 as int),
        i <= r.1 <= s@.len(),
{
    let e = run_end_exec(s, i, Run::Color);
    if e <= i {
        return (Vec::new(), i);
    }
    let mut acc: Vec<Vec<char>> = Vec::new();
    acc.push(slice(s, i, e));
    assert(vv(acc@) =~= seq![s@.subrange(i as int, e as int)]);
    let mut j = e;
    loop
        invariant
            i < j <= s@.len(),
            colors_at(s@, i as int) == colors_rest(s@, j as int, vv(acc@)),
        decreases s@.len() - j,
    {
        if j < s.len() && (s[j] == '|' || s[j] == '/') {
            let e2 = run_end_exec(s, j + 1, Run::Color);
            if e2 > j + 1 {
                let ghost before = acc@;
                acc.push(slice(s, j + 1, e2));
                assert(vv(acc@) =~= vv(before).push(s@.subrange(j + 1, e2 as int)));
                j = e2;
            } else {
                return (acc, j);
            }
        } else {
            return (acc, j);
        }
    }
}

/// A mana value at `i`.
fn number_range_exec(s: &[char], i: usize) -> (r: Option<usize>)
    requires
        i <= s@.len(),
    ensures
        match r {
            Some(e) => number_range_at(s@, i as int) == Some(e as int) && i < e <= s@.len(),
            None => number_range_at(s@, i as int) is None,
        },
{
    if i >= s.len() {
        return None;
    }
    if s[i] == '-' || s[i] == '>' || s[i] == '<' {
        let e = run_end_exec(s, i + 1, Run::Digit);
        if e > i + 1 {
            Some(e)
        } else {
            None
        }
    } else {
        let e = run_end_exec(s, i, Run::Digit);
        if e == i {
            None
        } else {
            let e2 = if e < s.len() && s[e] == '-' {
                e + 1
            } else {
                e
            };
            Some(run_end_exec(s, e2, Run::Digit))
        }
    }
}

/// The end of a power or toughness value at `i`.
fn stat_end_exec(s: &[char], i: usize) -> (r: usize)
    requires
        i <= s@.len(),
    ensures
        r == stat_end(s@, i as int),
        i <= r <= s@.len(),
{
    let e = run_end_exec(s, i, Run::Digit);
    let e2 = if e < s.len() && s[e] == '-' {
        e + 1
    } else {
        e
    };
    run_end_exec(s, e2, Run::Digit)
}

/// A sort value at `i`.
fn sort_value_exec(s: &[char], i: usize) -> (r: Option<usize>)
    requires
        i <= s@.len(),
    ensures
        match r {
            Some(e) => sort_value_at(s@, i as int) == Some(e as int) && i < e <= s@.len(),
            None => sort_value_at(s@, i as int) is None,
        },
{
    proof {
        reveal_strlit("name");
        reveal_strlit("cmc");
    }
    if i < s.len() && (s[i] == '+' || s[i] == '-') {
        if lit_at_exec(s, i + 1, "name") {
            Some(i + 5)
        } else if lit_at_exec(s, i + 1, "cmc") {
            Some(i + 4)
        } else {
            None
        }
    } else {
        None
    }
}

/// A key followed by `:` at `i`, given where the key ends.
fn then_colon(s: &[char], a: Option<usize>) -> (r: Option<usize>)
    requires
        a matches Some(x) ==> x <= s@.len(),
    ensures
        match a {
            Some(x) => if x < s@.len() && s@[x as int] == ':' {
                r is Some && r->0 == x + 1
            } else {
                r is None
            },
            None => r is None,
        },
{
    match a {
        Some(x) => {
            if x < s.len() && s[x] == ':' {
                Some(x + 1)
            } else {
                None
            }
        },
        None => None,
    }
}

proof fn lemma_groups_rest_len(s: Seq<char>, j: int, words_only: bool, or: bool, acc: Seq<Seq<char>>)
    ensures
        groups_rest(s, j, words_only, or, acc).0.len() >= acc.len(),
        acc.len() > 0 ==> groups_rest(s, j, words_only, or, acc).0[0] == acc[0],
    decreases s.len() - j,
{
    if 0 <= j < s.len() && (if or { is_or(s[j]) } else { is_and(s[j]) }) {
        let (g, e) = group_at(s, j + 1, words_only);
        if j + 1 <= e <= s.len() {
            lemma_groups_rest_len(s, e, words_only, or, acc.push(join_spec(g, "&"@)));
        }
    }
}

/// The view of a read field.
pub open spec fn field_view(r: Option<(Option<(Vec<char>, Vec<char>)>, usize)>) -> Option<(Option<(Seq<char>, Seq<char>)>, int)> {
    match r {
        Some((rec, e)) => Some((match rec {
            Some((k, v)) => Some((k@, v@)),
            None => None,
        }, e as int)),
        None => None,
    }
}

/// Whether a list of groups starts with a non-empty one.
fn first_nonempty(gs: &Vec<Vec<char>>) -> (r: bool)
    ensures
        gs@.len() > 0 ==> r == (gs@[0]@.len() > 0),
{
    gs.len() > 0 && gs[0].len() > 0
}

/// A group-valued field whose key is one of `a` and `b`.
fn grouped_exec(s: &[char], i: usize, a: &str, b: &str, key: &str, words_only: bool, or: bool, always: bool) -> (r: Option<(Option<(Vec<char>, Vec<char>)>, usize)>)
    requires
        i <= s@.len(),
    ensures
        field_view(r) == grouped_field(s@, i as int, seq![a@, b@], key@, words_only, or, always),
        r matches Some((_, e)) ==> e <= s@.len(),
{
    proof {
        reveal_strlit("|");
    }
    let bar = chars_of("|");
    match then_colon(s, alias2(s, i, a, b)) {
        Some(x) => {
            let (gs, e) = groups_at_exec(s, x, words_only, or);
            proof {
                lemma_groups_rest_len(s@, group_at(s@, x as int, words_only).1, words_only, or, seq![join_spec(group_at(s@, x as int, words_only).0, "&"@)]);
            }
            let rec = if always || first_nonempty(&gs) {
                Some((chars_of(key), crate::text::join_chars(&gs, &bar)))
            } else {
                None
            };
            Some((rec, e))
        },
        None => None,
    }
}

/// A color-valued field whose key is found by `alias`.
fn colored_exec(s: &[char], x: Option<usize>, key: &str) -> (r: Option<(Option<(Vec<char>, Vec<char>)>, usize)>)
    requires
        x matches Some(a) ==> a <= s@.len(),
    ensures
        match x {
            Some(a) => if a < s@.len() && s@[a as int] == ':' {
                let (cs, e) = colors_at(s@, a + 1);
                field_view(r) == Some((if cs.len() > 0 { Some((key@, join_spec(cs, "|"@))) } else { None }, e))
            } else {
                r is None
            },
            None => r is None,
        },
        r matches Some((_, e)) ==> e <= s@.len(),
{
    proof {
        reveal_strlit("|");
    }
    let bar = chars_of("|");
    match then_colon(s, x) {
        Some(a) => {
            let (cs, e) = colors_at_exec(s, a);
            let rec = if cs.len() > 0 {
                Some((chars_of(key), crate::text::join_chars(&cs, &bar)))
            } else {
                None
            };
            Some((rec, e))
        },
        None => None,
    }
}

/// A power or toughness field whose key is one of `a` and `b`.
fn stat_exec(s: &[char], i: usize, a: &str, b: &str, key: &str) -> (r: Option<(Option<(Vec<char>, Vec<char>)>, usize)>)
    requires
        i <= s@.len(),
    ensures
        field_view(r) == stat_field(s@, i as int, seq![a@, b@], key@),
        r matches Some((_, e)) ==> e <= s@.len(),
{
    match then_colon(s, alias2(s, i, a, b)) {
        Some(x) => {
            let e = stat_end_exec(s, x);
            let rec = if e > x {
                Some((chars_of(key), slice(s, x, e)))
            } else {
                None
            };
            Some((rec, e))
        },
        None => None,
    }
}

/// The `cmc:` field.
fn cmc_exec(s: &[char], i: usize) -> (r: Option<(Option<(Vec<char>, Vec<char>)>, usize)>)
    requires
        i <= s@.len(),
    ensures
        field_view(r) == cmc_field(s@, i as int),
        r matches Some((_, e)) ==> e <= s@.len(),
{
    proof {
        reveal_strlit("cmc:");
    }
    let n = s.len();
    if lit_at_exec(s, i, "cmc:") {
        assert(i + 4 <= n);
        match number_range_exec(s, i + 4) {
            Some(e) => Some((Some((chars_of("cmc"), slice(s, i + 4, e))), e)),
            None => None,
        }
    } else {
        None
    }
}

/// The `sort:` field.
fn sort_exec(s: &[char], i: usize) -> (r: Option<(Option<(Vec<char>, Vec<char>)>, usize)>)
    requires
        i <= s@.len(),
    ensures
        field_view(r) == sort_field(s@, i as int),
        r matches Some((_, e)) ==> e <= s@.len(),
{
    proof {
        reveal_strlit("sort:");
    }
    let n = s.len();
    if lit_at_exec(s, i, "sort:") {
        assert(i + 5 <= n);
        match sort_value_exec(s, i + 5) {
            Some(e) => Some((Some((chars_of("sort"), slice(s, i + 5, e))), e)),
            None => None,
        }
    } else {
        None
    }
}

/// A name field.
fn name_exec(s: &[char], i: usize) -> (r: Option<(Option<(Vec<char>, Vec<char>)>, usize)>)
    requires
        i <= s@.len(),
    ensures
        field_view(r) == name_field(s@, i as int),
        r matches Some((_, e)) ==> e <= s@.len(),
{
    let a = match alias2(s, i, "name:", "n:") {
        Some(a) => a,
        None => i,
    };
    match phrase_or_word_exec(s, a) {
        Some(e) => Some((Some((chars_of("name"), slice(s, a, e))), e)),
        None => None,
    }
}

/// A field read at `i`.
fn field_at_exec(s: &[char], i: usize) -> (r: Option<(Option<(Vec<char>, Vec<char>)>, usize)>)
    requires
        i <= s@.len(),
    ensures
        field_view(r) == field_at(s@, i as int),
        r matches Some((_, e)) ==> e <= s@.len(),
{
    let r = grouped_exec(s, i, "text", "te", "text", false, true, false);
    if r.is_some() {
        return r;
    }
    let r = grouped_exec(s, i, "tag", "tags", "tag", false, false, true);
    if r.is_some() {
        return r;
    }
    let r = colored_exec(s, alias2(s, i, "color", "c"), "color");
    if r.is_some() {
        return r;
    }
    let r = grouped_exec(s, i, "type", "ty", "type", true, true, false);
    if r.is_some() {
        return r;
    }
    let r = cmc_exec(s, i);
    if r.is_some() {
        return r;
    }
    let r = colored_exec(s, alias3(s, i, "color_identity", "coloridentity", "ci"), "color_identity");
    if r.is_some() {
        return r;
    }
    let r = stat_exec(s, i, "power", "p", "power");
    if r.is_some() {
        return r;
    }
    let r = stat_exec(s, i, "toughness", "t", "toughness");
    if r.is_some() {
        return r;
    }
    let r = sort_exec(s, i);
    if r.is_some() {
        return r;
    }
    name_exec(s, i)
}

/// The views of key and value pairs.
pub open spec fn pairs_view(m: Seq<(String, String)>) -> Seq<(Seq<char>, Seq<char>)> {
    m.map_values(|p: (String, String)| (p.0@, p.1@))
}

proof fn lemma_set_value_at(m: Seq<(Seq<char>, Seq<char>)>, k: Seq<char>, v: Seq<char>, j: int)
    requires
        0 <= j <= m.len(),
        forall|x: int| 0 <= x < j ==> m[x].0 != k,
        j < m.len() ==> m[j].0 == k,
    ensures
        j < m.len() ==> set_value(m, k, v) == m.update(j, (k, v)),
        j == m.len() ==> set_value(m, k, v) == m.push((k, v)),
    decreases j,
{
    if j == 0 {
        if m.len() == 0 {
            assert(set_value(m, k, v) =~= m.push((k, v)));
        }
    } else {
        lemma_set_value_at(m.drop_first(), k, v, j - 1);
        if j < m.len() {
            assert(seq![m[0]] + m.drop_first().update(j - 1, (k, v)) =~= m.update(j, (k, v)));
        } else {
            assert(seq![m[0]] + m.drop_first().push((k, v)) =~= m.push((k, v)));
        }
    }
}

/// Sets field `k` to `v`.
pub(crate) fn set_value_exec(m: &mut Vec<(String, String)>, k: String, v: String)
    ensures
        pairs_view(final(m)@) == set_value(pairs_view(old(m)@), k@, v@),
{
    let ghost m0 = pairs_view(m@);
    let mut j: usize = 0;
    while j < m.len()
        invariant
            j <= m@.len(),
            m@ == old(m)@,
            m0 == pairs_view(m@),
            forall|x: int| 0 <= x < j ==> m@[x].0@ != k@,
        decreases m.len() - j,
    {
        if str_eq_pub(m[j].0.as_str(), k.as_str()) {
            proof {
                lemma_set_value_at(m0, k@, v@, j as int);
            }
            m.remove(j);
            m.insert(j, (k, v));
            assert(pairs_view(m@) =~= m0.update(j as int, (k@, v@)));
            return;
        }
        j += 1;
    }
    proof {
        lemma_set_value_at(m0, k@, v@, j as int);
    }
    let ghost kv = (k@, v@);
    m.push((k, v));
    assert(pairs_view(m@) =~= m0.push(kv));
}

fn str_eq_pub(a: &str, b: &str) -> (r: bool)
    ensures
        r == (a@ == b@),
{
    crate::text::str_eq(a, b)
}

/// No two entries share a key.
pub open spec fn keys_distinct(m: Seq<(Seq<char>, Seq<char>)>) -> bool {
    forall|a: int, b: int| 0 <= a < b < m.len() ==> #[trigger] m[a].0 != #[trigger] m[b].0
}

/// Setting a field twice keeps only the later value: the result is as if
/// the earlier value had never been set.
pub proof fn lemma_set_value_replaces(m: Seq<(Seq<char>, Seq<char>)>, k: Seq<char>, v1: Seq<char>, v2: Seq<char>)
    ensures
        set_value(set_value(m, k, v1), k, v2) == set_value(m, k, v2),
    decreases m.len(),
{
    if m.len() == 0 {
        assert(set_value(seq![(k, v1)], k, v2) =~= seq![(k, v2)]);
    } else if m[0].0 == k {
        let m1 = m.update(0, (k, v1));
        assert(m1.update(0, (k, v2)) =~= m.update(0, (k, v2)));
    } else {
        lemma_set_value_replaces(m.drop_first(), k, v1, v2);
        let m1 = seq![m[0]] + set_value(m.drop_first(), k, v1);
        assert(m1[0] == m[0]);
        assert(m1.drop_first() =~= set_value(m.drop_first(), k, v1));
    }
}

/// The keys after setting a value: those before, and `k`.
proof fn lemma_set_value_keys(m: Seq<(Seq<char>, Seq<char>)>, k: Seq<char>, v: Seq<char>)
    ensures
        forall|j: int| 0 <= j < set_value(m, k, v).len() ==> (set_value(m, k, v)[j].0 == k
            || exists|i: int| 0 <= i < m.len() && m[i].0 == #[trigger] set_value(m, k, v)[j].0),
        keys_distinct(m) ==> keys_distinct(set_value(m, k, v)),
    decreases m.len(),
{
    if m.len() > 0 && m[0].0 != k {
        let rest = set_value(m.drop_first(), k, v);
        lemma_set_value_keys(m.drop_first(), k, v);
        let r = set_value(m, k, v);
        assert(r == seq![m[0]] + rest);
        assert forall|j: int| 0 <= j < r.len() implies (r[j].0 == k || exists|i: int|
            0 <= i < m.len() && m[i].0 == #[trigger] r[j].0) by {
            if j == 0 {
                assert(m[0].0 == r[0].0);
            } else {
                assert(r[j] == rest[j - 1]);
                if rest[j - 1].0 != k {
                    let i = choose|i: int| 0 <= i < m.drop_first().len() && m.drop_first()[i].0 == rest[j - 1].0;
                    assert(m[i + 1].0 == r[j].0);
                }
            }
        }
        if keys_distinct(m) {
            assert(keys_distinct(m.drop_first())) by {
                assert forall|a: int, b: int| 0 <= a < b < m.drop_first().len() implies #[trigger] m.drop_first()[a].0
                    != #[trigger] m.drop_first()[b].0 by {
                    assert(m.drop_first()[a] == m[a + 1] && m.drop_first()[b] == m[b + 1]);
                }
            }
            assert forall|a: int, b: int| 0 <= a < b < r.len() implies #[trigger] r[a].0 != #[trigger] r[b].0 by {
                if a == 0 {
                    assert(r[b] == rest[b - 1]);
                    if rest[b - 1].0 == k {
                    } else {
                        let i = choose|i: int| 0 <= i < m.drop_first().len() && m.drop_first()[i].0 == rest[b - 1].0;
                        assert(m[0].0 != m[i + 1].0);
                    }
                } else {
                    assert(r[a] == rest[a - 1] && r[b] == rest[b - 1]);
                }
            }
        }
    } else if m.len() > 0 {
        let r = set_value(m, k, v);
        assert forall|j: int| 0 <= j < r.len() implies (r[j].0 == k || exists|i: int|
            0 <= i < m.len() && m[i].0 == #[trigger] r[j].0) by {
            if j != 0 {
                assert(m[j].0 == r[j].0);
            }
        }
        if keys_distinct(m) {
            assert forall|a: int, b: int| 0 <= a < b < r.len() implies #[trigger] r[a].0 != #[trigger] r[b].0 by {
                if a == 0 {
                    assert(m[0].0 != m[b].0);
                }
            }
        }
    } else {
        let r = set_value(m, k, v);
        assert(r =~= seq![(k, v)]);
    }
}

/// Reading fields keeps the keys distinct.
proof fn lemma_read_fields_distinct(s: Seq<char>, i: int, m: Seq<(Seq<char>, Seq<char>)>)
    requires
        keys_distinct(m),
    ensures
        keys_distinct(read_fields(s, i, m)),
    decreases s.len() - i,
{
    if 0 <= i < s.len() {
        match field_at(s, i) {
            Some((rec, e)) => {
                if i < e <= s.len() {
                    match rec {
                        Some((k, v)) => {
                            lemma_set_value_keys(m, k, v);
                            lemma_read_fields_distinct(s, e, set_value(m, k, v));
                        },
                        None => {
                            lemma_read_fields_distinct(s, e, m);
                        },
                    }
                }
            },
            None => {
                if s[i] == ' ' {
                    lemma_read_fields_distinct(s, i + 1, m);
                }
            },
        }
    }
}

/// A query gives each field at most one value.
pub proof fn lemma_omni_keys_distinct(s: Seq<char>)
    ensures
        keys_distinct(omni_fields(s)),
{
    lemma_read_fields_distinct(s, 0, Seq::<(Seq<char>, Seq<char>)>::empty());
}

/// A field read at `i` records a `sort` value only from the `sort:` field,
/// whose value starts with `+` or `-`.
proof fn lemma_field_at_sort(s: Seq<char>, i: int)
    ensures
        field_at(s, i) matches Some((Some((k, v)), _)) ==> (k == "sort"@ ==> leads_with_ascii(v)),
{
    reveal_strlit("sort");
    reveal_strlit("text");
    reveal_strlit("tag");
    reveal_strlit("color");
    reveal_strlit("type");
    reveal_strlit("cmc");
    reveal_strlit("color_identity");
    reveal_strlit("power");
    reveal_strlit("toughness");
    reveal_strlit("name");
    reveal_strlit("sort:");
    assert("text"@[0] != "sort"@[0]);
    assert("tag"@.len() != "sort"@.len());
    assert("color"@.len() != "sort"@.len());
    assert("type"@[0] != "sort"@[0]);
    assert("cmc"@.len() != "sort"@.len());
    assert("color_identity"@.len() != "sort"@.len());
    assert("power"@.len() != "sort"@.len());
    assert("toughness"@.len() != "sort"@.len());
    assert("name"@[0] != "sort"@[0]);
    if let Some((Some((k, v)), _)) = sort_field(s, i) {
        let e = sort_value_at(s, i + 5).unwrap();
        assert(v == s.subrange(i + 5, e));
        assert(v[0] == s[i + 5]);
        assert(('+' as u32) < 128 && ('-' as u32) < 128);
    }
}

/// Setting a value keeps each `sort` value led by a one-byte character
/// when the new one is.
proof fn lemma_set_value_sorts(m: Seq<(Seq<char>, Seq<char>)>, k: Seq<char>, v: Seq<char>)
    requires
        sorts_well_formed(m),
        k == "sort"@ ==> leads_with_ascii(v),
    ensures
        sorts_well_formed(set_value(m, k, v)),
    decreases m.len(),
{
    if m.len() > 0 && m[0].0 != k {
        assert(sorts_well_formed(m.drop_first())) by {
            assert forall|j: int| 0 <= j < m.drop_first().len() && #[trigger] m.drop_first()[j].0 == "sort"@
                implies leads_with_ascii(m.drop_first()[j].1) by {
                assert(m.drop_first()[j] == m[j + 1]);
            }
        }
        lemma_set_value_sorts(m.drop_first(), k, v);
        let r = set_value(m, k, v);
        assert forall|j: int| 0 <= j < r.len() && #[trigger] r[j].0 == "sort"@ implies leads_with_ascii(r[j].1) by {
            if j == 0 {
                assert(r[0] == m[0]);
            } else {
                assert(r[j] == set_value(m.drop_first(), k, v)[j - 1]);
            }
        }
    } else if m.len() > 0 {
        let r = set_value(m, k, v);
        assert forall|j: int| 0 <= j < r.len() && #[trigger] r[j].0 == "sort"@ implies leads_with_ascii(r[j].1) by {
            if j != 0 {
                assert(r[j] == m[j]);
            }
        }
    }
}

/// Every `sort` value a query gives is led by a one-byte character.
proof fn lemma_read_fields_sorts(s: Seq<char>, i: int, m: Seq<(Seq<char>, Seq<char>)>)
    requires
        sorts_well_formed(m),
    ensures
        sorts_well_formed(read_fields(s, i, m)),
    decreases s.len() - i,
{
    if 0 <= i < s.len() {
        match field_at(s, i) {
            Some((rec, e)) => {
                if i < e <= s.len() {
                    match rec {
                        Some((k, v)) => {
                            lemma_field_at_sort(s, i);
                            lemma_set_value_sorts(m, k, v);
                            lemma_read_fields_sorts(s, e, set_value(m, k, v));
                        },
                        None => {
                            lemma_read_fields_sorts(s, e, m);
                        },
                    }
                }
            },
            None => {
                if s[i] == ' ' {
                    lemma_read_fields_sorts(s, i + 1, m);
                }
            },
        }
    }
}

impl CardFilter {
    /// Reads a query into one value per field, in the order the fields were
    /// first read.
    pub fn parse_omni(omni: &str) -> (r: Vec<(String, String)>)
        ensures
            sorts_well_formed(pairs_view(r@)),
            pairs_view(r@) == omni_fields(omni@),
    {
        let s = chars_of(omni);
        let mut m: Vec<(String, String)> = Vec::new();
        let mut i: usize = 0;
        assert(pairs_view(m@) =~= Seq::<(Seq<char>, Seq<char>)>::empty());
        proof {
            lemma_read_fields_sorts(s@, 0, Seq::<(Seq<char>, Seq<char>)>::empty());
        }
        loop
            invariant
                sorts_well_formed(omni_fields(s@)),
                i <= s@.len(),
                s@ == omni@,
                omni_fields(s@) == read_fields(s@, i as int, pairs_view(m@)),
            decreases s@.len() - i,
        {
            if i >= s.len() {
                return m;
            }
            match field_at_exec(&s, i) {
                Some((rec, e)) => {
                    if i < e && e <= s.len() {
                        match rec {
                            Some((k, v)) => {
                                set_value_exec(&mut m, string_of(&k), string_of(&v));
                            },
                            None => {},
                        }
                        i = e;
                    } else {
                        return m;
                    }
                },
                None => {
                    if s[i] == ' ' {
                        i += 1;
                    } else {
                        return m;
                    }
                },
            }
        }
    }
}

/// `s` without leading and trailing `"` (`str::trim_matches('"')`).
pub open spec fn trim_quotes(s: Seq<char>) -> Seq<char> {
    trim_quotes_end(trim_quotes_start(s))
}

pub open spec fn trim_quotes_start(s: Seq<char>) -> Seq<char>
    decreases s.len(),
{
    if s.len() > 0 && s[0] == '"' {
        trim_quotes_start(s.drop_first())
    } else {
        s
    }
}

pub open spec fn trim_quotes_end(s: Seq<char>) -> Seq<char>
    decreases s.len(),
{
    if s.len() > 0 && s.last() == '"' {
        trim_quotes_end(s.drop_last())
    } else {
        s
    }
}

/// The colors missing from the commanders' identities: `WUBRG` with each
/// identity entry taken out.
pub open spec fn missing_colors(base: Seq<char>, cis: Seq<Seq<char>>) -> Seq<char>
    decreases cis.len(),
{
    if cis.len() == 0 {
        base
    } else {
        replace_spec(missing_colors(base, cis.drop_last()), cis.last(), Seq::<char>::empty())
    }
}

/// The condition for one text item, or nothing for an empty one (or one
/// not led by a one-byte character).
pub open spec fn text_item(te: Seq<char>) -> Option<Seq<char>> {
    if !leads_with_ascii(te) {
        None
    } else if te[0] == '!' {
        Some("card_text NOT LIKE \"%"@ + trim_quotes(te.drop_first()) + "%\""@)
    } else {
        Some("card_text LIKE \"%"@ + trim_quotes(te) + "%\""@)
    }
}

/// The items kept, in order.
pub open spec fn kept(items: Seq<Option<Seq<char>>>) -> Seq<Seq<char>>
    decreases items.len(),
{
    if items.len() == 0 {
        Seq::<Seq<char>>::empty()
    } else {
        match items.last() {
            Some(x) => kept(items.drop_last()).push(x),
            None => kept(items.drop_last()),
        }
    }
}

/// A group's conditions ANDed in brackets, or nothing when it has none.
pub open spec fn bracketed(conds: Seq<Seq<char>>) -> Option<Seq<char>> {
    if conds.len() == 0 {
        None
    } else {
        Some("("@ + join_spec(conds, " AND "@) + ")"@)
    }
}

/// The text condition of one `|` group.
pub open spec fn text_group_sql(teg: Seq<char>) -> Option<Seq<char>> {
    bracketed(kept(split_spec(teg, '&').map_values(|te: Seq<char>| text_item(te))))
}

/// The card type a one-letter type abbreviation stands for.
pub open spec fn full_type(ty: Seq<char>) -> Seq<char> {
    crate::omni::expand_type(ty)
}

/// The conditions for one type item.
pub open spec fn type_item(ty0: Seq<char>) -> Seq<Seq<char>> {
    let (relation, ty) = if !leads_with_ascii(ty0) {
        (""@, ty0)
    } else if ty0[0] == '!' {
        ("NOT LIKE"@, ty0.drop_first())
    } else {
        ("LIKE"@, ty0)
    };
    if ty == "per"@ {
        seq!["types NOT LIKE '%instant%'"@, "types NOT LIKE '%sorcery%'"@]
    } else if ty.len() == 0 {
        Seq::<Seq<char>>::empty()
    } else {
        seq!["types "@ + relation + " '%"@ + full_type(ty) + "%'"@]
    }
}

/// All conditions of a sequence of type items.
pub open spec fn type_items(tys: Seq<Seq<char>>) -> Seq<Seq<char>>
    decreases tys.len(),
{
    if tys.len() == 0 {
        Seq::<Seq<char>>::empty()
    } else {
        type_items(tys.drop_last()) + type_item(tys.last())
    }
}

/// The type condition of one `|` group.
pub open spec fn type_group_sql(tyg: Seq<char>) -> Option<Seq<char>> {
    bracketed(type_items(split_spec(tyg, '&')))
}

/// The conditions of a color group read from `i`, with `relation` the
/// comparison in force (`!` switches it to exclusion).
pub open spec fn color_items(cg: Seq<char>, col: Seq<char>, relation: Seq<char>) -> Seq<Seq<char>>
    decreases cg.len(),
{
    if cg.len() == 0 {
        Seq::<Seq<char>>::empty()
    } else {
        let c = cg[0];
        let rest = cg.drop_first();
        if c == '!' {
            color_items(rest, col, "="@)
        } else {
            let item = if c == 'w' || c == 'u' || c == 'b' || c == 'r' || c == 'g' {
                "instr("@ + col + ", '"@ + seq![crate::omni::upper_letter(c)] + "') "@ + relation + " 0"@
            } else if c == 'c' {
                col + " REGEXP '^[^WUBRG]*$'"@
            } else {
                Seq::<char>::empty()
            };
            seq![item] + color_items(rest, col, relation)
        }
    }
}

/// The color condition of one `|` group.
pub open spec fn color_group_sql(cg: Seq<char>, col: Seq<char>) -> Seq<char> {
    "("@ + join_spec(color_items(cg, col, ">"@), " AND "@) + ")"@
}

/// The mana value condition.
pub open spec fn cmc_lines(v: Seq<char>) -> Seq<Seq<char>> {
    if !leads_with_ascii(v) {
        Seq::<Seq<char>>::empty()
    } else if v[0] == '>' {
        seq!["AND cmc > "@ + v.drop_first()]
    } else if v[0] == '<' {
        seq!["AND cmc < "@ + v.drop_first()]
    } else if v[0] == '-' {
        seq!["AND cmc <= "@ + v.drop_first()]
    } else {
        match crate::cards::split_once_spec(v, "-"@) {
            Some((min, max_raw)) => seq!["AND (cmc >= "@ + min + " AND cmc <= "@ + (if max_raw.len()
                == 0 {
                "1000"@
            } else {
                max_raw
            }) + ")"@],
            None => seq!["AND cmc = "@ + v],
        }
    }
}

/// The lines a field's value adds to the filter.
pub open spec fn field_lines(k: Seq<char>, v: Seq<char>) -> Seq<Seq<char>> {
    if k == "name"@ {
        seq!["AND (cards.name LIKE \"%"@ + trim_quotes(v) + "%\")"@]
    } else if k == "tag"@ {
        seq!["AND tags IS NOT NULL"@] + split_spec(v, '&').map_values(
            |t: Seq<char>| "AND tags REGEXP '\\|?"@ + t + "(?:$|\\|)'"@,
        )
    } else if k == "text"@ {
        seq!["AND ("@ + join_spec(kept(split_spec(v, '|').map_values(|g: Seq<char>| text_group_sql(g))), " OR "@) + ")"@]
    } else if k == "color"@ {
        seq!["AND ("@ + join_spec(split_spec(v, '|').map_values(|g: Seq<char>| color_group_sql(g, "mana_cost"@)), " OR "@) + ")"@]
    } else if k == "color_identity"@ {
        seq!["AND ("@ + join_spec(split_spec(v, '|').map_values(|g: Seq<char>| color_group_sql(g, "color_identity"@)), " OR "@) + ")"@]
    } else if k == "type"@ {
        seq!["AND ("@ + join_spec(kept(split_spec(v, '|').map_values(|g: Seq<char>| type_group_sql(g))), " OR "@) + ")"@]
    } else if k == "cmc"@ {
        cmc_lines(v)
    } else {
        Seq::<Seq<char>>::empty()
    }
}

/// A `cmc` value that starts with a comparison keeps it: `<n` asks for mana
/// value strictly below `n`, `>n` strictly above `n`, and `-n` at most `n`;
/// in each case the value's number follows the comparison unchanged.
pub proof fn lemma_cmc_relations(n: Seq<char>)
    ensures
        field_lines("cmc"@, seq!['<'] + n) == seq!["AND cmc < "@ + n],
        field_lines("cmc"@, seq!['>'] + n) == seq!["AND cmc > "@ + n],
        field_lines("cmc"@, seq!['-'] + n) == seq!["AND cmc <= "@ + n],
{
    reveal_strlit("cmc");
    reveal_strlit("name");
    reveal_strlit("tag");
    reveal_strlit("text");
    reveal_strlit("color");
    reveal_strlit("color_identity");
    reveal_strlit("type");
    assert(("cmc"@)[1] != ("name"@)[1]);
    assert(("cmc"@)[0] != ("tag"@)[0]);
    assert(("cmc"@)[0] != ("text"@)[0]);
    assert(("cmc"@)[1] != ("color"@)[1]);
    assert(("cmc"@).len() != ("color_identity"@).len());
    assert(("cmc"@)[0] != ("type"@)[0]);
    let lt = seq!['<'] + n;
    let gt = seq!['>'] + n;
    let le = seq!['-'] + n;
    assert(lt[0] == '<' && lt.drop_first() =~= n);
    assert(gt[0] == '>' && gt.drop_first() =~= n);
    assert(le[0] == '-' && le.drop_first() =~= n);
    assert(leads_with_ascii(lt) && leads_with_ascii(gt) && leads_with_ascii(le));
}

/// The lines of all fields, in order, with the sort column and direction
/// the last `sort` value sets (`name` and `ASC` otherwise).
pub open spec fn all_lines(fi: Seq<(Seq<char>, Seq<char>)>) -> (Seq<Seq<char>>, Seq<char>, Seq<char>)
    decreases fi.len(),
{
    if fi.len() == 0 {
        (Seq::<Seq<char>>::empty(), "name"@, "ASC"@)
    } else {
        let (lines, sort_on, order) = all_lines(fi.drop_last());
        let (k, v) = fi.last();
        if k == "sort"@ {
            if leads_with_ascii(v) {
                (lines, v.drop_first(), if v[0] == '+' {
                    "ASC"@
                } else if v[0] == '-' {
                    "DESC"@
                } else {
                    order
                })
            } else {
                (lines, sort_on, order)
            }
        } else {
            (lines + field_lines(k, v), sort_on, order)
        }
    }
}

/// A later field adds its lines after those of the fields before it and
/// keeps their ordering, except `sort`: `sort:-w` orders by `w` descending
/// and `sort:+w` by `w` ascending, whatever came before, and adds no line.
pub proof fn lemma_fields_fold(fi: Seq<(Seq<char>, Seq<char>)>, k: Seq<char>, v: Seq<char>, w: Seq<char>)
    ensures
        k != "sort"@ ==> all_lines(fi.push((k, v))) == (all_lines(fi).0 + field_lines(k, v),
            all_lines(fi).1, all_lines(fi).2),
        all_lines(fi.push(("sort"@, seq!['-'] + w))) == (all_lines(fi).0, w, "DESC"@),
        all_lines(fi.push(("sort"@, seq!['+'] + w))) == (all_lines(fi).0, w, "ASC"@),
{
    let m = seq!['-'] + w;
    let p = seq!['+'] + w;
    assert(fi.push((k, v)).drop_last() =~= fi);
    assert(fi.push(("sort"@, m)).drop_last() =~= fi);
    assert(fi.push(("sort"@, p)).drop_last() =~= fi);
    assert(m[0] == '-' && m.drop_first() =~= w && leads_with_ascii(m));
    assert(p[0] == '+' && p.drop_first() =~= w && leads_with_ascii(p));
}

/// The filter's SQL: where the cards come from, the conditions of the
/// fields, and the ordering, one per line.
pub open spec fn filter_sql(
    did: i32,
    fi: Seq<(Seq<char>, Seq<char>)>,
    cis: Seq<Seq<char>>,
    general: bool,
) -> Seq<char> {
    let initial = if general {
        "WHERE color_identity REGEXP '^[^"@ + missing_colors("WUBRG"@, cis) + "]*$'"@
    } else {
        "\nINNER JOIN deck_contents\nON cards.name = deck_contents.card_name\nWHERE deck_contents.deck = "@
            + int_text(did as int)
    };
    let (lines, sort_on, order) = all_lines(fi);
    join_spec(seq![initial] + lines + seq!["ORDER BY "@ + sort_on + " "@ + order + ";"@], "\n"@)
}


/// `pre`, then `mid`, then `post`.
fn wrap(pre: &str, mid: &[char], post: &str) -> (r: Vec<char>)
    ensures
        r@ == pre@ + mid@ + post@,
{
    let mut r = chars_of(pre);
    r.extend_from_slice(mid);
    let p = chars_of(post);
    r.extend_from_slice(p.as_slice());
    r
}

/// Whether `s` is led by a one-byte character.
fn leads_ascii_exec(s: &[char]) -> (r: bool)
    ensures
        r == leads_with_ascii(s@),
{
    s.len() > 0 && (s[0] as u32) < 128
}

/// `s` without leading and trailing `"`.
fn trim_quotes_exec(s: &[char]) -> (r: Vec<char>)
    ensures
        r@ == trim_quotes(s@),
{
    let n = s.len();
    let mut a: usize = 0;
    assert(s@.skip(0) =~= s@);
    while a < n && s[a] == '"'
        invariant
            a <= n,
            n == s@.len(),
            trim_quotes_start(s@) == trim_quotes_start(s@.skip(a as int)),
        decreases n - a,
    {
        assert(s@.skip(a as int).drop_first() =~= s@.skip(a + 1));
        a += 1;
    }
    let ghost t = s@.skip(a as int);
    assert(trim_quotes_start(t) == t);
    let mut b: usize = n;
    while b > a && s[b - 1] == '"'
        invariant
            a <= b <= n,
            n == s@.len(),
            t == s@.skip(a as int),
            trim_quotes_end(t) == trim_quotes_end(s@.subrange(a as int, b as int)),
        decreases b,
    {
        assert(s@.subrange(a as int, b as int).drop_last() =~= s@.subrange(a as int, b - 1));
        b -= 1;
    }
    assert(s@.subrange(a as int, n as int) =~= t);
    slice(s, a, b)
}

/// Replacing the empty text by the empty text changes nothing.
proof fn lemma_replace_empty(s: Seq<char>)
    ensures
        replace_spec(s, Seq::<char>::empty(), Seq::<char>::empty()) == s,
    decreases s.len(),
{
    if s.len() > 0 {
        lemma_replace_empty(s.skip(1));
        assert(seq![s[0]] + s.skip(1) =~= s);
    }
}

/// `WUBRG` with each of the identity entries `cis` taken out.
fn missing_colors_exec(cis: &Vec<String>) -> (r: Vec<char>)
    ensures
        r@ == missing_colors("WUBRG"@, views(cis@)),
{
    let mut colors = chars_of("WUBRG");
    let mut j: usize = 0;
    while j < cis.len()
        invariant
            j <= cis.len(),
            colors@ == missing_colors("WUBRG"@, views(cis@).take(j as int)),
        decreases cis.len() - j,
    {
        let ci = chars_of(cis[j].as_str());
        proof {
            let w = views(cis@).take(j + 1);
            assert(w.drop_last() =~= views(cis@).take(j as int));
            assert(w.last() == ci@);
        }
        if ci.len() > 0 {
            let nothing: Vec<char> = Vec::new();
            colors = replace_chars(&colors, &ci, &nothing);
        } else {
            proof {
                assert(ci@ =~= Seq::<char>::empty());
                lemma_replace_empty(colors@);
            }
        }
        j += 1;
    }
    assert(views(cis@).take(cis.len() as int) =~= views(cis@));
    colors
}

/// The condition of one text item.
fn text_item_exec(te: &[char]) -> (r: Option<Vec<char>>)
    ensures
        match r {
            Some(x) => text_item(te@) == Some(x@),
            None => text_item(te@) is None,
        },
{
    if !leads_ascii_exec(te) {
        None
    } else if te[0] == '!' {
        let rest = slice(te, 1, te.len());
        let t = trim_quotes_exec(&rest);
        assert(rest@ =~= te@.drop_first());
        Some(wrap("card_text NOT LIKE \"%", &t, "%\""))
    } else {
        let t = trim_quotes_exec(te);
        Some(wrap("card_text LIKE \"%", &t, "%\""))
    }
}

/// Conditions ANDed in brackets, when there are any.
fn bracketed_exec(conds: &Vec<Vec<char>>) -> (r: Option<Vec<char>>)
    ensures
        match r {
            Some(x) => bracketed(vv(conds@)) == Some(x@),
            None => bracketed(vv(conds@)) is None,
        },
{
    if conds.len() == 0 {
        None
    } else {
        let j = join_chars(conds, &chars_of(" AND "));
        Some(wrap("(", &j, ")"))
    }
}

/// The text condition of one `|` group.
fn text_group_exec(teg: &[char]) -> (r: Option<Vec<char>>)
    ensures
        match r {
            Some(x) => text_group_sql(teg@) == Some(x@),
            None => text_group_sql(teg@) is None,
        },
{
    let parts = split_chars(teg, '&');
    let ghost items = split_spec(teg@, '&').map_values(|te: Seq<char>| text_item(te));
    let mut vf: Vec<Vec<char>> = Vec::new();
    let mut j: usize = 0;
    while j < parts.len()
        invariant
            j <= parts.len(),
            vv(parts@) == split_spec(teg@, '&'),
            items == split_spec(teg@, '&').map_values(|te: Seq<char>| text_item(te)),
            vv(vf@) == kept(items.take(j as int)),
        decreases parts.len() - j,
    {
        assert(items.take(j + 1).drop_last() =~= items.take(j as int));
        assert(items.take(j + 1).last() == text_item(parts@[j as int]@));
        match text_item_exec(parts[j].as_slice()) {
            Some(x) => {
                vf.push(x);
                assert(vv(vf@) =~= kept(items.take(j as int)).push(x@));
            },
            None => {},
        }
        j += 1;
    }
    assert(items.take(parts.len() as int) =~= items);
    bracketed_exec(&vf)
}


/// Appends the conditions of one type item to `out`.
fn type_item_exec(ty0: &[char], out: &mut Vec<Vec<char>>)
    ensures
        vv(final(out)@) == vv(old(out)@) + type_item(ty0@),
{
    let lead = leads_ascii_exec(ty0);
    let (relation, ty) = if !lead {
        (chars_of(""), slice(ty0, 0, ty0.len()))
    } else if ty0[0] == '!' {
        (chars_of("NOT LIKE"), slice(ty0, 1, ty0.len()))
    } else {
        (chars_of("LIKE"), slice(ty0, 0, ty0.len()))
    };
    proof {
        assert(ty0@.subrange(0, ty0@.len() as int) =~= ty0@);
        assert(ty0@.subrange(1, ty0@.len() as int) =~= ty0@.drop_first());
    }
    if chars_eq(&ty, &chars_of("per")) {
        out.push(chars_of("types NOT LIKE '%instant%'"));
        out.push(chars_of("types NOT LIKE '%sorcery%'"));
        assert(vv(out@) =~= vv(old(out)@) + type_item(ty0@));
    } else if ty.len() == 0 {
        assert(vv(out@) =~= vv(old(out)@) + type_item(ty0@));
    } else {
        let full = crate::omni::expand_type_exec(ty);
        let mut c = chars_of("types ");
        c.extend_from_slice(relation.as_slice());
        let w = wrap(" '%", &full, "%'");
        c.extend_from_slice(w.as_slice());
        assert(c@ =~= "types "@ + relation@ + " '%"@ + full_type(ty@) + "%'"@);
        out.push(c);
        assert(vv(out@) =~= vv(old(out)@) + type_item(ty0@));
    }
}

/// The type condition of one `|` group.
fn type_group_exec(tyg: &[char]) -> (r: Option<Vec<char>>)
    ensures
        match r {
            Some(x) => type_group_sql(tyg@) == Some(x@),
            None => type_group_sql(tyg@) is None,
        },
{
    let parts = split_chars(tyg, '&');
    let ghost tys = split_spec(tyg@, '&');
    let mut vf: Vec<Vec<char>> = Vec::new();
    let mut j: usize = 0;
    assert(vv(vf@) =~= type_items(tys.take(0)));
    while j < parts.len()
        invariant
            j <= parts.len(),
            vv(parts@) == tys,
            tys == split_spec(tyg@, '&'),
            vv(vf@) == type_items(tys.take(j as int)),
        decreases parts.len() - j,
    {
        assert(tys.take(j + 1).drop_last() =~= tys.take(j as int));
        assert(tys.take(j + 1).last() == parts@[j as int]@);
        type_item_exec(parts[j].as_slice(), &mut vf);
        j += 1;
    }
    assert(tys.take(parts.len() as int) =~= tys);
    bracketed_exec(&vf)
}

/// The color condition of one `|` group over column `col`.
fn color_group_exec(cg: &[char], col: &str) -> (r: Vec<char>)
    ensures
        r@ == color_group_sql(cg@, col@),
{
    let colv = chars_of(col);
    let mut relation = chars_of(">");
    let mut vf: Vec<Vec<char>> = Vec::new();
    let mut j: usize = 0;
    let n = cg.len();
    assert(cg@.skip(0) =~= cg@);
    assert(vv(vf@) + color_items(cg@.skip(0), col@, ">"@) =~= color_items(cg@, col@, ">"@));
    while j < n
        invariant
            j <= n,
            n == cg@.len(),
            colv@ == col@,
            vv(vf@) + color_items(cg@.skip(j as int), col@, relation@) == color_items(cg@, col@, ">"@),
        decreases n - j,
    {
        let ghost rest = cg@.skip(j as int);
        assert(rest.drop_first() =~= cg@.skip(j + 1));
        assert(rest[0] == cg@[j as int]);
        let c = cg[j];
        if c == '!' {
            relation = chars_of("=");
        } else {
            let item = if c == 'w' || c == 'u' || c == 'b' || c == 'r' || c == 'g' {
                let mut letter: Vec<char> = Vec::new();
                letter.push(crate::omni::upper_letter_exec(c));
                let mut it = wrap("instr(", &colv, ", '");
                let tail = wrap("') ", &relation, " 0");
                it.extend_from_slice(letter.as_slice());
                it.extend_from_slice(tail.as_slice());
                assert(it@ =~= "instr("@ + col@ + ", '"@ + seq![crate::omni::upper_letter(c)] + "') "@
                    + relation@ + " 0"@);
                it
            } else if c == 'c' {
                wrap("", &colv, " REGEXP '^[^WUBRG]*$'")
            } else {
                Vec::new()
            };
            proof {
                if c == 'c' {
                    reveal_strlit("");
                    assert(""@ + col@ + " REGEXP '^[^WUBRG]*$'"@ =~= col@ + " REGEXP '^[^WUBRG]*$'"@);
                }
            }
            let ghost before = vv(vf@);
            vf.push(item);
            assert(vv(vf@) =~= before.push(item@));
            assert(before + (seq![item@] + color_items(cg@.skip(j + 1), col@, relation@))
                =~= before.push(item@) + color_items(cg@.skip(j + 1), col@, relation@));
        }
        j += 1;
    }
    assert(cg@.skip(n as int) =~= Seq::<char>::empty());
    assert(vv(vf@) + Seq::<Seq<char>>::empty() =~= vv(vf@));
    let joined = join_chars(&vf, &chars_of(" AND "));
    wrap("(", &joined, ")")
}

/// The mana value condition, appended to `out`.
fn cmc_lines_exec(v: &[char], out: &mut Vec<Vec<char>>)
    ensures
        vv(final(out)@) == vv(old(out)@) + cmc_lines(v@),
{
    let ghost before = vv(out@);
    if !leads_ascii_exec(v) {
        assert(vv(out@) =~= before + cmc_lines(v@));
        return;
    }
    let rest = slice(v, 1, v.len());
    assert(rest@ =~= v@.drop_first());
    proof {
        reveal_strlit("");
    }
    let line = if v[0] == '>' {
        let l = wrap("AND cmc > ", &rest, "");
        assert(l@ =~= "AND cmc > "@ + v@.drop_first());
        l
    } else if v[0] == '<' {
        let l = wrap("AND cmc < ", &rest, "");
        assert(l@ =~= "AND cmc < "@ + v@.drop_first());
        l
    } else if v[0] == '-' {
        let l = wrap("AND cmc <= ", &rest, "");
        assert(l@ =~= "AND cmc <= "@ + v@.drop_first());
        l
    } else {
        match crate::cards::split_once_exec(v, &chars_of("-")) {
            Some((min, max_raw)) => {
                let max = if max_raw.len() == 0 {
                    chars_of("1000")
                } else {
                    max_raw
                };
                let mut l = wrap("AND (cmc >= ", &min, " AND cmc <= ");
                let t = wrap("", &max, ")");
                l.extend_from_slice(t.as_slice());
                assert(max_raw@.len() == 0 ==> max_raw@ =~= Seq::<char>::empty());
                assert(l@ =~= "AND (cmc >= "@ + min@ + " AND cmc <= "@ + (if max_raw@.len() == 0 {
                    "1000"@
                } else {
                    max_raw@
                }) + ")"@);
                l
            },
            None => {
                let l = wrap("AND cmc = ", v, "");
                assert(l@ =~= "AND cmc = "@ + v@);
                l
            },
        }
    };
    assert(seq![line@] == cmc_lines(v@));
    out.push(line);
    assert(vv(out@) =~= before + cmc_lines(v@));
}


/// Appends the lines a field's value adds to the filter to `out`.
#[verifier::rlimit(40)]
fn field_lines_exec(k: &[char], v: &[char], out: &mut Vec<Vec<char>>)
    ensures
        vv(final(out)@) == vv(old(out)@) + field_lines(k@, v@),
{
    let ghost before = vv(out@);
    if chars_eq(k, &chars_of("name")) {
        let t = trim_quotes_exec(v);
        out.push(wrap("AND (cards.name LIKE \"%", &t, "%\")"));
        assert(vv(out@) =~= before + field_lines(k@, v@));
    } else if chars_eq(k, &chars_of("tag")) {
        out.push(chars_of("AND tags IS NOT NULL"));
        let parts = split_chars(v, '&');
        let ghost ts = split_spec(v@, '&');
        let ghost lines = ts.map_values(
            |t: Seq<char>| "AND tags REGEXP '\\|?"@ + t + "(?:$|\\|)'"@,
        );
        let mut j: usize = 0;
        while j < parts.len()
            invariant
                j <= parts.len(),
                vv(parts@) == ts,
                ts == split_spec(v@, '&'),
                lines == ts.map_values(|t: Seq<char>| "AND tags REGEXP '\\|?"@ + t + "(?:$|\\|)'"@),
                vv(out@) == before + seq!["AND tags IS NOT NULL"@] + lines.take(j as int),
            decreases parts.len() - j,
        {
            let l = wrap("AND tags REGEXP '\\|?", parts[j].as_slice(), "(?:$|\\|)'");
            let ghost prev = vv(out@);
            out.push(l);
            assert(lines.take(j + 1) =~= lines.take(j as int).push(l@));
            assert(vv(out@) =~= prev.push(l@));
            j += 1;
        }
        assert(lines.take(parts.len() as int) =~= lines);
        assert(vv(out@) =~= before + field_lines(k@, v@));
    } else if chars_eq(k, &chars_of("text")) {
        let parts = split_chars(v, '|');
        let ghost gs = split_spec(v@, '|');
        let ghost items = gs.map_values(|g: Seq<char>| text_group_sql(g));
        let mut groups: Vec<Vec<char>> = Vec::new();
        let mut j: usize = 0;
        while j < parts.len()
            invariant
                j <= parts.len(),
                vv(parts@) == gs,
                gs == split_spec(v@, '|'),
                items == gs.map_values(|g: Seq<char>| text_group_sql(g)),
                vv(groups@) == kept(items.take(j as int)),
            decreases parts.len() - j,
        {
            assert(items.take(j + 1).drop_last() =~= items.take(j as int));
            assert(items.take(j + 1).last() == text_group_sql(parts@[j as int]@));
            match text_group_exec(parts[j].as_slice()) {
                Some(x) => {
                    groups.push(x);
                    assert(vv(groups@) =~= kept(items.take(j as int)).push(x@));
                },
                None => {},
            }
            j += 1;
        }
        assert(items.take(parts.len() as int) =~= items);
        let joined = join_chars(&groups, &chars_of(" OR "));
        out.push(wrap("AND (", &joined, ")"));
        assert(vv(out@) =~= before + field_lines(k@, v@));
    } else if chars_eq(k, &chars_of("color")) || chars_eq(k, &chars_of("color_identity")) {
        let col = if chars_eq(k, &chars_of("color")) {
            "mana_cost"
        } else {
            "color_identity"
        };
        let parts = split_chars(v, '|');
        let ghost gs = split_spec(v@, '|');
        let ghost items = gs.map_values(|g: Seq<char>| color_group_sql(g, col@));
        let mut groups: Vec<Vec<char>> = Vec::new();
        let mut j: usize = 0;
        while j < parts.len()
            invariant
                j <= parts.len(),
                vv(parts@) == gs,
                gs == split_spec(v@, '|'),
                items == gs.map_values(|g: Seq<char>| color_group_sql(g, col@)),
                vv(groups@) == items.take(j as int),
            decreases parts.len() - j,
        {
            let x = color_group_exec(parts[j].as_slice(), col);
            groups.push(x);
            assert(items.take(j + 1) =~= items.take(j as int).push(x@));
            j += 1;
        }
        assert(items.take(parts.len() as int) =~= items);
        let joined = join_chars(&groups, &chars_of(" OR "));
        out.push(wrap("AND (", &joined, ")"));
        assert(vv(out@) =~= before + field_lines(k@, v@));
    } else if chars_eq(k, &chars_of("type")) {
        let parts = split_chars(v, '|');
        let ghost gs = split_spec(v@, '|');
        let ghost items = gs.map_values(|g: Seq<char>| type_group_sql(g));
        let mut groups: Vec<Vec<char>> = Vec::new();
        let mut j: usize = 0;
        while j < parts.len()
            invariant
                j <= parts.len(),
                vv(parts@) == gs,
                gs == split_spec(v@, '|'),
                items == gs.map_values(|g: Seq<char>| type_group_sql(g)),
                vv(groups@) == kept(items.take(j as int)),
            decreases parts.len() - j,
        {
            assert(items.take(j + 1).drop_last() =~= items.take(j as int));
            assert(items.take(j + 1).last() == type_group_sql(parts@[j as int]@));
            match type_group_exec(parts[j].as_slice()) {
                Some(x) => {
                    groups.push(x);
                    assert(vv(groups@) =~= kept(items.take(j as int)).push(x@));
                },
                None => {},
            }
            j += 1;
        }
        assert(items.take(parts.len() as int) =~= items);
        let joined = join_chars(&groups, &chars_of(" OR "));
        out.push(wrap("AND (", &joined, ")"));
        assert(vv(out@) =~= before + field_lines(k@, v@));
    } else if chars_eq(k, &chars_of("cmc")) {
        cmc_lines_exec(v, out);
    } else {
        assert(vv(out@) =~= before + field_lines(k@, v@));
    }
}


/// Every `sort` value is led by a one-byte character, as the `sort:` field
/// reads it (`+` or `-` first).
pub open spec fn sorts_well_formed(fi: Seq<(Seq<char>, Seq<char>)>) -> bool {
    forall|j: int| 0 <= j < fi.len() && #[trigger] fi[j].0 == "sort"@ ==> leads_with_ascii(fi[j].1)
}

/// The lines of all fields, the sort column and the direction.
fn all_lines_exec(fi: &Vec<(String, String)>) -> (r: (Vec<Vec<char>>, Vec<char>, Vec<char>))
    requires
        sorts_well_formed(pairs_view(fi@)),
    ensures
        (vv(r.0@), r.1@, r.2@) == all_lines(pairs_view(fi@)),
{
    let ghost pv = pairs_view(fi@);
    let mut lines: Vec<Vec<char>> = Vec::new();
    let mut sort_on = chars_of("name");
    let mut order = chars_of("ASC");
    let mut j: usize = 0;
    while j < fi.len()
        invariant
            j <= fi.len(),
            pv == pairs_view(fi@),
            sorts_well_formed(pv),
            (vv(lines@), sort_on@, order@) == all_lines(pv.take(j as int)),
        decreases fi.len() - j,
    {
        assert(pv.take(j + 1).drop_last() =~= pv.take(j as int));
        let k = chars_of(fi[j].0.as_str());
        let v = chars_of(fi[j].1.as_str());
        assert(pv.take(j + 1).last() == (k@, v@));
        if chars_eq(&k, &chars_of("sort")) {
            assert(pv[j as int].0 == "sort"@);
            sort_on = slice(&v, 1, v.len());
            assert(sort_on@ =~= v@.drop_first());
            if v[0] == '+' {
                order = chars_of("ASC");
            } else if v[0] == '-' {
                order = chars_of("DESC");
            }
        } else {
            field_lines_exec(&k, &v, &mut lines);
        }
        j += 1;
    }
    assert(pv.take(fi.len() as int) =~= pv);
    (lines, sort_on, order)
}

/// The keyed card filter: the deck it is for and the value of each field
/// read from the omnibar, in the order the fields were first read.
pub struct CardFilter {
    pub did: i32,
    pub fi: Vec<(String, String)>,
}

impl Default for CardFilter {
    fn default() -> (r: CardFilter)
        ensures
            r.did == 0,
            r.fi@.len() == 0,
    {
        CardFilter { did: 0, fi: Vec::new() }
    }
}

impl CardFilter {
    /// A filter for no deck with no field set.
    pub fn new() -> (r: CardFilter)
        ensures
            r.did == 0,
            r.fi@.len() == 0,
    {
        CardFilter::default()
    }

    /// The filter of deck `did` with the fields read from `omni`.
    pub fn from(did: i32, omni: &str) -> (r: CardFilter)
        ensures
            r.did == did,
            pairs_view(r.fi@) == omni_fields(omni@),
            sorts_well_formed(pairs_view(r.fi@)),
    {
        CardFilter { did, fi: CardFilter::parse_omni(omni) }
    }

    /// The filter's SQL text for the commanders' color identity entries
    /// `cis` (used when `general`, to keep to cards the deck may hold) or
    /// for the cards of the deck (otherwise).
    pub fn make_filter(&self, cis: &Vec<String>, general: bool) -> (r: String)
        requires
            sorts_well_formed(pairs_view(self.fi@)),
        ensures
            r@ == filter_sql(self.did, pairs_view(self.fi@), views(cis@), general),
    {
        let initial = if general {
            let missing = missing_colors_exec(cis);
            wrap("WHERE color_identity REGEXP '^[^", &missing, "]*$'")
        } else {
            let mut x = chars_of("\nINNER JOIN deck_contents\nON cards.name = deck_contents.card_name\nWHERE deck_contents.deck = ");
            let d = crate::text::i32_text(self.did);
            x.extend_from_slice(d.as_slice());
            x
        };
        let (lines, sort_on, order) = all_lines_exec(&self.fi);
        let mut last = wrap("ORDER BY ", &sort_on, " ");
        let tail = wrap("", &order, ";");
        last.extend_from_slice(tail.as_slice());
        proof {
            reveal_strlit("");
            assert(last@ =~= "ORDER BY "@ + sort_on@ + " "@ + order@ + ";"@);
        }
        let mut all: Vec<Vec<char>> = Vec::new();
        all.push(initial);
        let mut j: usize = 0;
        while j < lines.len()
            invariant
                j <= lines.len(),
                vv(all@) == seq![initial@] + vv(lines@).take(j as int),
            decreases lines.len() - j,
        {
            let ghost prev = vv(all@);
            all.push(lines[j].clone());
            assert(vv(all@) =~= prev.push(lines@[j as int]@));
            assert(vv(lines@).take(j + 1) =~= vv(lines@).take(j as int).push(lines@[j as int]@));
            j += 1;
        }
        assert(vv(lines@).take(lines.len() as int) =~= vv(lines@));
        let ghost prev = vv(all@);
        all.push(last);
        assert(vv(all@) =~= seq![initial@] + vv(lines@) + seq![last@]);
        let ghost init_spec = if general {
            "WHERE color_identity REGEXP '^[^"@ + missing_colors("WUBRG"@, views(cis@)) + "]*$'"@
        } else {
            "\nINNER JOIN deck_contents\nON cards.name = deck_contents.card_name\nWHERE deck_contents.deck = "@
                + int_text(self.did as int)
        };
        assert(initial@ == init_spec);
        let joined = join_chars(&all, &chars_of("\n"));
        string_of(&joined)
    }
}

} // verus!
