//! Deck statistics: how the cards of a deck's main board spread over mana
//! values, card types and tags, and their prices from the dearest.
use vstd::prelude::*;
use crate::text::{
    contains_spec, contains_str, count_string, count_text, split_spec, split_string, string_from,
    views,
};

verus! {

broadcast use vstd::seq_lib::group_to_multiset_ensures;

/// A card of a deck's main board as the statistics read it: its mana
/// value, colour identity, mana cost, name, tags, type line, and price in
/// cents.
#[derive(Debug, Clone)]
pub struct CardStat {
    pub cmc: u8,
    pub color_identity: Vec<String>,
    pub mana_cost: String,
    pub name: String,
    pub tags: Vec<String>,
    pub types: String,
    pub price: u64,
}

/// The statistics of a deck: cards per mana value (`"0"` to `"6"`, then
/// `"7+"`), the cards with their prices from the dearest, cards per type in
/// name order, and cards per tag from the most used.
#[derive(Debug)]
pub struct DeckStatInfo {
    pub cmc_data: Vec<(String, u64)>,
    pub price_data: Vec<(String, u64)>,
    pub type_data: Vec<(String, u64)>,
    pub tag_data: Vec<(String, u64)>,
}

impl Default for DeckStatInfo {
    fn default() -> (r: Self)
        ensures
            r.cmc_data@.len() == 0 && r.price_data@.len() == 0,
            r.type_data@.len() == 0 && r.tag_data@.len() == 0,
    {
        DeckStatInfo { cmc_data: Vec::new(), price_data: Vec::new(), type_data: Vec::new(), tag_data: Vec::new() }
    }
}

/// Labelled numbers, as values.
pub open spec fn pair_views(v: Seq<(String, u64)>) -> Seq<(Seq<char>, nat)> {
    v.map_values(|p: (String, u64)| (p.0@, p.1 as nat))
}

/// The labels of the mana-value bars, in order.
pub open spec fn cmc_labels() -> Seq<Seq<char>> {
    seq!["0"@, "1"@, "2"@, "3"@, "4"@, "5"@, "6"@, "7+"@]
}

/// The card types counted, in name order.
pub open spec fn stat_types() -> Seq<Seq<char>> {
    seq![
        "Artifact"@,
        "Creature"@,
        "Enchantment"@,
        "Instant"@,
        "Land"@,
        "Legendary"@,
        "Planeswalker"@,
        "Sorcery"@,
    ]
}

/// The mana-value bar a card counts in: its mana value up to 6, the last
/// bar above; a card of mana value 0 whose type line holds `Land` counts in
/// none.
pub open spec fn cmc_bar(c: CardStat) -> Option<nat> {
    if c.cmc == 0 {
        if contains_spec(c.types@, "Land"@) {
            None
        } else {
            Some(0nat)
        }
    } else if c.cmc <= 6 {
        Some(c.cmc as nat)
    } else {
        Some(7nat)
    }
}

/// How many of `cards` count in bar `k`.
pub open spec fn cmc_count(cards: Seq<CardStat>, k: nat) -> nat
    decreases cards.len(),
{
    if cards.len() == 0 {
        0
    } else {
        cmc_count(cards.drop_last(), k) + if cmc_bar(cards.last()) == Some(k) {
            1nat
        } else {
            0nat
        }
    }
}

/// Entry `k` of the mana-value chart counts exactly the cards of mana
/// value `k` for `k` from 1 to 6, and entry 7 (`"7+"`) exactly the cards of
/// mana value 7 or more; entry 0 counts the cards of mana value 0 that are
/// not lands.
pub proof fn lemma_cmc_count(cards: Seq<CardStat>, k: nat)
    ensures
        k < 8 ==> cmc_data_spec(cards)[k as int] == (cmc_labels()[k as int], cmc_count(cards, k)),
        1 <= k <= 6 ==> cmc_count(cards, k) == cards.filter(|c: CardStat| c.cmc == k).len(),
        k == 7 ==> cmc_count(cards, k) == cards.filter(|c: CardStat| c.cmc >= 7).len(),
        k == 0 ==> cmc_count(cards, k) == cards.filter(
            |c: CardStat| c.cmc == 0 && !contains_spec(c.types@, "Land"@),
        ).len(),
    decreases cards.len(),
{
    reveal(Seq::filter);
    if cards.len() > 0 {
        lemma_cmc_count(cards.drop_last(), k);
    }
}

/// The words of a card's type line (split at spaces).
pub open spec fn type_words(c: CardStat) -> Seq<Seq<char>> {
    split_spec(c.types@, ' ')
}

/// How many times `t` stands as a word in the cards' type lines.
pub open spec fn type_count(cards: Seq<CardStat>, t: Seq<char>) -> nat
    decreases cards.len(),
{
    if cards.len() == 0 {
        0
    } else {
        type_count(cards.drop_last(), t) + count_text(type_words(cards.last()), t)
    }
}

/// The number of words in the cards' type lines.
pub open spec fn word_total(cards: Seq<CardStat>) -> nat
    decreases cards.len(),
{
    if cards.len() == 0 {
        0
    } else {
        word_total(cards.drop_last()) + type_words(cards.last()).len()
    }
}

/// The cards' tags, card after card.
pub open spec fn all_tags(cards: Seq<CardStat>) -> Seq<Seq<char>>
    decreases cards.len(),
{
    if cards.len() == 0 {
        Seq::<Seq<char>>::empty()
    } else {
        all_tags(cards.drop_last()) + views(cards.last().tags@)
    }
}

/// The position of the first entry of `s` labelled `t`.
pub open spec fn first_entry(s: Seq<(Seq<char>, nat)>, t: Seq<char>) -> Option<int>
    decreases s.len(),
{
    if s.len() == 0 {
        None
    } else if s[0].0 == t {
        Some(0)
    } else {
        match first_entry(s.drop_first(), t) {
            Some(i) => Some(i + 1),
            None => None,
        }
    }
}

/// Each distinct text of `ts` with the number of times it occurs, in the
/// order of first occurrence.
pub open spec fn tally(ts: Seq<Seq<char>>) -> Seq<(Seq<char>, nat)>
    decreases ts.len(),
{
    if ts.len() == 0 {
        Seq::<(Seq<char>, nat)>::empty()
    } else {
        let s = tally(ts.drop_last());
        match first_entry(s, ts.last()) {
            Some(i) => s.update(i, (ts.last(), s[i].1 + 1)),
            None => s.push((ts.last(), 1nat)),
        }
    }
}

/// `s` without its first entry labelled `t`.
pub open spec fn without(s: Seq<(Seq<char>, nat)>, t: Seq<char>) -> Seq<(Seq<char>, nat)> {
    match first_entry(s, t) {
        Some(i) => s.remove(i),
        None => s,
    }
}

/// Where an entry of number `n` goes in `s`: before the first entry of a
/// smaller number.
pub open spec fn first_below(s: Seq<(Seq<char>, nat)>, n: nat) -> int
    decreases s.len(),
{
    if s.len() == 0 {
        0
    } else if s[0].1 < n {
        0
    } else {
        1 + first_below(s.drop_first(), n)
    }
}

/// `s` ordered from the largest number down, entries of equal number in
/// the order they have in `s` (a stable sort).
pub open spec fn by_number_desc(s: Seq<(Seq<char>, nat)>) -> Seq<(Seq<char>, nat)>
    decreases s.len(),
{
    if s.len() == 0 {
        s
    } else {
        let r = by_number_desc(s.drop_last());
        r.insert(first_below(r, s.last().1), s.last())
    }
}

/// The numbers of `s` never grow from one entry to a later one.
pub open spec fn descending(s: Seq<(Seq<char>, nat)>) -> bool {
    forall|i: int, j: int| 0 <= i < j < s.len() ==> s[i].1 >= s[j].1
}

/// The cards' names with their prices.
pub open spec fn price_pairs(cards: Seq<CardStat>) -> Seq<(Seq<char>, nat)> {
    cards.map_values(|c: CardStat| (c.name@, c.price as nat))
}

/// Cards per mana-value bar.
pub open spec fn cmc_data_spec(cards: Seq<CardStat>) -> Seq<(Seq<char>, nat)> {
    Seq::new(8, |k: int| (cmc_labels()[k], cmc_count(cards, k as nat)))
}

/// Cards per type, in name order.
pub open spec fn type_data_spec(cards: Seq<CardStat>) -> Seq<(Seq<char>, nat)> {
    Seq::new(8, |k: int| (stat_types()[k], type_count(cards, stat_types()[k])))
}

/// Cards per tag but `main`, from the most used.
pub open spec fn tag_data_spec(cards: Seq<CardStat>) -> Seq<(Seq<char>, nat)> {
    by_number_desc(without(tally(all_tags(cards)), "main"@))
}

proof fn lemma_first_entry(s: Seq<(Seq<char>, nat)>, t: Seq<char>, k: int)
    requires
        0 <= k <= s.len(),
        forall|j: int| 0 <= j < k ==> s[j].0 != t,
    ensures
        k < s.len() && s[k].0 == t ==> first_entry(s, t) == Some(k),
        k == s.len() ==> first_entry(s, t) is None,
    decreases k,
{
    if k > 0 {
        lemma_first_entry(s.drop_first(), t, k - 1);
    }
}

proof fn lemma_first_entry_found(s: Seq<(Seq<char>, nat)>, t: Seq<char>)
    ensures
        first_entry(s, t) matches Some(i) ==> 0 <= i < s.len() && s[i].0 == t && forall|j: int|
            0 <= j < i ==> s[j].0 != t,
        first_entry(s, t) is None ==> forall|j: int| 0 <= j < s.len() ==> s[j].0 != t,
    decreases s.len(),
{
    if s.len() > 0 {
        lemma_first_entry_found(s.drop_first(), t);
        assert forall|j: int| 0 < j < s.len() implies s[j] == s.drop_first()[j - 1] by {}
    }
}

proof fn lemma_first_below(s: Seq<(Seq<char>, nat)>, n: nat, k: int)
    requires
        0 <= k <= s.len(),
        forall|j: int| 0 <= j < k ==> s[j].1 >= n,
        k < s.len() ==> s[k].1 < n,
    ensures
        first_below(s, n) == k,
    decreases k,
{
    if k > 0 {
        lemma_first_below(s.drop_first(), n, k - 1);
    }
}

/// Where `first_below` puts an entry: inside the sequence, after the
/// entries of a number at least `n`.
proof fn lemma_first_below_bounds(s: Seq<(Seq<char>, nat)>, n: nat)
    ensures
        0 <= first_below(s, n) <= s.len(),
        forall|j: int| 0 <= j < first_below(s, n) ==> s[j].1 >= n,
        first_below(s, n) < s.len() ==> s[first_below(s, n)].1 < n,
    decreases s.len(),
{
    if s.len() > 0 && s[0].1 >= n {
        lemma_first_below_bounds(s.drop_first(), n);
        assert forall|j: int| 0 < j < s.len() implies s[j] == s.drop_first()[j - 1] by {}
    }
}

/// Ordering by number gives a descending sequence that holds the same
/// entries, each as often.
pub proof fn lemma_by_number_desc(s: Seq<(Seq<char>, nat)>)
    ensures
        descending(by_number_desc(s)),
        by_number_desc(s).to_multiset() == s.to_multiset(),
        by_number_desc(s).len() == s.len(),
    decreases s.len(),
{
    if s.len() > 0 {
        let init = s.drop_last();
        let x = s.last();
        let r = by_number_desc(init);
        lemma_by_number_desc(init);
        let k = first_below(r, x.1);
        lemma_first_below_bounds(r, x.1);
        let q = r.insert(k, x);
        assert forall|i: int, j: int| 0 <= i < j < q.len() implies q[i].1 >= q[j].1 by {
            if j < k {
                assert(q[i] == r[i] && q[j] == r[j]);
            } else if j == k {
                assert(q[i] == r[i]);
            } else if i < k {
                assert(q[i] == r[i] && q[j] == r[j - 1]);
            } else if i == k {
                assert(q[j] == r[j - 1]);
            } else {
                assert(q[i] == r[i - 1] && q[j] == r[j - 1]);
            }
        }
        assert(s =~= init.push(x));
        assert(q.to_multiset() == r.to_multiset().insert(x));
        assert(s.to_multiset() == init.to_multiset().insert(x));
    }
}

/// How many times `t` occurs in `v` is at most `v`'s length.
proof fn lemma_count_text_bound(v: Seq<Seq<char>>, t: Seq<char>)
    ensures
        count_text(v, t) <= v.len(),
    decreases v.len(),
{
    if v.len() > 0 {
        lemma_count_text_bound(v.drop_last(), t);
    }
}

proof fn lemma_count_text_push(v: Seq<Seq<char>>, x: Seq<char>, t: Seq<char>)
    ensures
        count_text(v.push(x), t) == count_text(v, t) + if x == t {
            1nat
        } else {
            0nat
        },
{
    assert(v.push(x).drop_last() =~= v);
}

/// The tally counts each distinct text of `ts` once, with the number of
/// times it occurs there.
pub proof fn lemma_tally(ts: Seq<Seq<char>>)
    ensures
        forall|i: int|
            0 <= i < tally(ts).len() ==> #[trigger] tally(ts)[i].1 == count_text(ts, tally(ts)[i].0)
                && tally(ts)[i].1 > 0,
        forall|i: int, j: int|
            0 <= i < j < tally(ts).len() ==> #[trigger] tally(ts)[i].0 != #[trigger] tally(ts)[j].0,
        forall|t: Seq<char>|
            count_text(ts, t) > 0 ==> exists|i: int| 0 <= i < tally(ts).len() && #[trigger] tally(ts)[i].0 == t,
    decreases ts.len(),
{
    if ts.len() > 0 {
        let init = ts.drop_last();
        let x = ts.last();
        let s = tally(init);
        lemma_tally(init);
        lemma_first_entry_found(s, x);
        assert(ts =~= init.push(x));
        assert forall|t: Seq<char>| #[trigger] count_text(ts, t) == count_text(init, t) + if x == t {
            1nat
        } else {
            0nat
        } by {
            lemma_count_text_push(init, x, t);
        }
        let r = tally(ts);
        match first_entry(s, x) {
            Some(k) => {
                assert(r == s.update(k, (x, s[k].1 + 1)));
                assert forall|t: Seq<char>| count_text(ts, t) > 0 implies exists|i: int|
                    0 <= i < r.len() && #[trigger] r[i].0 == t by {
                    if t == x {
                        assert(r[k].0 == t);
                    } else {
                        assert(count_text(init, t) > 0);
                        let i = choose|i: int| 0 <= i < s.len() && #[trigger] s[i].0 == t;
                        assert(r[i].0 == t);
                    }
                }
            },
            None => {
                assert(r == s.push((x, 1nat)));
                assert(count_text(init, x) == 0) by {
                    if count_text(init, x) > 0 {
                        let i = choose|i: int| 0 <= i < s.len() && #[trigger] s[i].0 == x;
                    }
                }
                assert forall|t: Seq<char>| count_text(ts, t) > 0 implies exists|i: int|
                    0 <= i < r.len() && #[trigger] r[i].0 == t by {
                    if t == x {
                        assert(r[s.len() as int].0 == t);
                    } else {
                        assert(count_text(init, t) > 0);
                        let i = choose|i: int| 0 <= i < s.len() && #[trigger] s[i].0 == t;
                        assert(r[i].0 == t);
                    }
                }
            },
        }
    }
}

/// The tag list counts every tag of the cards but `main` once, with the
/// number of times the cards carry it, from the most used down.
pub proof fn lemma_tag_data(cards: Seq<CardStat>)
    ensures
        descending(tag_data_spec(cards)),
        forall|i: int|
            0 <= i < tag_data_spec(cards).len() ==> #[trigger] tag_data_spec(cards)[i].0 != "main"@
                && tag_data_spec(cards)[i].1 == count_text(all_tags(cards), tag_data_spec(cards)[i].0)
                && tag_data_spec(cards)[i].1 > 0,
        forall|i: int, j: int|
            0 <= i < j < tag_data_spec(cards).len() ==> #[trigger] tag_data_spec(cards)[i].0
                != #[trigger] tag_data_spec(cards)[j].0,
        forall|t: Seq<char>|
            t != "main"@ && count_text(all_tags(cards), t) > 0 ==> exists|i: int|
                0 <= i < tag_data_spec(cards).len() && #[trigger] tag_data_spec(cards)[i].0 == t,
{
    let ts = all_tags(cards);
    let s = tally(ts);
    lemma_tally(ts);
    lemma_first_entry_found(s, "main"@);
    let w = without(s, "main"@);
    // The entries left, their names distinct.
    assert(forall|i: int| 0 <= i < w.len() ==> exists|a: int| 0 <= a < s.len() && s[a] == #[trigger] w[i]
        && (first_entry(s, "main"@) matches Some(k) ==> a != k)) by {
        assert forall|i: int| 0 <= i < w.len() implies exists|a: int| 0 <= a < s.len() && s[a] == #[trigger] w[i]
            && (first_entry(s, "main"@) matches Some(k) ==> a != k) by {
            match first_entry(s, "main"@) {
                Some(k) => {
                    if i < k {
                        assert(s[i] == w[i]);
                    } else {
                        assert(s[i + 1] == w[i]);
                    }
                },
                None => {
                    assert(s[i] == w[i]);
                },
            }
        }
    }
    assert forall|i: int, j: int| 0 <= i < j < w.len() implies #[trigger] w[i].0 != #[trigger] w[j].0 by {
        match first_entry(s, "main"@) {
            Some(k) => {
                let a = if i < k { i } else { i + 1 };
                let b = if j < k { j } else { j + 1 };
                assert(w[i] == s[a] && w[j] == s[b] && a < b);
            },
            None => {
                assert(w[i] == s[i] && w[j] == s[j]);
            },
        }
    }
    assert forall|t: Seq<char>| t != "main"@ && count_text(ts, t) > 0 implies exists|i: int|
        0 <= i < w.len() && #[trigger] w[i].0 == t by {
        let a = choose|a: int| 0 <= a < s.len() && #[trigger] s[a].0 == t;
        match first_entry(s, "main"@) {
            Some(k) => {
                if a < k {
                    assert(w[a].0 == t);
                } else {
                    assert(a != k);
                    assert(w[a - 1].0 == t);
                }
            },
            None => {
                assert(w[a].0 == t);
            },
        }
    }
    assert(w.no_duplicates()) by {
        assert forall|i: int, j: int| 0 <= i < w.len() && 0 <= j < w.len() && i != j implies w[i] != w[j] by {
            if i < j {
                assert(w[i].0 != w[j].0);
            } else {
                assert(w[j].0 != w[i].0);
            }
        }
    }
    // Ordering keeps the entries, each once.
    let d = by_number_desc(w);
    lemma_by_number_desc(w);
    w.lemma_multiset_has_no_duplicates();
    assert forall|x: (Seq<char>, nat)| d.to_multiset().contains(x) implies d.to_multiset().count(x) == 1 by {}
    d.lemma_multiset_has_no_duplicates_conv();
    assert forall|x: (Seq<char>, nat)| #[trigger] d.contains(x) <==> w.contains(x) by {
        assert(d.to_multiset().count(x) == w.to_multiset().count(x));
    }
    assert forall|i: int| 0 <= i < d.len() implies #[trigger] d[i].0 != "main"@ && d[i].1 == count_text(ts, d[i].0)
        && d[i].1 > 0 by {
        assert(d.contains(d[i]));
        let b = choose|b: int| 0 <= b < w.len() && w[b] == d[i];
        let a = choose|a: int| 0 <= a < s.len() && s[a] == #[trigger] w[b] && (first_entry(s, "main"@) matches Some(
            k,
        ) ==> a != k);
        assert(s[a].1 == count_text(ts, s[a].0));
        if s[a].0 == "main"@ {
            match first_entry(s, "main"@) {
                Some(k) => {
                    assert(s[k].0 == "main"@);
                    if a < k {
                        assert(s[a].0 != s[k].0);
                    } else {
                        assert(s[k].0 != s[a].0);
                    }
                },
                None => {},
            }
        }
    }
    assert forall|i: int, j: int| 0 <= i < j < d.len() implies #[trigger] d[i].0 != #[trigger] d[j].0 by {
        assert(d[i] != d[j]);
        assert(d.contains(d[i]) && d.contains(d[j]));
        let a = choose|a: int| 0 <= a < w.len() && w[a] == d[i];
        let b = choose|b: int| 0 <= b < w.len() && w[b] == d[j];
        if a < b {
            assert(w[a].0 != w[b].0);
        } else {
            assert(w[b].0 != w[a].0);
        }
    }
    assert forall|t: Seq<char>| t != "main"@ && count_text(ts, t) > 0 implies exists|i: int|
        0 <= i < d.len() && #[trigger] d[i].0 == t by {
        let b = choose|b: int| 0 <= b < w.len() && #[trigger] w[b].0 == t;
        assert(w.contains(w[b]));
        assert(d.contains(w[b]));
        let i = choose|i: int| 0 <= i < d.len() && d[i] == w[b];
        assert(d[i].0 == t);
    }
}

proof fn lemma_word_total_take(cards: Seq<CardStat>, i: int)
    requires
        0 <= i <= cards.len(),
    ensures
        word_total(cards.take(i)) <= word_total(cards),
    decreases cards.len() - i,
{
    if i < cards.len() {
        lemma_word_total_take(cards, i + 1);
        assert(cards.take(i + 1).drop_last() =~= cards.take(i));
    } else {
        assert(cards.take(i) =~= cards);
    }
}

proof fn lemma_type_count_bound(cards: Seq<CardStat>, t: Seq<char>)
    ensures
        type_count(cards, t) <= word_total(cards),
    decreases cards.len(),
{
    if cards.len() > 0 {
        lemma_type_count_bound(cards.drop_last(), t);
        lemma_count_text_bound(type_words(cards.last()), t);
    }
}

proof fn lemma_all_tags_take(cards: Seq<CardStat>, i: int)
    requires
        0 <= i <= cards.len(),
    ensures
        all_tags(cards.take(i)).len() <= all_tags(cards).len(),
    decreases cards.len() - i,
{
    if i < cards.len() {
        lemma_all_tags_take(cards, i + 1);
        assert(cards.take(i + 1).drop_last() =~= cards.take(i));
    } else {
        assert(cards.take(i) =~= cards);
    }
}

/// The label of mana-value bar `k`.
fn cmc_label(k: usize) -> (r: String)
    requires
        k < 8,
    ensures
        r@ == cmc_labels()[k as int],
{
    match k {
        0 => string_from("0"),
        1 => string_from("1"),
        2 => string_from("2"),
        3 => string_from("3"),
        4 => string_from("4"),
        5 => string_from("5"),
        6 => string_from("6"),
        _ => string_from("7+"),
    }
}

/// The name of counted type `k`.
fn stat_type_name(k: usize) -> (r: String)
    requires
        k < 8,
    ensures
        r@ == stat_types()[k as int],
{
    match k {
        0 => string_from("Artifact"),
        1 => string_from("Creature"),
        2 => string_from("Enchantment"),
        3 => string_from("Instant"),
        4 => string_from("Land"),
        5 => string_from("Legendary"),
        6 => string_from("Planeswalker"),
        _ => string_from("Sorcery"),
    }
}

/// The bar a card counts in.
fn cmc_bar_of(c: &CardStat) -> (r: Option<usize>)
    ensures
        match r {
            Some(k) => k < 8 && cmc_bar(*c) == Some(k as nat),
            None => cmc_bar(*c) is None,
        },
{
    if c.cmc == 0 {
        if contains_str(c.types.as_str(), "Land") {
            None
        } else {
            Some(0)
        }
    } else if c.cmc <= 6 {
        Some(c.cmc as usize)
    } else {
        Some(7)
    }
}

/// Eight zeros.
fn zeros() -> (r: Vec<u64>)
    ensures
        r@ == seq![0u64, 0u64, 0u64, 0u64, 0u64, 0u64, 0u64, 0u64],
{
    let mut r: Vec<u64> = Vec::new();
    let mut k: usize = 0;
    while k < 8
        invariant
            k <= 8,
            r@ == Seq::new(k as nat, |j: int| 0u64),
        decreases 8 - k,
    {
        r.push(0);
        k += 1;
        assert(r@ =~= Seq::new(k as nat, |j: int| 0u64));
    }
    assert(r@ =~= seq![0u64, 0u64, 0u64, 0u64, 0u64, 0u64, 0u64, 0u64]);
    r
}

/// Cards per mana-value bar.
fn cmc_counts(vc: &Vec<CardStat>) -> (r: Vec<u64>)
    ensures
        r@.len() == 8,
        forall|k: int| 0 <= k < 8 ==> r@[k] == cmc_count(vc@, k as nat),
{
    let mut r = zeros();
    let mut i: usize = 0;
    while i < vc.len()
        invariant
            i <= vc@.len(),
            r@.len() == 8,
            forall|k: int| 0 <= k < 8 ==> r@[k] == cmc_count(vc@.take(i as int), k as nat) && r@[k] <= i,
        decreases vc.len() - i,
    {
        assert(vc@.take(i + 1).drop_last() =~= vc@.take(i as int));
        match cmc_bar_of(&vc[i]) {
            Some(k) => {
                let n = r[k] + 1;
                r.set(k, n);
            },
            None => {},
        }
        i += 1;
    }
    assert(vc@.take(vc@.len() as int) =~= vc@);
    r
}

/// Cards per counted type.
fn type_counts(vc: &Vec<CardStat>) -> (r: Vec<u64>)
    requires
        word_total(vc@) <= u64::MAX,
    ensures
        r@.len() == 8,
        forall|k: int| 0 <= k < 8 ==> r@[k] == type_count(vc@, stat_types()[k]),
{
    let mut r = zeros();
    let mut i: usize = 0;
    while i < vc.len()
        invariant
            i <= vc@.len(),
            r@.len() == 8,
            word_total(vc@) <= u64::MAX,
            forall|k: int| 0 <= k < 8 ==> r@[k] == type_count(vc@.take(i as int), stat_types()[k]),
        decreases vc.len() - i,
    {
        let ghost pre = vc@.take(i as int);
        assert(vc@.take(i + 1).drop_last() =~= pre);
        assert(vc@.take(i + 1).last() == vc@[i as int]);
        proof {
            lemma_word_total_take(vc@, i + 1);
        }
        let words = split_string(vc[i].types.as_str(), ' ');
        let mut k: usize = 0;
        while k < 8
            invariant
                k <= 8,
                r@.len() == 8,
                i < vc@.len(),
                pre == vc@.take(i as int),
                views(words@) == type_words(vc@[i as int]),
                word_total(vc@.take(i + 1)) <= u64::MAX,
                word_total(vc@.take(i + 1)) == word_total(pre) + type_words(vc@[i as int]).len(),
                vc@.take(i + 1).drop_last() == pre,
                vc@.take(i + 1).last() == vc@[i as int],
                vc@.take(i + 1).len() > 0,
                forall|j: int| 0 <= j < k ==> r@[j] == type_count(vc@.take(i + 1), stat_types()[j]),
                forall|j: int| k <= j < 8 ==> r@[j] == type_count(pre, stat_types()[j]),
            decreases 8 - k,
        {
            let name = stat_type_name(k);
            let n = count_string(&words, name.as_str());
            proof {
                lemma_type_count_bound(pre, stat_types()[k as int]);
                lemma_count_text_bound(type_words(vc@[i as int]), stat_types()[k as int]);
            }
            let total = r[k] + n as u64;
            r.set(k, total);
            k += 1;
        }
        i += 1;
    }
    assert(vc@.take(vc@.len() as int) =~= vc@);
    r
}

/// Labelled numbers from labels and numbers.
fn labelled(k_label: usize, n: u64, kind_cmc: bool) -> (r: (String, u64))
    requires
        k_label < 8,
    ensures
        r.0@ == if kind_cmc {
            cmc_labels()[k_label as int]
        } else {
            stat_types()[k_label as int]
        },
        r.1 == n,
{
    if kind_cmc {
        (cmc_label(k_label), n)
    } else {
        (stat_type_name(k_label), n)
    }
}

/// The tally of the cards' tags.
fn tag_tally(vc: &Vec<CardStat>) -> (r: Vec<(String, u64)>)
    requires
        all_tags(vc@).len() <= u64::MAX,
    ensures
        pair_views(r@) == tally(all_tags(vc@)),
{
    let mut r: Vec<(String, u64)> = Vec::new();
    let mut i: usize = 0;
    while i < vc.len()
        invariant
            i <= vc@.len(),
            all_tags(vc@).len() <= u64::MAX,
            pair_views(r@) == tally(all_tags(vc@.take(i as int))),
        decreases vc.len() - i,
    {
        let ghost pre = all_tags(vc@.take(i as int));
        assert(vc@.take(i + 1).drop_last() =~= vc@.take(i as int));
        assert(vc@.take(i + 1).last() == vc@[i as int]);
        proof {
            lemma_all_tags_take(vc@, i + 1);
        }
        let tags = &vc[i].tags;
        let mut j: usize = 0;
        while j < tags.len()
            invariant
                j <= tags@.len(),
                i < vc@.len(),
                tags@ == vc@[i as int].tags@,
                all_tags(vc@.take(i + 1)) == pre + views(tags@),
                all_tags(vc@.take(i + 1)).len() <= u64::MAX,
                pair_views(r@) == tally(pre + views(tags@).take(j as int)),
            decreases tags.len() - j,
        {
            let ghost ts = pre + views(tags@).take(j as int);
            let ghost ts1 = pre + views(tags@).take(j + 1);
            assert(ts1.drop_last() =~= ts);
            assert(ts1.last() == tags@[j as int]@);
            let ghost s = pair_views(r@);
            proof {
                lemma_tally(ts);
                lemma_count_text_bound(ts, tags@[j as int]@);
                assert(ts1.len() <= all_tags(vc@.take(i + 1)).len());
            }
            let mut k: usize = 0;
            let mut found = false;
            while k < r.len()
                invariant_except_break
                    k <= r@.len(),
                    j < tags@.len(),
                    !found,
                    forall|m: int| 0 <= m < k ==> r@[m].0@ != tags@[j as int]@,
                ensures
                    k <= r@.len(),
                    forall|m: int| 0 <= m < k ==> r@[m].0@ != tags@[j as int]@,
                    found ==> k < r@.len() && r@[k as int].0@ == tags@[j as int]@,
                    !found ==> k == r@.len(),
                decreases r.len() - k,
            {
                if crate::text::str_eq(r[k].0.as_str(), tags[j].as_str()) {
                    found = true;
                    break;
                }
                k += 1;
            }
            proof {
                assert forall|m: int| 0 <= m < k implies s[m].0 != tags@[j as int]@ by {}
                lemma_first_entry(s, tags@[j as int]@, k as int);
            }
            if found {
                let n = r[k].1 + 1;
                let name = r[k].0.clone();
                r.set(k, (name, n));
                assert(pair_views(r@) =~= s.update(k as int, (tags@[j as int]@, s[k as int].1 + 1)));
            } else {
                let name = tags[j].clone();
                r.push((name, 1));
                assert(pair_views(r@) =~= s.push((tags@[j as int]@, 1nat)));
            }
            j += 1;
        }
        assert(views(tags@).take(tags@.len() as int) =~= views(tags@));
        i += 1;
    }
    assert(vc@.take(vc@.len() as int) =~= vc@);
    r
}

/// Orders labelled numbers from the largest number down, keeping the order
/// of equal numbers.
fn order_by_number(s: &Vec<(String, u64)>) -> (r: Vec<(String, u64)>)
    ensures
        pair_views(r@) == by_number_desc(pair_views(s@)),
{
    let ghost sv = pair_views(s@);
    let mut r: Vec<(String, u64)> = Vec::new();
    let mut i: usize = 0;
    while i < s.len()
        invariant
            i <= s@.len(),
            sv == pair_views(s@),
            pair_views(r@) == by_number_desc(sv.take(i as int)),
        decreases s.len() - i,
    {
        assert(sv.take(i + 1).drop_last() =~= sv.take(i as int));
        assert(sv.take(i + 1).last() == sv[i as int]);
        let n = s[i].1;
        let ghost rv = pair_views(r@);
        let mut k: usize = 0;
        while k < r.len() && r[k].1 >= n
            invariant
                k <= r@.len(),
                rv == pair_views(r@),
                forall|m: int| 0 <= m < k ==> r@[m].1 >= n,
            decreases r.len() - k,
        {
            k += 1;
        }
        proof {
            lemma_first_below(rv, n as nat, k as int);
        }
        let name = s[i].0.clone();
        r.insert(k, (name, n));
        assert(pair_views(r@) =~= rv.insert(k as int, sv[i as int]));
        i += 1;
    }
    assert(sv.take(s@.len() as int) =~= sv);
    r
}

/// The statistics of a deck's main board: cards per mana value, the cards'
/// prices from the dearest, cards per type, and cards per tag (all but
/// `main`) from the most used.
pub fn generate_dss_info(vc: &Vec<CardStat>) -> (dsi: DeckStatInfo)
    requires
        word_total(vc@) <= u64::MAX,
        all_tags(vc@).len() <= u64::MAX,
    ensures
        pair_views(dsi.cmc_data@) == cmc_data_spec(vc@),
        pair_views(dsi.type_data@) == type_data_spec(vc@),
        pair_views(dsi.price_data@) == by_number_desc(price_pairs(vc@)),
        pair_views(dsi.tag_data@) == tag_data_spec(vc@),
{
    let cmc = cmc_counts(vc);
    let types = type_counts(vc);
    let mut cmc_data: Vec<(String, u64)> = Vec::new();
    let mut type_data: Vec<(String, u64)> = Vec::new();
    let mut k: usize = 0;
    while k < 8
        invariant
            k <= 8,
            cmc@.len() == 8 && types@.len() == 8,
            forall|m: int| 0 <= m < 8 ==> cmc@[m] == cmc_count(vc@, m as nat),
            forall|m: int| 0 <= m < 8 ==> types@[m] == type_count(vc@, stat_types()[m]),
            pair_views(cmc_data@) == cmc_data_spec(vc@).take(k as int),
            pair_views(type_data@) == type_data_spec(vc@).take(k as int),
        decreases 8 - k,
    {
        let ghost c0 = pair_views(cmc_data@);
        let ghost t0 = pair_views(type_data@);
        let x = labelled(k, cmc[k], true);
        let y = labelled(k, types[k], false);
        let ghost oc = cmc_data@;
        let ghost ot = type_data@;
        cmc_data.push(x);
        type_data.push(y);
        assert(pair_views(cmc_data@) =~= pair_views(oc).push((x.0@, x.1 as nat)));
        assert(pair_views(type_data@) =~= pair_views(ot).push((y.0@, y.1 as nat)));
        assert(pair_views(cmc_data@) =~= cmc_data_spec(vc@).take(k + 1));
        assert(pair_views(type_data@) =~= type_data_spec(vc@).take(k + 1));
        k += 1;
    }
    assert(cmc_data_spec(vc@).take(8) =~= cmc_data_spec(vc@));
    assert(type_data_spec(vc@).take(8) =~= type_data_spec(vc@));
    let mut prices: Vec<(String, u64)> = Vec::new();
    let mut i: usize = 0;
    while i < vc.len()
        invariant
            i <= vc@.len(),
            pair_views(prices@) == price_pairs(vc@).take(i as int),
        decreases vc.len() - i,
    {
        let ghost op = prices@;
        let x = (vc[i].name.clone(), vc[i].price);
        prices.push(x);
        assert(pair_views(prices@) =~= pair_views(op).push((vc@[i as int].name@, vc@[i as int].price as nat)));
        assert(pair_views(prices@) =~= price_pairs(vc@).take(i + 1));
        i += 1;
    }
    assert(price_pairs(vc@).take(vc@.len() as int) =~= price_pairs(vc@));
    let price_data = order_by_number(&prices);
    let mut tags = tag_tally(vc);
    let ghost tv = pair_views(tags@);
    let mut k: usize = 0;
    let mut found = false;
    while k < tags.len()
        invariant_except_break
            k <= tags@.len(),
            !found,
            forall|m: int| 0 <= m < k ==> tags@[m].0@ != "main"@,
        ensures
            k <= tags@.len(),
            forall|m: int| 0 <= m < k ==> tags@[m].0@ != "main"@,
            found ==> k < tags@.len() && tags@[k as int].0@ == "main"@,
            !found ==> k == tags@.len(),
        decreases tags.len() - k,
    {
        if crate::text::str_eq(tags[k].0.as_str(), "main") {
            found = true;
            break;
        }
        k += 1;
    }
    proof {
        assert forall|m: int| 0 <= m < k implies tv[m].0 != "main"@ by {}
        lemma_first_entry(tv, "main"@, k as int);
    }
    if found {
        tags.remove(k);
        assert(pair_views(tags@) =~= tv.remove(k as int));
    }
    let tag_data = order_by_number(&tags);
    DeckStatInfo { cmc_data, price_data, type_data, tag_data }
}

} // verus!
