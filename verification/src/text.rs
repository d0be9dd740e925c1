//! Character-level helpers shared by the rest of the library: splitting,
//! joining, searching, replacing and decimal formatting, each with the
//! meaning of the matching `str` method stated as a spec function.
use vstd::prelude::*;
use vstd::string::*;

verus! {

/// The pieces of `s` between occurrences of `sep`, as `str::split` with a
/// `char` pattern yields them: there is always at least one piece.
pub open spec fn split_spec(s: Seq<char>, sep: char) -> Seq<Seq<char>>
    decreases s.len(),
{
    if s.len() == 0 {
        seq![Seq::<char>::empty()]
    } else {
        let init = split_spec(s.drop_last(), sep);
        if s.last() == sep {
            init.push(Seq::<char>::empty())
        } else {
            init.update(init.len() - 1, init.last().push(s.last()))
        }
    }
}

/// The pieces of `parts` glued together with `sep` between them (`[T]::join`).
pub open spec fn join_spec(parts: Seq<Seq<char>>, sep: Seq<char>) -> Seq<char>
    decreases parts.len(),
{
    if parts.len() == 0 {
        Seq::<char>::empty()
    } else if parts.len() == 1 {
        parts[0]
    } else {
        join_spec(parts.drop_last(), sep) + sep + parts.last()
    }
}

/// `s` with every non-overlapping occurrence of the non-empty `pat`, taken
/// from the left, replaced by `rep` (`str::replace`).
pub open spec fn replace_spec(s: Seq<char>, pat: Seq<char>, rep: Seq<char>) -> Seq<char>
    decreases s.len(),
{
    if s.len() == 0 {
        Seq::<char>::empty()
    } else if 0 < pat.len() <= s.len() && s.take(pat.len() as int) == pat {
        rep + replace_spec(s.skip(pat.len() as int), pat, rep)
    } else {
        seq![s[0]] + replace_spec(s.skip(1), pat, rep)
    }
}

/// `pat` occurs in `s` at position `i`.
pub open spec fn occurs_at(s: Seq<char>, pat: Seq<char>, i: int) -> bool {
    0 <= i && i + pat.len() <= s.len() && s.subrange(i, i + pat.len()) == pat
}

/// `pat` occurs somewhere in `s` (`str::contains`).
pub open spec fn contains_spec(s: Seq<char>, pat: Seq<char>) -> bool {
    exists|i: int| occurs_at(s, pat, i)
}

/// The decimal digit for `d < 10`.
pub open spec fn digit_char(d: nat) -> char {
    if d == 0 { '0' }
    else if d == 1 { '1' }
    else if d == 2 { '2' }
    else if d == 3 { '3' }
    else if d == 4 { '4' }
    else if d == 5 { '5' }
    else if d == 6 { '6' }
    else if d == 7 { '7' }
    else if d == 8 { '8' }
    else { '9' }
}

/// The decimal text of a natural number, without leading zeros.
pub open spec fn nat_text(n: nat) -> Seq<char>
    decreases n,
{
    if n < 10 {
        seq![digit_char(n)]
    } else {
        nat_text(n / 10).push(digit_char(n % 10))
    }
}

/// The decimal text of an integer, as `Display` writes it.
pub open spec fn int_text(n: int) -> Seq<char> {
    if n < 0 {
        seq!['-'] + nat_text((-n) as nat)
    } else {
        nat_text(n as nat)
    }
}

/// The views of a sequence of strings.
pub open spec fn views(v: Seq<String>) -> Seq<Seq<char>> {
    v.map_values(|s: String| s@)
}

/// Lexicographic order on character sequences by code point, which is the
/// order `String`'s `Ord` gives (UTF-8 keeps code point order byte by byte).
pub open spec fn text_le(a: Seq<char>, b: Seq<char>) -> bool
    decreases a.len(),
{
    if a.len() == 0 {
        true
    } else if b.len() == 0 {
        false
    } else if (a[0] as int) < (b[0] as int) {
        true
    } else if a[0] == b[0] {
        text_le(a.drop_first(), b.drop_first())
    } else {
        false
    }
}

/// Whether `a` comes before `b` or equals it, in code point order.
pub fn text_le_exec(a: &str, b: &str) -> (r: bool)
    ensures
        r == text_le(a@, b@),
{
    let x = chars_of(a);
    let y = chars_of(b);
    let mut i: usize = 0;
    assert(a@.skip(0) =~= a@);
    assert(b@.skip(0) =~= b@);
    while i < x.len() && i < y.len() && x[i] == y[i]
        invariant
            i <= x@.len() && i <= y@.len(),
            x@ == a@ && y@ == b@,
            forall|j: int| 0 <= j < i ==> x@[j] == y@[j],
            text_le(a@, b@) == text_le(a@.skip(i as int), b@.skip(i as int)),
        decreases x.len() - i,
    {
        assert(a@.skip(i as int).drop_first() =~= a@.skip(i + 1));
        assert(b@.skip(i as int).drop_first() =~= b@.skip(i + 1));
        i += 1;
    }
    let ghost sa = a@.skip(i as int);
    let ghost sb = b@.skip(i as int);
    if i == x.len() {
        assert(sa.len() == 0);
        assert(text_le(sa, sb));
        true
    } else if i == y.len() {
        assert(sa.len() > 0 && sb.len() == 0);
        assert(!text_le(sa, sb));
        false
    } else {
        assert(sa[0] == x@[i as int] && sb[0] == y@[i as int]);
        assert(sa.len() > 0 && sb.len() > 0 && sa[0] != sb[0]);
        let r = x[i] < y[i];
        assert(text_le(sa, sb) == ((sa[0] as int) < (sb[0] as int)));
        r
    }
}

/// The order `text_le` as a relation.
pub open spec fn text_order() -> spec_fn(Seq<char>, Seq<char>) -> bool {
    |a: Seq<char>, b: Seq<char>| text_le(a, b)
}

/// `tags` in ascending order, as `Vec<String>::sort` leaves them.
pub open spec fn sorted_text(tags: Seq<Seq<char>>) -> Seq<Seq<char>> {
    tags.sort_by(text_order())
}

proof fn lemma_text_le_reflexive(a: Seq<char>)
    ensures
        text_le(a, a),
    decreases a.len(),
{
    if a.len() > 0 {
        lemma_text_le_reflexive(a.drop_first());
    }
}

proof fn lemma_text_le_antisymmetric(a: Seq<char>, b: Seq<char>)
    requires
        text_le(a, b),
        text_le(b, a),
    ensures
        a == b,
    decreases a.len(),
{
    if a.len() > 0 && b.len() > 0 {
        lemma_text_le_antisymmetric(a.drop_first(), b.drop_first());
        assert(a =~= seq![a[0]] + a.drop_first());
        assert(b =~= seq![b[0]] + b.drop_first());
    } else {
        assert(a.len() == 0 && b.len() == 0);
        assert(a =~= b);
    }
}

proof fn lemma_text_le_transitive(a: Seq<char>, b: Seq<char>, c: Seq<char>)
    requires
        text_le(a, b),
        text_le(b, c),
    ensures
        text_le(a, c),
    decreases a.len(),
{
    if a.len() > 0 && b.len() > 0 && c.len() > 0 {
        if a[0] == b[0] && b[0] == c[0] {
            lemma_text_le_transitive(a.drop_first(), b.drop_first(), c.drop_first());
        }
    }
}

proof fn lemma_text_le_total(a: Seq<char>, b: Seq<char>)
    ensures
        text_le(a, b) || text_le(b, a),
    decreases a.len(),
{
    if a.len() > 0 && b.len() > 0 && a[0] == b[0] {
        lemma_text_le_total(a.drop_first(), b.drop_first());
    }
}

/// `text_le` is a total order, so sorting by it is well defined.
pub proof fn lemma_text_order_total()
    ensures
        vstd::relations::total_ordering(text_order()),
{
    assert forall|a: Seq<char>| #[trigger] text_order()(a, a) by {
        lemma_text_le_reflexive(a);
    }
    assert forall|a: Seq<char>, b: Seq<char>|
        #[trigger] text_order()(a, b) && #[trigger] text_order()(b, a) implies a == b by {
        lemma_text_le_antisymmetric(a, b);
    }
    assert forall|a: Seq<char>, b: Seq<char>, c: Seq<char>|
        #[trigger] text_order()(a, b) && #[trigger] text_order()(b, c) implies text_order()(a, c) by {
        lemma_text_le_transitive(a, b, c);
    }
    assert forall|a: Seq<char>, b: Seq<char>|
        #[trigger] text_order()(a, b) || #[trigger] text_order()(b, a) by {
        lemma_text_le_total(a, b);
    }
}

/// Sorting keeps exactly the same strings, counted with multiplicity.
pub proof fn lemma_sorted_text_same(tags: Seq<Seq<char>>)
    ensures
        sorted_text(tags).to_multiset() == tags.to_multiset(),
        sorted_text(tags).len() == tags.len(),
        forall|t: Seq<char>| sorted_text(tags).contains(t) <==> tags.contains(t),
        vstd::relations::sorted_by(sorted_text(tags), text_order()),
{
    broadcast use vstd::seq_lib::group_to_multiset_ensures;
    lemma_text_order_total();
    tags.lemma_sort_by_ensures(text_order());
    assert(sorted_text(tags).to_multiset().len() == sorted_text(tags).len());
    assert(tags.to_multiset().len() == tags.len());
    assert forall|t: Seq<char>| sorted_text(tags).contains(t) <==> tags.contains(t) by {
        assert(sorted_text(tags).to_multiset().count(t) == tags.to_multiset().count(t));
    }
}

/// The index of the first string of `v` equal to `t`.
pub fn find_string(v: &Vec<String>, t: &str) -> (r: Option<usize>)
    ensures
        match r {
            Some(i) => i < v@.len() && v@[i as int]@ == t@ && forall|j: int|
                0 <= j < i ==> v@[j]@ != t@,
            None => forall|j: int| 0 <= j < v@.len() ==> v@[j]@ != t@,
        },
        r is None <==> !views(v@).contains(t@),
{
    let mut i: usize = 0;
    while i < v.len()
        invariant
            i <= v.len(),
            forall|j: int| 0 <= j < i ==> v@[j]@ != t@,
        decreases v.len() - i,
    {
        if str_eq(v[i].as_str(), t) {
            assert(views(v@)[i as int] == t@);
            return Some(i);
        }
        i += 1;
    }
    assert(!views(v@).contains(t@)) by {
        if views(v@).contains(t@) {
            let k = choose|k: int| 0 <= k < views(v@).len() && views(v@)[k] == t@;
            assert(v@[k]@ == t@);
        }
    }
    None
}

/// Sorts strings in ascending order (`<[String]>::sort`).
#[verifier::external_body]
pub(crate) fn sort_strings(v: &mut Vec<String>)
    ensures
        views(final(v)@) == sorted_text(views(old(v)@)),
{
    v.sort();
}

/// What group 1 of `pattern` captures in the leftmost match of `pattern` in
/// `text`, as the `regex` crate reports it: `None` when nothing matches,
/// when the group takes no part in the match, or when `pattern` is not a
/// valid expression.
pub uninterp spec fn regex_group1(pattern: Seq<char>, text: Seq<char>) -> Option<Seq<char>>;

/// Compiles `pattern` with `regex::Regex::new` and returns the text of
/// capture group 1 of the leftmost match in `text` (`Regex::captures`,
/// `Captures::get(1)`), or `None`; a pattern that does not compile gives
/// `None`.
#[verifier::external_body]
pub(crate) fn capture_group1(pattern: &str, text: &str) -> (r: Option<String>)
    ensures
        r is Some <==> regex_group1(pattern@, text@) is Some,
        r is Some ==> r->0@ == regex_group1(pattern@, text@)->0,
{
    let re = match regex::Regex::new(pattern) {
        Ok(re) => re,
        Err(_) => return None,
    };
    match re.captures(text) {
        Some(caps) => match caps.get(1) {
            Some(m) => Some(m.as_str().to_string()),
            None => None,
        },
        None => None,
    }
}

/// How many of `v` are `t`.
pub open spec fn count_text(v: Seq<Seq<char>>, t: Seq<char>) -> nat
    decreases v.len(),
{
    if v.len() == 0 {
        0
    } else {
        count_text(v.drop_last(), t) + if v.last() == t {
            1nat
        } else {
            0nat
        }
    }
}

/// Counting `t` in `v` is counting it in `v` as a multiset.
pub(crate) proof fn lemma_count_text_multiset(v: Seq<Seq<char>>, t: Seq<char>)
    ensures
        count_text(v, t) == v.to_multiset().count(t),
    decreases v.len(),
{
    broadcast use vstd::seq_lib::group_to_multiset_ensures;
    if v.len() > 0 {
        lemma_count_text_multiset(v.drop_last(), t);
        assert(v =~= v.drop_last().push(v.last()));
    }
}

/// How many strings of `v` are `t`.
pub fn count_string(v: &Vec<String>, t: &str) -> (r: usize)
    ensures
        r == count_text(views(v@), t@),
{
    let mut n: usize = 0;
    let mut i: usize = 0;
    while i < v.len()
        invariant
            i <= v@.len(),
            n == count_text(views(v@).take(i as int), t@),
            n <= i,
        decreases v.len() - i,
    {
        assert(views(v@).take(i + 1).drop_last() =~= views(v@).take(i as int));
        if str_eq(v[i].as_str(), t) {
            n += 1;
        }
        i += 1;
    }
    assert(views(v@).take(v.len() as int) =~= views(v@));
    n
}

/// `s` with `c` put at character position `i`.
pub fn string_insert(s: &String, i: usize, c: char) -> (r: String)
    requires
        i <= s@.len(),
    ensures
        r@ == s@.insert(i as int, c),
        r@.len() <= usize::MAX,
{
    let mut v = chars_of(s.as_str());
    v.insert(i, c);
    assert(v@.len() == v.len());
    string_of(&v)
}

/// `s` without the character at position `i`.
pub fn string_remove(s: &String, i: usize) -> (r: String)
    requires
        i < s@.len(),
    ensures
        r@ == s@.remove(i as int),
{
    let mut v = chars_of(s.as_str());
    v.remove(i);
    string_of(&v)
}

/// The number of bytes `c` takes in UTF-8 (`char::len_utf8`).
pub open spec fn utf8_len(c: char) -> nat {
    if (c as u32) < 0x80 {
        1
    } else if (c as u32) < 0x800 {
        2
    } else if (c as u32) < 0x10000 {
        3
    } else {
        4
    }
}

/// The number of bytes `s` takes in UTF-8 (`str::len`).
pub open spec fn byte_len(s: Seq<char>) -> nat
    decreases s.len(),
{
    if s.len() == 0 {
        0
    } else {
        utf8_len(s[0]) + byte_len(s.drop_first())
    }
}

/// The character that starts at byte `p` of `s` (the length of `s` for its
/// end), or `None` when `p` falls inside a character or beyond the end.
pub open spec fn char_at_byte(s: Seq<char>, p: int) -> Option<int>
    decreases s.len(),
{
    if p == 0 {
        Some(0)
    } else if s.len() == 0 || p < utf8_len(s[0]) {
        None
    } else {
        match char_at_byte(s.drop_first(), p - utf8_len(s[0])) {
            Some(k) => Some(k + 1),
            None => None,
        }
    }
}

/// A single character takes its own UTF-8 length.
proof fn lemma_byte_len_one(c: char)
    ensures
        byte_len(seq![c]) == utf8_len(c),
{
    assert(seq![c].drop_first() =~= Seq::<char>::empty());
    assert(byte_len(Seq::<char>::empty()) == 0);
}

/// Bytes add up over a concatenation.
pub proof fn lemma_byte_len_concat(a: Seq<char>, b: Seq<char>)
    ensures
        byte_len(a + b) == byte_len(a) + byte_len(b),
    decreases a.len(),
{
    if a.len() > 0 {
        lemma_byte_len_concat(a.drop_first(), b);
        assert((a + b).drop_first() =~= a.drop_first() + b);
        assert((a + b)[0] == a[0]);
    } else {
        assert(a + b =~= b);
    }
}

/// The character found at byte `p` is the one after exactly `p` bytes.
pub proof fn lemma_char_at_byte(s: Seq<char>, p: int)
    ensures
        char_at_byte(s, p) matches Some(k) ==> 0 <= k <= s.len() && byte_len(s.take(k)) == p,
    decreases s.len(),
{
    if p != 0 && s.len() > 0 && p >= utf8_len(s[0]) {
        lemma_char_at_byte(s.drop_first(), p - utf8_len(s[0]));
        if let Some(k) = char_at_byte(s.drop_first(), p - utf8_len(s[0])) {
            assert(s.take(k + 1) =~= seq![s[0]] + s.drop_first().take(k));
            lemma_byte_len_concat(seq![s[0]], s.drop_first().take(k));
            lemma_byte_len_one(s[0]);
        }
    } else if p == 0 {
        assert(s.take(0) =~= Seq::<char>::empty());
    }
}

/// The byte after the first `k` characters starts character `k`.
pub proof fn lemma_char_at_byte_start(s: Seq<char>, k: int)
    requires
        0 <= k <= s.len(),
    ensures
        char_at_byte(s, byte_len(s.take(k)) as int) == Some(k),
    decreases k,
{
    if k == 0 {
        assert(s.take(0) =~= Seq::<char>::empty());
    } else {
        lemma_char_at_byte_start(s.drop_first(), k - 1);
        assert(s.take(k) =~= seq![s[0]] + s.drop_first().take(k - 1));
        lemma_byte_len_concat(seq![s[0]], s.drop_first().take(k - 1));
        lemma_byte_len_one(s[0]);
        assert(utf8_len(s[0]) > 0);
    }
}

/// How inserting and removing a character change the byte length, and the
/// bytes before a character.
pub proof fn lemma_byte_len_edit(s: Seq<char>, k: int, c: char)
    requires
        0 <= k <= s.len(),
    ensures
        byte_len(s.insert(k, c)) == byte_len(s) + utf8_len(c),
        byte_len(s.take(k)) <= byte_len(s),
        k < s.len() ==> byte_len(s.remove(k)) + utf8_len(s[k]) == byte_len(s),
        k < s.len() ==> byte_len(s.take(k)) + utf8_len(s[k]) <= byte_len(s),
        k < s.len() ==> byte_len(s.take(k)) <= byte_len(s.remove(k)),
{
    let one = seq![c];
    lemma_byte_len_one(c);
    assert(s =~= s.take(k) + s.skip(k));
    lemma_byte_len_concat(s.take(k), s.skip(k));
    assert(s.insert(k, c) =~= s.take(k) + (one + s.skip(k)));
    lemma_byte_len_concat(one, s.skip(k));
    lemma_byte_len_concat(s.take(k), one + s.skip(k));
    if k < s.len() {
        let x = seq![s[k]];
        lemma_byte_len_one(s[k]);
        assert(s.skip(k) =~= x + s.skip(k + 1));
        lemma_byte_len_concat(x, s.skip(k + 1));
        assert(s.remove(k) =~= s.take(k) + s.skip(k + 1));
        lemma_byte_len_concat(s.take(k), s.skip(k + 1));
    }
}

/// The number of bytes `c` takes in UTF-8.
pub fn utf8_len_exec(c: char) -> (r: usize)
    ensures
        r == utf8_len(c),
{
    let n = c as u32;
    if n < 0x80 {
        1
    } else if n < 0x800 {
        2
    } else if n < 0x10000 {
        3
    } else {
        4
    }
}

/// The length of `s` in bytes, as `str::len` gives it.
#[verifier::external_body]
pub(crate) fn byte_len_of(s: &str) -> (r: usize)
    ensures
        r == byte_len(s@),
{
    s.len()
}

/// The character that starts at byte `p` of `s`.
pub fn char_at_byte_exec(s: &str, p: usize) -> (r: Option<usize>)
    ensures
        match r {
            Some(k) => char_at_byte(s@, p as int) == Some(k as int),
            None => char_at_byte(s@, p as int) is None,
        },
{
    let v = chars_of(s);
    let mut i: usize = 0;
    let mut acc: usize = 0;
    assert(s@.skip(0) =~= s@);
    while i < v.len()
        invariant
            v@ == s@,
            i <= v@.len(),
            acc <= p,
            char_at_byte(s@, p as int) == match char_at_byte(s@.skip(i as int), p - acc) {
                Some(k) => Some(k + i),
                None => None::<int>,
            },
        decreases v.len() - i,
    {
        let ghost t = s@.skip(i as int);
        assert(t.drop_first() =~= s@.skip(i + 1));
        assert(t[0] == v@[i as int]);
        if acc == p {
            return Some(i);
        }
        let u = utf8_len_exec(v[i]);
        if p - acc < u {
            return None;
        }
        acc = acc + u;
        i += 1;
    }
    assert(s@.skip(i as int) =~= Seq::<char>::empty());
    if acc == p {
        Some(i)
    } else {
        None
    }
}

/// Whether byte `p` of `s` starts a character or is the end.
pub fn starts_char(s: &str, p: usize) -> (r: bool)
    ensures
        r == char_at_byte(s@, p as int) is Some,
{
    char_at_byte_exec(s, p).is_some()
}

/// Whether a text edit keyed by `c` at byte `p` of `s` can be made: typing
/// needs `p` to start a character or be the end, Delete (before the end) to
/// start a character, and Backspace (after the start) the byte before `p`.
pub open spec fn edit_fits(s: Seq<char>, p: int, c: crate::util::views::KeyCode) -> bool {
    &&& c is Char ==> char_at_byte(s, p) is Some
    &&& c is Delete && p < byte_len(s) ==> char_at_byte(s, p) is Some
    &&& c is Backspace && p > 0 ==> char_at_byte(s, p - 1) is Some
}

/// Whether the edit keyed by `c` at byte `p` of `s` can be made.
pub fn edit_fits_exec(s: &str, p: usize, c: crate::util::views::KeyCode) -> (r: bool)
    ensures
        r == edit_fits(s@, p as int, c),
{
    match c {
        crate::util::views::KeyCode::Char(_) => starts_char(s, p),
        crate::util::views::KeyCode::Delete => p >= byte_len_of(s) || starts_char(s, p),
        crate::util::views::KeyCode::Backspace => p == 0 || starts_char(s, p - 1),
        _ => true,
    }
}

/// `s` with `c` put at byte position `p` (`String::insert`), which starts a
/// character or is the end.
pub fn string_insert_at_byte(s: &String, p: usize, c: char) -> (r: String)
    requires
        char_at_byte(s@, p as int) is Some,
    ensures
        r@ == s@.insert(char_at_byte(s@, p as int)->0, c),
        byte_len(r@) == byte_len(s@) + utf8_len(c),
        byte_len(r@) <= usize::MAX,
{
    proof {
        lemma_char_at_byte(s@, p as int);
    }
    let k = char_at_byte_exec(s.as_str(), p).unwrap();
    let r = string_insert(s, k, c);
    proof {
        lemma_byte_len_edit(s@, k as int, c);
    }
    let _ = byte_len_of(r.as_str());
    r
}

/// `s` without the character that starts at byte `p` (`String::remove`).
pub fn string_remove_at_byte(s: &String, p: usize) -> (r: String)
    requires
        char_at_byte(s@, p as int) matches Some(k) && k < s@.len(),
    ensures
        r@ == s@.remove(char_at_byte(s@, p as int)->0),
        byte_len(r@) + utf8_len(s@[char_at_byte(s@, p as int)->0]) == byte_len(s@),
        p <= byte_len(r@),
{
    proof {
        lemma_char_at_byte(s@, p as int);
    }
    let k = char_at_byte_exec(s.as_str(), p).unwrap();
    proof {
        lemma_byte_len_edit(s@, k as int, ' ');
    }
    string_remove(s, k)
}

/// The number of characters of `s`.
pub fn char_len(s: &str) -> (r: usize)
    ensures
        r == s@.len(),
{
    chars_of(s).len()
}

/// Puts `x` in place of entry `i` of `v`.
pub fn set_string(v: &mut Vec<String>, i: usize, x: String)
    requires
        i < old(v)@.len(),
    ensures
        final(v)@ == old(v)@.update(i as int, x),
        views(final(v)@) == views(old(v)@).update(i as int, x@),
{
    v.remove(i);
    v.insert(i, x);
    assert(v@ =~= old(v)@.update(i as int, x));
    assert(views(v@) =~= views(old(v)@).update(i as int, x@));
}

/// Appends one character to a string (`String::push`).
#[verifier::external_body]
pub(crate) fn push_char(s: &mut String, c: char)
    ensures
        final(s)@ == old(s)@.push(c),
{
    s.push(c);
}

/// A string holding the characters of a literal or slice.
pub fn string_from(s: &str) -> (r: String)
    ensures
        r@ == s@,
{
    let v = chars_of(s);
    string_of(&v)
}

/// The characters of `s`, in order.
pub fn chars_of(s: &str) -> (v: Vec<char>)
    ensures
        v@ == s@,
{
    let mut v: Vec<char> = Vec::new();
    for c in it: s.chars()
        invariant
            v@ == it.seq().take(it.index() as int),
            it.seq() == s@,
    {
        v.push(c);
    }
    v
}

/// A string holding exactly the characters of `v`.
pub fn string_of(v: &[char]) -> (s: String)
    ensures
        s@ == v@,
{
    let mut s = String::new();
    let mut i: usize = 0;
    while i < v.len()
        invariant
            i <= v.len(),
            s@ == v@.take(i as int),
        decreases v.len() - i,
    {
        push_char(&mut s, v[i]);
        assert(v@.take(i as int).push(v@[i as int]) =~= v@.take(i + 1));
        i += 1;
    }
    assert(v@.take(v.len() as int) =~= v@);
    s
}

/// Appends the characters of `v` to `s`.
pub fn push_chars(s: &mut String, v: &[char])
    ensures
        final(s)@ == old(s)@ + v@,
{
    let mut i: usize = 0;
    while i < v.len()
        invariant
            i <= v.len(),
            s@ == old(s)@ + v@.take(i as int),
        decreases v.len() - i,
    {
        push_char(s, v[i]);
        assert(v@.take(i as int).push(v@[i as int]) =~= v@.take(i + 1));
        i += 1;
    }
    assert(v@.take(v.len() as int) =~= v@);
}

/// Appends the characters of `t` to `s`.
pub fn push_str(s: &mut String, t: &str)
    ensures
        final(s)@ == old(s)@ + t@,
{
    let v = chars_of(t);
    push_chars(s, &v);
}

/// Whether two character sequences are equal.
pub fn chars_eq(a: &[char], b: &[char]) -> (r: bool)
    ensures
        r == (a@ == b@),
{
    if a.len() != b.len() {
        return false;
    }
    let mut i: usize = 0;
    while i < a.len()
        invariant
            i <= a.len(),
            a.len() == b.len(),
            forall|j: int| 0 <= j < i ==> a@[j] == b@[j],
        decreases a.len() - i,
    {
        if a[i] != b[i] {
            return false;
        }
        i += 1;
    }
    assert(a@ =~= b@);
    true
}

/// Whether two strings hold the same characters.
pub fn str_eq(a: &str, b: &str) -> (r: bool)
    ensures
        r == (a@ == b@),
{
    let va = chars_of(a);
    let vb = chars_of(b);
    chars_eq(&va, &vb)
}

/// A copy of a vector of strings.
pub fn clone_strings(v: &Vec<String>) -> (r: Vec<String>)
    ensures
        r@ == v@,
{
    let mut r: Vec<String> = Vec::new();
    let mut i: usize = 0;
    while i < v.len()
        invariant
            i <= v.len(),
            r@ == v@.take(i as int),
        decreases v.len() - i,
    {
        r.push(v[i].clone());
        assert(v@.take(i as int).push(v@[i as int]) =~= v@.take(i + 1));
        i += 1;
    }
    assert(v@.take(v.len() as int) =~= v@);
    r
}

/// The pieces of `s` between occurrences of `sep` (`str::split`).
pub fn split_chars(s: &[char], sep: char) -> (r: Vec<Vec<char>>)
    ensures
        r@.len() >= 1,
        r@.map_values(|p: Vec<char>| p@) == split_spec(s@, sep),
{
    let mut r: Vec<Vec<char>> = Vec::new();
    let mut cur: Vec<char> = Vec::new();
    let mut i: usize = 0;
    while i < s.len()
        invariant
            i <= s.len(),
            r@.map_values(|p: Vec<char>| p@).push(cur@) == split_spec(s@.take(i as int), sep),
        decreases s.len() - i,
    {
        let ghost before = r@.map_values(|p: Vec<char>| p@).push(cur@);
        assert(s@.take(i + 1).drop_last() =~= s@.take(i as int));
        if s[i] == sep {
            r.push(cur);
            cur = Vec::new();
            assert(r@.map_values(|p: Vec<char>| p@).push(cur@) =~= before.push(Seq::<char>::empty()));
        } else {
            cur.push(s[i]);
            assert(r@.map_values(|p: Vec<char>| p@).push(cur@) =~= before.update(
                before.len() - 1,
                before.last().push(s@[i as int]),
            ));
        }
        i += 1;
    }
    assert(s@.take(s.len() as int) =~= s@);
    r.push(cur);
    r
}

/// The pieces of `s` between occurrences of `sep`, as strings (`str::split`).
pub fn split_string(s: &str, sep: char) -> (vs: Vec<String>)
    ensures
        views(vs@) == split_spec(s@, sep),
{
    let chars = chars_of(s);
    let pieces = split_chars(&chars, sep);
    let mut vs: Vec<String> = Vec::new();
    let mut i: usize = 0;
    while i < pieces.len()
        invariant
            i <= pieces@.len(),
            views(vs@) == pieces@.map_values(|p: Vec<char>| p@).take(i as int),
            pieces@.map_values(|p: Vec<char>| p@) == split_spec(s@, sep),
        decreases pieces.len() - i,
    {
        let piece = string_of(pieces[i].as_slice());
        let ghost before = vs@;
        vs.push(piece);
        assert(vs@ =~= before.push(piece));
        assert(views(vs@) =~= views(before).push(piece@));
        assert(views(vs@) =~= pieces@.map_values(|p: Vec<char>| p@).take(i + 1));
        i += 1;
    }
    assert(pieces@.map_values(|p: Vec<char>| p@).take(pieces@.len() as int) =~= pieces@.map_values(
        |p: Vec<char>| p@,
    ));
    vs
}

/// The pieces of `parts` glued together with `sep` between them.
pub fn join_chars(parts: &Vec<Vec<char>>, sep: &[char]) -> (r: Vec<char>)
    ensures
        r@ == join_spec(parts@.map_values(|p: Vec<char>| p@), sep@),
{
    let ghost pv = parts@.map_values(|p: Vec<char>| p@);
    let mut r: Vec<char> = Vec::new();
    let mut i: usize = 0;
    while i < parts.len()
        invariant
            i <= parts.len(),
            pv == parts@.map_values(|p: Vec<char>| p@),
            r@ == join_spec(pv.take(i as int), sep@),
        decreases parts.len() - i,
    {
        assert(pv.take(i + 1).drop_last() =~= pv.take(i as int));
        if i > 0 {
            r.extend_from_slice(sep);
        }
        r.extend_from_slice(parts[i].as_slice());
        assert(pv.take(i + 1).last() == pv[i as int]);
        i += 1;
    }
    assert(pv.take(parts.len() as int) =~= pv);
    r
}

/// The strings of `parts` glued together with `sep` between them.
pub fn join_strings(parts: &Vec<String>, sep: &str) -> (r: String)
    ensures
        r@ == join_spec(views(parts@), sep@),
{
    let ghost pv = views(parts@);
    let mut r = String::new();
    let mut i: usize = 0;
    while i < parts.len()
        invariant
            i <= parts.len(),
            pv == views(parts@),
            r@ == join_spec(pv.take(i as int), sep@),
        decreases parts.len() - i,
    {
        assert(pv.take(i + 1).drop_last() =~= pv.take(i as int));
        if i > 0 {
            push_str(&mut r, sep);
        }
        push_str(&mut r, parts[i].as_str());
        assert(pv.take(i + 1).last() == pv[i as int]);
        i += 1;
    }
    assert(pv.take(parts.len() as int) =~= pv);
    r
}

/// Whether `pat` occurs in `s` at position `i`.
pub fn occurs_at_exec(s: &[char], pat: &[char], i: usize) -> (r: bool)
    ensures
        r == occurs_at(s@, pat@, i as int),
{
    if i > s.len() || pat.len() > s.len() - i {
        return false;
    }
    let mut j: usize = 0;
    while j < pat.len()
        invariant
            i + pat.len() <= s.len(),
            j <= pat.len(),
            forall|k: int| 0 <= k < j ==> s@[i + k] == pat@[k],
        decreases pat.len() - j,
    {
        if s[i + j] != pat[j] {
            assert(s@.subrange(i as int, i + pat.len())[j as int] != pat@[j as int]);
            return false;
        }
        j += 1;
    }
    assert(s@.subrange(i as int, i + pat.len()) =~= pat@);
    true
}

/// Whether `pat` occurs somewhere in `s` (`str::contains`).
pub fn contains_chars(s: &[char], pat: &[char]) -> (r: bool)
    ensures
        r == contains_spec(s@, pat@),
{
    if pat.len() > s.len() {
        assert forall|i: int| !occurs_at(s@, pat@, i) by {}
        return false;
    }
    let limit = s.len() - pat.len();
    let mut i: usize = 0;
    loop
        invariant
            pat.len() <= s.len(),
            limit == s.len() - pat.len(),
            i <= limit,
            forall|k: int| 0 <= k < i ==> !occurs_at(s@, pat@, k),
        decreases limit - i,
    {
        if occurs_at_exec(s, pat, i) {
            return true;
        }
        if i == limit {
            assert forall|k: int| !occurs_at(s@, pat@, k) by {
                if 0 <= k && k + pat@.len() <= s@.len() {
                    assert(k <= i);
                }
            }
            return false;
        }
        i += 1;
    }
}

/// Whether the literal `pat` occurs in `s`.
pub fn contains_str(s: &str, pat: &str) -> (r: bool)
    ensures
        r == contains_spec(s@, pat@),
{
    let vs = chars_of(s);
    let vp = chars_of(pat);
    contains_chars(&vs, &vp)
}

/// `s` with every occurrence of the non-empty `pat` replaced by `rep`.
pub fn replace_chars(s: &[char], pat: &[char], rep: &[char]) -> (r: Vec<char>)
    requires
        pat@.len() > 0,
    ensures
        r@ == replace_spec(s@, pat@, rep@),
{
    let mut r: Vec<char> = Vec::new();
    let mut i: usize = 0;
    assert(s@.skip(0) =~= s@);
    while i < s.len()
        invariant
            i <= s.len(),
            pat@.len() > 0,
            r@ + replace_spec(s@.skip(i as int), pat@, rep@) == replace_spec(s@, pat@, rep@),
        decreases s.len() - i,
    {
        let ghost rest = s@.skip(i as int);
        if occurs_at_exec(s, pat, i) {
            assert(rest.take(pat@.len() as int) =~= s@.subrange(i as int, i + pat@.len()));
            assert(rest.skip(pat@.len() as int) =~= s@.skip(i + pat@.len()));
            r.extend_from_slice(rep);
            i += pat.len();
        } else {
            assert(pat@.len() <= rest.len() ==> rest.take(pat@.len() as int) =~= s@.subrange(i as int, i + pat@.len()));
            assert(rest.skip(1) =~= s@.skip(i + 1));
            r.push(s[i]);
            i += 1;
        }
    }
    assert(s@.skip(s.len() as int) =~= Seq::<char>::empty());
    assert(r@ + Seq::<char>::empty() =~= r@);
    r
}

/// The digit character for `d < 10`.
fn digit(d: u64) -> (c: char)
    requires
        d < 10,
    ensures
        c == digit_char(d as nat),
{
    if d == 0 { '0' }
    else if d == 1 { '1' }
    else if d == 2 { '2' }
    else if d == 3 { '3' }
    else if d == 4 { '4' }
    else if d == 5 { '5' }
    else if d == 6 { '6' }
    else if d == 7 { '7' }
    else if d == 8 { '8' }
    else { '9' }
}

/// The decimal text of `n`.
pub fn u64_text(n: u64) -> (r: Vec<char>)
    ensures
        r@ == nat_text(n as nat),
    decreases n,
{
    if n < 10 {
        let mut r: Vec<char> = Vec::new();
        r.push(digit(n));
        assert(r@ =~= seq![digit_char(n as nat)]);
        r
    } else {
        let mut r = u64_text(n / 10);
        r.push(digit(n % 10));
        r
    }
}

/// The decimal text of `n`, as `i32`'s `Display` writes it.
pub fn i32_text(n: i32) -> (r: Vec<char>)
    ensures
        r@ == int_text(n as int),
{
    if n < 0 {
        let m: i64 = -(n as i64);
        let digits = u64_text(m as u64);
        let mut r: Vec<char> = Vec::new();
        r.push('-');
        r.extend_from_slice(digits.as_slice());
        assert(r@ =~= seq!['-'] + digits@);
        r
    } else {
        u64_text(n as u64)
    }
}

} // verus!
