//! The omnibar query language and the SQL conditions each query stands for.
//!
//! A query is a space-separated list of fields `key:value`. Text fields
//! (`name`, `text`, `type`, `tag`) take words and quoted phrases joined by
//! `+`/`&` (and) or `|`/`/` (or), grouped with brackets and negated with a
//! leading `!`; `cmc`, `power` and `toughness` take a number, a range
//! `a-b` or `a..b`, a bound `>n`/`<n`, or `*`/`x` for a variable value;
//! `color` and `identity` take color letters (`wubrgc`, `!` to exclude);
//! `rarity` takes `c`, `u`, `r`, `m`; `sort` takes `+` or `-` and `name`,
//! `cmc` or `price`. Each rule below is stated as a spec function that
//! both recognizes its part of the text and says what SQL it stands for.
use vstd::prelude::*;
use crate::text::{chars_eq, chars_of, push_chars, push_str, string_of};

verus! {

/// Which column a part of a query is about.
#[derive(Debug, Copy, Clone, PartialEq, Eq, Structural)]
pub enum FilterField {
    Name,
    Text,
    Tag,
    Type,
    Cmc,
    Power,
    Toughness,
    Color,
    Identity,
    Plain,
}

/// The kind of a query field, named by its key.
#[derive(Debug, Copy, Clone, PartialEq, Eq, Structural)]
pub enum OmniKey {
    Name,
    Text,
    Type,
    Tag,
    Cmc,
    Power,
    Toughness,
    Color,
    Identity,
    Rarity,
    Sort,
}

/// A character that can stand in a bare word.
pub open spec fn is_word_char(c: char) -> bool {
    !(c == ' ' || c == '"' || c == '(' || c == ')' || c == '+' || c == '&' || c == '|' || c
        == '/' || c == '!' || c == ':')
}

/// A character that joins two terms.
pub open spec fn is_separator(c: char) -> bool {
    c == '+' || c == '&' || c == '|' || c == '/'
}

/// The first position at or after `i` that is not a word character.
pub open spec fn word_end(s: Seq<char>, i: int) -> int
    decreases s.len() - i,
{
    if 0 <= i < s.len() && is_word_char(s[i]) {
        word_end(s, i + 1)
    } else {
        i
    }
}

/// The first position at or after `i` holding `"`, or the end.
pub open spec fn quote_end(s: Seq<char>, i: int) -> int
    decreases s.len() - i,
{
    if 0 <= i < s.len() && s[i] != '"' {
        quote_end(s, i + 1)
    } else {
        i
    }
}

/// `s` without its `"` characters (`str::replace('"', "")`).
pub open spec fn strip_quotes(s: Seq<char>) -> Seq<char>
    decreases s.len(),
{
    if s.len() == 0 {
        s
    } else if s.last() == '"' {
        strip_quotes(s.drop_last())
    } else {
        strip_quotes(s.drop_last()).push(s.last())
    }
}

/// `s` without its leading `!` characters (`str::trim_start_matches('!')`).
pub open spec fn trim_bangs(s: Seq<char>) -> Seq<char>
    decreases s.len(),
{
    if s.len() > 0 && s[0] == '!' {
        trim_bangs(s.drop_first())
    } else {
        s
    }
}

/// The card type a one-letter type abbreviation stands for.
pub open spec fn expand_type(a: Seq<char>) -> Seq<char> {
    if a == "a"@ {
        "artifact"@
    } else if a == "c"@ {
        "creature"@
    } else if a == "e"@ {
        "enchantment"@
    } else if a == "i"@ {
        "instant"@
    } else if a == "l"@ {
        "legendary"@
    } else if a == "p"@ {
        "planeswalker"@
    } else if a == "s"@ {
        "sorcery"@
    } else {
        a
    }
}

/// The condition for a word or phrase `raw` (as written, with its quotes
/// and negation) searched in the column of `mode`.
pub open spec fn term_sql(raw: Seq<char>, negated: bool, mode: FilterField) -> Seq<char> {
    let a0 = strip_quotes(raw);
    let a1 = if negated {
        trim_bangs(a0)
    } else {
        a0
    };
    let flag = if negated {
        " NOT "@
    } else {
        " "@
    };
    if mode == FilterField::Type && a1 == "per"@ {
        if negated {
            "types LIKE '%instant%' OR types LIKE '%sorcery%'"@
        } else {
            "types NOT LIKE '%instant%' AND types NOT LIKE '%sorcery%'"@
        }
    } else {
        let a = if mode == FilterField::Type {
            expand_type(a1)
        } else {
            a1
        };
        match mode {
            FilterField::Name => "name"@ + flag + "LIKE \"%"@ + a + "%\""@,
            FilterField::Text => "card_text"@ + flag + "LIKE \"%"@ + a + "%\""@,
            FilterField::Type => "types"@ + flag + "LIKE \"%"@ + a + "%\""@,
            FilterField::Tag => "tags"@ + flag + "REGEXP '(?:\\||^)"@ + a + "(?:$|\\|)'"@,
            _ => flag + " "@,
        }
    }
}

/// The SQL joining two terms.
pub open spec fn separator_sql(c: char) -> Seq<char> {
    if c == '+' || c == '&' {
        " AND "@
    } else {
        " OR "@
    }
}

/// A term at `i`: a bracketed group, a quoted phrase or a bare word, each
/// maybe negated; its condition and the position after it.
pub open spec fn parse_term(s: Seq<char>, i: int, mode: FilterField) -> Option<(Seq<char>, int)>
    decreases s.len() - i, 0int,
{
    if !(0 <= i < s.len()) {
        None
    } else if s[i] == '(' {
        match parse_token(s, i + 1, mode) {
            Some((t, j)) => if i < j < s.len() && s[j] == ')' {
                Some(("("@ + t + ")"@, j + 1))
            } else {
                None
            },
            None => None,
        }
    } else {
        let negated = s[i] == '!';
        let k = if negated {
            i + 1
        } else {
            i
        };
        if k < s.len() && s[k] == '"' {
            let e = quote_end(s, k + 1);
            if e < s.len() {
                Some((term_sql(s.subrange(i, e + 1), negated, mode), e + 1))
            } else {
                None
            }
        } else {
            let e = word_end(s, k);
            if e > k {
                Some((term_sql(s.subrange(i, e), negated, mode), e))
            } else {
                None
            }
        }
    }
}

/// Terms joined by separators, starting at `i`.
pub open spec fn parse_token(s: Seq<char>, i: int, mode: FilterField) -> Option<(Seq<char>, int)>
    decreases s.len() - i, 1int,
{
    if !(0 <= i <= s.len()) {
        None
    } else {
        match parse_term(s, i, mode) {
            Some((t, j)) => if i < j <= s.len() {
                parse_token_rest(s, j, mode, t)
            } else {
                None
            },
            None => None,
        }
    }
}

/// The rest of a token after the terms read so far, whose condition is
/// `acc`.
pub open spec fn parse_token_rest(s: Seq<char>, j: int, mode: FilterField, acc: Seq<char>) -> Option<
    (Seq<char>, int),
>
    decreases s.len() - j, 2int,
{
    if !(0 <= j <= s.len()) {
        None
    } else if j < s.len() && is_separator(s[j]) {
        match parse_term(s, j + 1, mode) {
            Some((t, k)) => if j + 1 < k <= s.len() {
                parse_token_rest(s, k, mode, acc + separator_sql(s[j]) + t)
            } else {
                None
            },
            None => None,
        }
    } else {
        Some((acc, j))
    }
}

/// The first position at or after `i` that is not a word character.
fn word_end_exec(s: &[char], i: usize) -> (r: usize)
    requires
        i <= s@.len(),
    ensures
        r == word_end(s@, i as int),
        i <= r <= s@.len(),
{
    let mut k = i;
    while k < s.len() && is_word_char_exec(s[k])
        invariant
            i <= k <= s@.len(),
            word_end(s@, k as int) == word_end(s@, i as int),
        decreases s.len() - k,
    {
        k += 1;
    }
    k
}

/// The first position at or after `i` holding `"`, or the end.
fn quote_end_exec(s: &[char], i: usize) -> (r: usize)
    requires
        i <= s@.len(),
    ensures
        r == quote_end(s@, i as int),
        i <= r <= s@.len(),
{
    let mut k = i;
    while k < s.len() && s[k] != '"'
        invariant
            i <= k <= s@.len(),
            quote_end(s@, k as int) == quote_end(s@, i as int),
        decreases s.len() - k,
    {
        k += 1;
    }
    k
}

fn is_word_char_exec(c: char) -> (r: bool)
    ensures
        r == is_word_char(c),
{
    !(c == ' ' || c == '"' || c == '(' || c == ')' || c == '+' || c == '&' || c == '|' || c
        == '/' || c == '!' || c == ':')
}

/// `s` without its `"` characters.
pub(crate) fn strip_quotes_exec(s: &[char]) -> (r: Vec<char>)
    ensures
        r@ == strip_quotes(s@),
{
    let mut r: Vec<char> = Vec::new();
    let mut i: usize = 0;
    while i < s.len()
        invariant
            i <= s@.len(),
            r@ == strip_quotes(s@.take(i as int)),
        decreases s.len() - i,
    {
        assert(s@.take(i + 1).drop_last() =~= s@.take(i as int));
        if s[i] != '"' {
            r.push(s[i]);
        }
        i += 1;
    }
    assert(s@.take(s@.len() as int) =~= s@);
    r
}

/// `s` without its leading `!` characters.
fn trim_bangs_exec(s: &[char]) -> (r: Vec<char>)
    ensures
        r@ == trim_bangs(s@),
{
    let mut i: usize = 0;
    assert(s@.skip(0) =~= s@);
    while i < s.len() && s[i] == '!'
        invariant
            i <= s@.len(),
            trim_bangs(s@.skip(i as int)) == trim_bangs(s@),
        decreases s.len() - i,
    {
        assert(s@.skip(i as int).drop_first() =~= s@.skip(i + 1));
        i += 1;
    }
    let mut r: Vec<char> = Vec::new();
    let mut k = i;
    while k < s.len()
        invariant
            i <= k <= s@.len(),
            r@ == s@.subrange(i as int, k as int),
        decreases s.len() - k,
    {
        r.push(s[k]);
        assert(r@ =~= s@.subrange(i as int, k + 1));
        k += 1;
    }
    assert(r@ =~= s@.skip(i as int));
    r
}

/// Whether `a` is the one-character text `c`.
fn is_letter(a: &[char], c: char) -> (r: bool)
    ensures
        r == (a@ == seq![c]),
{
    if a.len() == 1 && a[0] == c {
        assert(a@ =~= seq![c]);
        true
    } else {
        false
    }
}

/// The card type a one-letter type abbreviation stands for.
pub(crate) fn expand_type_exec(a: Vec<char>) -> (r: Vec<char>)
    ensures
        r@ == expand_type(a@),
{
    proof {
        reveal_strlit("a");
        reveal_strlit("c");
        reveal_strlit("e");
        reveal_strlit("i");
        reveal_strlit("l");
        reveal_strlit("p");
        reveal_strlit("s");
        assert("a"@ =~= seq!['a']);
        assert("c"@ =~= seq!['c']);
        assert("e"@ =~= seq!['e']);
        assert("i"@ =~= seq!['i']);
        assert("l"@ =~= seq!['l']);
        assert("p"@ =~= seq!['p']);
        assert("s"@ =~= seq!['s']);
    }
    if is_letter(&a, 'a') {
        chars_of("artifact")
    } else if is_letter(&a, 'c') {
        chars_of("creature")
    } else if is_letter(&a, 'e') {
        chars_of("enchantment")
    } else if is_letter(&a, 'i') {
        chars_of("instant")
    } else if is_letter(&a, 'l') {
        chars_of("legendary")
    } else if is_letter(&a, 'p') {
        chars_of("planeswalker")
    } else if is_letter(&a, 's') {
        chars_of("sorcery")
    } else {
        a
    }
}

/// `a`, `b` and `c` after one another.
fn cat3(a: &str, b: &[char], c: &str) -> (r: Vec<char>)
    ensures
        r@ == a@ + b@ + c@,
{
    let mut r = chars_of(a);
    r.extend_from_slice(b);
    let cc = chars_of(c);
    r.extend_from_slice(cc.as_slice());
    r
}

/// The condition for one word or phrase.
fn term_sql_exec(raw: &[char], negated: bool, mode: FilterField) -> (r: Vec<char>)
    ensures
        r@ == term_sql(raw@, negated, mode),
{
    let a0 = strip_quotes_exec(raw);
    let a1 = if negated {
        trim_bangs_exec(&a0)
    } else {
        a0
    };
    let flag = if negated {
        " NOT "
    } else {
        " "
    };
    proof {
        reveal_strlit("per");
    }
    let per = chars_of("per");
    if mode == FilterField::Type && chars_eq(&a1, &per) {
        if negated {
            return chars_of("types LIKE '%instant%' OR types LIKE '%sorcery%'");
        } else {
            return chars_of("types NOT LIKE '%instant%' AND types NOT LIKE '%sorcery%'");
        }
    }
    let a = if mode == FilterField::Type {
        expand_type_exec(a1)
    } else {
        a1
    };
    let (field, open, close) = match mode {
        FilterField::Name => ("name", "LIKE \"%", "%\""),
        FilterField::Text => ("card_text", "LIKE \"%", "%\""),
        FilterField::Type => ("types", "LIKE \"%", "%\""),
        FilterField::Tag => ("tags", "REGEXP '(?:\\||^)", "(?:$|\\|)'"),
        _ => {
            let mut r = chars_of(flag);
            r.push(' ');
            proof {
                reveal_strlit(" ");
            }
            assert(r@ =~= flag@ + " "@);
            return r;
        },
    };
    let mut r = chars_of(field);
    let fc = chars_of(flag);
    r.extend_from_slice(fc.as_slice());
    let mid = cat3(open, a.as_slice(), close);
    r.extend_from_slice(mid.as_slice());
    assert(r@ =~= field@ + flag@ + open@ + a@ + close@);
    r
}

/// The SQL joining two terms.
fn separator_sql_exec(c: char) -> (r: &'static str)
    ensures
        r@ == separator_sql(c),
{
    if c == '+' || c == '&' {
        " AND "
    } else {
        " OR "
    }
}

/// A term at `i`: its condition and the position after it.
fn parse_term_exec(s: &[char], i: usize, mode: FilterField) -> (r: Option<(Vec<char>, usize)>)
    ensures
        match r {
            Some((t, j)) => parse_term(s@, i as int, mode) == Some((t@, j as int)),
            None => parse_term(s@, i as int, mode) is None,
        },
    decreases s@.len() - i, 0int,
{
    if i >= s.len() {
        return None;
    }
    if s[i] == '(' {
        match parse_token_exec(s, i + 1, mode) {
            Some((t, j)) => {
                if i < j && j < s.len() && s[j] == ')' {
                    let r = cat3("(", t.as_slice(), ")");
                    Some((r, j + 1))
                } else {
                    None
                }
            },
            None => None,
        }
    } else {
        let negated = s[i] == '!';
        let k = if negated {
            i + 1
        } else {
            i
        };
        if k < s.len() && s[k] == '"' {
            let e = quote_end_exec(s, k + 1);
            if e < s.len() {
                let raw = slice_of(s, i, e + 1);
                Some((term_sql_exec(&raw, negated, mode), e + 1))
            } else {
                None
            }
        } else {
            let e = word_end_exec(s, k);
            if e > k {
                let raw = slice_of(s, i, e);
                Some((term_sql_exec(&raw, negated, mode), e))
            } else {
                None
            }
        }
    }
}

/// Terms joined by separators, starting at `i`.
fn parse_token_exec(s: &[char], i: usize, mode: FilterField) -> (r: Option<(Vec<char>, usize)>)
    ensures
        match r {
            Some((t, j)) => parse_token(s@, i as int, mode) == Some((t@, j as int)),
            None => parse_token(s@, i as int, mode) is None,
        },
    decreases s@.len() - i, 1int,
{
    if i > s.len() {
        return None;
    }
    match parse_term_exec(s, i, mode) {
        Some((t, j)) => {
            if i < j && j <= s.len() {
                parse_token_rest_exec(s, j, mode, t)
            } else {
                None
            }
        },
        None => None,
    }
}

/// The rest of a token after the terms read so far.
fn parse_token_rest_exec(s: &[char], j: usize, mode: FilterField, acc: Vec<char>) -> (r: Option<
    (Vec<char>, usize),
>)
    ensures
        match r {
            Some((t, k)) => parse_token_rest(s@, j as int, mode, acc@) == Some((t@, k as int)),
            None => parse_token_rest(s@, j as int, mode, acc@) is None,
        },
    decreases s@.len() - j, 2int,
{
    if j > s.len() {
        return None;
    }
    if j < s.len() && (s[j] == '+' || s[j] == '&' || s[j] == '|' || s[j] == '/') {
        match parse_term_exec(s, j + 1, mode) {
            Some((t, k)) => {
                if j + 1 < k && k <= s.len() {
                    let mut next = acc;
                    let sep = chars_of(separator_sql_exec(s[j]));
                    next.extend_from_slice(sep.as_slice());
                    next.extend_from_slice(t.as_slice());
                    assert(next@ =~= acc@ + separator_sql(s@[j as int]) + t@);
                    parse_token_rest_exec(s, k, mode, next)
                } else {
                    None
                }
            },
            None => None,
        }
    } else {
        Some((acc, j))
    }
}

/// The characters of `s` from `a` to `b`.
fn slice_of(s: &[char], a: usize, b: usize) -> (r: Vec<char>)
    requires
        a <= b <= s@.len(),
    ensures
        r@ == s@.subrange(a as int, b as int),
{
    let mut r: Vec<char> = Vec::new();
    let mut k = a;
    while k < b
        invariant
            a <= k <= b <= s@.len(),
            r@ == s@.subrange(a as int, k as int),
        decreases b - k,
    {
        r.push(s[k]);
        assert(r@ =~= s@.subrange(a as int, k + 1));
        k += 1;
    }
    r
}

/// A decimal digit.
pub open spec fn is_digit(c: char) -> bool {
    '0' <= c <= '9'
}

/// The first position at or after `i` that is not a digit.
pub open spec fn digits_end(s: Seq<char>, i: int) -> int
    decreases s.len() - i,
{
    if 0 <= i < s.len() && is_digit(s[i]) {
        digits_end(s, i + 1)
    } else {
        i
    }
}

/// The column a number range is about.
pub open spec fn range_field(mode: FilterField) -> Seq<char> {
    match mode {
        FilterField::Cmc => "cmc"@,
        FilterField::Power => "power"@,
        FilterField::Toughness => "toughness"@,
        _ => ""@,
    }
}

/// The condition for a variable value (`*`, `x`, `X`).
pub open spec fn variable_sql(mode: FilterField) -> Seq<char> {
    match mode {
        FilterField::Cmc => "mana_cost LIKE '%X%'"@,
        FilterField::Power => "power LIKE '%*%'"@,
        FilterField::Toughness => "toughness LIKE '%*%'"@,
        _ => ""@,
    }
}

/// A number range at `i`: `*`/`x`/`X`, `>n`, `<n`, `a-b`, `a..b` or `n`.
pub open spec fn parse_number_range(s: Seq<char>, i: int, mode: FilterField) -> Option<
    (Seq<char>, int),
> {
    let f = range_field(mode);
    if !(0 <= i < s.len()) {
        None
    } else if s[i] == '*' || s[i] == 'x' || s[i] == 'X' {
        Some((variable_sql(mode), i + 1))
    } else if s[i] == '>' || s[i] == '<' {
        let e = digits_end(s, i + 1);
        if e > i + 1 {
            let op = if s[i] == '>' {
                " > "@
            } else {
                " < "@
            };
            Some((f + op + s.subrange(i + 1, e), e))
        } else {
            None
        }
    } else {
        let e = digits_end(s, i);
        if e == i {
            None
        } else if e < s.len() && s[e] == '-' {
            let e2 = digits_end(s, e + 1);
            if e2 > e + 1 {
                Some((f + " >= "@ + s.subrange(i, e) + " AND "@ + f + " <= "@ + s.subrange(e + 1, e2), e2))
            } else {
                None
            }
        } else if e + 1 < s.len() && s[e] == '.' && s[e + 1] == '.' {
            let e2 = digits_end(s, e + 2);
            if e2 > e + 2 {
                Some((f + " >= "@ + s.subrange(i, e) + " AND "@ + f + " <= "@ + s.subrange(e + 2, e2), e2))
            } else {
                None
            }
        } else {
            Some((f + " = "@ + s.subrange(i, e), e))
        }
    }
}

/// A number range compares the field it filters with the number written:
/// `<n` asks for values strictly below `n` and `>n` strictly above it, `a-b`
/// and `a..b` for values from `a` to `b` inclusive, and a bare `n` for `n`
/// itself; the cmc field is the column `cmc`.
pub proof fn lemma_number_range_relations(s: Seq<char>, i: int, mode: FilterField)
    ensures
        range_field(FilterField::Cmc) == "cmc"@,
        0 <= i < s.len() && digits_end(s, i + 1) > i + 1 ==> {
            let n = s.subrange(i + 1, digits_end(s, i + 1));
            &&& s[i] == '<' ==> parse_number_range(s, i, mode) == Some(
                (range_field(mode) + " < "@ + n, digits_end(s, i + 1)),
            )
            &&& s[i] == '>' ==> parse_number_range(s, i, mode) == Some(
                (range_field(mode) + " > "@ + n, digits_end(s, i + 1)),
            )
        },
        ({
            let e = digits_end(s, i);
            let e2 = digits_end(s, e + 1);
            0 <= i < s.len() && e > i && e < s.len() && s[e] == '-' && e2 > e + 1 && s[i] != '*'
                && s[i] != 'x' && s[i] != 'X' && s[i] != '<' && s[i] != '>'
                ==> parse_number_range(s, i, mode) == Some(
                (range_field(mode) + " >= "@ + s.subrange(i, e) + " AND "@ + range_field(mode)
                    + " <= "@ + s.subrange(e + 1, e2), e2),
            )
        }),
        ({
            let e = digits_end(s, i);
            0 <= i < s.len() && e > i && s[i] != '*' && s[i] != 'x' && s[i] != 'X' && s[i] != '<'
                && s[i] != '>' && !(e < s.len() && s[e] == '-') && !(e + 1 < s.len() && s[e] == '.'
                && s[e + 1] == '.') ==> parse_number_range(s, i, mode) == Some(
                (range_field(mode) + " = "@ + s.subrange(i, e), e),
            )
        }),
{
}

/// A color letter: white, blue, black, red, green or colorless.
pub open spec fn is_color_letter(c: char) -> bool {
    c == 'w' || c == 'u' || c == 'b' || c == 'r' || c == 'g' || c == 'c'
}

/// The upper-case form of a color letter.
pub open spec fn upper_letter(c: char) -> char {
    if c == 'w' {
        'W'
    } else if c == 'u' {
        'U'
    } else if c == 'b' {
        'B'
    } else if c == 'r' {
        'R'
    } else if c == 'g' {
        'G'
    } else {
        'C'
    }
}

/// The condition for one color letter, maybe excluded, in the column of
/// `mode` (mana cost for colors, color identity for identities).
pub open spec fn color_sql(letter: char, negated: bool, mode: FilterField) -> Seq<char> {
    let req = if negated {
        "="@
    } else {
        ">"@
    };
    let field = match mode {
        FilterField::Color => "mana_cost"@,
        FilterField::Identity => "color_identity"@,
        _ => ""@,
    };
    if mode == FilterField::Color && letter == 'c' {
        if negated {
            "mana_cost REGEXP '[WUBRG]+'"@
        } else {
            "mana_cost NOT REGEXP '[WUBRG]+'"@
        }
    } else if mode == FilterField::Identity && letter == 'c' {
        if negated {
            "color_identity != ''"@
        } else {
            "color_identity = ''"@
        }
    } else {
        "instr("@ + field + ", '"@ + seq![upper_letter(letter)] + "') "@ + req + " 0"@
    }
}

/// A color letter at `i`, maybe preceded by `!`.
pub open spec fn parse_color_val(s: Seq<char>, i: int, mode: FilterField) -> Option<(Seq<char>, int)> {
    if !(0 <= i < s.len()) {
        None
    } else {
        let negated = s[i] == '!';
        let k = if negated {
            i + 1
        } else {
            i
        };
        if k < s.len() && is_color_letter(s[k]) {
            Some((color_sql(s[k], negated, mode), k + 1))
        } else {
            None
        }
    }
}

/// Further color letters of a group, all required, after `acc`.
pub open spec fn color_token_rest(s: Seq<char>, j: int, mode: FilterField, acc: Seq<char>) -> Option<
    (Seq<char>, int),
>
    decreases s.len() - j,
{
    if !(0 <= j <= s.len()) {
        None
    } else if j < s.len() && s[j] == '+' {
        match parse_color_val(s, j + 1, mode) {
            Some((v, k)) => if j + 1 < k <= s.len() {
                color_token_rest(s, k, mode, acc + " AND "@ + v)
            } else {
                None
            },
            None => None,
        }
    } else {
        match parse_color_val(s, j, mode) {
            Some((v, k)) => if j < k <= s.len() {
                color_token_rest(s, k, mode, acc + " AND "@ + v)
            } else {
                None
            },
            None => Some((acc, j)),
        }
    }
}

/// A group of color letters that must all hold.
pub open spec fn parse_color_token(s: Seq<char>, i: int, mode: FilterField) -> Option<(Seq<char>, int)> {
    match parse_color_val(s, i, mode) {
        Some((v, j)) => if 0 <= i < j <= s.len() {
            color_token_rest(s, j, mode, v)
        } else {
            None
        },
        None => None,
    }
}

/// Further color groups, any of which may hold, after `acc`.
pub open spec fn colors_rest(s: Seq<char>, j: int, mode: FilterField, acc: Seq<char>) -> Option<
    (Seq<char>, int),
>
    decreases s.len() - j,
{
    if !(0 <= j <= s.len()) {
        None
    } else if j < s.len() && (s[j] == '|' || s[j] == '/') {
        match parse_color_token(s, j + 1, mode) {
            Some((t, k)) => if j + 1 < k <= s.len() {
                colors_rest(s, k, mode, acc + " OR "@ + t)
            } else {
                None
            },
            None => None,
        }
    } else {
        Some((acc, j))
    }
}

/// Color groups separated by `|` or `/`.
pub open spec fn parse_colors(s: Seq<char>, i: int, mode: FilterField) -> Option<(Seq<char>, int)> {
    match parse_color_token(s, i, mode) {
        Some((t, j)) => if 0 <= i < j <= s.len() {
            colors_rest(s, j, mode, t)
        } else {
            None
        },
        None => None,
    }
}

/// A rarity letter: common, uncommon, rare or mythic.
pub open spec fn is_rarity_letter(c: char) -> bool {
    c == 'c' || c == 'u' || c == 'r' || c == 'm'
}

/// The rarity a letter names.
pub open spec fn rarity_name(c: char) -> Seq<char> {
    if c == 'c' {
        "common"@
    } else if c == 'u' {
        "uncommon"@
    } else if c == 'r' {
        "rare"@
    } else {
        "mythic"@
    }
}

/// The condition for one rarity, maybe excluded.
pub open spec fn rarity_sql(c: char, negated: bool) -> Seq<char> {
    "rarity "@ + (if negated {
        "!="@
    } else {
        "="@
    }) + " '"@ + rarity_name(c) + "'"@
}

/// A rarity letter at `i`, maybe preceded by `!`.
pub open spec fn parse_rarity_val(s: Seq<char>, i: int) -> Option<(Seq<char>, int)> {
    if !(0 <= i < s.len()) {
        None
    } else {
        let negated = s[i] == '!';
        let k = if negated {
            i + 1
        } else {
            i
        };
        if k < s.len() && is_rarity_letter(s[k]) {
            Some((rarity_sql(s[k], negated), k + 1))
        } else {
            None
        }
    }
}

/// Further rarities, any of which may hold, after `acc`.
pub open spec fn rarity_rest(s: Seq<char>, j: int, acc: Seq<char>) -> Option<(Seq<char>, int)>
    decreases s.len() - j,
{
    if !(0 <= j <= s.len()) {
        None
    } else if j < s.len() && (s[j] == '|' || s[j] == '/' || s[j] == '+') {
        match parse_rarity_val(s, j + 1) {
            Some((v, k)) => if j + 1 < k <= s.len() {
                rarity_rest(s, k, acc + " OR "@ + v)
            } else {
                None
            },
            None => None,
        }
    } else {
        match parse_rarity_val(s, j) {
            Some((v, k)) => if j < k <= s.len() {
                rarity_rest(s, k, acc + " OR "@ + v)
            } else {
                None
            },
            None => Some((acc, j)),
        }
    }
}

/// Rarities, any of which may hold.
pub open spec fn parse_rarity(s: Seq<char>, i: int) -> Option<(Seq<char>, int)> {
    match parse_rarity_val(s, i) {
        Some((v, j)) => if 0 <= i < j <= s.len() {
            rarity_rest(s, j, v)
        } else {
            None
        },
        None => None,
    }
}

/// A character of a field key.
pub open spec fn is_key_char(c: char) -> bool {
    ('a' <= c <= 'z') || c == '_'
}

/// The first position at or after `i` that is not a key character.
pub open spec fn key_end(s: Seq<char>, i: int) -> int
    decreases s.len() - i,
{
    if 0 <= i < s.len() && is_key_char(s[i]) {
        key_end(s, i + 1)
    } else {
        i
    }
}

/// The ordering a sort field asks for.
pub open spec fn sort_sql(sign: char, first: char) -> Seq<char> {
    "ORDER BY "@ + (if first == 'c' {
        "cmc"@
    } else if first == 'p' {
        "price"@
    } else {
        "name"@
    }) + " "@ + (if sign == '-' {
        "DESC"@
    } else {
        "ASC"@
    }) + ";"@
}

/// A sort value at `i`: `+` or `-`, then `name`, `cmc` or `price`.
pub open spec fn parse_sort(s: Seq<char>, i: int) -> Option<(Seq<char>, int)> {
    if !(0 <= i < s.len()) || !(s[i] == '+' || s[i] == '-') {
        None
    } else {
        let e = key_end(s, i + 1);
        let w = s.subrange(i + 1, e);
        if w == "name"@ || w == "cmc"@ || w == "price"@ {
            Some((sort_sql(s[i], w[0]), e))
        } else {
            None
        }
    }
}

/// A sort field orders by the column it names, descending after `-` and
/// ascending after `+`: the value `±w` at `i` (with `w` one of `name`, `cmc`,
/// `price`) gives exactly `ORDER BY w DESC;` or `ORDER BY w ASC;`, so the two
/// signs give opposite directions on the same column; any other value gives
/// no ordering.
pub proof fn lemma_sort_direction(s: Seq<char>, i: int)
    ensures
        parse_sort(s, i) is Some <==> (0 <= i < s.len() && (s[i] == '+' || s[i] == '-') && ({
            let w = s.subrange(i + 1, key_end(s, i + 1));
            w == "name"@ || w == "cmc"@ || w == "price"@
        })),
        parse_sort(s, i) matches Some((t, e)) ==> e == key_end(s, i + 1) && (s[i] == '-' ==> t
            == "ORDER BY "@ + s.subrange(i + 1, e) + " DESC;"@) && (s[i] == '+' ==> t
            == "ORDER BY "@ + s.subrange(i + 1, e) + " ASC;"@),
{
    reveal_strlit("name");
    reveal_strlit("cmc");
    reveal_strlit("price");
    reveal_strlit("ORDER BY ");
    reveal_strlit(" DESC;");
    reveal_strlit(" ASC;");
    reveal_strlit(" ");
    reveal_strlit("DESC");
    reveal_strlit("ASC");
    reveal_strlit(";");
    if let Some((t, e)) = parse_sort(s, i) {
        let w = s.subrange(i + 1, e);
        let col = if w[0] == 'c' {
            "cmc"@
        } else if w[0] == 'p' {
            "price"@
        } else {
            "name"@
        };
        assert(col == w);
        if s[i] == '-' {
            assert(t =~= "ORDER BY "@ + w + " DESC;"@);
        } else {
            assert(t =~= "ORDER BY "@ + w + " ASC;"@);
        }
    }
}

/// The field a key names, under each of its spellings.
pub open spec fn key_kind(k: Seq<char>) -> Option<OmniKey> {
    if k == "n"@ || k == "na"@ || k == "name"@ {
        Some(OmniKey::Name)
    } else if k == "te"@ || k == "text"@ {
        Some(OmniKey::Text)
    } else if k == "ty"@ || k == "type"@ {
        Some(OmniKey::Type)
    } else if k == "tag"@ || k == "tags"@ {
        Some(OmniKey::Tag)
    } else if k == "cmc"@ {
        Some(OmniKey::Cmc)
    } else if k == "p"@ || k == "pow"@ || k == "power"@ {
        Some(OmniKey::Power)
    } else if k == "t"@ || k == "tou"@ || k == "toughness"@ {
        Some(OmniKey::Toughness)
    } else if k == "c"@ || k == "color"@ {
        Some(OmniKey::Color)
    } else if k == "ci"@ || k == "id"@ || k == "identity"@ || k == "color_identity"@ || k
        == "coloridentity"@ {
        Some(OmniKey::Identity)
    } else if k == "r"@ || k == "rarity"@ {
        Some(OmniKey::Rarity)
    } else if k == "sort"@ {
        Some(OmniKey::Sort)
    } else {
        None
    }
}

/// A condition clause (`false`) or an ordering (`true`), with its SQL.
pub open spec fn as_filter(r: Option<(Seq<char>, int)>) -> Option<((bool, Seq<char>), int)> {
    match r {
        Some((t, k)) => Some(((false, t), k)),
        None => None,
    }
}

/// The value of a field of kind `k` at `j`.
pub open spec fn parse_value(s: Seq<char>, j: int, k: OmniKey) -> Option<((bool, Seq<char>), int)> {
    match k {
        OmniKey::Name => as_filter(parse_token(s, j, FilterField::Name)),
        OmniKey::Text => as_filter(parse_token(s, j, FilterField::Text)),
        OmniKey::Type => as_filter(parse_token(s, j, FilterField::Type)),
        OmniKey::Tag => if 0 <= j < s.len() && s[j] == '!' && (j + 1 == s.len() || s[j + 1]
            == ' ') {
            Some(((false, "tags IS NULL"@), j + 1))
        } else {
            match parse_token(s, j, FilterField::Tag) {
                Some((t, e)) => Some(((false, "tags IS NOT NULL AND ("@ + t + ")"@), e)),
                None => None,
            }
        },
        OmniKey::Cmc => as_filter(parse_number_range(s, j, FilterField::Cmc)),
        OmniKey::Power => as_filter(parse_number_range(s, j, FilterField::Power)),
        OmniKey::Toughness => as_filter(parse_number_range(s, j, FilterField::Toughness)),
        OmniKey::Color => as_filter(parse_colors(s, j, FilterField::Color)),
        OmniKey::Identity => as_filter(parse_colors(s, j, FilterField::Identity)),
        OmniKey::Rarity => as_filter(parse_rarity(s, j)),
        OmniKey::Sort => match parse_sort(s, j) {
            Some((o, e)) => Some(((true, o), e)),
            None => None,
        },
    }
}

/// A field `key:value` at `i`.
pub open spec fn parse_field(s: Seq<char>, i: int) -> Option<((bool, Seq<char>), int)> {
    let e = key_end(s, i);
    if !(0 <= i < e < s.len()) || s[e] != ':' {
        None
    } else {
        match key_kind(s.subrange(i, e)) {
            Some(k) => parse_value(s, e + 1, k),
            None => None,
        }
    }
}

/// The first position at or after `i` that is not a space.
pub open spec fn skip_spaces(s: Seq<char>, i: int) -> int
    decreases s.len() - i,
{
    if 0 <= i < s.len() && s[i] == ' ' {
        skip_spaces(s, i + 1)
    } else {
        i
    }
}

/// The fields from `i` to the end, each ended by a space or the end of the
/// query; `None` when the rest is not a list of fields.
pub open spec fn parse_fields(s: Seq<char>, i: int) -> Option<Seq<(bool, Seq<char>)>>
    decreases s.len() - i,
{
    let j = skip_spaces(s, i);
    if !(0 <= i <= j) {
        None
    } else if j >= s.len() {
        Some(Seq::<(bool, Seq<char>)>::empty())
    } else {
        match parse_field(s, j) {
            Some((f, k)) => if j < k <= s.len() && (k == s.len() || s[k] == ' ') {
                match parse_fields(s, k) {
                    Some(fs) => Some(seq![f] + fs),
                    None => None,
                }
            } else {
                None
            },
            None => None,
        }
    }
}

/// A whole query: its fields in order, or `None` when it does not parse.
pub open spec fn parse_omni(s: Seq<char>) -> Option<Seq<(bool, Seq<char>)>> {
    parse_fields(s, 0)
}

/// The first position at or after `i` that is not a digit.
fn digits_end_exec(s: &[char], i: usize) -> (r: usize)
    requires
        i <= s@.len(),
    ensures
        r == digits_end(s@, i as int),
        i <= r <= s@.len(),
{
    let mut k = i;
    while k < s.len() && '0' <= s[k] && s[k] <= '9'
        invariant
            i <= k <= s@.len(),
            digits_end(s@, k as int) == digits_end(s@, i as int),
        decreases s.len() - k,
    {
        k += 1;
    }
    k
}

fn range_field_exec(mode: FilterField) -> (r: &'static str)
    ensures
        r@ == range_field(mode),
{
    match mode {
        FilterField::Cmc => "cmc",
        FilterField::Power => "power",
        FilterField::Toughness => "toughness",
        _ => "",
    }
}

fn variable_sql_exec(mode: FilterField) -> (r: &'static str)
    ensures
        r@ == variable_sql(mode),
{
    match mode {
        FilterField::Cmc => "mana_cost LIKE '%X%'",
        FilterField::Power => "power LIKE '%*%'",
        FilterField::Toughness => "toughness LIKE '%*%'",
        _ => "",
    }
}

/// `a`, then `b` (a slice of `s`), as characters.
fn cat_slice(a: &[char], b: &str, s: &[char], x: usize, y: usize) -> (r: Vec<char>)
    requires
        x <= y <= s@.len(),
    ensures
        r@ == a@ + b@ + s@.subrange(x as int, y as int),
{
    let mut r: Vec<char> = Vec::new();
    r.extend_from_slice(a);
    let bc = chars_of(b);
    r.extend_from_slice(bc.as_slice());
    let part = slice_of(s, x, y);
    r.extend_from_slice(part.as_slice());
    r
}

/// A number range at `i`.
fn parse_number_range_exec(s: &[char], i: usize, mode: FilterField) -> (r: Option<(Vec<char>, usize)>)
    ensures
        match r {
            Some((t, j)) => parse_number_range(s@, i as int, mode) == Some((t@, j as int)),
            None => parse_number_range(s@, i as int, mode) is None,
        },
{
    let f = chars_of(range_field_exec(mode));
    if i >= s.len() {
        return None;
    }
    if s[i] == '*' || s[i] == 'x' || s[i] == 'X' {
        return Some((chars_of(variable_sql_exec(mode)), i + 1));
    }
    if s[i] == '>' || s[i] == '<' {
        let e = digits_end_exec(s, i + 1);
        if e > i + 1 {
            let op = if s[i] == '>' {
                " > "
            } else {
                " < "
            };
            return Some((cat_slice(&f, op, s, i + 1, e), e));
        } else {
            return None;
        }
    }
    let e = digits_end_exec(s, i);
    if e == i {
        None
    } else if e < s.len() && s[e] == '-' {
        let e2 = digits_end_exec(s, e + 1);
        if e2 > e + 1 {
            let mut r = cat_slice(&f, " >= ", s, i, e);
            let tail = cat_slice(&f, " <= ", s, e + 1, e2);
            let and = chars_of(" AND ");
            r.extend_from_slice(and.as_slice());
            r.extend_from_slice(tail.as_slice());
            assert(r@ =~= f@ + " >= "@ + s@.subrange(i as int, e as int) + " AND "@ + f@ + " <= "@
                + s@.subrange(e + 1, e2 as int));
            Some((r, e2))
        } else {
            None
        }
    } else if e < s.len() && e + 1 < s.len() && s[e] == '.' && s[e + 1] == '.' {
        let e2 = digits_end_exec(s, e + 2);
        if e2 > e + 2 {
            let mut r = cat_slice(&f, " >= ", s, i, e);
            let tail = cat_slice(&f, " <= ", s, e + 2, e2);
            let and = chars_of(" AND ");
            r.extend_from_slice(and.as_slice());
            r.extend_from_slice(tail.as_slice());
            assert(r@ =~= f@ + " >= "@ + s@.subrange(i as int, e as int) + " AND "@ + f@ + " <= "@
                + s@.subrange(e + 2, e2 as int));
            Some((r, e2))
        } else {
            None
        }
    } else {
        Some((cat_slice(&f, " = ", s, i, e), e))
    }
}

pub(crate) fn upper_letter_exec(c: char) -> (r: char)
    ensures
        r == upper_letter(c),
{
    if c == 'w' {
        'W'
    } else if c == 'u' {
        'U'
    } else if c == 'b' {
        'B'
    } else if c == 'r' {
        'R'
    } else if c == 'g' {
        'G'
    } else {
        'C'
    }
}

/// The condition for one color letter.
fn color_sql_exec(letter: char, negated: bool, mode: FilterField) -> (r: Vec<char>)
    ensures
        r@ == color_sql(letter, negated, mode),
{
    if mode == FilterField::Color && letter == 'c' {
        if negated {
            return chars_of("mana_cost REGEXP '[WUBRG]+'");
        } else {
            return chars_of("mana_cost NOT REGEXP '[WUBRG]+'");
        }
    }
    if mode == FilterField::Identity && letter == 'c' {
        if negated {
            return chars_of("color_identity != ''");
        } else {
            return chars_of("color_identity = ''");
        }
    }
    let req = if negated {
        "="
    } else {
        ">"
    };
    let field = match mode {
        FilterField::Color => "mana_cost",
        FilterField::Identity => "color_identity",
        _ => "",
    };
    let mut r = chars_of("instr(");
    let fc = chars_of(field);
    r.extend_from_slice(fc.as_slice());
    let q = chars_of(", '");
    r.extend_from_slice(q.as_slice());
    r.push(upper_letter_exec(letter));
    let close = chars_of("') ");
    r.extend_from_slice(close.as_slice());
    let rc = chars_of(req);
    r.extend_from_slice(rc.as_slice());
    let z = chars_of(" 0");
    r.extend_from_slice(z.as_slice());
    assert(r@ =~= "instr("@ + field@ + ", '"@ + seq![upper_letter(letter)] + "') "@ + req@
        + " 0"@);
    r
}

fn is_color_letter_exec(c: char) -> (r: bool)
    ensures
        r == is_color_letter(c),
{
    c == 'w' || c == 'u' || c == 'b' || c == 'r' || c == 'g' || c == 'c'
}

/// A color letter at `i`, maybe preceded by `!`.
fn parse_color_val_exec(s: &[char], i: usize, mode: FilterField) -> (r: Option<(Vec<char>, usize)>)
    ensures
        match r {
            Some((t, j)) => parse_color_val(s@, i as int, mode) == Some((t@, j as int)),
            None => parse_color_val(s@, i as int, mode) is None,
        },
{
    if i >= s.len() {
        return None;
    }
    let negated = s[i] == '!';
    let k = if negated {
        i + 1
    } else {
        i
    };
    if k < s.len() && is_color_letter_exec(s[k]) {
        Some((color_sql_exec(s[k], negated, mode), k + 1))
    } else {
        None
    }
}

/// `acc`, a joining word and `t`.
fn join3(acc: Vec<char>, sep: &str, t: &[char]) -> (r: Vec<char>)
    ensures
        r@ == acc@ + sep@ + t@,
{
    let mut r = acc;
    let sc = chars_of(sep);
    r.extend_from_slice(sc.as_slice());
    r.extend_from_slice(t);
    r
}

/// Further color letters of a group, after `acc`.
fn color_token_rest_exec(s: &[char], j: usize, mode: FilterField, acc: Vec<char>) -> (r: Option<
    (Vec<char>, usize),
>)
    ensures
        match r {
            Some((t, k)) => color_token_rest(s@, j as int, mode, acc@) == Some((t@, k as int)),
            None => color_token_rest(s@, j as int, mode, acc@) is None,
        },
    decreases s@.len() - j,
{
    if j > s.len() {
        return None;
    }
    if j < s.len() && s[j] == '+' {
        match parse_color_val_exec(s, j + 1, mode) {
            Some((v, k)) => {
                if j + 1 < k && k <= s.len() {
                    color_token_rest_exec(s, k, mode, join3(acc, " AND ", &v))
                } else {
                    None
                }
            },
            None => None,
        }
    } else {
        match parse_color_val_exec(s, j, mode) {
            Some((v, k)) => {
                if j < k && k <= s.len() {
                    color_token_rest_exec(s, k, mode, join3(acc, " AND ", &v))
                } else {
                    None
                }
            },
            None => Some((acc, j)),
        }
    }
}

/// A group of color letters that must all hold.
fn parse_color_token_exec(s: &[char], i: usize, mode: FilterField) -> (r: Option<(Vec<char>, usize)>)
    ensures
        match r {
            Some((t, j)) => parse_color_token(s@, i as int, mode) == Some((t@, j as int)),
            None => parse_color_token(s@, i as int, mode) is None,
        },
{
    match parse_color_val_exec(s, i, mode) {
        Some((v, j)) => {
            if i < j && j <= s.len() {
                color_token_rest_exec(s, j, mode, v)
            } else {
                None
            }
        },
        None => None,
    }
}

/// Further color groups, after `acc`.
fn colors_rest_exec(s: &[char], j: usize, mode: FilterField, acc: Vec<char>) -> (r: Option<
    (Vec<char>, usize),
>)
    ensures
        match r {
            Some((t, k)) => colors_rest(s@, j as int, mode, acc@) == Some((t@, k as int)),
            None => colors_rest(s@, j as int, mode, acc@) is None,
        },
    decreases s@.len() - j,
{
    if j > s.len() {
        return None;
    }
    if j < s.len() && (s[j] == '|' || s[j] == '/') {
        match parse_color_token_exec(s, j + 1, mode) {
            Some((t, k)) => {
                if j + 1 < k && k <= s.len() {
                    colors_rest_exec(s, k, mode, join3(acc, " OR ", &t))
                } else {
                    None
                }
            },
            None => None,
        }
    } else {
        Some((acc, j))
    }
}

/// Color groups separated by `|` or `/`.
fn parse_colors_exec(s: &[char], i: usize, mode: FilterField) -> (r: Option<(Vec<char>, usize)>)
    ensures
        match r {
            Some((t, j)) => parse_colors(s@, i as int, mode) == Some((t@, j as int)),
            None => parse_colors(s@, i as int, mode) is None,
        },
{
    match parse_color_token_exec(s, i, mode) {
        Some((t, j)) => {
            if i < j && j <= s.len() {
                colors_rest_exec(s, j, mode, t)
            } else {
                None
            }
        },
        None => None,
    }
}

fn rarity_name_exec(c: char) -> (r: &'static str)
    ensures
        r@ == rarity_name(c),
{
    if c == 'c' {
        "common"
    } else if c == 'u' {
        "uncommon"
    } else if c == 'r' {
        "rare"
    } else {
        "mythic"
    }
}

/// A rarity letter at `i`, maybe preceded by `!`.
fn parse_rarity_val_exec(s: &[char], i: usize) -> (r: Option<(Vec<char>, usize)>)
    ensures
        match r {
            Some((t, j)) => parse_rarity_val(s@, i as int) == Some((t@, j as int)),
            None => parse_rarity_val(s@, i as int) is None,
        },
{
    if i >= s.len() {
        return None;
    }
    let negated = s[i] == '!';
    let k = if negated {
        i + 1
    } else {
        i
    };
    if k < s.len() && (s[k] == 'c' || s[k] == 'u' || s[k] == 'r' || s[k] == 'm') {
        let req = if negated {
            "!="
        } else {
            "="
        };
        let mut r = chars_of("rarity ");
        let rc = chars_of(req);
        r.extend_from_slice(rc.as_slice());
        let mid = cat3(" '", chars_of(rarity_name_exec(s[k])).as_slice(), "'");
        r.extend_from_slice(mid.as_slice());
        assert(r@ =~= rarity_sql(s@[k as int], negated));
        Some((r, k + 1))
    } else {
        None
    }
}

/// Further rarities, after `acc`.
fn rarity_rest_exec(s: &[char], j: usize, acc: Vec<char>) -> (r: Option<(Vec<char>, usize)>)
    ensures
        match r {
            Some((t, k)) => rarity_rest(s@, j as int, acc@) == Some((t@, k as int)),
            None => rarity_rest(s@, j as int, acc@) is None,
        },
    decreases s@.len() - j,
{
    if j > s.len() {
        return None;
    }
    if j < s.len() && (s[j] == '|' || s[j] == '/' || s[j] == '+') {
        match parse_rarity_val_exec(s, j + 1) {
            Some((v, k)) => {
                if j + 1 < k && k <= s.len() {
                    rarity_rest_exec(s, k, join3(acc, " OR ", &v))
                } else {
                    None
                }
            },
            None => None,
        }
    } else {
        match parse_rarity_val_exec(s, j) {
            Some((v, k)) => {
                if j < k && k <= s.len() {
                    rarity_rest_exec(s, k, join3(acc, " OR ", &v))
                } else {
                    None
                }
            },
            None => Some((acc, j)),
        }
    }
}

/// Rarities, any of which may hold.
fn parse_rarity_exec(s: &[char], i: usize) -> (r: Option<(Vec<char>, usize)>)
    ensures
        match r {
            Some((t, j)) => parse_rarity(s@, i as int) == Some((t@, j as int)),
            None => parse_rarity(s@, i as int) is None,
        },
{
    match parse_rarity_val_exec(s, i) {
        Some((v, j)) => {
            if i < j && j <= s.len() {
                rarity_rest_exec(s, j, v)
            } else {
                None
            }
        },
        None => None,
    }
}

/// The first position at or after `i` that is not a key character.
fn key_end_exec(s: &[char], i: usize) -> (r: usize)
    requires
        i <= s@.len(),
    ensures
        r == key_end(s@, i as int),
        i <= r <= s@.len(),
{
    let mut k = i;
    while k < s.len() && (('a' <= s[k] && s[k] <= 'z') || s[k] == '_')
        invariant
            i <= k <= s@.len(),
            key_end(s@, k as int) == key_end(s@, i as int),
        decreases s.len() - k,
    {
        k += 1;
    }
    k
}

/// Whether the characters of `a` spell `lit`.
fn spells(a: &[char], lit: &str) -> (r: bool)
    ensures
        r == (a@ == lit@),
{
    let l = chars_of(lit);
    chars_eq(a, &l)
}

/// The field a key names.
fn key_kind_exec(k: &[char]) -> (r: Option<OmniKey>)
    ensures
        r == key_kind(k@),
{
    if spells(k, "n") || spells(k, "na") || spells(k, "name") {
        Some(OmniKey::Name)
    } else if spells(k, "te") || spells(k, "text") {
        Some(OmniKey::Text)
    } else if spells(k, "ty") || spells(k, "type") {
        Some(OmniKey::Type)
    } else if spells(k, "tag") || spells(k, "tags") {
        Some(OmniKey::Tag)
    } else if spells(k, "cmc") {
        Some(OmniKey::Cmc)
    } else if spells(k, "p") || spells(k, "pow") || spells(k, "power") {
        Some(OmniKey::Power)
    } else if spells(k, "t") || spells(k, "tou") || spells(k, "toughness") {
        Some(OmniKey::Toughness)
    } else if spells(k, "c") || spells(k, "color") {
        Some(OmniKey::Color)
    } else if spells(k, "ci") || spells(k, "id") || spells(k, "identity") || spells(
        k,
        "color_identity",
    ) || spells(k, "coloridentity") {
        Some(OmniKey::Identity)
    } else if spells(k, "r") || spells(k, "rarity") {
        Some(OmniKey::Rarity)
    } else if spells(k, "sort") {
        Some(OmniKey::Sort)
    } else {
        None
    }
}

/// A sort value at `i`.
fn parse_sort_exec(s: &[char], i: usize) -> (r: Option<(Vec<char>, usize)>)
    ensures
        match r {
            Some((t, j)) => parse_sort(s@, i as int) == Some((t@, j as int)),
            None => parse_sort(s@, i as int) is None,
        },
{
    if i >= s.len() || !(s[i] == '+' || s[i] == '-') {
        return None;
    }
    let e = key_end_exec(s, i + 1);
    let w = slice_of(s, i + 1, e);
    proof {
        reveal_strlit("name");
        reveal_strlit("cmc");
        reveal_strlit("price");
    }
    if spells(&w, "name") || spells(&w, "cmc") || spells(&w, "price") {
        let field = if w[0] == 'c' {
            "cmc"
        } else if w[0] == 'p' {
            "price"
        } else {
            "name"
        };
        let order = if s[i] == '-' {
            "DESC"
        } else {
            "ASC"
        };
        let mut r = cat3("ORDER BY ", chars_of(field).as_slice(), " ");
        let tail = cat3(order, &[], ";");
        r.extend_from_slice(tail.as_slice());
        assert(r@ =~= sort_sql(s@[i as int], w@[0]));
        Some((r, e))
    } else {
        None
    }
}

/// A filter clause from a condition.
fn filter_clause(r: Option<(Vec<char>, usize)>) -> (c: Option<((bool, Vec<char>), usize)>)
    ensures
        match c {
            Some((f, k)) => match r {
                Some((t, j)) => f.0 == false && f.1@ == t@ && k == j,
                None => false,
            },
            None => r is None,
        },
{
    match r {
        Some((t, j)) => Some(((false, t), j)),
        None => None,
    }
}

/// The view of a parsed clause.
pub open spec fn clause_view(c: Option<((bool, Vec<char>), usize)>) -> Option<((bool, Seq<char>), int)> {
    match c {
        Some((f, k)) => Some(((f.0, f.1@), k as int)),
        None => None,
    }
}

/// The value of a field of kind `k` at `j`.
fn parse_value_exec(s: &[char], j: usize, k: OmniKey) -> (r: Option<((bool, Vec<char>), usize)>)
    ensures
        clause_view(r) == parse_value(s@, j as int, k),
{
    match k {
        OmniKey::Name => filter_clause(parse_token_exec(s, j, FilterField::Name)),
        OmniKey::Text => filter_clause(parse_token_exec(s, j, FilterField::Text)),
        OmniKey::Type => filter_clause(parse_token_exec(s, j, FilterField::Type)),
        OmniKey::Tag => {
            if j < s.len() && s[j] == '!' && (j + 1 == s.len() || s[j + 1] == ' ') {
                Some(((false, chars_of("tags IS NULL")), j + 1))
            } else {
                match parse_token_exec(s, j, FilterField::Tag) {
                    Some((t, e)) => {
                        let r = cat3("tags IS NOT NULL AND (", t.as_slice(), ")");
                        Some(((false, r), e))
                    },
                    None => None,
                }
            }
        },
        OmniKey::Cmc => filter_clause(parse_number_range_exec(s, j, FilterField::Cmc)),
        OmniKey::Power => filter_clause(parse_number_range_exec(s, j, FilterField::Power)),
        OmniKey::Toughness => filter_clause(parse_number_range_exec(s, j, FilterField::Toughness)),
        OmniKey::Color => filter_clause(parse_colors_exec(s, j, FilterField::Color)),
        OmniKey::Identity => filter_clause(parse_colors_exec(s, j, FilterField::Identity)),
        OmniKey::Rarity => filter_clause(parse_rarity_exec(s, j)),
        OmniKey::Sort => match parse_sort_exec(s, j) {
            Some((o, e)) => Some(((true, o), e)),
            None => None,
        },
    }
}

/// A field `key:value` at `i`.
fn parse_field_exec(s: &[char], i: usize) -> (r: Option<((bool, Vec<char>), usize)>)
    requires
        i <= s@.len(),
    ensures
        clause_view(r) == parse_field(s@, i as int),
{
    let e = key_end_exec(s, i);
    if !(i < e && e < s.len()) || s[e] != ':' {
        return None;
    }
    let key = slice_of(s, i, e);
    match key_kind_exec(&key) {
        Some(k) => parse_value_exec(s, e + 1, k),
        None => None,
    }
}

/// The first position at or after `i` that is not a space.
fn skip_spaces_exec(s: &[char], i: usize) -> (r: usize)
    requires
        i <= s@.len(),
    ensures
        r == skip_spaces(s@, i as int),
        i <= r <= s@.len(),
{
    let mut k = i;
    while k < s.len() && s[k] == ' '
        invariant
            i <= k <= s@.len(),
            skip_spaces(s@, k as int) == skip_spaces(s@, i as int),
        decreases s.len() - k,
    {
        k += 1;
    }
    k
}

/// The views of parsed clauses.
pub open spec fn clause_views(v: Seq<(bool, Vec<char>)>) -> Seq<(bool, Seq<char>)> {
    v.map_values(|p: (bool, Vec<char>)| (p.0, p.1@))
}

/// The clauses read so far followed by those of the rest, if the rest
/// parses.
pub open spec fn prepend(done: Seq<(bool, Seq<char>)>, rest: Option<Seq<(bool, Seq<char>)>>) -> Option<
    Seq<(bool, Seq<char>)>,
> {
    match rest {
        Some(fs) => Some(done + fs),
        None => None,
    }
}

/// The clauses of a query, in order: `(false, condition)` for a filter,
/// `(true, ordering)` for a sort field; `None` when it does not parse.
pub fn parse_omni_exec(s: &[char]) -> (r: Option<Vec<(bool, Vec<char>)>>)
    ensures
        match r {
            Some(v) => parse_omni(s@) == Some(clause_views(v@)),
            None => parse_omni(s@) is None,
        },
{
    let mut out: Vec<(bool, Vec<char>)> = Vec::new();
    let mut i: usize = 0;
    assert(clause_views(out@) =~= Seq::<(bool, Seq<char>)>::empty());
    assert(prepend(clause_views(out@), parse_fields(s@, 0)) =~= parse_fields(s@, 0)) by {
        match parse_fields(s@, 0) {
            Some(fs) => {
                assert(Seq::<(bool, Seq<char>)>::empty() + fs =~= fs);
            },
            None => {},
        }
    }
    loop
        invariant
            i <= s@.len(),
            parse_omni(s@) == prepend(clause_views(out@), parse_fields(s@, i as int)),
        decreases s@.len() - i,
    {
        let j = skip_spaces_exec(s, i);
        if j >= s.len() {
            assert(parse_fields(s@, i as int) == Some(Seq::<(bool, Seq<char>)>::empty()));
            assert(clause_views(out@) + Seq::<(bool, Seq<char>)>::empty() =~= clause_views(out@));
            return Some(out);
        }
        match parse_field_exec(s, j) {
            Some((f, k)) => {
                if j < k && k <= s.len() && (k == s.len() || s[k] == ' ') {
                    let ghost fv = (f.0, f.1@);
                    let ghost before = out@;
                    out.push(f);
                    proof {
                        assert(out@ =~= before.push(f));
                        assert(clause_views(out@) =~= clause_views(before).push(fv));
                        match parse_fields(s@, k as int) {
                            Some(fs) => {
                                assert(clause_views(before) + (seq![fv] + fs) =~= clause_views(
                                    out@,
                                ) + fs);
                            },
                            None => {},
                        }
                    }
                    i = k;
                } else {
                    return None;
                }
            },
            None => {
                return None;
            },
        }
    }
}

} // verus!
