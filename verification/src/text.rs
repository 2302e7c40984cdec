//! Character-level helpers with their specifications: trimming, searching,
//! decimal formatting and parsing.

use vstd::prelude::*;

verus! {

/// The views of a sequence of strings.
pub open spec fn views(v: Seq<String>) -> Seq<Seq<char>> {
    v.map_values(|x: String| x@)
}

/// Unicode `White_Space`, the property that `char::is_whitespace` tests.
pub open spec fn is_ws(c: char) -> bool {
    ||| ('\u{9}' <= c && c <= '\u{d}')
    ||| c == ' '
    ||| c == '\u{85}'
    ||| c == '\u{a0}'
    ||| c == '\u{1680}'
    ||| ('\u{2000}' <= c && c <= '\u{200a}')
    ||| c == '\u{2028}'
    ||| c == '\u{2029}'
    ||| c == '\u{202f}'
    ||| c == '\u{205f}'
    ||| c == '\u{3000}'
}

/// `s` without leading white space.
pub open spec fn trim_start(s: Seq<char>) -> Seq<char>
    decreases s.len(),
{
    if s.len() > 0 && is_ws(s[0]) {
        trim_start(s.drop_first())
    } else {
        s
    }
}

/// `s` without trailing white space.
pub open spec fn trim_end(s: Seq<char>) -> Seq<char>
    decreases s.len(),
{
    if s.len() > 0 && is_ws(s.last()) {
        trim_end(s.drop_last())
    } else {
        s
    }
}

/// What `str::trim` returns.
pub open spec fn trimmed(s: Seq<char>) -> Seq<char> {
    trim_end(trim_start(s))
}

/// `needle` occurs in `hay` starting at index `i`.
pub open spec fn occurs_at(hay: Seq<char>, needle: Seq<char>, i: int) -> bool {
    0 <= i && i + needle.len() <= hay.len() && hay.subrange(i, i + needle.len()) == needle
}

/// `needle` occurs somewhere in `hay` (what `str::contains` answers).
pub open spec fn has_infix(hay: Seq<char>, needle: Seq<char>) -> bool {
    exists|i: int| occurs_at(hay, needle, i)
}

/// `hay` starts with `prefix`.
pub open spec fn has_prefix(hay: Seq<char>, prefix: Seq<char>) -> bool {
    occurs_at(hay, prefix, 0)
}

/// First index at or after `i` where `needle` occurs in `hay`.
pub open spec fn find_from(hay: Seq<char>, needle: Seq<char>, i: int) -> Option<int>
    decreases hay.len() + 1 - i,
{
    if i < 0 || i + needle.len() > hay.len() {
        None
    } else if hay.subrange(i, i + needle.len()) == needle {
        Some(i)
    } else {
        find_from(hay, needle, i + 1)
    }
}

/// First index where `needle` occurs in `hay`.
pub open spec fn find(hay: Seq<char>, needle: Seq<char>) -> Option<int> {
    find_from(hay, needle, 0)
}

/// The part of `hay` before the first `sep` (all of `hay` when `sep` does
/// not occur): what `hay.split(sep).next()` yields.
pub open spec fn before_first(hay: Seq<char>, sep: Seq<char>) -> Seq<char> {
    match find(hay, sep) {
        Some(k) => hay.subrange(0, k),
        None => hay,
    }
}

/// The text of one decimal digit.
pub open spec fn digit_char(d: nat) -> char {
    if d == 0 { '0' }
    else if d == 1 { '1' }
    else if d == 2 { '2' }
    else if d == 3 { '3' }
    else if d == 4 { '4' }
    else if d == 5 { '5' }
    else if d == 6 { '6' }
    else if d == 7 { '7' }
    else if d == 8 { '8' }
    else { '9' }
}

/// Decimal text of `n`, as `to_string` writes it for an unsigned integer.
pub open spec fn decimal(n: nat) -> Seq<char>
    decreases n,
{
    if n < 10 {
        seq![digit_char(n)]
    } else {
        decimal(n / 10).push(digit_char(n % 10))
    }
}

pub open spec fn is_digit(c: char) -> bool {
    '0' <= c && c <= '9'
}

pub open spec fn digit_value(c: char) -> nat {
    (c as int - '0' as int) as nat
}

/// The number that a run of decimal digits denotes.
pub open spec fn digits_value(s: Seq<char>) -> nat
    decreases s.len(),
{
    if s.len() == 0 {
        0
    } else {
        digits_value(s.drop_last()) * 10 + digit_value(s.last())
    }
}

/// The digits of an unsigned number: `s` without one leading `+`.
pub open spec fn unsigned_digits(s: Seq<char>) -> Seq<char> {
    if s.len() > 0 && s[0] == '+' { s.drop_first() } else { s }
}

/// What `str::parse::<u64>` accepts: an optional `+`, then one or more
/// ASCII digits whose value fits in 64 bits.
pub open spec fn parse_u64_spec(s: Seq<char>) -> Option<u64> {
    let d = unsigned_digits(s);
    if d.len() > 0 && (forall|i: int| 0 <= i < d.len() ==> is_digit(#[trigger] d[i]))
        && digits_value(d) <= u64::MAX {
        Some(digits_value(d) as u64)
    } else {
        None
    }
}

/// Lower-case mapping of `s`, as `str::to_lowercase` computes it.
pub uninterp spec fn lowercase(s: Seq<char>) -> Seq<char>;

/// Calls `str::to_lowercase`; the contract names its result `lowercase`.
#[verifier::external_body]
pub(crate) fn to_lowercase(s: &str) -> (r: String)
    ensures
        r@ == lowercase(s@),
{
    s.to_lowercase()
}

/// The characters of `cs`, in order, as a `String`.
pub(crate) fn string_of(cs: &Vec<char>) -> (r: String)
    ensures
        r@ == cs@,
{
    let mut out = String::new();
    let mut i: usize = 0;
    while i < cs.len()
        invariant
            i <= cs.len(),
            out@ == cs@.subrange(0, i as int),
        decreases cs.len() - i,
    {
        push_char(&mut out, cs[i]);
        i = i + 1;
    }
    out
}

/// Calls `String::push`: the string gains `c` at its end.
#[verifier::external_body]
pub(crate) fn push_char(s: &mut String, c: char)
    ensures
        final(s)@ == old(s)@.push(c),
{
    s.push(c)
}

/// Calls `String::pop`: the last character goes, when there is one.
#[verifier::external_body]
pub(crate) fn pop_char(s: &mut String) -> (r: Option<char>)
    ensures
        old(s)@.len() == 0 ==> r is None && final(s)@ == old(s)@,
        old(s)@.len() > 0 ==> r == Some(old(s)@.last()) && final(s)@ == old(s)@.drop_last(),
{
    s.pop()
}

pub fn is_whitespace(c: char) -> (r: bool)
    ensures
        r == is_ws(c),
{
    ('\u{9}' <= c && c <= '\u{d}') || c == ' ' || c == '\u{85}' || c == '\u{a0}' || c == '\u{1680}'
        || ('\u{2000}' <= c && c <= '\u{200a}') || c == '\u{2028}' || c == '\u{2029}' || c
        == '\u{202f}' || c == '\u{205f}' || c == '\u{3000}'
}

/// The characters of `s`, in order.
pub fn chars_of(s: &str) -> (r: Vec<char>)
    ensures
        r@ == s@,
{
    let n = s.unicode_len();
    let mut out: Vec<char> = Vec::new();
    let mut i: usize = 0;
    while i < n
        invariant
            n == s@.len(),
            i <= n,
            out@ == s@.subrange(0, i as int),
        decreases n - i,
    {
        out.push(s.get_char(i));
        i = i + 1;
    }
    out
}

proof fn lemma_trim_start_step(s: Seq<char>, i: int)
    requires
        0 <= i < s.len(),
        is_ws(s[i]),
    ensures
        trim_start(s.subrange(i, s.len() as int)) == trim_start(s.subrange(i + 1, s.len() as int)),
{
    let t = s.subrange(i, s.len() as int);
    assert(t.drop_first() =~= s.subrange(i + 1, s.len() as int));
}

proof fn lemma_trim_end_step(s: Seq<char>, i: int, j: int)
    requires
        0 <= i < j <= s.len(),
        is_ws(s[j - 1]),
    ensures
        trim_end(s.subrange(i, j)) == trim_end(s.subrange(i, j - 1)),
{
    let t = s.subrange(i, j);
    assert(t.drop_last() =~= s.subrange(i, j - 1));
}

/// `str::trim`: `s` without leading and trailing white space.
pub fn trim_str(s: &str) -> (r: &str)
    ensures
        r@ == trimmed(s@),
{
    let cs = chars_of(s);
    let n = cs.len();
    let mut i: usize = 0;
    assert(s@.subrange(0, n as int) =~= s@);
    while i < n && is_whitespace(cs[i])
        invariant
            cs@ == s@,
            n == s@.len(),
            i <= n,
            trim_start(s@) == trim_start(s@.subrange(i as int, n as int)),
        decreases n - i,
    {
        proof {
            lemma_trim_start_step(s@, i as int);
        }
        i = i + 1;
    }
    let ghost mid = s@.subrange(i as int, n as int);
    assert(trim_start(mid) == mid);
    let mut j: usize = n;
    while j > i && is_whitespace(cs[j - 1])
        invariant
            cs@ == s@,
            n == s@.len(),
            i <= j <= n,
            mid == s@.subrange(i as int, n as int),
            trim_end(mid) == trim_end(s@.subrange(i as int, j as int)),
        decreases j,
    {
        proof {
            lemma_trim_end_step(s@, i as int, j as int);
        }
        j = j - 1;
    }
    let ghost fin = s@.subrange(i as int, j as int);
    assert(trim_end(fin) == fin);
    s.substring_char(i, j)
}

/// Whether `needle` occurs in `hay` at index `i`.
pub fn occurs_at_vec(hay: &Vec<char>, needle: &Vec<char>, i: usize) -> (r: bool)
    ensures
        r == occurs_at(hay@, needle@, i as int),
{
    if needle.len() > hay.len() || i > hay.len() - needle.len() {
        return false;
    }
    let mut k: usize = 0;
    while k < needle.len()
        invariant
            i + needle.len() <= hay.len(),
            k <= needle.len(),
            forall|t: int| 0 <= t < k ==> hay@[i + t] == needle@[t],
        decreases needle.len() - k,
    {
        if hay[i + k] != needle[k] {
            assert(hay@.subrange(i as int, i + needle.len())[k as int] != needle@[k as int]);
            return false;
        }
        k = k + 1;
    }
    assert(hay@.subrange(i as int, i + needle.len()) =~= needle@);
    true
}

/// First index at or after `from` where `needle` occurs.
pub fn find_vec(hay: &Vec<char>, needle: &Vec<char>, from: usize) -> (r: Option<usize>)
    ensures
        match r {
            Some(k) => find_from(hay@, needle@, from as int) == Some(k as int),
            None => find_from(hay@, needle@, from as int) is None,
        },
    decreases hay.len() + 1 - from,
{
    if needle.len() > hay.len() || from > hay.len() - needle.len() {
        return None;
    }
    if occurs_at_vec(hay, needle, from) {
        Some(from)
    } else if from == usize::MAX {
        assert(find_from(hay@, needle@, from + 1) is None);
        None
    } else {
        find_vec(hay, needle, from + 1)
    }
}

proof fn lemma_find_from_none(hay: Seq<char>, needle: Seq<char>, i: int)
    requires
        0 <= i,
        find_from(hay, needle, i) is None,
    ensures
        forall|j: int| i <= j ==> !occurs_at(hay, needle, j),
    decreases hay.len() + 1 - i,
{
    if i + needle.len() <= hay.len() {
        lemma_find_from_none(hay, needle, i + 1);
    }
}

proof fn lemma_find_from_some(hay: Seq<char>, needle: Seq<char>, i: int)
    requires
        0 <= i,
        find_from(hay, needle, i) is Some,
    ensures
        occurs_at(hay, needle, find_from(hay, needle, i).unwrap()),
        i <= find_from(hay, needle, i).unwrap(),
        forall|j: int| i <= j < find_from(hay, needle, i).unwrap() ==> !occurs_at(hay, needle, j),
    decreases hay.len() + 1 - i,
{
    if hay.subrange(i, i + needle.len()) != needle {
        lemma_find_from_some(hay, needle, i + 1);
    }
}

/// `find` answers `Some` exactly when the needle occurs, and then names the
/// first occurrence.
pub proof fn lemma_find(hay: Seq<char>, needle: Seq<char>)
    ensures
        find(hay, needle) is Some <==> has_infix(hay, needle),
        find(hay, needle) matches Some(k) ==> occurs_at(hay, needle, k) && forall|j: int|
            0 <= j < k ==> !occurs_at(hay, needle, j),
{
    if find(hay, needle) is Some {
        lemma_find_from_some(hay, needle, 0);
    } else {
        lemma_find_from_none(hay, needle, 0);
    }
}

/// `str::contains` for a string needle.
pub fn contains_str(hay: &str, needle: &str) -> (r: bool)
    ensures
        r == has_infix(hay@, needle@),
{
    let h = chars_of(hay);
    let n = chars_of(needle);
    let found = find_vec(&h, &n, 0);
    proof {
        lemma_find(hay@, needle@);
    }
    found.is_some()
}

/// `str::starts_with` for a string prefix.
pub fn starts_with_str(hay: &str, prefix: &str) -> (r: bool)
    ensures
        r == has_prefix(hay@, prefix@),
{
    let h = chars_of(hay);
    let p = chars_of(prefix);
    occurs_at_vec(&h, &p, 0)
}

/// What `hay.split(sep).next()` yields, as an owned string.
pub fn before_first_str(hay: &str, sep: &str) -> (r: String)
    ensures
        r@ == before_first(hay@, sep@),
{
    let h = chars_of(hay);
    let s = chars_of(sep);
    let found = find_vec(&h, &s, 0);
    proof {
        lemma_find(hay@, sep@);
    }
    match found {
        Some(k) => String::from_str(hay.substring_char(0, k)),
        None => String::from_str(hay),
    }
}

pub fn digit_to_char(d: u64) -> (c: char)
    requires
        d < 10,
    ensures
        c == digit_char(d as nat),
{
    if d == 0 { '0' }
    else if d == 1 { '1' }
    else if d == 2 { '2' }
    else if d == 3 { '3' }
    else if d == 4 { '4' }
    else if d == 5 { '5' }
    else if d == 6 { '6' }
    else if d == 7 { '7' }
    else if d == 8 { '8' }
    else { '9' }
}

fn push_decimal(out: &mut Vec<char>, n: u64)
    ensures
        final(out)@ == old(out)@ + decimal(n as nat),
    decreases n,
{
    if n < 10 {
        out.push(digit_to_char(n));
        assert(decimal(n as nat) =~= seq![digit_char(n as nat)]);
    } else {
        push_decimal(out, n / 10);
        out.push(digit_to_char(n % 10));
    }
}

/// Decimal text of `n` (`u64::to_string`).
pub fn u64_text(n: u64) -> (r: String)
    ensures
        r@ == decimal(n as nat),
{
    let mut out: Vec<char> = Vec::new();
    push_decimal(&mut out, n);
    assert(out@ =~= decimal(n as nat));
    string_of(&out)
}


/// Lexicographic order of character sequences by code point, the order of
/// `String`'s `Ord` (UTF-8 byte order agrees with code point order):
/// negative, zero or positive as `a` sorts before, equal to, or after `b`.
pub open spec fn lex_order(a: Seq<char>, b: Seq<char>) -> int
    decreases a.len(),
{
    if a.len() == 0 {
        if b.len() == 0 { 0 } else { -1 }
    } else if b.len() == 0 {
        1
    } else if a[0] < b[0] {
        -1
    } else if a[0] > b[0] {
        1
    } else {
        lex_order(a.drop_first(), b.drop_first())
    }
}

/// `lex_order` is a total order: it is zero exactly on equal sequences, it
/// flips sign when its arguments are swapped, and its only values are -1, 0, 1.
pub proof fn lemma_lex_basics(a: Seq<char>, b: Seq<char>)
    ensures
        lex_order(a, b) == 0 <==> a == b,
        lex_order(a, b) == -lex_order(b, a),
        -1 <= lex_order(a, b) <= 1,
    decreases a.len(),
{
    if a.len() == 0 || b.len() == 0 {
        if a.len() == 0 && b.len() == 0 {
            assert(a =~= b);
        }
    } else if a[0] == b[0] {
        lemma_lex_basics(a.drop_first(), b.drop_first());
        assert(a =~= seq![a[0]] + a.drop_first());
        assert(b =~= seq![b[0]] + b.drop_first());
        if a == b {
            assert(a.drop_first() =~= b.drop_first());
        }
    } else {
        assert(a[0] != b[0]);
        assert(a != b);
    }
}

/// `lex_order` is transitive.
pub proof fn lemma_lex_trans(a: Seq<char>, b: Seq<char>, c: Seq<char>)
    requires
        lex_order(a, b) <= 0,
        lex_order(b, c) <= 0,
    ensures
        lex_order(a, c) <= 0,
        lex_order(a, b) < 0 || lex_order(b, c) < 0 ==> lex_order(a, c) < 0,
    decreases a.len(),
{
    lemma_lex_basics(a, b);
    lemma_lex_basics(b, c);
    lemma_lex_basics(a, c);
    if a.len() > 0 && b.len() > 0 && c.len() > 0 && a[0] == b[0] && b[0] == c[0] {
        lemma_lex_trans(a.drop_first(), b.drop_first(), c.drop_first());
    }
}

proof fn lemma_lex_skip(a: Seq<char>, b: Seq<char>, i: int)
    requires
        0 <= i <= a.len(),
        i <= b.len(),
        a.subrange(0, i) == b.subrange(0, i),
    ensures
        lex_order(a, b) == lex_order(a.skip(i), b.skip(i)),
    decreases i,
{
    if i > 0 {
        assert(a[0] == a.subrange(0, i)[0]);
        assert(b[0] == b.subrange(0, i)[0]);
        assert(a.drop_first().subrange(0, i - 1) =~= a.subrange(0, i).drop_first());
        assert(b.drop_first().subrange(0, i - 1) =~= b.subrange(0, i).drop_first());
        lemma_lex_skip(a.drop_first(), b.drop_first(), i - 1);
        assert(a.drop_first().skip(i - 1) =~= a.skip(i));
        assert(b.drop_first().skip(i - 1) =~= b.skip(i));
    } else {
        assert(a.skip(0) =~= a);
        assert(b.skip(0) =~= b);
    }
}

/// Compares two character vectors lexicographically: -1, 0 or 1.
pub fn lex_order_vec(a: &Vec<char>, b: &Vec<char>) -> (r: i8)
    ensures
        r as int == lex_order(a@, b@),
{
    let mut i: usize = 0;
    while i < a.len() && i < b.len() && a[i] == b[i]
        invariant
            i <= a.len(),
            i <= b.len(),
            a@.subrange(0, i as int) == b@.subrange(0, i as int),
        decreases a.len() - i,
    {
        proof {
            assert(a@.subrange(0, i + 1) =~= a@.subrange(0, i as int).push(a@[i as int]));
            assert(b@.subrange(0, i + 1) =~= b@.subrange(0, i as int).push(b@[i as int]));
        }
        i = i + 1;
    }
    proof {
        lemma_lex_skip(a@, b@, i as int);
    }
    let ghost sa = a@.skip(i as int);
    let ghost sb = b@.skip(i as int);
    if i == a.len() {
        if i == b.len() {
            assert(sa.len() == 0 && sb.len() == 0);
            0
        } else {
            -1
        }
    } else if i == b.len() {
        1
    } else {
        assert(sa[0] == a@[i as int] && sb[0] == b@[i as int]);
        let x = a[i];
        let y = b[i];
        assert(x != y);
        if x < y {
            -1
        } else {
            1
        }
    }
}

/// Compares two strings by `String`'s order: -1, 0 or 1.
pub fn lex_order_str(a: &str, b: &str) -> (r: i8)
    ensures
        r as int == lex_order(a@, b@),
{
    let va = chars_of(a);
    let vb = chars_of(b);
    lex_order_vec(&va, &vb)
}

/// Equality of two strings.
pub fn str_eq(a: &str, b: &str) -> (r: bool)
    ensures
        r == (a@ == b@),
{
    proof {
        lemma_lex_basics(a@, b@);
    }
    lex_order_str(a, b) == 0
}

proof fn lemma_parse_nondigit(s: Seq<char>, k: int)
    requires
        0 <= k < unsigned_digits(s).len(),
        !is_digit(unsigned_digits(s)[k]),
    ensures
        parse_u64_spec(s) is None,
{
    let d = unsigned_digits(s);
    assert(!(forall|i: int| 0 <= i < d.len() ==> is_digit(#[trigger] d[i])));
}

proof fn lemma_digits_value_monotone(s: Seq<char>, k: int)
    requires
        0 <= k <= s.len(),
    ensures
        digits_value(s.subrange(0, k)) <= digits_value(s),
    decreases s.len() - k,
{
    if k < s.len() {
        lemma_digits_value_monotone(s, k + 1);
        let t = s.subrange(0, k + 1);
        assert(t.drop_last() =~= s.subrange(0, k));
    } else {
        assert(s.subrange(0, k) =~= s);
    }
}

/// `str::parse::<u64>`.
pub fn parse_u64(s: &str) -> (r: Option<u64>)
    ensures
        r == parse_u64_spec(s@),
{
    let cs = chars_of(s);
    let start: usize = if cs.len() > 0 && cs[0] == '+' { 1 } else { 0 };
    let ghost d = unsigned_digits(s@);
    assert(d =~= s@.skip(start as int));
    if start >= cs.len() {
        return None;
    }
    let mut value: u64 = 0;
    let mut i: usize = start;
    while i < cs.len()
        invariant
            cs@ == s@,
            start <= i <= cs.len(),
            d == s@.skip(start as int),
            d == unsigned_digits(s@),
            value as nat == digits_value(d.subrange(0, i - start)),
            forall|t: int| 0 <= t < i - start ==> is_digit(#[trigger] d[t]),
        decreases cs.len() - i,
    {
        let c = cs[i];
        let ghost pre = d.subrange(0, i - start);
        let ghost next = d.subrange(0, i - start + 1);
        assert(next.drop_last() =~= pre);
        assert(next.last() == c);
        if !('0' <= c && c <= '9') {
            let ghost k: int = i - start;
            assert(d == unsigned_digits(s@));
            assert(d[k] == c);
            assert(!is_digit(unsigned_digits(s@)[k]));
            proof {
                lemma_parse_nondigit(s@, k);
            }
            return None;
        }
        let dv: u64 = (c as u32 - '0' as u32) as u64;
        assert(dv as nat == digit_value(c));
        assert(digits_value(next) == digits_value(pre) * 10 + dv);
        match value.checked_mul(10) {
            Some(m) => match m.checked_add(dv) {
                Some(v) => {
                    value = v;
                },
                None => {
                    proof {
                        lemma_digits_value_monotone(d, i - start + 1);
                    }
                    assert(digits_value(d) > u64::MAX);
                    return None;
                },
            },
            None => {
                proof {
                    lemma_digits_value_monotone(d, i - start + 1);
                }
                assert(digits_value(next) >= digits_value(pre) * 10) by (nonlinear_arith)
                    requires digits_value(next) == digits_value(pre) * 10 + dv;
                assert(digits_value(d) > u64::MAX);
                return None;
            },
        }
        i = i + 1;
    }
    assert(d.subrange(0, i - start) =~= d);
    Some(value)
}


/// What `hay.split(sep).next()` yields, borrowed from `hay`.
pub fn before_first_ref<'a>(hay: &'a str, sep: &str) -> (r: &'a str)
    ensures
        r@ == before_first(hay@, sep@),
{
    let h = chars_of(hay);
    let s = chars_of(sep);
    let found = find_vec(&h, &s, 0);
    proof {
        lemma_find(hay@, sep@);
    }
    match found {
        Some(k) => hay.substring_char(0, k),
        None => {
            assert(hay@.subrange(0, hay@.len() as int) =~= hay@);
            hay.substring_char(0, hay.unicode_len())
        },
    }
}

/// `items` joined with `sep` between neighbours.
pub open spec fn join(items: Seq<Seq<char>>, sep: Seq<char>) -> Seq<char>
    decreases items.len(),
{
    if items.len() == 0 {
        seq![]
    } else if items.len() == 1 {
        items[0]
    } else {
        join(items.drop_last(), sep) + sep + items.last()
    }
}

/// `[String]::join`.
pub fn join_strings(items: &Vec<String>, sep: &str) -> (r: String)
    ensures
        r@ == join(items@.map_values(|x: String| x@), sep@),
{
    let ghost all = items@.map_values(|x: String| x@);
    let mut out = String::new();
    let mut i: usize = 0;
    assert(all.subrange(0, 0) =~= Seq::<Seq<char>>::empty());
    while i < items.len()
        invariant
            i <= items.len(),
            all == items@.map_values(|x: String| x@),
            out@ == join(all.subrange(0, i as int), sep@),
        decreases items.len() - i,
    {
        let ghost sub = all.subrange(0, i + 1);
        assert(sub.drop_last() =~= all.subrange(0, i as int));
        assert(sub.last() == items@[i as int]@);
        if i > 0 {
            out.append(sep);
        }
        out.append(items[i].as_str());
        i = i + 1;
    }
    assert(all.subrange(0, items.len() as int) =~= all);
    out
}

/// Index of the first element of `s` that satisfies `p`.
pub open spec fn first_index<A>(s: Seq<A>, p: spec_fn(A) -> bool) -> Option<int>
    decreases s.len(),
{
    if s.len() == 0 {
        None
    } else {
        match first_index(s.drop_last(), p) {
            Some(k) => Some(k),
            None => if p(s.last()) {
                Some(s.len() - 1)
            } else {
                None
            },
        }
    }
}

/// A linear search that has passed `k` elements without a hit finds the
/// first hit at `k`, or nothing when `k` is the end.
pub proof fn lemma_first_index<A>(s: Seq<A>, p: spec_fn(A) -> bool, k: int)
    requires
        0 <= k <= s.len(),
        forall|j: int| 0 <= j < k ==> !p(#[trigger] s[j]),
    ensures
        k == s.len() ==> first_index(s, p) is None,
        k < s.len() && p(s[k]) ==> first_index(s, p) == Some(k),
    decreases s.len(),
{
    if s.len() > 0 {
        if k < s.len() {
            lemma_first_index(s.drop_last(), p, if k < s.len() - 1 { k } else { k });
        } else {
            lemma_first_index(s.drop_last(), p, k - 1);
        }
    }
}

/// The lines of `s` split at `\n` (the last one possibly empty).
pub open spec fn lines_of(s: Seq<char>) -> Seq<Seq<char>>
    decreases s.len(),
{
    if s.len() == 0 {
        seq![Seq::<char>::empty()]
    } else {
        let prev = lines_of(s.drop_last());
        if s.last() == '\n' {
            prev.push(Seq::<char>::empty())
        } else {
            prev.update(prev.len() - 1, prev.last().push(s.last()))
        }
    }
}

/// Splitting at `\n` always gives at least one segment.
pub proof fn lemma_lines_nonempty(s: Seq<char>)
    ensures
        lines_of(s).len() >= 1,
    decreases s.len(),
{
    if s.len() > 0 {
        lemma_lines_nonempty(s.drop_last());
    }
}

/// A line without the `\r` of a `\r\n` ending.
pub open spec fn strip_cr(line: Seq<char>) -> Seq<char> {
    if line.len() > 0 && line.last() == '\r' {
        line.drop_last()
    } else {
        line
    }
}

/// What `str::lines` yields: the lines ended by `\n` (a `\r` before it is
/// dropped), then the rest when it is not empty.
pub open spec fn str_lines(s: Seq<char>) -> Seq<Seq<char>> {
    let segs = lines_of(s);
    let ended = segs.drop_last().map_values(|l: Seq<char>| strip_cr(l));
    if segs.last().len() == 0 {
        ended
    } else {
        ended.push(segs.last())
    }
}

/// The lines of `s`, as `str::lines` yields them.
pub fn split_lines(s: &str) -> (r: Vec<String>)
    ensures
        views(r@) == str_lines(s@),
{
    let cs = chars_of(s);
    let mut out: Vec<String> = Vec::new();
    let mut line: Vec<char> = Vec::new();
    let mut i: usize = 0;
    assert(s@.subrange(0, 0) =~= Seq::<char>::empty());
    assert(views(out@) =~= lines_of(Seq::<char>::empty()).drop_last().map_values(|l: Seq<char>| strip_cr(l)));
    while i < cs.len()
        invariant
            cs@ == s@,
            i <= cs@.len(),
            lines_of(s@.subrange(0, i as int)).len() >= 1,
            views(out@) == lines_of(s@.subrange(0, i as int)).drop_last().map_values(
                |l: Seq<char>| strip_cr(l),
            ),
            line@ == lines_of(s@.subrange(0, i as int)).last(),
        decreases cs@.len() - i,
    {
        let c = cs[i];
        let ghost pre = s@.subrange(0, i as int);
        let ghost cur = s@.subrange(0, i + 1);
        assert(cur.drop_last() =~= pre);
        assert(cur.last() == c);
        proof {
            lemma_lines_nonempty(pre);
        }
        if c == '\n' {
            let n = line.len();
            if n > 0 && line[n - 1] == '\r' {
                line.pop();
            }
            let ghost ls = lines_of(pre);
            assert(line@ == strip_cr(ls.last()));
            crate::bd::push_arg(&mut out, string_of(&line));
            proof {
                assert(lines_of(cur) == ls.push(Seq::<char>::empty()));
                assert(lines_of(cur).drop_last() =~= ls);
                assert(ls.drop_last().push(ls.last()) =~= ls);
                assert(ls.map_values(|l: Seq<char>| strip_cr(l)) =~= ls.drop_last().map_values(
                    |l: Seq<char>| strip_cr(l),
                ).push(strip_cr(ls.last())));
            }
            line = Vec::new();
        } else {
            line.push(c);
            proof {
                let ls = lines_of(pre);
                let ls2 = lines_of(cur);
                assert(ls2 == ls.update(ls.len() - 1, ls.last().push(c)));
                assert(ls2.drop_last() =~= ls.drop_last());
            }
        }
        i = i + 1;
    }
    assert(s@.subrange(0, cs@.len() as int) =~= s@);
    if line.len() > 0 {
        crate::bd::push_arg(&mut out, string_of(&line));
    }
    out
}

} // verus!
