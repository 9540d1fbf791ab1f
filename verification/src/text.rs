//! Character-level string operations with exact specifications.
//!
//! Strings are modelled by their view, the sequence of their characters.
use vstd::prelude::*;

verus! {

broadcast use vstd::string::axiom_spec_iter;

// ---------------------------------------------------------------------------
// Specifications
// ---------------------------------------------------------------------------

/// `n` occurs in `h` starting at position `i`.
pub open spec fn matches_at(h: Seq<char>, n: Seq<char>, i: int) -> bool {
    0 <= i && i + n.len() <= h.len() && h.subrange(i, i + n.len()) == n
}

/// The first position at or after `i` where `n` occurs in `h`.
pub open spec fn find_from(h: Seq<char>, n: Seq<char>, i: int) -> Option<int>
    decreases h.len() + 1 - i,
{
    if i < 0 || i + n.len() > h.len() {
        None
    } else if matches_at(h, n, i) {
        Some(i)
    } else {
        find_from(h, n, i + 1)
    }
}

/// The first position where `n` occurs in `h`.
pub open spec fn find(h: Seq<char>, n: Seq<char>) -> Option<int> {
    find_from(h, n, 0)
}

/// `n` occurs somewhere in `h`.
pub open spec fn contains(h: Seq<char>, n: Seq<char>) -> bool {
    find(h, n) is Some
}

/// `s` begins with `p`.
pub open spec fn starts_with(s: Seq<char>, p: Seq<char>) -> bool {
    matches_at(s, p, 0)
}

/// Every non-overlapping occurrence of `from` in `s`, scanning from the left,
/// replaced by `to`.
pub open spec fn replace(s: Seq<char>, from: Seq<char>, to: Seq<char>) -> Seq<char>
    decreases s.len(),
{
    if from.len() == 0 || s.len() < from.len() {
        s
    } else if s.take(from.len() as int) == from {
        to + replace(s.skip(from.len() as int), from, to)
    } else {
        seq![s[0]] + replace(s.skip(1), from, to)
    }
}

/// Characters with the Unicode `White_Space` property.
pub open spec fn is_white_space(c: char) -> bool {
    c == '\t' || c == '\n' || c == '\x0B' || c == '\x0C' || c == '\r' || c == ' '
        || c == '\u{85}' || c == '\u{A0}' || c == '\u{1680}' || ('\u{2000}' <= c
        && c <= '\u{200A}') || c == '\u{2028}' || c == '\u{2029}' || c == '\u{202F}'
        || c == '\u{205F}' || c == '\u{3000}'
}

/// `s` without its leading white space.
pub open spec fn trim_start(s: Seq<char>) -> Seq<char>
    decreases s.len(),
{
    if s.len() > 0 && is_white_space(s[0]) {
        trim_start(s.skip(1))
    } else {
        s
    }
}

/// `s` without its trailing white space.
pub open spec fn trim_end(s: Seq<char>) -> Seq<char>
    decreases s.len(),
{
    if s.len() > 0 && is_white_space(s.last()) {
        trim_end(s.drop_last())
    } else {
        s
    }
}

/// `s` without leading and trailing white space.
pub open spec fn trim(s: Seq<char>) -> Seq<char> {
    trim_end(trim_start(s))
}

/// `s` without leading and trailing copies of `c`.
pub open spec fn trim_char(s: Seq<char>, c: char) -> Seq<char> {
    trim_char_end(trim_char_start(s, c), c)
}

pub open spec fn trim_char_start(s: Seq<char>, c: char) -> Seq<char>
    decreases s.len(),
{
    if s.len() > 0 && s[0] == c {
        trim_char_start(s.skip(1), c)
    } else {
        s
    }
}

pub open spec fn trim_char_end(s: Seq<char>, c: char) -> Seq<char>
    decreases s.len(),
{
    if s.len() > 0 && s.last() == c {
        trim_char_end(s.drop_last(), c)
    } else {
        s
    }
}

/// The pieces of `s` between occurrences of the separator `c`
/// (one more piece than separators; pieces may be empty).
pub open spec fn split(s: Seq<char>, c: char) -> Seq<Seq<char>>
    decreases s.len(),
{
    match find(s, seq![c]) {
        Some(i) => {
            proof {
                lemma_find(s, seq![c]);
            }
            seq![s.take(i)] + split(s.skip(i + 1), c)
        },
        None => seq![s],
    }
}

/// The pieces of `parts` with `sep` between consecutive pieces.
pub open spec fn join(parts: Seq<Seq<char>>, sep: Seq<char>) -> Seq<char>
    decreases parts.len(),
{
    if parts.len() == 0 {
        seq![]
    } else if parts.len() == 1 {
        parts[0]
    } else {
        parts[0] + sep + join(parts.skip(1), sep)
    }
}

/// The longest prefix of `s` without white space.
pub open spec fn word_prefix(s: Seq<char>) -> Seq<char>
    decreases s.len(),
{
    if s.len() == 0 || is_white_space(s[0]) {
        seq![]
    } else {
        seq![s[0]] + word_prefix(s.skip(1))
    }
}

/// The maximal runs of non-white-space characters of `s`, in order.
pub open spec fn words(s: Seq<char>) -> Seq<Seq<char>>
    decreases s.len(),
{
    if s.len() == 0 {
        seq![]
    } else if is_white_space(s[0]) {
        words(s.skip(1))
    } else {
        let w = word_prefix(s);
        proof {
            lemma_word_prefix(s);
        }
        seq![w] + words(s.skip(w.len() as int))
    }
}

/// The word prefix is a prefix, and is not empty where `s` starts with a
/// character other than white space.
pub proof fn lemma_word_prefix(s: Seq<char>)
    ensures
        word_prefix(s).len() <= s.len(),
        word_prefix(s) == s.take(word_prefix(s).len() as int),
        s.len() > 0 && !is_white_space(s[0]) ==> word_prefix(s).len() > 0,
        forall|j: int| 0 <= j < word_prefix(s).len() ==> !is_white_space(#[trigger] s[j]),
        word_prefix(s).len() < s.len() ==> is_white_space(s[word_prefix(s).len() as int]),
    decreases s.len(),
{
    if s.len() > 0 && !is_white_space(s[0]) {
        lemma_word_prefix(s.skip(1));
        assert(seq![s[0]] + s.skip(1).take(word_prefix(s.skip(1)).len() as int) =~= s.take(
            word_prefix(s).len() as int,
        ));
        assert forall|j: int| 0 <= j < word_prefix(s).len() implies !is_white_space(#[trigger] s[j]) by {
            if j > 0 {
                assert(s[j] == s.skip(1)[j - 1]);
            }
        }
    } else {
        assert(s.take(0) =~= Seq::<char>::empty());
    }
}

/// `'0'..='9'`.
pub open spec fn is_digit(c: char) -> bool {
    '0' <= c && c <= '9'
}

pub open spec fn digit_value(c: char) -> int {
    (c as u32) - ('0' as u32)
}

/// The number written in decimal by the digits `s`.
pub open spec fn decimal_value(s: Seq<char>) -> int
    decreases s.len(),
{
    if s.len() == 0 {
        0
    } else {
        decimal_value(s.drop_last()) * 10 + digit_value(s.last())
    }
}

pub open spec fn all_digits(s: Seq<char>) -> bool {
    forall|i: int| 0 <= i < s.len() ==> is_digit(#[trigger] s[i])
}

/// The digits of an unsigned decimal number: an optional `+` is dropped.
pub open spec fn unsigned_digits(s: Seq<char>) -> Seq<char> {
    if s.len() > 0 && s[0] == '+' {
        s.skip(1)
    } else {
        s
    }
}

/// What `u32::from_str` gives: `Some` exactly for an optional `+` followed by
/// at least one ASCII digit, with a value that fits.
pub open spec fn parse_u32(s: Seq<char>) -> Option<u32> {
    let d = unsigned_digits(s);
    if d.len() > 0 && all_digits(d) && decimal_value(d) <= u32::MAX {
        Some(decimal_value(d) as u32)
    } else {
        None
    }
}

/// What `usize::from_str` gives, on the same grammar as [`parse_u32`].
pub open spec fn parse_usize(s: Seq<char>) -> Option<usize> {
    let d = unsigned_digits(s);
    if d.len() > 0 && all_digits(d) && decimal_value(d) <= usize::MAX {
        Some(decimal_value(d) as usize)
    } else {
        None
    }
}

/// The longest prefix of `s` made of ASCII digits.
pub open spec fn digit_prefix(s: Seq<char>) -> Seq<char>
    decreases s.len(),
{
    if s.len() > 0 && is_digit(s[0]) {
        seq![s[0]] + digit_prefix(s.skip(1))
    } else {
        seq![]
    }
}

/// The decimal digits of `n`, without leading zeros (`"0"` for zero).
pub open spec fn decimal(n: nat) -> Seq<char>
    decreases n,
{
    if n < 10 {
        seq![digit_char(n)]
    } else {
        decimal(n / 10) + seq![digit_char(n % 10)]
    }
}

pub open spec fn digit_char(d: nat) -> char {
    if d == 0 { '0' }
    else if d == 1 { '1' }
    else if d == 2 { '2' }
    else if d == 3 { '3' }
    else if d == 4 { '4' }
    else if d == 5 { '5' }
    else if d == 6 { '6' }
    else if d == 7 { '7' }
    else if d == 8 { '8' }
    else { '9' }
}

/// Number of bytes of the UTF-8 encoding of `c`.
pub open spec fn utf8_width(c: char) -> nat {
    if (c as u32) < 0x80 {
        1
    } else if (c as u32) < 0x800 {
        2
    } else if (c as u32) < 0x10000 {
        3
    } else {
        4
    }
}

/// Number of bytes of the UTF-8 encoding of `s`.
pub open spec fn utf8_len(s: Seq<char>) -> nat
    decreases s.len(),
{
    if s.len() == 0 {
        0
    } else {
        utf8_len(s.drop_last()) + utf8_width(s.last())
    }
}

// ---------------------------------------------------------------------------
// Lemmas
// ---------------------------------------------------------------------------

/// What [`find_from`] finds is an occurrence, and there is none before it.
pub proof fn lemma_find_from(h: Seq<char>, n: Seq<char>, i: int)
    requires
        0 <= i,
    ensures
        match find_from(h, n, i) {
            Some(j) => i <= j && matches_at(h, n, j) && forall|k: int|
                i <= k < j ==> !matches_at(h, n, k),
            None => forall|k: int| i <= k ==> !matches_at(h, n, k),
        },
    decreases h.len() + 1 - i,
{
    if i + n.len() <= h.len() && !matches_at(h, n, i) {
        lemma_find_from(h, n, i + 1);
    }
}

/// `find` gives the first occurrence.
pub proof fn lemma_find(h: Seq<char>, n: Seq<char>)
    ensures
        match find(h, n) {
            Some(j) => matches_at(h, n, j) && forall|k: int| 0 <= k < j ==> !matches_at(h, n, k),
            None => forall|k: int| !matches_at(h, n, k),
        },
{
    lemma_find_from(h, n, 0);
}

/// The first occurrence is the one [`find`] gives.
pub proof fn lemma_find_unique(h: Seq<char>, n: Seq<char>, j: int)
    requires
        matches_at(h, n, j),
        forall|k: int| 0 <= k < j ==> !matches_at(h, n, k),
    ensures
        find(h, n) == Some(j),
{
    lemma_find(h, n);
}

proof fn lemma_digit_char(d: nat)
    requires
        d < 10,
    ensures
        is_digit(digit_char(d)),
        digit_value(digit_char(d)) == d,
{
    assert(('0' as u32) == 48);
    assert(('9' as u32) == 57);
    if d == 0 { assert(('0' as u32) == 48); }
    else if d == 1 { assert(('1' as u32) == 49); }
    else if d == 2 { assert(('2' as u32) == 50); }
    else if d == 3 { assert(('3' as u32) == 51); }
    else if d == 4 { assert(('4' as u32) == 52); }
    else if d == 5 { assert(('5' as u32) == 53); }
    else if d == 6 { assert(('6' as u32) == 54); }
    else if d == 7 { assert(('7' as u32) == 55); }
    else if d == 8 { assert(('8' as u32) == 56); }
    else { assert(('9' as u32) == 57); }
}

/// The decimal form of a number is made of digits and reads back as it.
pub proof fn lemma_decimal_digits(n: nat)
    ensures
        all_digits(decimal(n)),
        decimal(n).len() > 0,
        decimal_value(decimal(n)) == n,
        !decimal(n).contains('&'),
    decreases n,
{
    lemma_digit_char(n % 10);
    if n < 10 {
        lemma_digit_char(n);
        assert(decimal(n).drop_last() =~= Seq::<char>::empty());
        assert(decimal_value(decimal(n)) == decimal_value(Seq::<char>::empty()) * 10 + digit_value(digit_char(n)));
    } else {
        lemma_decimal_digits(n / 10);
        let d = decimal(n / 10) + seq![digit_char(n % 10)];
        assert(d.drop_last() =~= decimal(n / 10));
        assert(d.last() == digit_char(n % 10));
        assert(decimal_value(d) == decimal_value(decimal(n / 10)) * 10 + digit_value(digit_char(n % 10)));
        assert((n / 10) * 10 + n % 10 == n);
        assert(decimal(n) == d);
        assert forall|i: int| 0 <= i < d.len() implies is_digit(#[trigger] d[i]) by {
            if i < decimal(n / 10).len() {
                assert(d[i] == decimal(n / 10)[i]);
            }
        }
    }
    let d = decimal(n);
    assert forall|i: int| 0 <= i < d.len() implies d[i] != '&' by {
        assert(is_digit(d[i]));
    }
}

/// The decimal form of a `u32` parses back to it.
pub proof fn lemma_parse_decimal(n: u32)
    ensures
        parse_u32(decimal(n as nat)) == Some(n),
{
    lemma_decimal_digits(n as nat);
    assert(decimal(n as nat)[0] != '+') by {
        assert(is_digit(decimal(n as nat)[0]));
    }
}

pub proof fn lemma_utf8_width_pos(c: char)
    ensures
        1 <= utf8_width(c) <= 4,
{
}

// ---------------------------------------------------------------------------
// Executable operations
// ---------------------------------------------------------------------------

/// The characters of `s`, in order.
pub fn chars_of(s: &str) -> (r: Vec<char>)
    ensures
        r@ == s@,
{
    let mut r: Vec<char> = Vec::new();
    for c in it: s.chars()
        invariant
            it.seq() == s@,
            r@ == it.seq().take(it.index()),
    {
        r.push(c);
    }
    r
}

/// The string made of the characters of `v`, in order.
///
/// Calls `String::from_iter` over the characters; the contract claims that the
/// string holds exactly those characters, as std documents.
#[verifier::external_body]
pub(crate) fn string_of(v: &[char]) -> (r: String)
    ensures
        r@ == v@,
{
    v.iter().collect()
}

/// Whether `n` occurs in `h` at position `i`.
pub fn matches_at_exec(h: &[char], n: &[char], i: usize) -> (b: bool)
    ensures
        b == matches_at(h@, n@, i as int),
{
    if i > h.len() || n.len() > h.len() - i {
        return false;
    }
    let mut k: usize = 0;
    while k < n.len()
        invariant
            i + n@.len() <= h@.len(),
            i + n.len() <= h.len(),
            k <= n@.len(),
            forall|j: int| 0 <= j < k ==> h@[i + j] == n@[j],
        decreases n.len() - k,
    {
        if h[i + k] != n[k] {
            assert(h@.subrange(i as int, i + n@.len())[k as int] != n@[k as int]);
            return false;
        }
        k = k + 1;
    }
    assert(h@.subrange(i as int, i + n@.len()) =~= n@);
    true
}

/// The first position at or after `start` where `n` occurs in `h`.
pub fn find_from_exec(h: &[char], n: &[char], start: usize) -> (r: Option<usize>)
    ensures
        match r {
            Some(j) => find_from(h@, n@, start as int) == Some(j as int),
            None => find_from(h@, n@, start as int) is None,
        },
{
    if start > h.len() {
        return None;
    }
    let mut i: usize = start;
    while i < h.len() && n.len() <= h.len() - i
        invariant
            start <= i <= h@.len(),
            find_from(h@, n@, start as int) == find_from(h@, n@, i as int),
        decreases h.len() - i,
    {
        if matches_at_exec(h, n, i) {
            return Some(i);
        }
        i = i + 1;
    }
    if matches_at_exec(h, n, i) {
        return Some(i);
    }
    assert(find_from(h@, n@, i + 1) is None);
    None
}

/// The first position where `n` occurs in `h`.
pub fn find_exec(h: &[char], n: &[char]) -> (r: Option<usize>)
    ensures
        match r {
            Some(j) => find(h@, n@) == Some(j as int),
            None => find(h@, n@) is None,
        },
{
    find_from_exec(h, n, 0)
}

/// Whether `n` occurs in `h`.
pub fn contains_exec(h: &[char], n: &[char]) -> (b: bool)
    ensures
        b == contains(h@, n@),
{
    find_exec(h, n).is_some()
}

/// Whether the string `h` contains the string `n`.
pub fn str_contains(h: &str, n: &str) -> (b: bool)
    ensures
        b == contains(h@, n@),
{
    let hc = chars_of(h);
    let nc = chars_of(n);
    contains_exec(hc.as_slice(), nc.as_slice())
}

/// Whether `s` begins with `p`.
pub fn starts_with_exec(s: &[char], p: &[char]) -> (b: bool)
    ensures
        b == starts_with(s@, p@),
{
    matches_at_exec(s, p, 0)
}

/// Equality of character sequences.
pub fn chars_eq(a: &[char], b: &[char]) -> (r: bool)
    ensures
        r == (a@ == b@),
{
    if a.len() != b.len() {
        return false;
    }
    let r = matches_at_exec(a, b, 0);
    assert(a@.subrange(0, b@.len() as int) =~= a@);
    r
}

/// Equality of strings.
pub fn str_eq(a: &str, b: &str) -> (r: bool)
    ensures
        r == (a@ == b@),
{
    let ac = chars_of(a);
    let bc = chars_of(b);
    chars_eq(ac.as_slice(), bc.as_slice())
}

/// The characters of `s` from position `start` on.
pub fn skip_chars(s: &[char], start: usize) -> (r: Vec<char>)
    requires
        start <= s@.len(),
    ensures
        r@ == s@.skip(start as int),
{
    subrange_chars(s, start, s.len())
}

/// The characters of `s` in positions `start..end`.
pub fn subrange_chars(s: &[char], start: usize, end: usize) -> (r: Vec<char>)
    requires
        start <= end <= s@.len(),
    ensures
        r@ == s@.subrange(start as int, end as int),
{
    let mut r: Vec<char> = Vec::new();
    let mut i: usize = start;
    while i < end
        invariant
            start <= i <= end <= s@.len(),
            r@ == s@.subrange(start as int, i as int),
        decreases end - i,
    {
        r.push(s[i]);
        i = i + 1;
        assert(r@ =~= s@.subrange(start as int, i as int));
    }
    r
}

/// Appends the characters of `t` to `r`.
pub fn append_chars(r: &mut Vec<char>, t: &[char])
    ensures
        final(r)@ == old(r)@ + t@,
{
    let mut i: usize = 0;
    while i < t.len()
        invariant
            i <= t@.len(),
            r@ == old(r)@ + t@.take(i as int),
        decreases t.len() - i,
    {
        r.push(t[i]);
        i = i + 1;
        assert(r@ =~= old(r)@ + t@.take(i as int));
    }
    assert(t@.take(t@.len() as int) =~= t@);
}

/// `s` with every non-overlapping occurrence of `from` replaced by `to`,
/// scanning from the left (what `str::replace` does).
pub fn replace_exec(s: &[char], from: &[char], to: &[char]) -> (r: Vec<char>)
    requires
        from@.len() > 0,
    ensures
        r@ == replace(s@, from@, to@),
{
    let mut r: Vec<char> = Vec::new();
    let mut i: usize = 0;
    assert(s@.skip(0) =~= s@);
    assert(r@ + replace(s@, from@, to@) =~= replace(s@, from@, to@));
    while i < s.len()
        invariant
            i <= s@.len(),
            from@.len() > 0,
            replace(s@, from@, to@) == r@ + replace(s@.skip(i as int), from@, to@),
        decreases s.len() - i,
    {
        let ghost rest = s@.skip(i as int);
        if matches_at_exec(s, from, i) {
            assert(rest.take(from@.len() as int) =~= s@.subrange(i as int, i + from@.len()));
            assert(rest.skip(from@.len() as int) =~= s@.skip(i + from@.len()));
            append_chars(&mut r, to);
            i = i + from.len();
        } else {
            proof {
                if rest.len() >= from@.len() {
                    assert(rest.take(from@.len() as int) =~= s@.subrange(i as int, i + from@.len()));
                }
            }
            assert(rest.skip(1) =~= s@.skip(i + 1));
            r.push(s[i]);
            i = i + 1;
        }
    }
    assert(s@.skip(i as int) =~= Seq::<char>::empty());
    assert(r@ + Seq::<char>::empty() =~= r@);
    r
}

/// The string `s` with every occurrence of `from` replaced by `to`.
pub fn str_replace(s: &str, from: &str, to: &str) -> (r: String)
    requires
        from@.len() > 0,
    ensures
        r@ == replace(s@, from@, to@),
{
    let sc = chars_of(s);
    let fc = chars_of(from);
    let tc = chars_of(to);
    let rc = replace_exec(sc.as_slice(), fc.as_slice(), tc.as_slice());
    string_of(rc.as_slice())
}

/// Whether `c` has the Unicode `White_Space` property (`char::is_whitespace`).
pub fn is_white_space_exec(c: char) -> (b: bool)
    ensures
        b == is_white_space(c),
{
    c == '\t' || c == '\n' || c == '\x0B' || c == '\x0C' || c == '\r' || c == ' ' || c
        == '\u{85}' || c == '\u{A0}' || c == '\u{1680}' || ('\u{2000}' <= c && c <= '\u{200A}')
        || c == '\u{2028}' || c == '\u{2029}' || c == '\u{202F}' || c == '\u{205F}' || c
        == '\u{3000}'
}

proof fn lemma_trim_start_skip(s: Seq<char>, i: int)
    requires
        0 <= i <= s.len(),
        forall|j: int| 0 <= j < i ==> is_white_space(#[trigger] s[j]),
    ensures
        trim_start(s) == trim_start(s.skip(i)),
    decreases i,
{
    if i > 0 {
        assert(s.skip(1).skip(i - 1) =~= s.skip(i));
        lemma_trim_start_skip(s.skip(1), i - 1);
    } else {
        assert(s.skip(0) =~= s);
    }
}

proof fn lemma_trim_end_take(s: Seq<char>, i: int)
    requires
        0 <= i <= s.len(),
        forall|j: int| i <= j < s.len() ==> is_white_space(#[trigger] s[j]),
    ensures
        trim_end(s) == trim_end(s.take(i)),
    decreases s.len() - i,
{
    if i < s.len() {
        assert(s.drop_last().take(i) =~= s.take(i));
        lemma_trim_end_take(s.drop_last(), i);
    } else {
        assert(s.take(i) =~= s);
    }
}

/// `s` without leading and trailing white space (what `str::trim` gives).
pub fn trim_exec(s: &[char]) -> (r: Vec<char>)
    ensures
        r@ == trim(s@),
{
    let mut a: usize = 0;
    while a < s.len() && is_white_space_exec(s[a])
        invariant
            a <= s@.len(),
            forall|j: int| 0 <= j < a ==> is_white_space(#[trigger] s@[j]),
        decreases s.len() - a,
    {
        a = a + 1;
    }
    proof {
        lemma_trim_start_skip(s@, a as int);
    }
    let mut b: usize = s.len();
    while b > a && is_white_space_exec(s[b - 1])
        invariant
            a <= b <= s@.len(),
            forall|j: int| b <= j < s@.len() ==> is_white_space(#[trigger] s@[j]),
        decreases b,
    {
        b = b - 1;
    }
    let ghost t = s@.skip(a as int);
    proof {
        assert(trim_start(t) == t);
        assert forall|j: int| b - a <= j < t.len() implies is_white_space(#[trigger] t[j]) by {
            assert(t[j] == s@[a + j]);
        }
        lemma_trim_end_take(t, b - a);
        assert(t.take(b - a) =~= s@.subrange(a as int, b as int));
    }
    subrange_chars(s, a, b)
}

/// The string `s` without leading and trailing white space.
pub fn str_trim(s: &str) -> (r: String)
    ensures
        r@ == trim(s@),
{
    let sc = chars_of(s);
    let t = trim_exec(sc.as_slice());
    string_of(t.as_slice())
}

proof fn lemma_trim_char_start_skip(s: Seq<char>, c: char, i: int)
    requires
        0 <= i <= s.len(),
        forall|j: int| 0 <= j < i ==> #[trigger] s[j] == c,
    ensures
        trim_char_start(s, c) == trim_char_start(s.skip(i), c),
    decreases i,
{
    if i > 0 {
        assert(s.skip(1).skip(i - 1) =~= s.skip(i));
        lemma_trim_char_start_skip(s.skip(1), c, i - 1);
    } else {
        assert(s.skip(0) =~= s);
    }
}

proof fn lemma_trim_char_end_take(s: Seq<char>, c: char, i: int)
    requires
        0 <= i <= s.len(),
        forall|j: int| i <= j < s.len() ==> #[trigger] s[j] == c,
    ensures
        trim_char_end(s, c) == trim_char_end(s.take(i), c),
    decreases s.len() - i,
{
    if i < s.len() {
        assert(s.drop_last().take(i) =~= s.take(i));
        lemma_trim_char_end_take(s.drop_last(), c, i - 0);
    } else {
        assert(s.take(i) =~= s);
    }
}

/// `s` without leading and trailing copies of `c` (what `str::trim_matches`
/// with a character gives).
pub fn trim_char_exec(s: &[char], c: char) -> (r: Vec<char>)
    ensures
        r@ == trim_char(s@, c),
{
    let mut a: usize = 0;
    while a < s.len() && s[a] == c
        invariant
            a <= s@.len(),
            forall|j: int| 0 <= j < a ==> #[trigger] s@[j] == c,
        decreases s.len() - a,
    {
        a = a + 1;
    }
    proof {
        lemma_trim_char_start_skip(s@, c, a as int);
    }
    let mut b: usize = s.len();
    while b > a && s[b - 1] == c
        invariant
            a <= b <= s@.len(),
            forall|j: int| b <= j < s@.len() ==> #[trigger] s@[j] == c,
        decreases b,
    {
        b = b - 1;
    }
    let ghost t = s@.skip(a as int);
    proof {
        assert(trim_char_start(t, c) == t);
        assert forall|j: int| b - a <= j < t.len() implies #[trigger] t[j] == c by {
            assert(t[j] == s@[a + j]);
        }
        lemma_trim_char_end_take(t, c, b - a);
        assert(t.take(b - a) =~= s@.subrange(a as int, b as int));
    }
    subrange_chars(s, a, b)
}

pub proof fn lemma_split_step(s: Seq<char>, c: char, i: int)
    requires
        0 <= i < s.len(),
        s[i] == c,
        forall|j: int| 0 <= j < i ==> s[j] != c,
    ensures
        split(s, c) == seq![s.take(i)] + split(s.skip(i + 1), c),
{
    assert forall|k: int| 0 <= k < i implies !matches_at(s, seq![c], k) by {
        if matches_at(s, seq![c], k) {
            assert(s.subrange(k, k + 1)[0] == s[k]);
        }
    }
    assert(s.subrange(i, i + 1) =~= seq![c]);
    lemma_find_unique(s, seq![c], i);
}

pub proof fn lemma_split_none(s: Seq<char>, c: char)
    requires
        forall|j: int| 0 <= j < s.len() ==> s[j] != c,
    ensures
        split(s, c) == seq![s],
{
    lemma_find(s, seq![c]);
    match find(s, seq![c]) {
        Some(k) => {
            assert(s.subrange(k, k + 1)[0] == s[k]);
        },
        None => {},
    }
}

/// The pieces of `s` between occurrences of `c` (what `str::split` with a
/// character yields).
pub fn split_exec(s: &[char], c: char) -> (r: Vec<Vec<char>>)
    ensures
        r@.len() == split(s@, c).len(),
        forall|i: int| 0 <= i < r@.len() ==> #[trigger] r@[i]@ == split(s@, c)[i],
{
    let mut r: Vec<Vec<char>> = Vec::new();
    let mut start: usize = 0;
    let mut i: usize = 0;
    let ghost mut done: Seq<Seq<char>> = seq![];
    assert(s@.skip(0) =~= s@);
    assert(done + split(s@, c) =~= split(s@, c));
    while i < s.len()
        invariant
            start <= i <= s@.len(),
            r@.len() == done.len(),
            forall|k: int| 0 <= k < r@.len() ==> #[trigger] r@[k]@ == done[k],
            split(s@, c) == done + split(s@.skip(start as int), c),
            forall|j: int| start <= j < i ==> s@[j] != c,
        decreases s.len() - i,
    {
        if s[i] == c {
            let piece = subrange_chars(s, start, i);
            proof {
                let rest = s@.skip(start as int);
                lemma_split_step(rest, c, i - start);
                assert(rest.take(i - start) =~= piece@);
                assert(rest.skip(i - start + 1) =~= s@.skip(i + 1));
                assert(done + split(rest, c) =~= done.push(piece@) + split(s@.skip(i + 1), c));
                done = done.push(piece@);
            }
            r.push(piece);
            start = i + 1;
        }
        i = i + 1;
    }
    let piece = subrange_chars(s, start, s.len());
    proof {
        let rest = s@.skip(start as int);
        lemma_split_none(rest, c);
        assert(rest =~= piece@);
        done = done.push(piece@);
    }
    r.push(piece);
    r
}

/// The value of the decimal digits `s[..i]` as a step: one more digit.
proof fn lemma_decimal_value_push(s: Seq<char>, i: int)
    requires
        0 <= i < s.len(),
    ensures
        decimal_value(s.take(i + 1)) == decimal_value(s.take(i)) * 10 + digit_value(s[i]),
{
    assert(s.take(i + 1).drop_last() =~= s.take(i));
}

proof fn lemma_decimal_value_nonneg(s: Seq<char>)
    requires
        all_digits(s),
    ensures
        decimal_value(s) >= 0,
    decreases s.len(),
{
    if s.len() > 0 {
        lemma_decimal_value_nonneg(s.drop_last());
        assert(is_digit(s[s.len() - 1]));
    }
}

proof fn lemma_decimal_value_mono(s: Seq<char>, i: int)
    requires
        all_digits(s),
        0 <= i <= s.len(),
    ensures
        decimal_value(s.take(i)) <= decimal_value(s),
    decreases s.len() - i,
{
    if i < s.len() {
        lemma_decimal_value_mono(s, i + 1);
        lemma_decimal_value_push(s, i);
        lemma_decimal_value_nonneg(s.take(i));
        assert(is_digit(s[i]));
    } else {
        assert(s.take(i) =~= s);
    }
}

/// The value of the ASCII digits `d`, or `None` where it exceeds `bound`.
fn digits_value_bounded(d: &[char], bound: u64) -> (r: Option<u64>)
    requires
        d@.len() > 0,
        bound >= 9,
    ensures
        match r {
            Some(v) => all_digits(d@) && decimal_value(d@) <= bound && v == decimal_value(d@),
            None => !(all_digits(d@) && decimal_value(d@) <= bound),
        },
{
    let mut v: u64 = 0;
    let mut i: usize = 0;
    while i < d.len()
        invariant
            i <= d@.len(),
            all_digits(d@.take(i as int)),
            v == decimal_value(d@.take(i as int)),
            v <= bound,
            bound >= 9,
        decreases d.len() - i,
    {
        let c = d[i];
        if !('0' <= c && c <= '9') {
            assert(!is_digit(d@[i as int]));
            return None;
        }
        let dv: u64 = ((c as u32) - ('0' as u32)) as u64;
        proof {
            lemma_decimal_value_push(d@, i as int);
            assert forall|j: int| 0 <= j < i + 1 implies is_digit(#[trigger] d@.take(i + 1)[j]) by {
                if j < i {
                    assert(d@.take(i as int)[j] == d@[j]);
                }
            }
        }
        if v > (bound - dv) / 10 {
            proof {
                assert(v * 10 + dv > bound) by (nonlinear_arith)
                    requires v > (bound - dv) / 10, dv <= 9, dv <= bound || v * 10 + dv > bound;
                if all_digits(d@) {
                    lemma_decimal_value_mono(d@, i + 1);
                }
            }
            return None;
        }
        assert(v * 10 + dv <= bound) by (nonlinear_arith)
            requires v <= (bound - dv) / 10, dv <= bound;
        v = v * 10 + dv;
        i = i + 1;
    }
    assert(d@.take(d@.len() as int) =~= d@);
    Some(v)
}

/// What `u32::from_str` gives on the characters `s`.
pub fn parse_u32_exec(s: &[char]) -> (r: Option<u32>)
    ensures
        r == parse_u32(s@),
{
    let d = if s.len() > 0 && s[0] == '+' {
        skip_chars(s, 1)
    } else {
        skip_chars(s, 0)
    };
    assert(s@.skip(0) =~= s@);
    if d.len() == 0 {
        return None;
    }
    match digits_value_bounded(d.as_slice(), 0xffff_ffff) {
        Some(v) => Some(v as u32),
        None => None,
    }
}

/// What `usize::from_str` gives on the characters `s`.
pub fn parse_usize_exec(s: &[char]) -> (r: Option<usize>)
    ensures
        r == parse_usize(s@),
{
    let d = if s.len() > 0 && s[0] == '+' {
        skip_chars(s, 1)
    } else {
        skip_chars(s, 0)
    };
    assert(s@.skip(0) =~= s@);
    if d.len() == 0 {
        return None;
    }
    let bound: u64 = if usize::MAX as u64 == 0xffff_ffff_ffff_ffff {
        0xffff_ffff_ffff_ffff
    } else {
        0xffff_ffff
    };
    assert(bound == usize::MAX);
    match digits_value_bounded(d.as_slice(), bound) {
        Some(v) => Some(v as usize),
        None => None,
    }
}

proof fn lemma_digit_prefix_take(s: Seq<char>, i: int)
    requires
        0 <= i <= s.len(),
        forall|j: int| 0 <= j < i ==> is_digit(#[trigger] s[j]),
        i == s.len() || !is_digit(s[i]),
    ensures
        digit_prefix(s) == s.take(i),
    decreases i,
{
    if i > 0 {
        lemma_digit_prefix_take(s.skip(1), i - 1);
        assert(seq![s[0]] + s.skip(1).take(i - 1) =~= s.take(i));
    } else {
        assert(s.take(0) =~= Seq::<char>::empty());
    }
}

/// The longest prefix of `s` made of ASCII digits.
pub fn digit_prefix_exec(s: &[char]) -> (r: Vec<char>)
    ensures
        r@ == digit_prefix(s@),
{
    let mut i: usize = 0;
    while i < s.len() && '0' <= s[i] && s[i] <= '9'
        invariant
            i <= s@.len(),
            forall|j: int| 0 <= j < i ==> is_digit(#[trigger] s@[j]),
        decreases s.len() - i,
    {
        i = i + 1;
    }
    proof {
        lemma_digit_prefix_take(s@, i as int);
    }
    subrange_chars(s, 0, i)
}

/// The pieces joined with `sep` between consecutive pieces.
pub fn join_exec(parts: &Vec<Vec<char>>, sep: &[char]) -> (r: Vec<char>)
    ensures
        r@ == join(parts@.map_values(|p: Vec<char>| p@), sep@),
{
    let ghost ps = parts@.map_values(|p: Vec<char>| p@);
    let mut r: Vec<char> = Vec::new();
    if parts.len() == 0 {
        return r;
    }
    let mut i: usize = parts.len();
    // Built from the back: r holds the join of parts[i..].
    append_chars(&mut r, parts[i - 1].as_slice());
    i = i - 1;
    assert(ps.skip(i as int) =~= seq![ps[i as int]]);
    while i > 0
        invariant
            0 <= i < parts@.len(),
            ps == parts@.map_values(|p: Vec<char>| p@),
            r@ == join(ps.skip(i as int), sep@),
        decreases i,
    {
        let mut nr: Vec<char> = Vec::new();
        append_chars(&mut nr, parts[i - 1].as_slice());
        append_chars(&mut nr, sep);
        append_chars(&mut nr, r.as_slice());
        proof {
            let t = ps.skip(i - 1);
            assert(t[0] == ps[i - 1]);
            assert(t.skip(1) =~= ps.skip(i as int));
        }
        r = nr;
        i = i - 1;
    }
    assert(ps.skip(0) =~= ps);
    r
}

/// The decimal representation of `n`.
pub fn decimal_exec(n: u128) -> (r: Vec<char>)
    ensures
        r@ == decimal(n as nat),
    decreases n,
{
    let d = (n % 10) as u32;
    let c = if d == 0 { '0' }
        else if d == 1 { '1' }
        else if d == 2 { '2' }
        else if d == 3 { '3' }
        else if d == 4 { '4' }
        else if d == 5 { '5' }
        else if d == 6 { '6' }
        else if d == 7 { '7' }
        else if d == 8 { '8' }
        else { '9' };
    if n < 10 {
        let mut r = Vec::new();
        r.push(c);
        r
    } else {
        let mut r = decimal_exec(n / 10);
        r.push(c);
        r
    }
}

/// Number of bytes of the UTF-8 encoding of `c` (what `char::len_utf8` gives).
pub fn utf8_width_exec(c: char) -> (w: usize)
    ensures
        w == utf8_width(c),
{
    let v = c as u32;
    if v < 0x80 {
        1
    } else if v < 0x800 {
        2
    } else if v < 0x10000 {
        3
    } else {
        4
    }
}


/// From character position `k` of `t`, the position `off` bytes further on in
/// the UTF-8 encoding: `Some(Some(j))` where that is the start of character
/// `j` (or the end, `j == t.len()`), `Some(None)` where it lies past the end,
/// `None` where it falls inside a character.
pub open spec fn advance(t: Seq<char>, k: int, off: int) -> Option<Option<int>>
    decreases t.len() - k,
{
    if off == 0 {
        Some(Some(k))
    } else if off < 0 {
        None
    } else if k >= t.len() {
        Some(None)
    } else {
        advance(t, k + 1, off - utf8_width(t[k]))
    }
}

pub proof fn lemma_advance(t: Seq<char>, k: int, off: int)
    requires
        0 <= k <= t.len(),
    ensures
        advance(t, k, off) matches Some(Some(j)) ==> k <= j <= t.len() && (off > 0 ==> k < j),
    decreases t.len() - k,
{
    if off > 0 && k < t.len() {
        lemma_advance(t, k + 1, off - utf8_width(t[k]));
    }
}


/// Byte length of the first `n` characters of `s`.
pub fn utf8_len_prefix(s: &[char], n: usize) -> (r: u128)
    requires
        n <= s@.len(),
    ensures
        r == utf8_len(s@.take(n as int)),
        r <= 4 * n,
{
    let mut r: u128 = 0;
    let mut i: usize = 0;
    while i < n
        invariant
            i <= n <= s@.len(),
            r == utf8_len(s@.take(i as int)),
            r <= 4 * i,
        decreases n - i,
    {
        proof {
            assert(s@.take(i + 1).drop_last() =~= s@.take(i as int));
            lemma_utf8_width_pos(s@[i as int]);
        }
        r = r + utf8_width_exec(s[i]) as u128;
        i = i + 1;
    }
    r
}

/// The character position `off` bytes on from position `k` (see [`advance`]).
pub fn advance_exec(t: &[char], k: usize, off: u128) -> (r: Option<Option<usize>>)
    requires
        k <= t@.len(),
    ensures
        match r {
            Some(Some(j)) => advance(t@, k as int, off as int) == Some(Some(j as int)),
            Some(None) => advance(t@, k as int, off as int) == Some(None::<int>),
            None => advance(t@, k as int, off as int) is None,
        },
{
    let mut j: usize = k;
    let mut rem: u128 = off;
    while rem > 0 && j < t.len()
        invariant
            k <= j <= t@.len(),
            advance(t@, k as int, off as int) == advance(t@, j as int, rem as int),
        decreases t.len() - j,
    {
        let w = utf8_width_exec(t[j]) as u128;
        if w > rem {
            assert(advance(t@, j + 1, rem - w) is None);
            return None;
        }
        rem = rem - w;
        j = j + 1;
    }
    if rem == 0 {
        Some(Some(j))
    } else {
        Some(None)
    }
}



/// The words of `s` joined by single spaces (what splitting on white space
/// and joining with a space gives).
pub open spec fn collapse_white_space(s: Seq<char>) -> Seq<char> {
    join(words(s), seq![' '])
}

proof fn lemma_words_ws(s: Seq<char>, i: int)
    requires
        0 <= i < s.len(),
        is_white_space(s[i]),
    ensures
        words(s.skip(i)) == words(s.skip(i + 1)),
{
    assert(s.skip(i)[0] == s[i]);
    assert(s.skip(i).skip(1) =~= s.skip(i + 1));
}

proof fn lemma_words_word(s: Seq<char>, i: int, j: int)
    requires
        0 <= i < j <= s.len(),
        forall|k: int| i <= k < j ==> !is_white_space(#[trigger] s[k]),
        j == s.len() || is_white_space(s[j]),
    ensures
        words(s.skip(i)) == seq![s.subrange(i, j)] + words(s.skip(j)),
{
    let t = s.skip(i);
    assert(t[0] == s[i]);
    lemma_word_prefix(t);
    let w = word_prefix(t);
    if w.len() < j - i {
        assert(t[w.len() as int] == s[i + w.len()]);
    } else if w.len() > j - i {
        assert(t[j - i] == s[j]);
        assert(!is_white_space(t[j - i]));
    }
    assert(w =~= s.subrange(i, j));
    assert(t.skip(w.len() as int) =~= s.skip(j));
}

/// The maximal runs of non-white-space characters of `s` (what
/// `str::split_whitespace` yields).
pub fn words_exec(s: &[char]) -> (r: Vec<Vec<char>>)
    ensures
        r@.map_values(|w: Vec<char>| w@) == words(s@),
{
    let mut out: Vec<Vec<char>> = Vec::new();
    let mut i: usize = 0;
    assert(s@.skip(0) =~= s@);
    assert(out@.map_values(|w: Vec<char>| w@) + words(s@) =~= words(s@));
    while i < s.len()
        invariant
            i <= s@.len(),
            words(s@) == out@.map_values(|w: Vec<char>| w@) + words(s@.skip(i as int)),
        decreases s.len() - i,
    {
        if is_white_space_exec(s[i]) {
            proof {
                lemma_words_ws(s@, i as int);
            }
            i = i + 1;
        } else {
            let mut j: usize = i + 1;
            while j < s.len() && !is_white_space_exec(s[j])
                invariant
                    i < j <= s@.len(),
                    forall|k: int| i <= k < j ==> !is_white_space(#[trigger] s@[k]),
                decreases s.len() - j,
            {
                j = j + 1;
            }
            let w = subrange_chars(s, i, j);
            proof {
                lemma_words_word(s@, i as int, j as int);
            }
            let ghost before = out@.map_values(|w: Vec<char>| w@);
            out.push(w);
            assert(out@.map_values(|w: Vec<char>| w@) =~= before.push(w@));
            assert(before + (seq![w@] + words(s@.skip(j as int))) =~= before.push(w@) + words(s@.skip(j as int)));
            i = j;
        }
    }
    assert(s@.skip(i as int) =~= Seq::<char>::empty());
    assert(out@.map_values(|w: Vec<char>| w@) + Seq::<Seq<char>>::empty() =~= out@.map_values(|w: Vec<char>| w@));
    out
}

/// See [`collapse_white_space`].
pub fn collapse_white_space_exec(s: &str) -> (r: String)
    ensures
        r@ == collapse_white_space(s@),
{
    let c = chars_of(s);
    let ws = words_exec(c.as_slice());
    let mut sep: Vec<char> = Vec::new();
    sep.push(' ');
    assert(sep@ =~= seq![' ']);
    let j = join_exec(&ws, sep.as_slice());
    string_of(j.as_slice())
}


/// What `trim_start` leaves is a suffix of the text.
pub proof fn lemma_trim_start_suffix(s: Seq<char>)
    ensures
        exists|k: int| 0 <= k <= s.len() && trim_start(s) == s.skip(k),
    decreases s.len(),
{
    if s.len() > 0 && is_white_space(s[0]) {
        lemma_trim_start_suffix(s.skip(1));
        let k = choose|k: int| 0 <= k <= s.skip(1).len() && trim_start(s.skip(1)) == s.skip(1).skip(k);
        assert(s.skip(1).skip(k) =~= s.skip(k + 1));
    } else {
        assert(s.skip(0) =~= s);
    }
}

/// What `trim_end` leaves is a prefix of the text.
pub proof fn lemma_trim_end_prefix(s: Seq<char>)
    ensures
        exists|k: int| 0 <= k <= s.len() && trim_end(s) == s.take(k),
    decreases s.len(),
{
    if s.len() > 0 && is_white_space(s.last()) {
        lemma_trim_end_prefix(s.drop_last());
        let k = choose|k: int| 0 <= k <= s.drop_last().len() && trim_end(s.drop_last()) == s.drop_last().take(k);
        assert(s.drop_last().take(k) =~= s.take(k));
    } else {
        assert(s.take(s.len() as int) =~= s);
    }
}

/// Every character `trim` keeps is a character of the text.
pub proof fn lemma_trim_keeps_chars(s: Seq<char>)
    ensures
        forall|i: int| 0 <= i < trim(s).len() ==> s.contains(#[trigger] trim(s)[i]),
{
    lemma_trim_start_suffix(s);
    let a = choose|k: int| 0 <= k <= s.len() && trim_start(s) == s.skip(k);
    let t = trim_start(s);
    lemma_trim_end_prefix(t);
    let b = choose|k: int| 0 <= k <= t.len() && trim_end(t) == t.take(k);
    assert forall|i: int| 0 <= i < trim(s).len() implies s.contains(#[trigger] trim(s)[i]) by {
        assert(trim(s)[i] == s[a + i]);
    }
}

/// A trimmed text neither starts nor ends with white space.
pub proof fn lemma_trim_clean(s: Seq<char>)
    ensures
        trim(s).len() > 0 ==> !is_white_space(trim(s)[0]) && !is_white_space(trim(s).last()),
{
    lemma_trim_start_clean(s);
    lemma_trim_end_prefix(trim_start(s));
    lemma_trim_end_clean(trim_start(s));
}

proof fn lemma_trim_start_clean(s: Seq<char>)
    ensures
        trim_start(s).len() > 0 ==> !is_white_space(trim_start(s)[0]),
    decreases s.len(),
{
    if s.len() > 0 && is_white_space(s[0]) {
        lemma_trim_start_clean(s.skip(1));
    }
}

proof fn lemma_trim_end_clean(s: Seq<char>)
    ensures
        trim_end(s).len() > 0 ==> !is_white_space(trim_end(s).last()),
        trim_end(s).len() > 0 && s.len() > 0 && !is_white_space(s[0]) ==> trim_end(s)[0] == s[0],
    decreases s.len(),
{
    if s.len() > 0 && is_white_space(s.last()) {
        lemma_trim_end_clean(s.drop_last());
    }
}


/// Replacing a text that does not occur leaves the text as it is.
pub proof fn lemma_replace_absent(s: Seq<char>, from: Seq<char>, to: Seq<char>)
    requires
        !contains(s, from),
    ensures
        replace(s, from, to) == s,
    decreases s.len(),
{
    lemma_find(s, from);
    if from.len() > 0 && s.len() >= from.len() {
        assert(s.subrange(0, from.len() as int) =~= s.take(from.len() as int));
        assert(!matches_at(s, from, 0));
        let t = s.skip(1);
        lemma_find(t, from);
        if contains(t, from) {
            let k = find(t, from).unwrap();
            assert(t.subrange(k, k + from.len()) =~= s.subrange(k + 1, k + 1 + from.len()));
            assert(matches_at(s, from, k + 1));
        }
        lemma_replace_absent(t, from, to);
        assert(seq![s[0]] + t =~= s);
    }
}

/// Replacing a text that starts with `&` leaves a text without `&` as it is.
pub proof fn lemma_replace_no_amp(s: Seq<char>, from: Seq<char>, to: Seq<char>)
    requires
        from.len() > 0,
        from[0] == '&',
        !s.contains('&'),
    ensures
        replace(s, from, to) == s,
    decreases s.len(),
{
    if from.len() > 0 && s.len() >= from.len() {
        assert(s.take(from.len() as int)[0] == s[0]);
        assert(s.skip(1).len() < s.len());
        assert forall|i: int| 0 <= i < s.skip(1).len() implies s.skip(1)[i] != '&' by {
            assert(s.skip(1)[i] == s[i + 1]);
        }
        lemma_replace_no_amp(s.skip(1), from, to);
        assert(seq![s[0]] + s.skip(1) =~= s);
    }
}

/// In a text whose only `&` opens the occurrence of `from` between `a` and
/// `b`, that occurrence is replaced and nothing else.
pub proof fn lemma_replace_one(a: Seq<char>, from: Seq<char>, to: Seq<char>, b: Seq<char>)
    requires
        from.len() > 0,
        from[0] == '&',
        !a.contains('&'),
        !b.contains('&'),
    ensures
        replace(a + from + b, from, to) == a + to + b,
    decreases a.len(),
{
    let s = a + from + b;
    if a.len() == 0 {
        assert(s =~= from + b);
        assert(s.take(from.len() as int) =~= from);
        assert(s.skip(from.len() as int) =~= b);
        lemma_replace_no_amp(b, from, to);
        assert(a + to + b =~= to + b);
    } else {
        assert(s.take(from.len() as int)[0] == a[0]);
        assert forall|i: int| 0 <= i < a.skip(1).len() implies a.skip(1)[i] != '&' by {
            assert(a.skip(1)[i] == a[i + 1]);
        }
        lemma_replace_one(a.skip(1), from, to, b);
        assert(s.skip(1) =~= a.skip(1) + from + b);
        assert(a + to + b =~= seq![a[0]] + (a.skip(1) + to + b));
    }
}

/// In a text whose only `&` opens `e` between `a` and `b`, a text `from`
/// that differs from `e` at some position `k` is not found: the text stays.
pub proof fn lemma_replace_other(a: Seq<char>, e: Seq<char>, b: Seq<char>, from: Seq<char>, to: Seq<char>, k: int)
    requires
        from.len() > 0,
        from[0] == '&',
        e.len() > 0,
        e[0] == '&',
        !e.skip(1).contains('&'),
        0 <= k < e.len(),
        k < from.len(),
        e[k] != from[k],
        !a.contains('&'),
        !b.contains('&'),
    ensures
        replace(a + e + b, from, to) == a + e + b,
    decreases a.len(),
{
    let s = a + e + b;
    if a.len() == 0 {
        assert(s =~= e + b);
        if s.len() >= from.len() {
            assert(s.take(from.len() as int)[k] == e[k]);
            assert(s.take(from.len() as int) != from);
        }
        let r = s.skip(1);
        assert(r =~= e.skip(1) + b);
        assert forall|i: int| 0 <= i < r.len() implies r[i] != '&' by {
            if i < e.skip(1).len() {
                assert(r[i] == e.skip(1)[i]);
            } else {
                assert(r[i] == b[i - e.skip(1).len()]);
            }
        }
        lemma_replace_no_amp(r, from, to);
        assert(seq![s[0]] + r =~= s);
    } else {
        if s.len() >= from.len() {
            assert(s.take(from.len() as int)[0] == a[0]);
        }
        assert forall|i: int| 0 <= i < a.skip(1).len() implies a.skip(1)[i] != '&' by {
            assert(a.skip(1)[i] == a[i + 1]);
        }
        lemma_replace_other(a.skip(1), e, b, from, to, k);
        assert(s.skip(1) =~= a.skip(1) + e + b);
        assert(seq![s[0]] + (a.skip(1) + e + b) =~= s);
    }
}

} // verus!
