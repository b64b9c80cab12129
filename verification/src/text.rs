//! Character-level helpers shared by the parsers and formatters of the library:
//! trimming, prefix tests, decimal formatting and parsing.
use vstd::prelude::*;

verus! {

/// Appends one character to a string (`String::push`).
#[verifier::external_body]
pub(crate) fn string_push(s: &mut String, c: char)
    ensures
        final(s)@ == old(s)@.push(c),
{
    s.push(c);
}

/// The characters of a string slice, in order.
pub fn chars_of(s: &str) -> (v: Vec<char>)
    ensures
        v@ == s@,
{
    let mut v: Vec<char> = Vec::new();
    for c in it: s.chars()
        invariant
            v@ == it.seq().take(it.index() as int),
    {
        v.push(c);
    }
    v
}

/// A string holding the given characters.
pub fn string_from_chars(v: &[char]) -> (s: String)
    ensures
        s@ == v@,
{
    let mut s = String::new();
    let mut i: usize = 0;
    while i < v.len()
        invariant
            i <= v@.len(),
            s@ == v@.subrange(0, i as int),
        decreases v@.len() - i,
    {
        string_push(&mut s, v[i]);
        assert(v@.subrange(0, i + 1) == v@.subrange(0, i as int).push(v@[i as int]));
        i = i + 1;
    }
    assert(v@.subrange(0, v@.len() as int) == v@);
    s
}

/// A string holding the characters `v[from..to]`.
pub fn string_from_range(v: &[char], from: usize, to: usize) -> (s: String)
    requires
        from <= to <= v@.len(),
    ensures
        s@ == v@.subrange(from as int, to as int),
{
    let mut s = String::new();
    let mut i: usize = from;
    while i < to
        invariant
            from <= i <= to <= v@.len(),
            s@ == v@.subrange(from as int, i as int),
        decreases to - i,
    {
        string_push(&mut s, v[i]);
        assert(v@.subrange(from as int, i + 1) == v@.subrange(from as int, i as int).push(
            v@[i as int],
        ));
        i = i + 1;
    }
    s
}

/// Whether two string slices hold the same characters.
pub fn str_eq(a: &str, b: &str) -> (r: bool)
    ensures
        r == (a@ == b@),
{
    let x = a.to_owned();
    let y = b.to_owned();
    x == y
}

/// The `White_Space` property of Unicode, which `char::is_whitespace` tests.
pub open spec fn is_white_space(c: char) -> bool {
    ||| '\u{9}' <= c <= '\u{d}'
    ||| c == ' '
    ||| c == '\u{85}'
    ||| c == '\u{a0}'
    ||| c == '\u{1680}'
    ||| '\u{2000}' <= c <= '\u{200a}'
    ||| c == '\u{2028}'
    ||| c == '\u{2029}'
    ||| c == '\u{202f}'
    ||| c == '\u{205f}'
    ||| c == '\u{3000}'
}

/// Executable test of [`is_white_space`].
pub fn is_white_space_char(c: char) -> (r: bool)
    ensures
        r == is_white_space(c),
{
    ('\u{9}' <= c && c <= '\u{d}') || c == ' ' || c == '\u{85}' || c == '\u{a0}' || c
        == '\u{1680}' || ('\u{2000}' <= c && c <= '\u{200a}') || c == '\u{2028}' || c
        == '\u{2029}' || c == '\u{202f}' || c == '\u{205f}' || c == '\u{3000}'
}

/// The classes of characters that the library strips from the ends of a string.
#[derive(Clone, Copy, PartialEq, Eq, Debug)]
pub enum StripClass {
    /// Unicode white space, as `str::trim` strips it.
    WhiteSpace,
    /// The character `/`, as `trim_end_matches('/')` strips it.
    Slash,
}

/// Whether `c` belongs to the class `k`.
pub open spec fn in_class(k: StripClass, c: char) -> bool {
    match k {
        StripClass::WhiteSpace => is_white_space(c),
        StripClass::Slash => c == '/',
    }
}

/// Executable test of [`in_class`].
pub fn in_class_char(k: StripClass, c: char) -> (r: bool)
    ensures
        r == in_class(k, c),
{
    match k {
        StripClass::WhiteSpace => is_white_space_char(c),
        StripClass::Slash => c == '/',
    }
}

/// `s` without its leading characters of class `k`.
pub open spec fn strip_start(s: Seq<char>, k: StripClass) -> Seq<char>
    decreases s.len(),
{
    if s.len() > 0 && in_class(k, s[0]) {
        strip_start(s.drop_first(), k)
    } else {
        s
    }
}

/// `s` without its trailing characters of class `k`.
pub open spec fn strip_end(s: Seq<char>, k: StripClass) -> Seq<char>
    decreases s.len(),
{
    if s.len() > 0 && in_class(k, s.last()) {
        strip_end(s.drop_last(), k)
    } else {
        s
    }
}

/// `s` without white space at either end (`str::trim`).
pub open spec fn trim(s: Seq<char>) -> Seq<char> {
    strip_end(strip_start(s, StripClass::WhiteSpace), StripClass::WhiteSpace)
}

proof fn lemma_strip_start_at(s: Seq<char>, k: StripClass, a: int)
    requires
        0 <= a <= s.len(),
        forall|i: int| 0 <= i < a ==> in_class(k, #[trigger] s[i]),
        a == s.len() || !in_class(k, s[a]),
    ensures
        strip_start(s, k) == s.subrange(a, s.len() as int),
    decreases a,
{
    if a == 0 {
        assert(s.subrange(0, s.len() as int) == s);
    } else {
        let t = s.drop_first();
        assert forall|i: int| 0 <= i < a - 1 implies in_class(k, #[trigger] t[i]) by {
            assert(t[i] == s[i + 1]);
        }
        lemma_strip_start_at(t, k, a - 1);
        assert(t.subrange(a - 1, t.len() as int) == s.subrange(a, s.len() as int));
    }
}

proof fn lemma_strip_end_at(s: Seq<char>, k: StripClass, b: int)
    requires
        0 <= b <= s.len(),
        forall|i: int| b <= i < s.len() ==> in_class(k, #[trigger] s[i]),
        b == 0 || !in_class(k, s[b - 1]),
    ensures
        strip_end(s, k) == s.subrange(0, b),
    decreases s.len() - b,
{
    if b == s.len() {
        assert(s.subrange(0, b) == s);
    } else {
        let t = s.drop_last();
        assert forall|i: int| b <= i < t.len() implies in_class(k, #[trigger] t[i]) by {
            assert(t[i] == s[i]);
        }
        lemma_strip_end_at(t, k, b);
        assert(t.subrange(0, b) == s.subrange(0, b));
    }
}

/// Law: trimming removes white space from the two ends and nothing else: text that neither
/// begins nor ends with white space comes out whole, however much white space surrounds it.
pub proof fn law_trim_strips_only_white_space(w1: Seq<char>, s: Seq<char>, w2: Seq<char>)
    requires
        forall|i: int| 0 <= i < w1.len() ==> is_white_space(#[trigger] w1[i]),
        forall|i: int| 0 <= i < w2.len() ==> is_white_space(#[trigger] w2[i]),
        s.len() == 0 || (!is_white_space(s[0]) && !is_white_space(s.last())),
    ensures
        trim(w1 + s + w2) == s,
{
    let all = w1 + s + w2;
    if s.len() == 0 {
        assert forall|i: int| 0 <= i < all.len() implies in_class(StripClass::WhiteSpace, #[trigger] all[i]) by {
            if i < w1.len() {
                assert(all[i] == w1[i]);
            } else {
                assert(all[i] == w2[i - w1.len()]);
            }
        }
        lemma_strip_start_at(all, StripClass::WhiteSpace, all.len() as int);
        assert(all.subrange(all.len() as int, all.len() as int) =~= Seq::<char>::empty());
        assert(strip_end(Seq::<char>::empty(), StripClass::WhiteSpace) == Seq::<char>::empty());
    } else {
        assert forall|i: int| 0 <= i < w1.len() implies in_class(StripClass::WhiteSpace, #[trigger] all[i]) by {
            assert(all[i] == w1[i]);
        }
        assert(all[w1.len() as int] == s[0]);
        lemma_strip_start_at(all, StripClass::WhiteSpace, w1.len() as int);
        let rest = all.subrange(w1.len() as int, all.len() as int);
        assert(rest =~= s + w2);
        assert forall|i: int| s.len() <= i < rest.len() implies in_class(StripClass::WhiteSpace, #[trigger] rest[i]) by {
            assert(rest[i] == w2[i - s.len()]);
        }
        assert(rest[s.len() - 1] == s.last());
        lemma_strip_end_at(rest, StripClass::WhiteSpace, s.len() as int);
        assert(rest.subrange(0, s.len() as int) =~= s);
    }
}

/// The bounds `(a, b)` such that `v[a..b]` is `v` stripped of class `k` at both ends.
pub fn strip_bounds(v: &[char], k: StripClass) -> (r: (usize, usize))
    ensures
        r.0 <= r.1 <= v@.len(),
        v@.subrange(r.0 as int, r.1 as int) == strip_end(strip_start(v@, k), k),
{
    let mut a: usize = 0;
    while a < v.len() && in_class_char(k, v[a])
        invariant
            a <= v@.len(),
            forall|i: int| 0 <= i < a ==> in_class(k, #[trigger] v@[i]),
        decreases v@.len() - a,
    {
        a = a + 1;
    }
    proof {
        lemma_strip_start_at(v@, k, a as int);
    }
    let ghost t = v@.subrange(a as int, v@.len() as int);
    let mut b: usize = v.len();
    while b > a && in_class_char(k, v[b - 1])
        invariant
            a <= b <= v@.len(),
            t == v@.subrange(a as int, v@.len() as int),
            forall|i: int| b <= i < v@.len() ==> in_class(k, #[trigger] v@[i]),
        decreases b - a,
    {
        b = b - 1;
    }
    proof {
        assert forall|i: int| b - a <= i < t.len() implies in_class(k, #[trigger] t[i]) by {
            assert(t[i] == v@[i + a]);
        }
        if b > a {
            assert(t[b - a - 1] == v@[b - 1]);
        }
        lemma_strip_end_at(t, k, b - a);
        assert(t.subrange(0, b - a) == v@.subrange(a as int, b as int));
    }
    (a, b)
}

/// `s` without white space at either end, as `str::trim` gives it.
pub fn trim_chars(v: &[char]) -> (r: Vec<char>)
    ensures
        r@ == trim(v@),
{
    let (a, b) = strip_bounds(v, StripClass::WhiteSpace);
    let mut r: Vec<char> = Vec::new();
    let mut i: usize = a;
    while i < b
        invariant
            a <= i <= b <= v@.len(),
            r@ == v@.subrange(a as int, i as int),
        decreases b - i,
    {
        r.push(v[i]);
        assert(v@.subrange(a as int, i + 1) == v@.subrange(a as int, i as int).push(v@[i as int]));
        i = i + 1;
    }
    r
}

/// Whether `s` begins with `p`.
pub open spec fn has_prefix(s: Seq<char>, p: Seq<char>) -> bool {
    p.len() <= s.len() && s.subrange(0, p.len() as int) == p
}

/// Law: `s` begins with `p` exactly when it is at least as long and agrees with `p` at each
/// of `p`'s positions.
pub proof fn law_has_prefix(s: Seq<char>, p: Seq<char>)
    ensures
        has_prefix(s, p) <==> (p.len() <= s.len() && forall|i: int| 0 <= i < p.len() ==> #[trigger] s[i] == p[i]),
{
    if p.len() <= s.len() && forall|i: int| 0 <= i < p.len() ==> #[trigger] s[i] == p[i] {
        assert(s.subrange(0, p.len() as int) =~= p);
    }
    if has_prefix(s, p) {
        assert forall|i: int| 0 <= i < p.len() implies #[trigger] s[i] == p[i] by {
            assert(s.subrange(0, p.len() as int)[i] == s[i]);
        }
    }
}

/// Executable test of [`has_prefix`].
pub fn starts_with_chars(s: &[char], p: &[char]) -> (r: bool)
    ensures
        r == has_prefix(s@, p@),
{
    if p.len() > s.len() {
        return false;
    }
    let mut i: usize = 0;
    while i < p.len()
        invariant
            p@.len() <= s@.len(),
            i <= p@.len(),
            forall|j: int| 0 <= j < i ==> s@[j] == p@[j],
        decreases p@.len() - i,
    {
        if s[i] != p[i] {
            assert(s@.subrange(0, p@.len() as int)[i as int] != p@[i as int]);
            return false;
        }
        i = i + 1;
    }
    assert(s@.subrange(0, p@.len() as int) == p@);
    true
}

/// The position of the first `c` in `s`, if there is one.
pub open spec fn first_index(s: Seq<char>, c: char) -> Option<int> {
    if exists|i: int| 0 <= i < s.len() && s[i] == c {
        Some(choose|i: int| 0 <= i < s.len() && s[i] == c && forall|j: int| 0 <= j < i ==> s[j] != c)
    } else {
        None
    }
}

proof fn lemma_least_index(s: Seq<char>, c: char, k: int)
    requires
        0 <= k < s.len(),
        s[k] == c,
    ensures
        exists|i: int| 0 <= i < s.len() && s[i] == c && forall|j: int| 0 <= j < i ==> s[j] != c,
    decreases k,
{
    if exists|j: int| 0 <= j < k && s[j] == c {
        let j = choose|j: int| 0 <= j < k && s[j] == c;
        lemma_least_index(s, c, j);
    } else {
        assert(0 <= k < s.len() && s[k] == c && forall|j: int| 0 <= j < k ==> s[j] != c);
    }
}

/// The first position of `c` is in range, holds `c`, and none before it does; without one,
/// no position holds `c`.
pub proof fn lemma_first_index(s: Seq<char>, c: char)
    ensures
        first_index(s, c) matches Some(i) ==> 0 <= i < s.len() && s[i] == c && forall|j: int|
            0 <= j < i ==> s[j] != c,
        first_index(s, c) is None ==> forall|j: int| 0 <= j < s.len() ==> s[j] != c,
{
    if exists|i: int| 0 <= i < s.len() && s[i] == c {
        let k = choose|i: int| 0 <= i < s.len() && s[i] == c;
        lemma_least_index(s, c, k);
    }
}

/// Finds the first `c` in `v`.
pub fn find_char(v: &[char], c: char) -> (r: Option<usize>)
    ensures
        match r {
            Some(i) => i < v@.len() && v@[i as int] == c && forall|j: int| 0 <= j < i ==> v@[j] != c,
            None => forall|j: int| 0 <= j < v@.len() ==> v@[j] != c,
        },
        r matches Some(i) ==> first_index(v@, c) == Some(i as int),
        r is None ==> first_index(v@, c) is None,
{
    let mut i: usize = 0;
    while i < v.len()
        invariant
            i <= v@.len(),
            forall|j: int| 0 <= j < i ==> v@[j] != c,
        decreases v@.len() - i,
    {
        if v[i] == c {
            proof {
                let k = choose|k: int| 0 <= k < v@.len() && v@[k] == c && forall|j: int| 0 <= j < k ==> v@[j] != c;
                assert(k == i) by {
                    if k < i { } else if k > i { assert(v@[i as int] == c); }
                }
            }
            return Some(i);
        }
        i = i + 1;
    }
    None
}

/// The character of a decimal digit.
pub open spec fn digit_char(d: nat) -> char {
    if d == 0 { '0' } else if d == 1 { '1' } else if d == 2 { '2' } else if d == 3 { '3' }
    else if d == 4 { '4' } else if d == 5 { '5' } else if d == 6 { '6' } else if d == 7 { '7' }
    else if d == 8 { '8' } else { '9' }
}

/// The decimal digits of `n`, most significant first, with no leading zeros.
pub open spec fn decimal(n: nat) -> Seq<char>
    decreases n,
{
    if n < 10 {
        seq![digit_char(n)]
    } else {
        decimal(n / 10).push(digit_char(n % 10))
    }
}

/// The decimal form of an integer, with a `-` before a negative one.
pub open spec fn int_decimal(n: int) -> Seq<char> {
    if n < 0 {
        seq!['-'] + decimal((-n) as nat)
    } else {
        decimal(n as nat)
    }
}

fn digit_of(d: u64) -> (c: char)
    requires
        d < 10,
    ensures
        c == digit_char(d as nat),
{
    if d == 0 { '0' } else if d == 1 { '1' } else if d == 2 { '2' } else if d == 3 { '3' }
    else if d == 4 { '4' } else if d == 5 { '5' } else if d == 6 { '6' } else if d == 7 { '7' }
    else if d == 8 { '8' } else { '9' }
}

fn push_decimal(out: &mut Vec<char>, n: u64)
    ensures
        final(out)@ == old(out)@ + decimal(n as nat),
    decreases n,
{
    if n >= 10 {
        push_decimal(out, n / 10);
    }
    out.push(digit_of(n % 10));
}

/// The decimal form of `n` (`u64::to_string`).
pub fn u64_to_decimal(n: u64) -> (s: String)
    ensures
        s@ == decimal(n as nat),
{
    let mut v: Vec<char> = Vec::new();
    push_decimal(&mut v, n);
    assert(v@ == decimal(n as nat));
    string_from_chars(&v)
}

/// The decimal form of `n` (`i64::to_string`).
pub fn i64_to_decimal(n: i64) -> (s: String)
    ensures
        s@ == int_decimal(n as int),
{
    let mut v: Vec<char> = Vec::new();
    if n < 0 {
        v.push('-');
        let m: u64 = ((-(n + 1)) as u64) + 1;
        push_decimal(&mut v, m);
        assert(v@ == seq!['-'] + decimal((-n) as nat));
    } else {
        push_decimal(&mut v, n as u64);
        assert(v@ == decimal(n as nat));
    }
    string_from_chars(&v)
}

/// Whether `c` is an ASCII decimal digit.
pub open spec fn is_digit(c: char) -> bool {
    '0' <= c <= '9'
}

/// The value of the decimal digits `s`.
pub open spec fn digits_value(s: Seq<char>) -> nat
    decreases s.len(),
{
    if s.len() == 0 {
        0
    } else {
        digits_value(s.drop_last()) * 10 + ((s.last() as u32) - ('0' as u32)) as nat
    }
}

/// Whether every character of `s` is an ASCII decimal digit.
pub open spec fn all_digits(s: Seq<char>) -> bool {
    forall|i: int| 0 <= i < s.len() ==> is_digit(#[trigger] s[i])
}

/// The decimal form of `n` is a non-empty run of digits whose value is `n`.
pub proof fn lemma_decimal_value(n: nat)
    ensures
        decimal(n).len() > 0,
        all_digits(decimal(n)),
        digits_value(decimal(n)) == n,
    decreases n,
{
    let s = decimal(n);
    let c = digit_char(n % 10);
    assert((c as u32) - ('0' as u32) == n % 10);
    assert(s.last() == c);
    assert(digits_value(s) == digits_value(s.drop_last()) * 10 + ((s.last() as u32) - ('0' as u32)) as nat);
    if n >= 10 {
        lemma_decimal_value(n / 10);
        assert(s.drop_last() =~= decimal(n / 10));
    } else {
        assert(s.drop_last() =~= Seq::<char>::empty());
        assert(digits_value(Seq::<char>::empty()) == 0);
    }
}

/// The decimal form of a number has no leading zero, unless it is `0` itself.
pub proof fn lemma_decimal_no_leading_zero(n: nat)
    ensures
        decimal(n).len() > 1 ==> decimal(n)[0] != '0',
        n == 0 ==> decimal(n) == seq!['0'],
    decreases n,
{
    if n >= 10 {
        let m = n / 10;
        lemma_decimal_no_leading_zero(m);
        lemma_decimal_value(m / 10);
        assert(decimal(n)[0] == decimal(m)[0]);
        if m < 10 {
            assert(decimal(m) == seq![digit_char(m)]);
            assert(m >= 1);
        } else {
            assert(decimal(m).len() == decimal(m / 10).len() + 1);
        }
    }
}

/// Law: distinct integers have distinct decimal forms.
pub proof fn law_int_decimal_injective(a: int, b: int)
    requires
        int_decimal(a) == int_decimal(b),
    ensures
        a == b,
{
    if a < 0 {
        lemma_decimal_value((-a) as nat);
    } else {
        lemma_decimal_value(a as nat);
    }
    if b < 0 {
        lemma_decimal_value((-b) as nat);
    } else {
        lemma_decimal_value(b as nat);
    }
    let s = int_decimal(a);
    if a < 0 && b < 0 {
        assert(decimal((-a) as nat) =~= s.drop_first());
        assert(decimal((-b) as nat) =~= s.drop_first());
    } else if a < 0 {
        assert(s[0] == '-');
        assert(is_digit(decimal(b as nat)[0]));
    } else if b < 0 {
        assert(s[0] == '-');
        assert(is_digit(decimal(a as nat)[0]));
    }
}

/// `s` without one leading `+`, if it has one.
pub open spec fn without_plus(s: Seq<char>) -> Seq<char> {
    if s.len() > 0 && s[0] == '+' { s.drop_first() } else { s }
}

/// The value of `s` read as a `u16` the way `str::parse::<u16>` reads it: an optional `+`,
/// then one or more ASCII digits, with a value that fits in 16 bits.
pub open spec fn parse_u16_spec(s: Seq<char>) -> Option<u16> {
    if without_plus(s).len() > 0 && all_digits(without_plus(s)) && digits_value(without_plus(s)) <= 65535 {
        Some(digits_value(without_plus(s)) as u16)
    } else {
        None
    }
}

proof fn lemma_digits_value_grows(s: Seq<char>, n: int)
    requires
        0 <= n <= s.len(),
        forall|i: int| 0 <= i < s.len() ==> is_digit(#[trigger] s[i]),
    ensures
        digits_value(s.subrange(0, n)) <= digits_value(s),
    decreases s.len() - n,
{
    if n < s.len() {
        lemma_digits_value_grows(s, n + 1);
        let t = s.subrange(0, n + 1);
        assert(t.drop_last() == s.subrange(0, n));
        assert(digits_value(t) == digits_value(s.subrange(0, n)) * 10 + ((t.last() as u32) - ('0' as u32)) as nat);
    } else {
        assert(s.subrange(0, n) == s);
    }
}

/// Parses a port number or another `u16` as `str::parse::<u16>` does.
pub fn parse_u16(s: &str) -> (r: Option<u16>)
    ensures
        r == parse_u16_spec(s@),
{
    let v = chars_of(s);
    let start: usize = if v.len() > 0 && v[0] == '+' { 1 } else { 0 };
    let ghost body = without_plus(s@);
    assert(body == v@.subrange(start as int, v@.len() as int));
    if start >= v.len() {
        return None;
    }
    let mut acc: u32 = 0;
    let mut i: usize = start;
    while i < v.len()
        invariant
            start <= i <= v@.len(),
            v@ == s@,
            body == without_plus(s@),
            body == v@.subrange(start as int, v@.len() as int),
            forall|j: int| start <= j < i ==> is_digit(#[trigger] v@[j]),
            acc == digits_value(v@.subrange(start as int, i as int)),
            acc <= 65535,
        decreases v@.len() - i,
    {
        let c = v[i];
        if !('0' <= c && c <= '9') {
            assert(body[i - start] == c);
            assert(!is_digit(body[i - start]));
            assert(!all_digits(body));
            assert(parse_u16_spec(s@) is None);
            return None;
        }
        let d: u32 = (c as u32) - ('0' as u32);
        let ghost pre = v@.subrange(start as int, i as int);
        let ghost next = v@.subrange(start as int, i + 1);
        assert(next.drop_last() == pre);
        assert(digits_value(next) == digits_value(pre) * 10 + d as nat);
        if acc > 6553 || acc * 10 + d > 65535 {
            proof {
                assert forall|j: int| 0 <= j < next.len() implies is_digit(#[trigger] next[j]) by {
                    assert(next[j] == v@[start + j]);
                }
                if all_digits(body) {
                    lemma_digits_value_grows(body, (i + 1 - start) as int);
                    assert(body.subrange(0, (i + 1 - start) as int) == next);
                    assert(digits_value(next) > 65535);
                    assert(digits_value(body) > 65535);
                }
            }
            return None;
        }
        acc = acc * 10 + d;
        i = i + 1;
    }
    proof {
        assert(v@.subrange(start as int, i as int) == body);
        assert forall|j: int| 0 <= j < body.len() implies is_digit(#[trigger] body[j]) by {
            assert(body[j] == v@[start + j]);
        }
    }
    Some(acc as u16)
}

/// The characters of an optional string slice.
pub open spec fn opt_str_view(o: Option<&str>) -> Option<Seq<char>> {
    match o {
        Some(s) => Some(s@),
        None => None,
    }
}

/// The characters of an optional string.
pub open spec fn opt_string_view(o: Option<String>) -> Option<Seq<char>> {
    match o {
        Some(s) => Some(s@),
        None => None,
    }
}

/// An owned copy of an optional string slice.
pub fn opt_owned(o: Option<&str>) -> (r: Option<String>)
    ensures
        opt_string_view(r) == opt_str_view(o),
{
    match o {
        Some(s) => Some(s.to_owned()),
        None => None,
    }
}

} // verus!
