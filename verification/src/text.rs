//! Character helpers shared by the parsers: conversion between strings and character
//! sequences, decimal rendering, integer parsing with the rules of `str::parse`,
//! whitespace trimming, line splitting and substring search.

use vstd::prelude::*;
use vstd::string::StringExecFns;

verus! {

/// The characters of `s`, in order.
pub fn chars_of(s: &str) -> (r: Vec<char>)
    ensures
        r@ == s@,
{
    let mut r: Vec<char> = Vec::new();
    for c in it: s.chars()
        invariant
            r@ == it.seq().take(it.index()),
            it.seq() == s@,
    {
        r.push(c);
    }
    r
}

/// Appends one character to a string (`String::push`).
#[verifier::external_body]
pub(crate) fn push_char(s: &mut String, c: char)
    ensures
        final(s)@ == old(s)@.push(c),
{
    s.push(c);
}

/// Appends every character of `cs` to `s`.
pub fn push_chars(s: &mut String, cs: &Vec<char>)
    ensures
        final(s)@ == old(s)@ + cs@,
{
    let ghost start = s@;
    for i in 0..cs.len()
        invariant
            s@ == start + cs@.take(i as int),
    {
        push_char(s, cs[i]);
        assert(cs@.take(i + 1) == cs@.take(i as int).push(cs@[i as int]));
    }
    assert(cs@.take(cs.len() as int) == cs@);
}

/// A string holding exactly the characters `cs`.
pub fn string_of(cs: &Vec<char>) -> (r: String)
    ensures
        r@ == cs@,
{
    let mut r = String::new();
    push_chars(&mut r, cs);
    r
}

/// A string holding the characters of the literal or slice `s`.
pub fn string_from(s: &str) -> (r: String)
    ensures
        r@ == s@,
{
    String::from_str(s)
}

/// The ASCII digit for `d < 10`.
pub open spec fn digit_char(d: nat) -> char {
    (48 + d) as char
}

/// The decimal rendering of `n`, most significant digit first, without leading zeros
/// (as `Display` renders an unsigned integer).
pub open spec fn decimal(n: nat) -> Seq<char>
    decreases n,
{
    if n < 10 {
        seq![digit_char(n)]
    } else {
        decimal(n / 10).push(digit_char(n % 10))
    }
}

/// Appends the decimal rendering of `n` to `s`.
pub fn push_decimal(s: &mut String, n: u64)
    ensures
        final(s)@ == old(s)@ + decimal(n as nat),
    decreases n,
{
    if n < 10 {
        let c = ((48 + n) as u8) as char;
        push_char(s, c);
        assert(seq![digit_char(n as nat)] == Seq::<char>::empty().push(c));
    } else {
        push_decimal(s, n / 10);
        let c = ((48 + n % 10) as u8) as char;
        push_char(s, c);
    }
}

/// The decimal rendering of `n` as a new string.
pub fn decimal_string(n: u64) -> (r: String)
    ensures
        r@ == decimal(n as nat),
{
    let mut r = String::new();
    push_decimal(&mut r, n);
    assert(r@ == Seq::<char>::empty() + decimal(n as nat));
    r
}


/// Why a string is not an integer, as `core::num::IntErrorKind` tells it for the
/// unsigned types.
#[derive(Debug, Clone, Copy, PartialEq, Eq)]
pub enum IntErrorKind {
    Empty,
    InvalidDigit,
    PosOverflow,
}

impl IntErrorKind {
    /// The message that `ParseIntError` displays for this kind.
    pub fn message(&self) -> (r: String)
        ensures
            r@ == self.message_spec(),
    {
        match self {
            IntErrorKind::Empty => string_from("cannot parse integer from empty string"),
            IntErrorKind::InvalidDigit => string_from("invalid digit found in string"),
            IntErrorKind::PosOverflow => string_from("number too large to fit in target type"),
        }
    }

    pub open spec fn message_spec(&self) -> Seq<char> {
        match self {
            IntErrorKind::Empty => "cannot parse integer from empty string"@,
            IntErrorKind::InvalidDigit => "invalid digit found in string"@,
            IntErrorKind::PosOverflow => "number too large to fit in target type"@,
        }
    }
}

/// The value of `c` as a digit in `radix` (10 or 16), as `char::to_digit` gives it.
pub open spec fn digit_value(c: char, radix: nat) -> Option<nat> {
    let v = c as int;
    if 48 <= v <= 57 && v - 48 < radix {
        Some((v - 48) as nat)
    } else if radix > 10 && 97 <= v <= 102 && v - 87 < radix {
        Some((v - 87) as nat)
    } else if radix > 10 && 65 <= v <= 70 && v - 55 < radix {
        Some((v - 55) as nat)
    } else {
        None
    }
}

/// Reads the digits of `s` from the left onto `acc`; the first character that is no
/// digit, or the first step past `max`, ends the scan with that error.
pub open spec fn scan_digits(s: Seq<char>, radix: nat, acc: nat, max: nat) -> Result<nat, IntErrorKind>
    decreases s.len(),
{
    if s.len() == 0 {
        Ok(acc)
    } else {
        match digit_value(s[0], radix) {
            None => Err(IntErrorKind::InvalidDigit),
            Some(d) => {
                let a = acc * radix + d;
                if a > max {
                    Err(IntErrorKind::PosOverflow)
                } else {
                    scan_digits(s.drop_first(), radix, a, max)
                }
            },
        }
    }
}

/// `str::parse` (and `from_str_radix`) for an unsigned integer type whose largest
/// value is `max`: an optional `+` sign, then at least one digit.
pub open spec fn parse_unsigned(s: Seq<char>, radix: nat, max: nat) -> Result<nat, IntErrorKind> {
    if s.len() == 0 {
        Err(IntErrorKind::Empty)
    } else if s == seq!['+'] || s == seq!['-'] {
        Err(IntErrorKind::InvalidDigit)
    } else if s[0] == '+' {
        scan_digits(s.drop_first(), radix, 0, max)
    } else {
        scan_digits(s, radix, 0, max)
    }
}

fn digit_of(c: char, radix: u32) -> (r: Option<u64>)
    requires
        radix == 10 || radix == 16,
    ensures
        r matches Some(d) ==> digit_value(c, radix as nat) == Some(d as nat),
        r is None ==> digit_value(c, radix as nat) is None,
{
    let v = c as u32;
    if 48 <= v && v <= 57 {
        Some((v - 48) as u64)
    } else if radix == 16 && 97 <= v && v <= 102 {
        Some((v - 87) as u64)
    } else if radix == 16 && 65 <= v && v <= 70 {
        Some((v - 55) as u64)
    } else {
        None
    }
}

proof fn lemma_scan_step(s: Seq<char>, radix: nat, acc: nat, max: nat, i: int)
    requires
        0 <= i < s.len(),
        digit_value(s[i], radix) is Some,
        acc * radix + digit_value(s[i], radix)->0 <= max,
    ensures
        scan_digits(s.subrange(i, s.len() as int), radix, acc, max) == scan_digits(
            s.subrange(i + 1, s.len() as int),
            radix,
            acc * radix + digit_value(s[i], radix)->0,
            max,
        ),
{
    assert(s.subrange(i, s.len() as int).drop_first() == s.subrange(i + 1, s.len() as int));
}

/// Parses `s` as an unsigned integer in `radix` no larger than `max`, with the rules of
/// `str::parse` / `from_str_radix`.
pub fn parse_unsigned_chars(s: &Vec<char>, radix: u32, max: u64) -> (r: Result<u64, IntErrorKind>)
    requires
        radix == 10 || radix == 16,
    ensures
        r matches Ok(v) ==> parse_unsigned(s@, radix as nat, max as nat) == Ok::<nat, IntErrorKind>(v as nat),
        r matches Err(e) ==> parse_unsigned(s@, radix as nat, max as nat) == Err::<nat, IntErrorKind>(e),
{
    let n = s.len();
    if n == 0 {
        return Err(IntErrorKind::Empty);
    }
    if n == 1 && (s[0] == '+' || s[0] == '-') {
        proof {
            assert(s@ == seq![s@[0]]);
        }
        return Err(IntErrorKind::InvalidDigit);
    }
    proof {
        if s@ == seq!['+'] || s@ == seq!['-'] {
            assert(s@[0] == '+' || s@[0] == '-');
        }
    }
    let start: usize = if s[0] == '+' { 1 } else { 0 };
    let ghost digits = s@.subrange(start as int, n as int);
    proof {
        if start == 1 {
            assert(s@.drop_first() == digits);
        } else {
            assert(s@ == digits);
        }
        assert(parse_unsigned(s@, radix as nat, max as nat) == scan_digits(digits, radix as nat, 0, max as nat));
    }
    let mut acc: u64 = 0;
    let mut i: usize = start;
    while i < n
        invariant
            start <= i <= n,
            n == s@.len(),
            radix == 10 || radix == 16,
            acc <= max,
            parse_unsigned(s@, radix as nat, max as nat) == scan_digits(digits, radix as nat, 0, max as nat),
            scan_digits(digits, radix as nat, 0, max as nat) == scan_digits(
                s@.subrange(i as int, n as int),
                radix as nat,
                acc as nat,
                max as nat,
            ),
        decreases n - i,
    {
        let d = match digit_of(s[i], radix) {
            Some(d) => d,
            None => {
                proof {
                    assert(s@.subrange(i as int, n as int)[0] == s@[i as int]);
                }
                return Err(IntErrorKind::InvalidDigit);
            },
        };
        proof {
            assert(s@.subrange(i as int, n as int)[0] == s@[i as int]);
        }
        let r64 = radix as u64;
        if d > max {
            proof {
                assert(s@.subrange(i as int, n as int)[0] == s@[i as int]);
                assert(acc * r64 + d > max) by (nonlinear_arith)
                    requires
                        d > max,
                        r64 > 0,
                ;
            }
            return Err(IntErrorKind::PosOverflow);
        }
        let q = (max - d) / r64;
        if acc > q {
            proof {
                assert(s@.subrange(i as int, n as int)[0] == s@[i as int]);
                assert(acc * r64 + d > max) by (nonlinear_arith)
                    requires
                        acc > q,
                        q == (max - d) as int / (r64 as int),
                        r64 > 0,
                        d <= max,
                ;
            }
            return Err(IntErrorKind::PosOverflow);
        }
        proof {
            assert(acc * r64 + d <= max) by (nonlinear_arith)
                requires
                    acc <= q,
                    q == (max - d) as int / (r64 as int),
                    r64 > 0,
                    d <= max,
            ;
            lemma_scan_step(s@, radix as nat, acc as nat, max as nat, i as int);
        }
        acc = acc * r64 + d;
        i = i + 1;
    }
    proof {
        assert(s@.subrange(n as int, n as int).len() == 0);
    }
    Ok(acc)
}


proof fn lemma_scan_concat(a: Seq<char>, b: Seq<char>, radix: nat, acc: nat, max: nat)
    ensures
        scan_digits(a + b, radix, acc, max) == (match scan_digits(a, radix, acc, max) {
            Ok(v) => scan_digits(b, radix, v, max),
            Err(e) => Err(e),
        }),
    decreases a.len(),
{
    if a.len() == 0 {
        assert(a + b == b);
    } else {
        assert((a + b)[0] == a[0]);
        assert((a + b).drop_first() == a.drop_first() + b);
        if let Some(d) = digit_value(a[0], radix) {
            let x = acc * radix + d;
            if x <= max {
                lemma_scan_concat(a.drop_first(), b, radix, x, max);
            }
        }
    }
}

proof fn lemma_decimal_digits(n: nat)
    ensures
        decimal(n).len() > 0,
        forall|i: int| 0 <= i < decimal(n).len() ==> 48 <= #[trigger] (decimal(n)[i] as int) <= 57,
    decreases n,
{
    if n >= 10 {
        lemma_decimal_digits(n / 10);
        let p = decimal(n / 10);
        assert forall|i: int| 0 <= i < decimal(n).len() implies 48 <= #[trigger] (decimal(n)[i] as int) <= 57 by {
            if i < p.len() {
                assert(decimal(n)[i] == p[i]);
            }
        }
    }
}

proof fn lemma_scan_decimal(n: nat, max: nat)
    requires
        n <= max,
    ensures
        scan_digits(decimal(n), 10, 0, max) == Ok::<nat, IntErrorKind>(n),
    decreases n,
{
    if n < 10 {
        let s = decimal(n);
        assert(s.drop_first().len() == 0);
        assert(digit_value(s[0], 10) == Some(n));
        assert(scan_digits(s.drop_first(), 10, n, max) == Ok::<nat, IntErrorKind>(n));
        assert(0 * 10 + n == n);
    } else {
        lemma_scan_decimal(n / 10, max);
        let p = decimal(n / 10);
        let tail = seq![digit_char(n % 10)];
        assert(decimal(n) == p + tail);
        lemma_scan_concat(p, tail, 10, 0, max);
        assert(digit_value(tail[0], 10) == Some(n % 10));
        assert(tail.drop_first().len() == 0);
        assert((n / 10) * 10 + n % 10 == n);
        assert(scan_digits(tail.drop_first(), 10, n, max) == Ok::<nat, IntErrorKind>(n));
    }
}

proof fn lemma_scan_bounded(s: Seq<char>, radix: nat, acc: nat, max: nat)
    requires
        acc <= max,
    ensures
        scan_digits(s, radix, acc, max) matches Ok(v) ==> v <= max,
    decreases s.len(),
{
    if s.len() > 0 {
        if let Some(d) = digit_value(s[0], radix) {
            let a = acc * radix + d;
            if a <= max {
                lemma_scan_bounded(s.drop_first(), radix, a, max);
            }
        }
    }
}

/// A parsed value never exceeds the type's largest value.
pub proof fn lemma_parse_bounded(s: Seq<char>, radix: nat, max: nat)
    ensures
        parse_unsigned(s, radix, max) matches Ok(v) ==> v <= max,
{
    if s.len() > 0 {
        lemma_scan_bounded(s.drop_first(), radix, 0, max);
        lemma_scan_bounded(s, radix, 0, max);
    }
}

/// Parsing the decimal rendering of a number gives the number back, whenever it fits.
pub proof fn law_parse_decimal_roundtrip(n: nat, max: nat)
    requires
        n <= max,
    ensures
        parse_unsigned(decimal(n), 10, max) == Ok::<nat, IntErrorKind>(n),
{
    lemma_decimal_digits(n);
    lemma_scan_decimal(n, max);
    let s = decimal(n);
    assert(48 <= s[0] as int <= 57);
    if s == seq!['+'] || s == seq!['-'] {
        assert(s[0] == seq!['+'][0] || s[0] == seq!['-'][0]);
    }
}


/// `char::is_whitespace`: the characters with the Unicode `White_Space` property.
pub open spec fn is_ws(c: char) -> bool {
    let v = c as u32;
    (9 <= v <= 13) || v == 32 || v == 0x85 || v == 0xA0 || v == 0x1680 || (0x2000 <= v <= 0x200A)
        || v == 0x2028 || v == 0x2029 || v == 0x202F || v == 0x205F || v == 0x3000
}

fn is_ws_exec(c: char) -> (r: bool)
    ensures
        r == is_ws(c),
{
    let v = c as u32;
    (9 <= v && v <= 13) || v == 32 || v == 0x85 || v == 0xA0 || v == 0x1680 || (0x2000 <= v
        && v <= 0x200A) || v == 0x2028 || v == 0x2029 || v == 0x202F || v == 0x205F || v == 0x3000
}

/// The index of the first character at or after `i` that is not whitespace (or the length).
pub open spec fn lead_end(s: Seq<char>, i: int) -> int
    decreases s.len() - i,
{
    if 0 <= i < s.len() && is_ws(s[i]) {
        lead_end(s, i + 1)
    } else {
        i
    }
}

/// Moving down from `j`, the end of the last character that is not whitespace, stopping at `lo`.
pub open spec fn trail_end(s: Seq<char>, lo: int, j: int) -> int
    decreases j - lo,
{
    if lo < j <= s.len() && is_ws(s[j - 1]) {
        trail_end(s, lo, j - 1)
    } else {
        j
    }
}

/// `str::trim`: `s` without its leading and trailing whitespace.
pub open spec fn trim(s: Seq<char>) -> Seq<char> {
    let a = lead_end(s, 0);
    s.subrange(a, trail_end(s, a, s.len() as int))
}

proof fn lemma_lead_end_bounds(s: Seq<char>, i: int)
    requires
        0 <= i <= s.len(),
    ensures
        i <= lead_end(s, i) <= s.len(),
    decreases s.len() - i,
{
    if i < s.len() && is_ws(s[i]) {
        lemma_lead_end_bounds(s, i + 1);
    }
}

proof fn lemma_trail_end_bounds(s: Seq<char>, lo: int, j: int)
    requires
        0 <= lo <= j <= s.len(),
    ensures
        lo <= trail_end(s, lo, j) <= j,
    decreases j - lo,
{
    if lo < j && is_ws(s[j - 1]) {
        lemma_trail_end_bounds(s, lo, j - 1);
    }
}

/// `str::trim` on a character vector.
pub fn trim_chars(s: &Vec<char>) -> (r: Vec<char>)
    ensures
        r@ == trim(s@),
{
    let n = s.len();
    let mut a: usize = 0;
    while a < n && is_ws_exec(s[a])
        invariant
            a <= n,
            n == s@.len(),
            lead_end(s@, 0) == lead_end(s@, a as int),
        decreases n - a,
    {
        a = a + 1;
    }
    let mut b: usize = n;
    while b > a && is_ws_exec(s[b - 1])
        invariant
            a <= b <= n,
            n == s@.len(),
            lead_end(s@, 0) == a,
            trail_end(s@, a as int, n as int) == trail_end(s@, a as int, b as int),
        decreases b,
    {
        b = b - 1;
    }
    let mut r: Vec<char> = Vec::new();
    let mut k: usize = a;
    while k < b
        invariant
            a <= k <= b <= n,
            n == s@.len(),
            r@ == s@.subrange(a as int, k as int),
        decreases b - k,
    {
        r.push(s[k]);
        k = k + 1;
    }
    r
}

/// `s` begins with `p`.
pub open spec fn has_prefix(s: Seq<char>, p: Seq<char>) -> bool {
    p.len() <= s.len() && s.subrange(0, p.len() as int) == p
}

/// `p` occurs in `s` at position `i`.
pub open spec fn occurs_at(s: Seq<char>, p: Seq<char>, i: int) -> bool {
    0 <= i && i + p.len() <= s.len() && s.subrange(i, i + p.len()) == p
}

/// `str::contains` for a string pattern.
pub open spec fn contains(s: Seq<char>, p: Seq<char>) -> bool {
    exists|i: int| occurs_at(s, p, i)
}

fn matches_at(s: &Vec<char>, p: &Vec<char>, i: usize) -> (r: bool)
    requires
        i + p@.len() <= s@.len(),
    ensures
        r == occurs_at(s@, p@, i as int),
{
    let mut k: usize = 0;
    while k < p.len()
        invariant
            k <= p@.len(),
            i + p@.len() <= s.len(),
            s@.subrange(i as int, i + k) == p@.subrange(0, k as int),
        decreases p@.len() - k,
    {
        if s[i + k] != p[k] {
            proof {
                assert(s@.subrange(i as int, i + p@.len())[k as int] == s@[i + k]);
            }
            return false;
        }
        proof {
            assert(s@.subrange(i as int, i + k + 1) == s@.subrange(i as int, i + k).push(s@[i + k]));
            assert(p@.subrange(0, k + 1) == p@.subrange(0, k as int).push(p@[k as int]));
        }
        k = k + 1;
    }
    proof {
        assert(p@.subrange(0, p@.len() as int) == p@);
    }
    true
}

/// `s` begins with `p`.
pub fn starts_with_chars(s: &Vec<char>, p: &Vec<char>) -> (r: bool)
    ensures
        r == has_prefix(s@, p@),
{
    if p.len() > s.len() {
        false
    } else {
        matches_at(s, p, 0)
    }
}

/// `str::contains`: `p` occurs somewhere in `s`.
pub fn contains_chars(s: &Vec<char>, p: &Vec<char>) -> (r: bool)
    ensures
        r == contains(s@, p@),
{
    if p.len() > s.len() {
        proof {
            assert forall|i: int| !occurs_at(s@, p@, i) by {}
        }
        return false;
    }
    let last = s.len() - p.len();
    let mut i: usize = 0;
    loop
        invariant
            i <= last,
            last + p@.len() == s@.len(),
            forall|j: int| 0 <= j < i ==> !occurs_at(s@, p@, j),
        ensures
            forall|j: int| 0 <= j <= last ==> !occurs_at(s@, p@, j),
        decreases last - i,
    {
        if matches_at(s, p, i) {
            return true;
        }
        if i == last {
            break;
        }
        i = i + 1;
    }
    proof {
        assert forall|j: int| !occurs_at(s@, p@, j) by {
            if 0 <= j && j + p@.len() <= s@.len() {
                assert(j <= last);
            }
        }
    }
    false
}

/// The elements of `s` from index `from` on.
pub fn tail_from(s: &Vec<char>, from: usize) -> (r: Vec<char>)
    requires
        from <= s@.len(),
    ensures
        r@ == s@.subrange(from as int, s@.len() as int),
{
    let mut r: Vec<char> = Vec::new();
    let mut k = from;
    while k < s.len()
        invariant
            from <= k <= s@.len(),
            r@ == s@.subrange(from as int, k as int),
        decreases s@.len() - k,
    {
        r.push(s[k]);
        k = k + 1;
    }
    r
}

/// The position of the first `'\n'` at or after `i` (or the length).
pub open spec fn newline_at_or_after(s: Seq<char>, i: int) -> int
    decreases s.len() - i,
{
    if 0 <= i < s.len() && s[i] != '\n' {
        newline_at_or_after(s, i + 1)
    } else {
        i
    }
}

/// A line that ended in `'\n'` loses a `'\r'` just before it, as `str::lines` does.
pub open spec fn strip_cr(l: Seq<char>) -> Seq<char> {
    if l.len() > 0 && l.last() == '\r' {
        l.drop_last()
    } else {
        l
    }
}

/// `str::lines` on the part of `s` from `start` on.
pub open spec fn lines_from(s: Seq<char>, start: int) -> Seq<Seq<char>>
    decreases s.len() - start,
{
    if start < 0 || start >= s.len() {
        seq![]
    } else {
        let k = newline_at_or_after(s, start);
        proof {
            lemma_newline_bounds(s, start);
        }
        if k >= s.len() {
            seq![s.subrange(start, s.len() as int)]
        } else {
            seq![strip_cr(s.subrange(start, k))] + lines_from(s, k + 1)
        }
    }
}

/// `str::lines`: the lines of `s`, split at `'\n'`, each without its `"\n"` or `"\r\n"`.
pub open spec fn lines(s: Seq<char>) -> Seq<Seq<char>> {
    lines_from(s, 0)
}

pub proof fn lemma_newline_bounds(s: Seq<char>, i: int)
    requires
        0 <= i <= s.len(),
    ensures
        i <= newline_at_or_after(s, i) <= s.len(),
        newline_at_or_after(s, i) < s.len() ==> s[newline_at_or_after(s, i)] == '\n',
        forall|j: int| i <= j < newline_at_or_after(s, i) ==> s[j] != '\n',
    decreases s.len() - i,
{
    if i < s.len() && s[i] != '\n' {
        lemma_newline_bounds(s, i + 1);
    }
}

fn subvec(s: &Vec<char>, a: usize, b: usize) -> (r: Vec<char>)
    requires
        a <= b <= s@.len(),
    ensures
        r@ == s@.subrange(a as int, b as int),
{
    let mut r: Vec<char> = Vec::new();
    let mut k = a;
    while k < b
        invariant
            a <= k <= b <= s@.len(),
            r@ == s@.subrange(a as int, k as int),
        decreases b - k,
    {
        r.push(s[k]);
        k = k + 1;
    }
    r
}

/// The character sequences held by a vector of character vectors.
pub open spec fn seqs_of(v: Seq<Vec<char>>) -> Seq<Seq<char>> {
    v.map_values(|x: Vec<char>| x@)
}

/// `str::lines` on a character vector.
pub fn lines_of(s: &Vec<char>) -> (r: Vec<Vec<char>>)
    ensures
        seqs_of(r@) == lines(s@),
{
    let n = s.len();
    let mut r: Vec<Vec<char>> = Vec::new();
    let mut start: usize = 0;
    while start < n
        invariant
            start <= n,
            n == s@.len(),
            seqs_of(r@) + lines_from(s@, start as int) == lines(s@),
        decreases n - start,
    {
        let mut k = start;
        while k < n && s[k] != '\n'
            invariant
                start <= k <= n,
                n == s@.len(),
                newline_at_or_after(s@, start as int) == newline_at_or_after(s@, k as int),
            decreases n - k,
        {
            k = k + 1;
        }
        let ghost before = seqs_of(r@);
        if k >= n {
            let line = subvec(s, start, n);
            r.push(line);
            proof {
                assert(seqs_of(r@) =~= before.push(line@));
                assert(lines_from(s@, n as int) == Seq::<Seq<char>>::empty());
                assert(before + lines_from(s@, start as int) == before + seq![line@]);
            }
            start = n;
            proof {
                assert(seqs_of(r@) + lines_from(s@, start as int) =~= seqs_of(r@));
            }
        } else {
            let mut line = subvec(s, start, k);
            if line.len() > 0 && line[line.len() - 1] == '\r' {
                line.pop();
            }
            r.push(line);
            proof {
                assert(seqs_of(r@) =~= before.push(line@));
                assert(lines_from(s@, start as int) == seq![line@] + lines_from(s@, k + 1));
                assert(before + (seq![line@] + lines_from(s@, k + 1)) == before.push(line@) + lines_from(s@, k + 1));
            }
            start = k + 1;
        }
    }
    proof {
        assert(lines_from(s@, start as int) == Seq::<Seq<char>>::empty());
        assert(seqs_of(r@) + Seq::<Seq<char>>::empty() =~= seqs_of(r@));
    }
    r
}


/// The position of the first `c` at or after `i` in `s` (or the length).
pub open spec fn index_of_from(s: Seq<char>, c: char, i: int) -> int
    decreases s.len() - i,
{
    if 0 <= i < s.len() && s[i] != c {
        index_of_from(s, c, i + 1)
    } else {
        i
    }
}

pub proof fn lemma_index_of_bounds(s: Seq<char>, c: char, i: int)
    requires
        0 <= i <= s.len(),
    ensures
        i <= index_of_from(s, c, i) <= s.len(),
        index_of_from(s, c, i) < s.len() ==> s[index_of_from(s, c, i)] == c,
        forall|j: int| i <= j < index_of_from(s, c, i) ==> s[j] != c,
    decreases s.len() - i,
{
    if i < s.len() && s[i] != c {
        lemma_index_of_bounds(s, c, i + 1);
    }
}

/// `str::split` with a character: the pieces of `s` between the occurrences of `c`,
/// empty pieces included.
pub open spec fn split_on(s: Seq<char>, c: char) -> Seq<Seq<char>>
    decreases s.len(),
{
    let k = index_of_from(s, c, 0);
    proof {
        lemma_index_of_bounds(s, c, 0);
    }
    if k >= s.len() {
        seq![s]
    } else {
        seq![s.subrange(0, k)] + split_on(s.subrange(k + 1, s.len() as int), c)
    }
}

/// `str::splitn(2, c)`: the piece before the first `c` and, if there is a `c`, the
/// rest after it.
pub open spec fn split_once(s: Seq<char>, c: char) -> (Seq<char>, Option<Seq<char>>) {
    let k = index_of_from(s, c, 0);
    if k >= s.len() {
        (s, None)
    } else {
        (s.subrange(0, k), Some(s.subrange(k + 1, s.len() as int)))
    }
}

fn index_of(s: &Vec<char>, c: char, from: usize) -> (r: usize)
    requires
        from <= s@.len(),
    ensures
        r == index_of_from(s@, c, from as int),
        r <= s@.len(),
{
    let mut k = from;
    while k < s.len() && s[k] != c
        invariant
            from <= k <= s@.len(),
            index_of_from(s@, c, from as int) == index_of_from(s@, c, k as int),
        decreases s@.len() - k,
    {
        k = k + 1;
    }
    k
}

/// `str::splitn(2, c)` on a character vector.
pub fn split_once_chars(s: &Vec<char>, c: char) -> (r: (Vec<char>, Option<Vec<char>>))
    ensures
        r.0@ == split_once(s@, c).0,
        match split_once(s@, c).1 {
            Some(rest) => r.1 matches Some(v) && v@ == rest,
            None => r.1 is None,
        },
{
    let k = index_of(s, c, 0);
    if k >= s.len() {
        (subvec(s, 0, s.len()), None)
    } else {
        (subvec(s, 0, k), Some(subvec(s, k + 1, s.len())))
    }
}

/// `str::split` with a character, on a character vector.
pub fn split_on_chars(s: &Vec<char>, c: char) -> (r: Vec<Vec<char>>)
    ensures
        seqs_of(r@) == split_on(s@, c),
{
    let n = s.len();
    let mut r: Vec<Vec<char>> = Vec::new();
    let mut start: usize = 0;
    let mut done = false;
    assert(s@.subrange(0, n as int) == s@);
    while !done
        invariant
            start <= n,
            n == s@.len(),
            !done ==> seqs_of(r@) + split_on(s@.subrange(start as int, n as int), c) == split_on(s@, c),
            done ==> seqs_of(r@) == split_on(s@, c),
        decreases n - start + if done { 0int } else { 1int },
    {
        let ghost rest = s@.subrange(start as int, n as int);
        let k = index_of(s, c, start);
        let ghost before = seqs_of(r@);
        proof {
            lemma_index_of_bounds(rest, c, 0);
            lemma_index_of_bounds(s@, c, start as int);
            lemma_index_of_shift(s@, c, start as int, 0);
        }
        if k >= n {
            let piece = subvec(s, start, n);
            r.push(piece);
            proof {
                assert(seqs_of(r@) =~= before.push(piece@));
                assert(split_on(rest, c) == seq![rest]);
                assert(before + seq![rest] =~= before.push(rest));
            }
            done = true;
        } else {
            let piece = subvec(s, start, k);
            r.push(piece);
            proof {
                assert(seqs_of(r@) =~= before.push(piece@));
                assert(rest.subrange(0, k - start) == piece@);
                assert(rest.subrange(k - start + 1, rest.len() as int) == s@.subrange(k + 1, n as int));
                assert(split_on(rest, c) == seq![piece@] + split_on(s@.subrange(k + 1, n as int), c));
                assert(before + (seq![piece@] + split_on(s@.subrange(k + 1, n as int), c)) =~= before.push(piece@) + split_on(s@.subrange(k + 1, n as int), c));
            }
            start = k + 1;
        }
    }
    r
}

proof fn lemma_index_of_shift(s: Seq<char>, c: char, start: int, i: int)
    requires
        0 <= start <= s.len(),
        0 <= i <= s.len() - start,
    ensures
        index_of_from(s.subrange(start, s.len() as int), c, i) == index_of_from(s, c, start + i) - start,
    decreases s.len() - start - i,
{
    let t = s.subrange(start, s.len() as int);
    if i < t.len() {
        assert(t[i] == s[start + i]);
        if t[i] != c {
            lemma_index_of_shift(s, c, start, i + 1);
        }
    }
}

/// `str::to_lowercase`: the Unicode lower-case mapping of every character.
pub uninterp spec fn lowercase(s: Seq<char>) -> Seq<char>;

/// The ASCII lower-case form of a character: `A` to `Z` become `a` to `z`, every
/// other character stays.
pub open spec fn ascii_lower(c: char) -> char {
    if 'A' <= c <= 'Z' {
        ((c as u32) + 32) as char
    } else {
        c
    }
}

/// Every character of `s` is ASCII.
pub open spec fn all_ascii(s: Seq<char>) -> bool {
    forall|i: int| 0 <= i < s.len() ==> (s[i] as u32) < 128
}

/// The lower-case form of `s` as `str::to_lowercase` gives it: stated for ASCII text,
/// named otherwise.
pub open spec fn lower(s: Seq<char>) -> Seq<char> {
    if all_ascii(s) {
        s.map_values(|c: char| ascii_lower(c))
    } else {
        lowercase(s)
    }
}

/// `str::to_lowercase`. Its result, a function of the characters of `s` alone, is
/// named: the mapping is the Unicode case table. Of an ASCII string it is stated: the
/// Unicode lower-case mapping of `A` to `Z` is `a` to `z`, and other ASCII characters
/// have none, so they stay.
#[verifier::external_body]
pub(crate) fn lowercase_string(s: &str) -> (r: String)
    ensures
        r@ == lowercase(s@),
        all_ascii(s@) ==> r@ == s@.map_values(|c: char| ascii_lower(c)),
{
    s.to_lowercase()
}

/// `str::to_uppercase`: the Unicode upper-case mapping of every character.
pub uninterp spec fn uppercase(s: Seq<char>) -> Seq<char>;

/// The ASCII upper-case form of a character: `a` to `z` become `A` to `Z`, every
/// other character stays.
pub open spec fn ascii_upper(c: char) -> char {
    if 'a' <= c <= 'z' {
        ((c as u32) - 32) as char
    } else {
        c
    }
}

/// The upper-case form of `s` as `str::to_uppercase` gives it: stated for ASCII text,
/// named otherwise.
pub open spec fn upper(s: Seq<char>) -> Seq<char> {
    if all_ascii(s) {
        s.map_values(|c: char| ascii_upper(c))
    } else {
        uppercase(s)
    }
}

/// `str::to_uppercase`. Its result, a function of the characters of `s` alone, is
/// named: the mapping is the Unicode case table. Of an ASCII string it is stated: the
/// Unicode upper-case mapping of `a` to `z` is `A` to `Z`, and other ASCII characters
/// have none, so they stay.
#[verifier::external_body]
pub(crate) fn uppercase_string(s: &str) -> (r: String)
    ensures
        r@ == uppercase(s@),
        all_ascii(s@) ==> r@ == s@.map_values(|c: char| ascii_upper(c)),
{
    s.to_uppercase()
}


/// `s` holds no line break.
pub open spec fn no_newline(s: Seq<char>) -> bool {
    forall|j: int| 0 <= j < s.len() ==> s[j] != '\n'
}

proof fn lemma_newline_in_prefix(p: Seq<char>, q: Seq<char>, start: int)
    requires
        p.len() > 0,
        p.last() == '\n',
        0 <= start < p.len(),
    ensures
        newline_at_or_after(p + q, start) == newline_at_or_after(p, start),
        newline_at_or_after(p, start) < p.len(),
    decreases p.len() - start,
{
    assert((p + q)[start] == p[start]);
    if p[start] != '\n' {
        assert(start != p.len() - 1);
        lemma_newline_in_prefix(p, q, start + 1);
    }
}

proof fn lemma_newline_shift(p: Seq<char>, q: Seq<char>, i: int)
    requires
        0 <= i <= q.len(),
    ensures
        newline_at_or_after(p + q, p.len() + i) == p.len() + newline_at_or_after(q, i),
    decreases q.len() - i,
{
    if i < q.len() {
        assert((p + q)[p.len() + i] == q[i]);
        if q[i] != '\n' {
            lemma_newline_shift(p, q, i + 1);
        }
    }
}

proof fn lemma_lines_shift(p: Seq<char>, q: Seq<char>, i: int)
    requires
        0 <= i <= q.len(),
    ensures
        lines_from(p + q, p.len() + i) == lines_from(q, i),
    decreases q.len() - i,
{
    if i < q.len() {
        lemma_newline_shift(p, q, i);
        lemma_newline_bounds(q, i);
        let k = newline_at_or_after(q, i);
        if k >= q.len() {
            assert((p + q).subrange(p.len() + i, (p + q).len() as int) == q.subrange(i, q.len() as int));
        } else {
            assert((p + q).subrange(p.len() + i, p.len() + k) == q.subrange(i, k));
            lemma_lines_shift(p, q, k + 1);
        }
    }
}

proof fn lemma_lines_prefix(p: Seq<char>, q: Seq<char>, start: int)
    requires
        p.len() > 0,
        p.last() == '\n',
        0 <= start <= p.len(),
    ensures
        lines_from(p + q, start) == lines_from(p, start) + lines_from(p + q, p.len() as int),
    decreases p.len() - start,
{
    if start == p.len() {
        assert(lines_from(p, start) == Seq::<Seq<char>>::empty());
        assert(Seq::<Seq<char>>::empty() + lines_from(p + q, p.len() as int) == lines_from(p + q, p.len() as int));
    } else {
        lemma_newline_in_prefix(p, q, start);
        lemma_newline_bounds(p, start);
        let k = newline_at_or_after(p, start);
        assert((p + q).subrange(start, k) == p.subrange(start, k));
        lemma_lines_prefix(p, q, k + 1);
        let a = seq![strip_cr(p.subrange(start, k))];
        assert(lines_from(p + q, start) == a + lines_from(p + q, k + 1));
        assert(lines_from(p, start) == a + lines_from(p, k + 1));
        assert(a + (lines_from(p, k + 1) + lines_from(p + q, p.len() as int)) == (a + lines_from(p, k + 1)) + lines_from(
            p + q,
            p.len() as int,
        ));
    }
}

/// The lines of a text that ends with a line break (or is empty), followed by more
/// text, are the lines of the first text followed by the lines of the rest.
pub proof fn lemma_lines_concat(p: Seq<char>, q: Seq<char>)
    requires
        p.len() == 0 || p.last() == '\n',
    ensures
        lines(p + q) == lines(p) + lines(q),
{
    if p.len() == 0 {
        assert(p + q == q);
        assert(lines(p) == Seq::<Seq<char>>::empty());
        assert(Seq::<Seq<char>>::empty() + lines(q) == lines(q));
    } else {
        lemma_lines_prefix(p, q, 0);
        lemma_lines_shift(p, q, 0);
        assert(p.len() + 0 == p.len());
    }
}

/// A text without line breaks, followed by one, is a single line (without a `'\r'`
/// that ends it).
pub proof fn lemma_lines_single(l: Seq<char>)
    requires
        no_newline(l),
    ensures
        lines(l + "\n"@) == seq![strip_cr(l)],
{
    reveal_strlit("\n");
    let s = l + "\n"@;
    assert forall|j: int| 0 <= j < l.len() implies s[j] != '\n' by {
        assert(s[j] == l[j]);
    }
    lemma_newline_bounds(s, 0);
    if newline_at_or_after(s, 0) < l.len() {
        assert(s[newline_at_or_after(s, 0)] == '\n');
        assert(false);
    }
    assert(s[l.len() as int] == '\n');
    assert(newline_at_or_after(s, 0) == l.len());
    assert(s.subrange(0, l.len() as int) == l);
    assert(lines_from(s, l.len() + 1int) == Seq::<Seq<char>>::empty());
    assert(seq![strip_cr(l)] + Seq::<Seq<char>>::empty() == seq![strip_cr(l)]);
}

proof fn lemma_lines_from_no_newline(s: Seq<char>, start: int)
    requires
        0 <= start,
    ensures
        forall|i: int| 0 <= i < lines_from(s, start).len() ==> no_newline(#[trigger] lines_from(s, start)[i]),
    decreases s.len() - start,
{
    if start < s.len() {
        lemma_newline_bounds(s, start);
        let k = newline_at_or_after(s, start);
        if k >= s.len() {
            let l = s.subrange(start, s.len() as int);
            assert forall|j: int| 0 <= j < l.len() implies l[j] != '\n' by {
                assert(l[j] == s[start + j]);
            }
        } else {
            lemma_lines_from_no_newline(s, k + 1);
            let l = s.subrange(start, k);
            assert forall|j: int| 0 <= j < strip_cr(l).len() implies strip_cr(l)[j] != '\n' by {
                assert(strip_cr(l)[j] == l[j]);
                assert(l[j] == s[start + j]);
            }
            let rest = lines_from(s, k + 1);
            assert forall|i: int| 0 <= i < lines_from(s, start).len() implies no_newline(#[trigger] lines_from(s, start)[i]) by {
                if i > 0 {
                    assert(lines_from(s, start)[i] == rest[i - 1]);
                }
            }
        }
    }
}

/// No line of a text holds a line break.
pub proof fn lemma_lines_no_newline(s: Seq<char>)
    ensures
        forall|i: int| 0 <= i < lines(s).len() ==> no_newline(#[trigger] lines(s)[i]),
{
    lemma_lines_from_no_newline(s, 0);
}

proof fn lemma_lead_end_prefix(s: Seq<char>, i: int)
    requires
        s.len() > 0,
        is_ws(s.last()),
        0 <= i <= s.len() - 1,
    ensures
        lead_end(s, i) == s.len() || lead_end(s, i) == lead_end(s.drop_last(), i),
        lead_end(s, i) == s.len() ==> lead_end(s.drop_last(), i) == s.len() - 1,
        lead_end(s, i) < s.len() - 1 || lead_end(s, i) == s.len(),
    decreases s.len() - i,
{
    let t = s.drop_last();
    if i < t.len() {
        assert(t[i] == s[i]);
        if is_ws(s[i]) {
            lemma_lead_end_prefix(s, i + 1);
        }
    } else {
        assert(lead_end(s, i + 1) == s.len());
        assert(lead_end(s, i) == s.len());
    }
}

proof fn lemma_trail_end_prefix(s: Seq<char>, lo: int, j: int)
    requires
        s.len() > 0,
        0 <= lo <= j <= s.len() - 1,
    ensures
        trail_end(s.drop_last(), lo, j) == trail_end(s, lo, j),
    decreases j - lo,
{
    if lo < j {
        assert(s.drop_last()[j - 1] == s[j - 1]);
        lemma_trail_end_prefix(s, lo, j - 1);
    }
}

/// Dropping a final whitespace character does not change the trimmed text.
pub proof fn lemma_trim_drop_last_ws(s: Seq<char>)
    requires
        s.len() > 0,
        is_ws(s.last()),
    ensures
        trim(s.drop_last()) == trim(s),
{
    let t = s.drop_last();
    lemma_lead_end_prefix(s, 0);
    lemma_lead_end_bounds(s, 0);
    lemma_lead_end_bounds(t, 0);
    let a = lead_end(s, 0);
    if a == s.len() {
        lemma_trail_end_bounds(s, a, s.len() as int);
        lemma_trail_end_bounds(t, t.len() as int, t.len() as int);
        assert(trim(s).len() == 0);
        assert(trim(t).len() == 0);
    } else {
        assert(lead_end(t, 0) == a);
        assert(a < s.len() - 1);
        assert(trail_end(s, a, s.len() as int) == trail_end(s, a, s.len() - 1));
        lemma_trail_end_prefix(s, a, s.len() - 1);
        lemma_trail_end_bounds(t, a, t.len() as int);
        let e = trail_end(t, a, t.len() as int);
        assert(t.subrange(a, e) == s.subrange(a, e));
    }
}

/// Removing the `'\r'` that ends a line does not change the trimmed line.
pub proof fn lemma_trim_strip_cr(l: Seq<char>)
    ensures
        trim(strip_cr(l)) == trim(l),
{
    if l.len() > 0 && l.last() == '\r' {
        lemma_trim_drop_last_ws(l);
    }
}

} // verus!
