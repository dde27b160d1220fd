//! Character-level helpers shared by the parsers and formatters.

use vstd::prelude::*;

verus! {

/// The characters of a string, in order.
pub fn chars_of(s: &str) -> (v: Vec<char>)
    ensures
        v@ == s@,
{
    let mut v: Vec<char> = Vec::new();
    for c in it: s.chars()
        invariant
            v@ == it.seq().take(it.index() as int),
    {
        v.push(c);
    }
    v
}

pub open spec fn is_digit(c: char) -> bool {
    '0' <= c && c <= '9'
}

pub open spec fn digit_value(c: char) -> int {
    c as int - '0' as int
}

/// Every character of `s` is an ASCII decimal digit.
pub open spec fn all_digits(s: Seq<char>) -> bool {
    forall|i: int| 0 <= i < s.len() ==> is_digit(#[trigger] s[i])
}

/// The value of a string of decimal digits (most significant first).
pub open spec fn decimal_value(s: Seq<char>) -> nat
    decreases s.len(),
{
    if s.len() == 0 {
        0
    } else {
        (decimal_value(s.drop_last()) * 10 + digit_value(s.last())) as nat
    }
}

/// The canonical decimal form of a `u32`: at least one digit, no leading
/// zero (except "0" itself), no sign, and a value that fits in 32 bits.
pub open spec fn canonical_u32(s: Seq<char>) -> bool {
    &&& s.len() >= 1
    &&& all_digits(s)
    &&& (s[0] == '0' ==> s.len() == 1)
    &&& decimal_value(s) <= u32::MAX
}

/// A digit string's prefixes never have a larger value than the whole.
pub proof fn lemma_decimal_prefix_le(s: Seq<char>, k: int)
    requires
        0 <= k <= s.len(),
        all_digits(s),
    ensures
        decimal_value(s.take(k)) <= decimal_value(s),
    decreases s.len() - k,
{
    if k < s.len() {
        lemma_decimal_prefix_le(s, k + 1);
        assert(s.take(k + 1).drop_last() =~= s.take(k));
        assert(is_digit(s.take(k + 1).last()));
    } else {
        assert(s.take(k) =~= s);
    }
}

/// Whether `s[start..]` is the canonical decimal form of a `u32`.
pub fn is_canonical_u32_from(s: &Vec<char>, start: usize) -> (b: bool)
    requires
        start <= s.len(),
    ensures
        b == canonical_u32(s@.skip(start as int)),
{
    let ghost rest = s@.skip(start as int);
    if start >= s.len() {
        return false;
    }
    let mut v: u64 = 0;
    let mut i: usize = start;
    while i < s.len()
        invariant
            start < s.len(),
            start <= i <= s.len(),
            rest == s@.skip(start as int),
            all_digits(rest.take(i - start)),
            v == decimal_value(rest.take(i - start)),
            v <= u32::MAX,
        decreases s.len() - i,
    {
        let c = s[i];
        if !('0' <= c && c <= '9') {
            assert(rest[i - start] == c);
            return false;
        }
        let d: u64 = (c as u32 - '0' as u32) as u64;
        v = v * 10 + d;
        proof {
            assert(rest.take(i + 1 - start).drop_last() =~= rest.take(i - start));
            assert(rest.take(i + 1 - start).last() == c);
        }
        if v > u32::MAX as u64 {
            proof {
                if all_digits(rest) {
                    lemma_decimal_prefix_le(rest, i + 1 - start);
                }
            }
            return false;
        }
        i = i + 1;
    }
    assert(rest.take(i - start) =~= rest);
    let first = s[start];
    assert(rest[0] == first);
    if first == '0' && s.len() - start > 1 {
        return false;
    }
    true
}

/// Character-wise string equality.
pub fn str_eq(a: &str, b: &str) -> (r: bool)
    ensures
        r == (a@ == b@),
{
    let va = chars_of(a);
    let vb = chars_of(b);
    if va.len() != vb.len() {
        return false;
    }
    let mut i: usize = 0;
    while i < va.len()
        invariant
            va@ == a@,
            vb@ == b@,
            va.len() == vb.len(),
            0 <= i <= va.len(),
            forall|j: int| 0 <= j < i ==> va@[j] == vb@[j],
        decreases va.len() - i,
    {
        if va[i] != vb[i] {
            return false;
        }
        i = i + 1;
    }
    assert(va@ =~= vb@);
    true
}

pub open spec fn digit_char(d: int) -> char {
    if d == 0 {
        '0'
    } else if d == 1 {
        '1'
    } else if d == 2 {
        '2'
    } else if d == 3 {
        '3'
    } else if d == 4 {
        '4'
    } else if d == 5 {
        '5'
    } else if d == 6 {
        '6'
    } else if d == 7 {
        '7'
    } else if d == 8 {
        '8'
    } else {
        '9'
    }
}

/// The decimal form of `n`: its digits, most significant first, with no
/// leading zero.
pub open spec fn decimal(n: nat) -> Seq<char>
    decreases n,
{
    if n < 10 {
        seq![digit_char(n as int)]
    } else {
        decimal(n / 10).push(digit_char((n % 10) as int))
    }
}

fn digit_str(d: u64) -> (s: &'static str)
    requires
        d < 10,
    ensures
        s@ == seq![digit_char(d as int)],
{
    proof {
        reveal_strlit("0");
        reveal_strlit("1");
        reveal_strlit("2");
        reveal_strlit("3");
        reveal_strlit("4");
        reveal_strlit("5");
        reveal_strlit("6");
        reveal_strlit("7");
        reveal_strlit("8");
        reveal_strlit("9");
    }
    if d == 0 {
        "0"
    } else if d == 1 {
        "1"
    } else if d == 2 {
        "2"
    } else if d == 3 {
        "3"
    } else if d == 4 {
        "4"
    } else if d == 5 {
        "5"
    } else if d == 6 {
        "6"
    } else if d == 7 {
        "7"
    } else if d == 8 {
        "8"
    } else {
        "9"
    }
}

/// The decimal form of `n` is a nonempty string of digits worth `n`.
pub proof fn lemma_decimal_reads_back(n: nat)
    ensures
        decimal(n).len() >= 1,
        all_digits(decimal(n)),
        decimal_value(decimal(n)) == n,
    decreases n,
{
    let d = (n % 10) as int;
    assert(digit_value(digit_char(d)) == d && is_digit(digit_char(d)));
    if n >= 10 {
        lemma_decimal_reads_back(n / 10);
        assert(decimal(n).drop_last() =~= decimal(n / 10));
        assert(decimal(n).last() == digit_char(d));
        assert(decimal_value(decimal(n)) == decimal_value(decimal(n / 10)) * 10 + d);
        assert((n / 10) * 10 + n % 10 == n);
        assert forall|i: int| 0 <= i < decimal(n).len() implies is_digit(#[trigger] decimal(n)[i]) by {
            if i < decimal(n).len() - 1 {
                assert(decimal(n)[i] == decimal(n / 10)[i]);
            }
        }
    } else {
        assert(decimal(n).drop_last() =~= Seq::<char>::empty());
        assert(decimal(n).last() == digit_char(d));
        assert(decimal_value(decimal(n)) == decimal_value(Seq::<char>::empty()) * 10 + d);
    }
}

/// A string of digits has nothing for `trim` to remove.
pub proof fn lemma_trim_digits(s: Seq<char>)
    requires
        s.len() >= 1,
        all_digits(s),
    ensures
        trim(s) == s,
{
    assert(!is_whitespace(s[0]));
    assert(!is_whitespace(s[s.len() - 1]));
    assert(s.subrange(0, s.len() as int) =~= s);
}

/// Append the decimal form of `n` to `out`.
pub fn push_decimal(out: &mut String, n: u64)
    ensures
        final(out)@ == old(out)@ + decimal(n as nat),
    decreases n,
{
    if n >= 10 {
        push_decimal(out, n / 10);
    }
    out.append(digit_str(n % 10));
    proof {
        if n >= 10 {
            assert(decimal(n as nat) == decimal((n / 10) as nat).push(digit_char((n % 10) as int)));
        }
    }
    assert(out@ =~= old(out)@ + decimal(n as nat));
}

/// The decimal form of `n` as a new string.
pub fn decimal_string(n: u64) -> (s: String)
    ensures
        s@ == decimal(n as nat),
{
    let mut s = String::new();
    push_decimal(&mut s, n);
    assert(s@ =~= decimal(n as nat));
    s
}

/// What `str::parse` accepts for an unsigned integer type whose largest
/// value is `max`: an optional `+`, then one or more ASCII digits, with a
/// value of at most `max`.
pub open spec fn parses_unsigned(s: Seq<char>, max: int) -> bool {
    let digits = if s.len() > 0 && s[0] == '+' { s.skip(1) } else { s };
    &&& digits.len() >= 1
    &&& all_digits(digits)
    &&& decimal_value(digits) <= max
}

pub open spec fn unsigned_value(s: Seq<char>) -> nat {
    decimal_value(if s.len() > 0 && s[0] == '+' { s.skip(1) } else { s })
}

/// `str::parse` for an unsigned integer type whose largest value is `max`.
pub fn parse_unsigned(s: &str, max: u64) -> (r: Option<u64>)
    ensures
        r is Some <==> parses_unsigned(s@, max as int),
        r matches Some(v) ==> v == unsigned_value(s@),
{
    let v = chars_of(s);
    parse_unsigned_chars(&v, max)
}

/// [`parse_unsigned`] over a string's characters.
pub fn parse_unsigned_chars(v: &Vec<char>, max: u64) -> (r: Option<u64>)
    ensures
        r is Some <==> parses_unsigned(v@, max as int),
        r matches Some(x) ==> x == unsigned_value(v@),
{
    let start: usize = if v.len() > 0 && v[0] == '+' { 1 } else { 0 };
    let ghost digits = v@.skip(start as int);
    assert(digits =~= if v@.len() > 0 && v@[0] == '+' { v@.skip(1) } else { v@ });
    assert(parses_unsigned(v@, max as int) == (digits.len() >= 1 && all_digits(digits) && decimal_value(digits)
        <= max));
    assert(unsigned_value(v@) == decimal_value(digits));
    if start >= v.len() {
        return None;
    }
    let mut acc: u64 = 0;
    let mut i: usize = start;
    while i < v.len()
        invariant
            start < v.len(),
            start <= i <= v.len(),
            digits == v@.skip(start as int),
            parses_unsigned(v@, max as int) == (digits.len() >= 1 && all_digits(digits) && decimal_value(digits)
                <= max),
            unsigned_value(v@) == decimal_value(digits),
            all_digits(digits.take(i - start)),
            acc == decimal_value(digits.take(i - start)),
            acc <= max,
        decreases v.len() - i,
    {
        let c = v[i];
        if !('0' <= c && c <= '9') {
            assert(digits[i - start] == c);
            assert(!is_digit(digits[i - start]));
            assert(!all_digits(digits));
            return None;
        }
        let d: u64 = (c as u32 - '0' as u32) as u64;
        proof {
            assert(digits.take(i + 1 - start).drop_last() =~= digits.take(i - start));
            assert(digits.take(i + 1 - start).last() == c);
        }
        if d > max || acc > (max - d) / 10 {
            proof {
                assert(acc * 10 + d > max) by (nonlinear_arith)
                    requires
                        d > max || acc > (max - d) / 10,
                        d <= 9,
                        acc >= 0,
                        max >= 0,
                ;
                let pre = digits.take(i + 1 - start);
                assert(decimal_value(pre) == decimal_value(pre.drop_last()) * 10 + digit_value(pre.last()));
                assert(decimal_value(pre) == acc * 10 + d);
                if all_digits(digits) {
                    lemma_decimal_prefix_le(digits, i + 1 - start);
                }
            }
            return None;
        }
        proof {
            assert(acc * 10 + d <= max) by (nonlinear_arith)
                requires
                    acc <= (max - d) / 10,
                    d <= 9,
                    d <= max,
            ;
        }
        acc = acc * 10 + d;
        i = i + 1;
    }
    assert(digits.take(i - start) =~= digits);
    Some(acc)
}

/// What `str::parse` accepts for a signed integer type whose range is
/// `-min_magnitude ..= max`: an optional `+` or `-`, then one or more
/// ASCII digits, with a value in range.
pub open spec fn parses_signed(s: Seq<char>, min_magnitude: int, max: int) -> bool {
    if s.len() > 0 && s[0] == '-' {
        let digits = s.skip(1);
        &&& digits.len() >= 1
        &&& all_digits(digits)
        &&& decimal_value(digits) <= min_magnitude
    } else {
        parses_unsigned(s, max)
    }
}

pub open spec fn signed_value(s: Seq<char>) -> int {
    if s.len() > 0 && s[0] == '-' {
        -decimal_value(s.skip(1))
    } else {
        unsigned_value(s) as int
    }
}

/// A character string without its first character.
pub fn skip_first(v: &Vec<char>) -> (out: Vec<char>)
    requires
        v.len() >= 1,
    ensures
        out@ == v@.skip(1),
{
    let mut out: Vec<char> = Vec::new();
    let mut i: usize = 1;
    while i < v.len()
        invariant
            1 <= i <= v.len(),
            out@ == v@.subrange(1, i as int),
        decreases v.len() - i,
    {
        out.push(v[i]);
        assert(out@ =~= v@.subrange(1, i + 1));
        i = i + 1;
    }
    assert(out@ =~= v@.skip(1));
    out
}

/// `str::parse` for a signed integer type of at most 64 bits whose range
/// is `-min_magnitude ..= max`.
pub fn parse_signed_chars(v: &Vec<char>, min_magnitude: u64, max: u64) -> (r: Option<i64>)
    requires
        min_magnitude <= 0x8000_0000_0000_0000,
        max <= i64::MAX,
    ensures
        r is Some <==> parses_signed(v@, min_magnitude as int, max as int),
        r matches Some(x) ==> x == signed_value(v@),
{
    if v.len() > 0 && v[0] == '-' {
        let tail = skip_first(v);
        if tail.len() > 0 && tail[0] == '+' {
            assert(!is_digit(tail@[0]));
            return None;
        }
        let ghost digits = v@.skip(1);
        assert(tail@.len() > 0 ==> tail@[0] != '+');
        assert(tail@.skip(0) =~= tail@);
        match parse_unsigned_chars(&tail, min_magnitude) {
            Some(m) => {
                let x: i128 = -(m as i128);
                Some(x as i64)
            },
            None => None,
        }
    } else {
        match parse_unsigned_chars(v, max) {
            Some(m) => Some(m as i64),
            None => None,
        }
    }
}

/// [`parse_signed_chars`] on a string.
pub fn parse_signed(s: &str, min_magnitude: u64, max: u64) -> (r: Option<i64>)
    requires
        min_magnitude <= 0x8000_0000_0000_0000,
        max <= i64::MAX,
    ensures
        r is Some <==> parses_signed(s@, min_magnitude as int, max as int),
        r matches Some(x) ==> x == signed_value(s@),
{
    let v = chars_of(s);
    parse_signed_chars(&v, min_magnitude, max)
}

/// The decimal form of a signed value: a `-` before the magnitude of a
/// negative one.
pub open spec fn signed_decimal(x: int) -> Seq<char> {
    if x < 0 {
        seq!['-'] + decimal((-x) as nat)
    } else {
        decimal(x as nat)
    }
}

/// Append the decimal form of a signed value to `out`.
pub fn push_signed_decimal(out: &mut String, x: i64)
    ensures
        final(out)@ == old(out)@ + signed_decimal(x as int),
{
    if x < 0 {
        push_char(out, '-');
        let m: u64 = (-(x as i128)) as u64;
        push_decimal(out, m);
        assert(out@ =~= old(out)@ + signed_decimal(x as int));
    } else {
        push_decimal(out, x as u64);
    }
}

/// Append one character to a string: calls `String::push`, whose contract
/// here says the string gains `c` at its end.
#[verifier::external_body]
pub(crate) fn push_char(s: &mut String, c: char)
    ensures
        final(s)@ == old(s)@.push(c),
{
    s.push(c);
}

/// `char::is_whitespace`: the Unicode White_Space property.
pub open spec fn is_whitespace(c: char) -> bool {
    ||| ('\u{9}' <= c && c <= '\u{d}')
    ||| c == ' '
    ||| c == '\u{85}'
    ||| c == '\u{a0}'
    ||| c == '\u{1680}'
    ||| ('\u{2000}' <= c && c <= '\u{200a}')
    ||| c == '\u{2028}'
    ||| c == '\u{2029}'
    ||| c == '\u{202f}'
    ||| c == '\u{205f}'
    ||| c == '\u{3000}'
}

pub fn char_is_whitespace(c: char) -> (b: bool)
    ensures
        b == is_whitespace(c),
{
    ('\u{9}' <= c && c <= '\u{d}') || c == ' ' || c == '\u{85}' || c == '\u{a0}' || c == '\u{1680}' || ('\u{2000}' <= c
        && c <= '\u{200a}') || c == '\u{2028}' || c == '\u{2029}' || c == '\u{202f}' || c == '\u{205f}' || c == '\u{3000}'
}

/// Every character of `s` is whitespace (so `s.trim()` is empty).
pub open spec fn all_whitespace(s: Seq<char>) -> bool {
    forall|i: int| 0 <= i < s.len() ==> is_whitespace(#[trigger] s[i])
}

/// Index of the first non-whitespace character at or after `i`.
pub open spec fn trim_start_from(s: Seq<char>, i: int) -> int
    decreases s.len() - i,
{
    if i < 0 || i >= s.len() {
        s.len() as int
    } else if is_whitespace(s[i]) {
        trim_start_from(s, i + 1)
    } else {
        i
    }
}

/// One past the last non-whitespace character before `j`.
pub open spec fn trim_end_to(s: Seq<char>, j: int) -> int
    decreases j,
{
    if j <= 0 || j > s.len() {
        0
    } else if is_whitespace(s[j - 1]) {
        trim_end_to(s, j - 1)
    } else {
        j
    }
}

/// `str::trim`: without leading and trailing whitespace.
pub open spec fn trim(s: Seq<char>) -> Seq<char> {
    let a = trim_start_from(s, 0);
    if a >= s.len() {
        Seq::empty()
    } else {
        s.subrange(a, trim_end_to(s, s.len() as int))
    }
}

pub proof fn lemma_trim_start(s: Seq<char>, i: int)
    requires
        0 <= i <= s.len(),
    ensures
        i <= trim_start_from(s, i) <= s.len(),
        forall|k: int| i <= k < trim_start_from(s, i) ==> is_whitespace(#[trigger] s[k]),
        trim_start_from(s, i) < s.len() ==> !is_whitespace(s[trim_start_from(s, i)]),
    decreases s.len() - i,
{
    if i < s.len() && is_whitespace(s[i]) {
        lemma_trim_start(s, i + 1);
    }
}

pub proof fn lemma_trim_end(s: Seq<char>, j: int)
    requires
        0 <= j <= s.len(),
    ensures
        0 <= trim_end_to(s, j) <= j,
        forall|k: int| trim_end_to(s, j) <= k < j ==> is_whitespace(#[trigger] s[k]),
        trim_end_to(s, j) > 0 ==> !is_whitespace(s[trim_end_to(s, j) - 1]),
    decreases j,
{
    if j > 0 && is_whitespace(s[j - 1]) {
        lemma_trim_end(s, j - 1);
    }
}

/// A string's characters with leading and trailing whitespace removed.
pub fn trim_chars(v: &Vec<char>) -> (out: Vec<char>)
    ensures
        out@ == trim(v@),
{
    let ghost s = v@;
    let mut a: usize = 0;
    while a < v.len() && char_is_whitespace(v[a])
        invariant
            s == v@,
            0 <= a <= v.len(),
            trim_start_from(s, 0) == trim_start_from(s, a as int),
        decreases v.len() - a,
    {
        a = a + 1;
    }
    if a >= v.len() {
        return Vec::new();
    }
    let mut b: usize = v.len();
    proof {
        lemma_trim_start(s, 0);
        lemma_trim_end(s, s.len() as int);
    }
    while b > 0 && char_is_whitespace(v[b - 1])
        invariant
            s == v@,
            a < v.len(),
            !is_whitespace(s[a as int]),
            a < b <= v.len(),
            trim_end_to(s, s.len() as int) == trim_end_to(s, b as int),
        decreases b,
    {
        b = b - 1;
    }
    let mut out: Vec<char> = Vec::new();
    let mut k: usize = a;
    while k < b
        invariant
            s == v@,
            a <= k <= b <= v.len(),
            out@ == s.subrange(a as int, k as int),
        decreases b - k,
    {
        out.push(v[k]);
        assert(out@ =~= s.subrange(a as int, k + 1));
        k = k + 1;
    }
    out
}

/// `s.split(sep)`: the pieces between separators (always at least one).
pub open spec fn split(s: Seq<char>, sep: char) -> Seq<Seq<char>>
    decreases s.len(),
{
    if s.len() == 0 {
        seq![Seq::empty()]
    } else {
        let p = split(s.drop_last(), sep);
        if s.last() == sep {
            p.push(Seq::empty())
        } else {
            p.update(p.len() - 1, p.last().push(s.last()))
        }
    }
}

pub proof fn lemma_split_nonempty(s: Seq<char>, sep: char)
    ensures
        split(s, sep).len() >= 1,
    decreases s.len(),
{
    if s.len() > 0 {
        lemma_split_nonempty(s.drop_last(), sep);
    }
}

/// Split a character string at every `sep`.
pub fn split_chars(v: &Vec<char>, sep: char) -> (out: Vec<Vec<char>>)
    ensures
        out@.len() == split(v@, sep).len(),
        forall|i: int| 0 <= i < out@.len() ==> (#[trigger] out@[i])@ == split(v@, sep)[i],
{
    let ghost s = v@;
    let mut out: Vec<Vec<char>> = Vec::new();
    let mut cur: Vec<char> = Vec::new();
    let mut i: usize = 0;
    proof {
        assert(s.take(0) =~= Seq::<char>::empty());
    }
    while i < v.len()
        invariant
            s == v@,
            0 <= i <= v.len(),
            out@.len() + 1 == split(s.take(i as int), sep).len(),
            forall|k: int| 0 <= k < out@.len() ==> (#[trigger] out@[k])@ == split(s.take(i as int), sep)[k],
            cur@ == split(s.take(i as int), sep).last(),
        decreases v.len() - i,
    {
        let c = v[i];
        proof {
            assert(s.take(i + 1).drop_last() =~= s.take(i as int));
            assert(s.take(i + 1).last() == c);
            lemma_split_nonempty(s.take(i as int), sep);
        }
        if c == sep {
            let done = cur;
            out.push(done);
            cur = Vec::new();
            proof {
                let p = split(s.take(i as int), sep);
                assert(split(s.take(i + 1), sep) == p.push(Seq::empty()));
                assert forall|k: int| 0 <= k < out@.len() implies (#[trigger] out@[k])@ == split(s.take(i + 1), sep)[k] by {
                    if k == out@.len() - 1 {
                        assert(p.push(Seq::empty())[k] == p.last());
                    }
                }
                assert(cur@ =~= Seq::<char>::empty());
            }
        } else {
            cur.push(c);
            proof {
                let p = split(s.take(i as int), sep);
                assert(split(s.take(i + 1), sep) == p.update(p.len() - 1, p.last().push(c)));
            }
        }
        i = i + 1;
    }
    assert(s.take(v.len() as int) =~= s);
    out.push(cur);
    proof {
        let p = split(s, sep);
        assert forall|k: int| 0 <= k < out@.len() implies (#[trigger] out@[k])@ == p[k] by {}
    }
    out
}

} // verus!
