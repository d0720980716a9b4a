//! Character-level helpers shared by the parsers.

use vstd::prelude::*;

verus! {

/// Collects the characters of a string slice (`str::chars` followed by `collect`).
#[verifier::external_body]
pub(crate) fn chars_of(s: &str) -> (v: Vec<char>)
    ensures
        v@ == s@,
{
    s.chars().collect()
}

/// Builds a `String` from characters (`String: FromIterator<char>`).
#[verifier::external_body]
pub(crate) fn string_of(v: &[char]) -> (s: String)
    ensures
        s@ == v@,
{
    v.iter().collect()
}

pub open spec fn is_ascii_digit(c: char) -> bool {
    '0' <= c && c <= '9'
}

pub open spec fn all_ascii_digits(s: Seq<char>) -> bool {
    forall|i: int| 0 <= i < s.len() ==> is_ascii_digit(#[trigger] s[i])
}

/// The number written by a string of decimal digits.
pub open spec fn decimal_value(s: Seq<char>) -> nat
    decreases s.len(),
{
    if s.len() == 0 {
        0
    } else {
        decimal_value(s.drop_last()) * 10 + ((s.last() as u32 - '0' as u32) as nat)
    }
}

/// The digits that an unsigned `FromStr` reads: one leading `+` is allowed
/// when something follows it.
pub open spec fn unsigned_digits(s: Seq<char>) -> Option<Seq<char>> {
    if s.len() == 0 {
        None
    } else if s[0] == '+' {
        if s.len() == 1 { None } else { Some(s.drop_first()) }
    } else {
        Some(s)
    }
}

/// What `u16::from_str` returns on a string.
pub open spec fn parse_u16_spec(s: Seq<char>) -> Option<u16> {
    match unsigned_digits(s) {
        Some(d) => if all_ascii_digits(d) && decimal_value(d) <= u16::MAX {
            Some(decimal_value(d) as u16)
        } else {
            None
        },
        None => None,
    }
}

/// What `u32::from_str` returns on a string.
pub open spec fn parse_u32_spec(s: Seq<char>) -> Option<u32> {
    match unsigned_digits(s) {
        Some(d) => if all_ascii_digits(d) && decimal_value(d) <= u32::MAX {
            Some(decimal_value(d) as u32)
        } else {
            None
        },
        None => None,
    }
}

proof fn lemma_decimal_step(s: Seq<char>, i: int)
    requires
        0 <= i < s.len(),
        is_ascii_digit(s[i]),
    ensures
        decimal_value(s.take(i + 1)) == decimal_value(s.take(i)) * 10 + ((s[i] as u32 - '0' as u32) as nat),
{
    assert(s.take(i + 1).drop_last() =~= s.take(i));
}

/// Parses decimal digits as `from_str` does for an unsigned type, with an upper bound.
fn parse_unsigned_bounded(s: &[char], bound: u32) -> (r: Option<u32>)
    requires
        bound >= 9,
    ensures
        match unsigned_digits(s@) {
            Some(d) => if all_ascii_digits(d) && decimal_value(d) <= bound {
                r == Some(decimal_value(d) as u32)
            } else {
                r is None
            },
            None => r is None,
        },
{
    let n = s.len();
    if n == 0 {
        return None;
    }
    let mut start: usize = 0;
    if s[0] == '+' {
        if n == 1 {
            return None;
        }
        start = 1;
    }
    let ghost d = if start == 1 { s@.drop_first() } else { s@ };
    assert(d =~= s@.skip(start as int));
    let mut acc: u32 = 0;
    let mut i: usize = start;
    while i < n
        invariant
            start <= i <= n,
            n == s@.len(),
            d =~= s@.skip(start as int),
            unsigned_digits(s@) == Some(d),
            forall|j: int| 0 <= j < i - start ==> is_ascii_digit(#[trigger] d[j]),
            acc as nat == decimal_value(d.take(i - start)),
            acc <= bound,
            bound >= 9,
        decreases n - i,
    {
        let c = s[i];
        if !('0' <= c && c <= '9') {
            let ghost idx: int = i - start;
            assert(d[idx] == c);
            assert(!is_ascii_digit(d[idx]));
            assert(!all_ascii_digits(d));
            return None;
        }
        proof { lemma_decimal_step(d, i - start); }
        let digit: u32 = (c as u32) - ('0' as u32);
        assert(digit <= 9);
        if acc > (bound - digit) / 10 {
            proof {
                assert(acc * 10 + digit > bound) by (nonlinear_arith)
                    requires acc > (bound - digit) / 10, digit <= 9, digit <= bound || digit > bound;
                lemma_decimal_monotone(d, (i - start + 1) as int);
            }
            return None;
        }
        assert(acc * 10 + digit <= bound) by (nonlinear_arith)
            requires acc <= (bound - digit) / 10, digit <= bound;
        acc = acc * 10 + digit;
        i = i + 1;
    }
    assert(d.take(n - start) =~= d);
    Some(acc)
}

/// Parses decimal digits as `from_str` does for an unsigned type, with an upper bound.
fn parse_unsigned_bounded64(s: &[char], bound: u64) -> (r: Option<u64>)
    requires
        bound >= 9,
    ensures
        match unsigned_digits(s@) {
            Some(d) => if all_ascii_digits(d) && decimal_value(d) <= bound {
                r == Some(decimal_value(d) as u64)
            } else {
                r is None
            },
            None => r is None,
        },
{
    let n = s.len();
    if n == 0 {
        return None;
    }
    let mut start: usize = 0;
    if s[0] == '+' {
        if n == 1 {
            return None;
        }
        start = 1;
    }
    let ghost d = if start == 1 { s@.drop_first() } else { s@ };
    assert(d =~= s@.skip(start as int));
    let mut acc: u64 = 0;
    let mut i: usize = start;
    while i < n
        invariant
            start <= i <= n,
            n == s@.len(),
            d =~= s@.skip(start as int),
            unsigned_digits(s@) == Some(d),
            forall|j: int| 0 <= j < i - start ==> is_ascii_digit(#[trigger] d[j]),
            acc as nat == decimal_value(d.take(i - start)),
            acc <= bound,
            bound >= 9,
        decreases n - i,
    {
        let c = s[i];
        if !('0' <= c && c <= '9') {
            let ghost idx: int = i - start;
            assert(d[idx] == c);
            assert(!is_ascii_digit(d[idx]));
            assert(!all_ascii_digits(d));
            return None;
        }
        proof { lemma_decimal_step(d, i - start); }
        let digit: u64 = ((c as u32) - ('0' as u32)) as u64;
        assert(digit <= 9);
        if acc > (bound - digit) / 10 {
            proof {
                assert(acc * 10 + digit > bound) by (nonlinear_arith)
                    requires acc > (bound - digit) / 10, digit <= 9, digit <= bound || digit > bound;
                lemma_decimal_monotone(d, (i - start + 1) as int);
            }
            return None;
        }
        assert(acc * 10 + digit <= bound) by (nonlinear_arith)
            requires acc <= (bound - digit) / 10, digit <= bound;
        acc = acc * 10 + digit;
        i = i + 1;
    }
    assert(d.take(n - start) =~= d);
    Some(acc)
}

/// Once a prefix of a digit string exceeds a bound, the whole string does.
proof fn lemma_decimal_monotone(d: Seq<char>, k: int)
    requires
        0 <= k <= d.len(),
        forall|j: int| 0 <= j < k ==> is_ascii_digit(#[trigger] d[j]),
    ensures
        all_ascii_digits(d) ==> decimal_value(d) >= decimal_value(d.take(k)),
    decreases d.len() - k,
{
    if k < d.len() && all_ascii_digits(d) {
        lemma_decimal_step(d, k);
        lemma_decimal_monotone(d, k + 1);
    }
    if k == d.len() {
        assert(d.take(k) =~= d);
    }
}

/// What `u64::from_str` returns on a string.
pub open spec fn parse_u64_spec(s: Seq<char>) -> Option<u64> {
    match unsigned_digits(s) {
        Some(d) => if all_ascii_digits(d) && decimal_value(d) <= u64::MAX {
            Some(decimal_value(d) as u64)
        } else {
            None
        },
        None => None,
    }
}

/// `u64::from_str` on decimal characters.
pub fn parse_u64(s: &[char]) -> (r: Option<u64>)
    ensures
        r == parse_u64_spec(s@),
{
    parse_unsigned_bounded64(s, u64::MAX)
}

/// `u16::from_str` on decimal characters.
pub fn parse_u16(s: &[char]) -> (r: Option<u16>)
    ensures
        r == parse_u16_spec(s@),
{
    match parse_unsigned_bounded(s, 65535) {
        Some(v) => Some(v as u16),
        None => None,
    }
}

/// `u32::from_str` on decimal characters.
pub fn parse_u32(s: &[char]) -> (r: Option<u32>)
    ensures
        r == parse_u32_spec(s@),
{
    parse_unsigned_bounded(s, 0xffff_ffff)
}

} // verus!

verus! {

/// What `char::is_uppercase` returns (Unicode `Uppercase`).
pub uninterp spec fn unicode_uppercase(c: char) -> bool;

/// What `char::is_numeric` returns (Unicode general categories Nd, Nl, No).
pub uninterp spec fn unicode_numeric(c: char) -> bool;

/// `char::is_uppercase`.
#[verifier::external_body]
pub(crate) fn char_is_uppercase(c: char) -> (b: bool)
    ensures
        b == unicode_uppercase(c),
        c <= '\x7f' ==> (b <==> ('A' <= c && c <= 'Z')),
{
    c.is_uppercase()
}

/// `char::is_numeric`.
#[verifier::external_body]
pub(crate) fn char_is_numeric(c: char) -> (b: bool)
    ensures
        b == unicode_numeric(c),
        c <= '\x7f' ==> (b <==> ('0' <= c && c <= '9')),
{
    c.is_numeric()
}

} // verus!

verus! {

/// The characters of `a` followed by those of `b`, as a `String`.
pub fn concat_str(a: &str, b: &str) -> (s: String)
    ensures
        s@ == a@ + b@,
{
    let mut v = chars_of(a);
    let w = chars_of(b);
    let ghost start = v@;
    let mut i: usize = 0;
    while i < w.len()
        invariant
            i <= w@.len(),
            v@ == start + w@.take(i as int),
        decreases w@.len() - i,
    {
        v.push(w[i]);
        i = i + 1;
        assert(w@.take(i as int) =~= w@.take((i - 1) as int).push(w@[i - 1]));
    }
    assert(w@.take(w@.len() as int) =~= w@);
    string_of(v.as_slice())
}

} // verus!

verus! {

/// What `char::is_whitespace` returns beyond ASCII (Unicode `White_Space`).
pub uninterp spec fn non_ascii_whitespace(c: char) -> bool;

/// What `char::is_whitespace` returns: in ASCII, the space and `\t` to `\r`.
pub open spec fn unicode_whitespace(c: char) -> bool {
    if c <= '\x7f' { c == ' ' || ('\t' <= c && c <= '\r') } else { non_ascii_whitespace(c) }
}

/// `char::is_whitespace`.
#[verifier::external_body]
pub(crate) fn char_is_whitespace(c: char) -> (b: bool)
    ensures
        b == unicode_whitespace(c),
        c > '\x7f' ==> b == non_ascii_whitespace(c),
{
    c.is_whitespace()
}

pub open spec fn starts_with(s: Seq<char>, p: Seq<char>) -> bool {
    s.len() >= p.len() && s.take(p.len() as int) == p
}

/// `str::trim_start_matches` with a fixed nonempty pattern: every leading copy removed.
pub open spec fn strip_repeated(s: Seq<char>, p: Seq<char>) -> Seq<char>
    decreases s.len(),
{
    if p.len() > 0 && starts_with(s, p) {
        strip_repeated(s.skip(p.len() as int), p)
    } else {
        s
    }
}

/// Leading whitespace removed.
pub open spec fn trim_start_spec(s: Seq<char>) -> Seq<char>
    decreases s.len(),
{
    if s.len() > 0 && unicode_whitespace(s[0]) { trim_start_spec(s.drop_first()) } else { s }
}

/// Trailing whitespace removed.
pub open spec fn trim_end_spec(s: Seq<char>) -> Seq<char>
    decreases s.len(),
{
    if s.len() > 0 && unicode_whitespace(s.last()) { trim_end_spec(s.drop_last()) } else { s }
}

/// `str::trim`.
pub open spec fn trim_spec(s: Seq<char>) -> Seq<char> {
    trim_end_spec(trim_start_spec(s))
}

/// Characters `start..end` of `v`.
pub fn char_range(v: &Vec<char>, start: usize, end: usize) -> (r: Vec<char>)
    requires
        start <= end <= v@.len(),
    ensures
        r@ == v@.subrange(start as int, end as int),
{
    let mut r: Vec<char> = Vec::new();
    let mut i: usize = start;
    while i < end
        invariant
            start <= i <= end <= v@.len(),
            r@ =~= v@.subrange(start as int, i as int),
        decreases end - i,
    {
        r.push(v[i]);
        i = i + 1;
    }
    r
}

/// Removes leading and trailing whitespace.
pub fn trim_chars(v: &Vec<char>) -> (r: Vec<char>)
    ensures
        r@ == trim_spec(v@),
{
    let n = v.len();
    let mut a: usize = 0;
    assert(v@.skip(0) =~= v@);
    while a < n && char_is_whitespace(v[a])
        invariant
            a <= n == v@.len(),
            trim_start_spec(v@) == trim_start_spec(v@.skip(a as int)),
        decreases n - a,
    {
        assert(v@.skip(a as int).drop_first() =~= v@.skip(a + 1));
        a = a + 1;
    }
    assert(trim_start_spec(v@.skip(a as int)) == v@.skip(a as int));
    let mut b: usize = n;
    while b > a && char_is_whitespace(v[b - 1])
        invariant
            a <= b <= n == v@.len(),
            trim_start_spec(v@) == v@.skip(a as int),
            trim_spec(v@) == trim_end_spec(v@.subrange(a as int, b as int)),
        decreases b,
    {
        assert(v@.subrange(a as int, b as int).drop_last() =~= v@.subrange(a as int, b - 1));
        b = b - 1;
    }
    assert(v@.skip(a as int) =~= v@.subrange(a as int, n as int));
    char_range(v, a, b)
}

/// Whether `v` starts with `p`.
pub fn starts_with_chars(v: &Vec<char>, p: &[char]) -> (b: bool)
    ensures
        b == starts_with(v@, p@),
{
    if v.len() < p.len() {
        return false;
    }
    let mut i: usize = 0;
    while i < p.len()
        invariant
            i <= p@.len() <= v@.len(),
            forall|j: int| 0 <= j < i ==> v@[j] == p@[j],
        decreases p@.len() - i,
    {
        if v[i] != p[i] {
            assert(v@.take(p@.len() as int)[i as int] != p@[i as int]);
            return false;
        }
        i = i + 1;
    }
    assert(v@.take(p@.len() as int) =~= p@);
    true
}

/// Removes every leading copy of a nonempty pattern.
pub fn strip_repeated_chars(v: &Vec<char>, p: &[char]) -> (r: Vec<char>)
    requires
        p@.len() > 0,
    ensures
        r@ == strip_repeated(v@, p@),
{
    let mut cur = char_range(v, 0, v.len());
    assert(cur@ =~= v@);
    while starts_with_chars(&cur, p)
        invariant
            p@.len() > 0,
            strip_repeated(cur@, p@) == strip_repeated(v@, p@),
        decreases cur@.len(),
    {
        let next = char_range(&cur, p.len(), cur.len());
        assert(next@ =~= cur@.skip(p@.len() as int));
        cur = next;
    }
    cur
}

/// Whether two character sequences are equal.
pub fn chars_eq(a: &Vec<char>, b: &[char]) -> (r: bool)
    ensures
        r == (a@ == b@),
{
    if a.len() != b.len() {
        return false;
    }
    let mut i: usize = 0;
    while i < a.len()
        invariant
            i <= a@.len() == b@.len(),
            forall|j: int| 0 <= j < i ==> a@[j] == b@[j],
        decreases a@.len() - i,
    {
        if a[i] != b[i] {
            return false;
        }
        i = i + 1;
    }
    assert(a@ =~= b@);
    true
}

/// The position of the first space at or after `from`, if any.
pub open spec fn space_from(s: Seq<char>, from: int) -> Option<int> {
    if exists|j: int| from <= j < s.len() && s[j] == ' ' {
        Some(choose|j: int| from <= j < s.len() && s[j] == ' ' && forall|k: int| from <= k < j ==> s[k] != ' ')
    } else {
        None
    }
}

/// Finds the first space at or after `from`.
pub fn find_space(v: &Vec<char>, from: usize) -> (r: Option<usize>)
    requires
        from <= v@.len(),
    ensures
        match r {
            Some(j) => space_from(v@, from as int) == Some(j as int) && from <= j < v@.len(),
            None => space_from(v@, from as int) is None,
        },
{
    let mut j: usize = from;
    while j < v.len()
        invariant
            from <= j <= v@.len(),
            forall|k: int| from <= k < j ==> v@[k] != ' ',
        decreases v@.len() - j,
    {
        if v[j] == ' ' {
            proof {
                let c = choose|c: int| from <= c < v@.len() && v@[c] == ' ' && forall|k: int| from <= k < c ==> v@[k] != ' ';
                assert(c == j) by {
                    if c < j { } else if c > j { assert(v@[j as int] == ' '); }
                }
            }
            return Some(j);
        }
        j = j + 1;
    }
    None
}

} // verus!
