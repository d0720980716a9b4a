//! HTTP framing of packets: a header block ended by a blank line, whose
//! `Content-Length` gives the size of the body that follows.

use vstd::prelude::*;
use crate::bytes::push_all;
use crate::error::NetworkError;
use crate::text::{unicode_whitespace, trim_start_spec, trim_chars, trim_spec, char_range, unsigned_digits, all_ascii_digits,
    decimal_value};

verus! {

/// Longest header block accepted.
pub const MAX_HEADER_SIZE: usize = 2048;

/// What `String::from_utf8_lossy` makes of bytes that are not all ASCII.
pub uninterp spec fn lossy_decode_non_ascii(bytes: Seq<u8>) -> Seq<char>;

/// All bytes are ASCII.
pub open spec fn all_ascii(bytes: Seq<u8>) -> bool {
    forall|i: int| 0 <= i < bytes.len() ==> #[trigger] bytes[i] < 0x80
}

/// What `String::from_utf8_lossy` makes of some bytes: ASCII stays as it is.
pub open spec fn lossy_decode(bytes: Seq<u8>) -> Seq<char> {
    if all_ascii(bytes) { bytes.map_values(|b: u8| b as char) } else { lossy_decode_non_ascii(bytes) }
}

/// `String::from_utf8_lossy`, as characters.
#[verifier::external_body]
pub(crate) fn utf8_lossy_chars(bytes: &[u8]) -> (v: Vec<char>)
    ensures
        v@ == lossy_decode(bytes@),
        !all_ascii(bytes@) ==> v@ == lossy_decode_non_ascii(bytes@),
{
    String::from_utf8_lossy(bytes).chars().collect()
}

/// Progress of reading a header block one byte at a time.
#[derive(Debug, Clone, Copy, PartialEq, Eq)]
pub enum HeaderStep {
    /// Read another byte.
    Continue,
    /// The blank line has arrived.
    Complete,
    /// More than `MAX_HEADER_SIZE` bytes without a blank line.
    TooLarge,
}

pub open spec fn ends_with_blank_line(b: Seq<u8>) -> bool {
    b.len() >= 4 && b.skip(b.len() - 4) == seq![13u8, 10, 13, 10]
}

/// Adds a byte of the header block and says what comes next.
pub fn push_header_byte(buf: &mut Vec<u8>, byte: u8) -> (step: HeaderStep)
    ensures
        final(buf)@ == old(buf)@.push(byte),
        final(buf)@.len() > MAX_HEADER_SIZE ==> step == HeaderStep::TooLarge,
        final(buf)@.len() <= MAX_HEADER_SIZE && ends_with_blank_line(final(buf)@) ==> step == HeaderStep::Complete,
        final(buf)@.len() <= MAX_HEADER_SIZE && !ends_with_blank_line(final(buf)@) ==> step == HeaderStep::Continue,
{
    buf.push(byte);
    let n = buf.len();
    if n > MAX_HEADER_SIZE {
        return HeaderStep::TooLarge;
    }
    if n >= 4 && buf[n - 4] == 13 && buf[n - 3] == 10 && buf[n - 2] == 13 && buf[n - 1] == 10 {
        assert(buf@.skip(n - 4) =~= seq![13u8, 10, 13, 10]);
        HeaderStep::Complete
    } else {
        proof {
            if n >= 4 && ends_with_blank_line(buf@) {
                assert(buf@.skip(n - 4)[0] == buf@[n - 4]);
                assert(buf@.skip(n - 4)[1] == buf@[n - 3]);
                assert(buf@.skip(n - 4)[2] == buf@[n - 2]);
                assert(buf@.skip(n - 4)[3] == buf@[n - 1]);
            }
        }
        HeaderStep::Continue
    }
}

/// The decimal digits of `n`, in ASCII.
pub open spec fn decimal_bytes(n: nat) -> Seq<u8>
    decreases n,
{
    if n < 10 { seq![(48 + n) as u8] } else { decimal_bytes(n / 10).push((48 + n % 10) as u8) }
}

fn decimal_ascii(n: usize) -> (r: Vec<u8>)
    ensures
        r@ == decimal_bytes(n as nat),
    decreases n,
{
    if n < 10 {
        vec![48u8 + n as u8]
    } else {
        let mut r = decimal_ascii(n / 10);
        r.push(48u8 + (n % 10) as u8);
        r
    }
}

/// "POST / HTTP/1.1\r\nContent-Length: "
pub open spec fn request_head() -> Seq<u8> {
    seq![80u8, 79, 83, 84, 32, 47, 32, 72, 84, 84, 80, 47, 49, 46, 49, 13, 10,
        67, 111, 110, 116, 101, 110, 116, 45, 76, 101, 110, 103, 116, 104, 58, 32]
}

/// "HTTP/1.1 200 OK\r\nContent-Length: "
pub open spec fn response_head() -> Seq<u8> {
    seq![72u8, 84, 84, 80, 47, 49, 46, 49, 32, 50, 48, 48, 32, 79, 75, 13, 10,
        67, 111, 110, 116, 101, 110, 116, 45, 76, 101, 110, 103, 116, 104, 58, 32]
}

/// A packet dressed as an HTTP message: the head, the body's length in
/// decimal, a blank line, and the body.
pub open spec fn http_message(head: Seq<u8>, body: Seq<u8>) -> Seq<u8> {
    http_header(head, body.len()) + body
}

/// The header block of a dressed packet whose body has `len` bytes.
pub open spec fn http_header(head: Seq<u8>, len: nat) -> Seq<u8> {
    head + decimal_bytes(len) + seq![13u8, 10, 13, 10]
}

fn wrap(head: Vec<u8>, data: &[u8]) -> (r: Vec<u8>)
    ensures
        r@ == http_message(head@, data@),
{
    let mut out = head;
    let digits = decimal_ascii(data.len());
    push_all(&mut out, digits.as_slice());
    let end: Vec<u8> = vec![13u8, 10, 13, 10];
    push_all(&mut out, end.as_slice());
    push_all(&mut out, data);
    out
}

/// A packet sent by the client, dressed as an HTTP request.
pub fn wrap_request(data: &[u8]) -> (r: Vec<u8>)
    ensures
        r@ == http_message(request_head(), data@),
{
    let head: Vec<u8> = vec![80u8, 79, 83, 84, 32, 47, 32, 72, 84, 84, 80, 47, 49, 46, 49, 13, 10,
        67, 111, 110, 116, 101, 110, 116, 45, 76, 101, 110, 103, 116, 104, 58, 32];
    assert(head@ =~= request_head());
    wrap(head, data)
}

/// A packet sent by the hub, dressed as an HTTP response.
pub fn wrap_response(data: &[u8]) -> (r: Vec<u8>)
    ensures
        r@ == http_message(response_head(), data@),
{
    let head: Vec<u8> = vec![72u8, 84, 84, 80, 47, 49, 46, 49, 32, 50, 48, 48, 32, 79, 75, 13, 10,
        67, 111, 110, 116, 101, 110, 116, 45, 76, 101, 110, 103, 116, 104, 58, 32];
    assert(head@ =~= response_head());
    wrap(head, data)
}

/// "content-length:"
pub open spec fn content_length_name() -> Seq<char> {
    seq!['c', 'o', 'n', 't', 'e', 'n', 't', '-', 'l', 'e', 'n', 'g', 't', 'h', ':']
}

/// ASCII lowercase of one character.
pub open spec fn ascii_lower(c: char) -> char {
    if 'A' <= c && c <= 'Z' { ((c as u32) + 32) as char } else { c }
}

/// The lowercase form of a line starts with "content-length:". (Lowercasing a
/// character gives one of these ASCII characters only when it is that
/// character or its uppercase form.)
#[verifier::opaque]
pub open spec fn is_length_line(line: Seq<char>) -> bool {
    line.len() >= 15 && forall|i: int| 0 <= i < 15 ==> ascii_lower(#[trigger] line[i]) == content_length_name()[i]
}

/// Position of the first `c` at or after `from`, or the length.
#[verifier::opaque]
pub open spec fn next_char(s: Seq<char>, from: int, c: char) -> int {
    if exists|j: int| from <= j < s.len() && s[j] == c {
        choose|j: int| from <= j < s.len() && s[j] == c && forall|k: int| from <= k < j ==> s[k] != c
    } else {
        s.len() as int
    }
}

/// The line that starts at `p`, without its `\n` or `\r\n`.
#[verifier::opaque]
pub open spec fn line_at(s: Seq<char>, p: int) -> Seq<char> {
    let e = next_char(s, p, '\n');
    let raw = s.subrange(p, e);
    if e < s.len() && raw.len() > 0 && raw.last() == '\r' { raw.drop_last() } else { raw }
}

/// `p` starts a line of `s`.
pub open spec fn is_line_start(s: Seq<char>, p: int) -> bool {
    0 <= p < s.len() && (p == 0 || s[p - 1] == '\n')
}

/// The text between the first and the second `:` of a length line.
pub open spec fn length_value(line: Seq<char>) -> Seq<char> {
    line.subrange(15, next_char(line, 15, ':'))
}

/// What `usize::from_str` returns on a string.
pub open spec fn parse_usize_spec(s: Seq<char>) -> Option<usize> {
    match unsigned_digits(s) {
        Some(d) => if all_ascii_digits(d) && decimal_value(d) <= usize::MAX {
            Some(decimal_value(d) as usize)
        } else {
            None
        },
        None => None,
    }
}

/// What `content_length` returns on the characters of a header block.
pub open spec fn content_length_spec(s: Seq<char>) -> Result<usize, NetworkError> {
    if exists|p: int| is_line_start(s, p) && is_length_line(line_at(s, p)) {
        let p = choose|p: int| is_line_start(s, p) && is_length_line(line_at(s, p))
            && forall|q: int| 0 <= q < p && is_line_start(s, q) ==> !is_length_line(line_at(s, q));
        match parse_usize_spec(trim_spec(length_value(line_at(s, p)))) {
            Some(v) => Ok(v),
            None => Err(NetworkError::InvalidContentLength),
        }
    } else {
        Err(NetworkError::InvalidContentLength)
    }
}

fn find_char(v: &Vec<char>, from: usize, c: char) -> (j: usize)
    requires
        from <= v@.len(),
    ensures
        j == next_char(v@, from as int, c),
        from <= j <= v@.len(),
        forall|k: int| from <= k < j ==> v@[k] != c,
        j < v@.len() ==> v@[j as int] == c,
{
    let mut j: usize = from;
    while j < v.len()
        invariant
            from <= j <= v@.len(),
            forall|k: int| from <= k < j ==> v@[k] != c,
        decreases v@.len() - j,
    {
        if v[j] == c {
            proof {
                reveal(next_char);
                let w = choose|w: int| from <= w < v@.len() && v@[w] == c && forall|k: int| from <= k < w ==> v@[k] != c;
                assert(w == j) by {
                    if w < j { } else if w > j { assert(v@[j as int] == c); }
                }
            }
            return j;
        }
        j = j + 1;
    }
    proof { reveal(next_char); }
    j
}

fn length_line_check(line: &Vec<char>) -> (b: bool)
    ensures
        b == is_length_line(line@),
{
    reveal(is_length_line);
    if line.len() < 15 {
        return false;
    }
    let name = ['c', 'o', 'n', 't', 'e', 'n', 't', '-', 'l', 'e', 'n', 'g', 't', 'h', ':'];
    assert(name@ =~= content_length_name());
    let mut i: usize = 0;
    while i < 15
        invariant
            i <= 15,
            line@.len() >= 15,
            name@ == content_length_name(),
            forall|k: int| 0 <= k < i ==> ascii_lower(#[trigger] line@[k]) == content_length_name()[k],
        decreases 15 - i,
    {
        let c = line[i];
        let lower = if 'A' <= c && c <= 'Z' { ((c as u32) + 32) as u8 as char } else { c };
        assert(lower == ascii_lower(c)) by {
            if 'A' <= c && c <= 'Z' {
                assert(((c as u32) + 32) as u8 as char == ((c as u32) + 32) as char);
            }
        }
        if lower != name[i] {
            proof {
                reveal(is_length_line);
                assert(ascii_lower(line@[i as int]) != content_length_name()[i as int]);
            }
            return false;
        }
        i = i + 1;
    }
    true
}

fn parse_usize(s: &[char]) -> (r: Option<usize>)
    ensures
        r == parse_usize_spec(s@),
{
    match crate::text::parse_u64(s) {
        Some(v) => if v as u128 <= usize::MAX as u128 { Some(v as usize) } else { None },
        None => {
            proof {
                match unsigned_digits(s@) {
                    Some(d) => {
                        if all_ascii_digits(d) && decimal_value(d) <= usize::MAX {
                            assert(decimal_value(d) <= u64::MAX);
                        }
                    },
                    None => {},
                }
            }
            None
        },
    }
}

/// The line that starts at `p`, and where it ends.
fn line_from(s: &Vec<char>, p: usize) -> (r: (Vec<char>, usize))
    requires
        p <= s@.len(),
    ensures
        r.0@ == line_at(s@, p as int),
        r.1 == next_char(s@, p as int, '\n'),
        p <= r.1 <= s@.len(),
        forall|k: int| p <= k < r.1 ==> s@[k] != '\n',
        r.1 < s@.len() ==> s@[r.1 as int] == '\n',
{
    reveal(line_at);
    let n = s.len();
    let e = find_char(s, p, '\n');
    let mut line = char_range(s, p, e);
    if e < n && line.len() > 0 && line[line.len() - 1] == '\r' {
        line.pop();
    }
    assert(line@ == line_at(s@, p as int)) by {
        let raw = s@.subrange(p as int, e as int);
        if e < n && raw.len() > 0 && raw.last() == '\r' {
            assert(line@ =~= raw.drop_last());
        }
    }
    (line, e)
}

/// The value of a length line.
fn line_value(line: &Vec<char>) -> (r: Result<usize, NetworkError>)
    requires
        is_length_line(line@),
    ensures
        r == match parse_usize_spec(trim_spec(length_value(line@))) {
            Some(v) => Ok::<usize, NetworkError>(v),
            None => Err(NetworkError::InvalidContentLength),
        },
{
    proof { reveal(is_length_line); }
    let end = find_char(line, 15, ':');
    let value = char_range(line, 15, end);
    let trimmed = trim_chars(&value);
    match parse_usize(trimmed.as_slice()) {
        Some(v) => Ok(v),
        None => Err(NetworkError::InvalidContentLength),
    }
}

/// Finds the `Content-Length` header (the first line whose lowercase form
/// starts with "content-length:") and reads its value.
pub fn content_length(header: &[u8]) -> (r: Result<usize, NetworkError>)
    ensures
        r == content_length_spec(lossy_decode(header@)),
{
    let s = utf8_lossy_chars(header);
    let n = s.len();
    let mut p: usize = 0;
    while p < n
        invariant
            n == s@.len(),
            s@ == lossy_decode(header@),
            p <= n,
            p == 0 || p == n || s@[p - 1] == '\n',
            forall|q: int| 0 <= q < p && is_line_start(s@, q) ==> !is_length_line(line_at(s@, q)),
        decreases n - p,
    {
        let (line, e) = line_from(&s, p);
        if length_line_check(&line) {
            proof {
                assert(is_line_start(s@, p as int));
                let c = choose|c: int| is_line_start(s@, c) && is_length_line(line_at(s@, c))
                    && forall|q: int| 0 <= q < c && is_line_start(s@, q) ==> !is_length_line(line_at(s@, q));
                assert(c == p) by {
                    if c > p { } else if c < p { }
                }
            }
            return line_value(&line);
        }
        proof {
            assert forall|q: int| p < q <= e implies !is_line_start(s@, q) by {
                assert(s@[q - 1] != '\n');
            }
        }
        if e == n {
            p = n;
        } else {
            p = e + 1;
        }
    }
    Err(NetworkError::InvalidContentLength)
}

/// Ten to the power `k`.
pub open spec fn pow10(k: nat) -> nat
    decreases k,
{
    if k == 0 { 1 } else { 10 * pow10((k - 1) as nat) }
}

/// The decimal digits of `n` are ASCII digits that spell `n`.
pub(crate) proof fn lemma_decimal_digits(n: nat)
    ensures
        decimal_bytes(n).len() >= 1,
        forall|i: int| 0 <= i < decimal_bytes(n).len() ==> 48 <= #[trigger] decimal_bytes(n)[i] <= 57,
        all_ascii_digits(decimal_bytes(n).map_values(|b: u8| b as char)),
        decimal_value(decimal_bytes(n).map_values(|b: u8| b as char)) == n,
    decreases n,
{
    let d = decimal_bytes(n);
    let c = d.map_values(|b: u8| b as char);
    let last: u8 = (48 + n % 10) as u8;
    assert(d.last() == last) by {
        if n < 10 { assert(n % 10 == n); }
    }
    assert(c.last() == last as char);
    assert((last as char) as u32 == last as u32);
    assert('0' as u32 == 48);
    assert(c.len() >= 1);
    assert(decimal_value(c) == decimal_value(c.drop_last()) * 10 + ((c.last() as u32 - '0' as u32) as nat));
    assert(decimal_value(c) == decimal_value(c.drop_last()) * 10 + n % 10);
    if n < 10 {
        assert(c.drop_last() =~= Seq::<char>::empty());
        assert(n % 10 == n);
    } else {
        lemma_decimal_digits(n / 10);
        let p = decimal_bytes(n / 10);
        assert(c.drop_last() =~= p.map_values(|b: u8| b as char));
        assert((n / 10) * 10 + n % 10 == n) by (nonlinear_arith);
    }
}

/// A number below `10^k` has at most `k` digits.
proof fn lemma_decimal_len(n: nat, k: nat)
    requires
        k >= 1,
        n < pow10(k),
    ensures
        decimal_bytes(n).len() <= k,
    decreases k,
{
    if n >= 10 {
        assert(k >= 2) by {
            if k == 1 { assert(pow10(1) == 10) by { reveal_with_fuel(pow10, 2); } }
        }
        assert(n / 10 < pow10((k - 1) as nat)) by (nonlinear_arith)
            requires n < pow10(k), pow10(k) == 10 * pow10((k - 1) as nat);
        lemma_decimal_len(n / 10, (k - 1) as nat);
    }
}

/// "Content-Length:"
pub open spec fn length_field() -> Seq<u8> {
    seq![67u8, 111, 110, 116, 101, 110, 116, 45, 76, 101, 110, 103, 116, 104, 58]
}

/// What the two heads have in common: a 15-byte first line, then the
/// `Content-Length: ` field.
proof fn lemma_head_facts(head: Seq<u8>)
    requires
        head == request_head() || head == response_head(),
    ensures
        head.len() == 33,
        head[0] == 80u8 || head[0] == 72u8,
        head[15] == 13u8,
        head[16] == 10u8,
        head[32] == 32u8,
        head.subrange(17, 32) == length_field(),
        forall|k: int| 0 <= k < 33 ==> #[trigger] head[k] < 0x80u8,
        forall|k: int| 0 <= k < 33 && k != 15 && k != 16 ==> #[trigger] head[k] != 10u8 && head[k] != 13u8,
{
    assert(head.subrange(17, 32) =~= length_field());
}

/// `next_char` finds the first occurrence.
proof fn lemma_next_char_at(s: Seq<char>, from: int, c: char, j: int)
    requires
        0 <= from <= j < s.len(),
        s[j] == c,
        forall|k: int| from <= k < j ==> s[k] != c,
    ensures
        next_char(s, from, c) == j,
{
    reveal(next_char);
    let w = choose|w: int| from <= w < s.len() && s[w] == c && forall|k: int| from <= k < w ==> s[k] != c;
    assert(from <= w < s.len() && s[w] == c && forall|k: int| from <= k < w ==> s[k] != c);
    if w < j {
        assert(s[w] != c);
    } else if w > j {
        assert(s[j] != c);
    }
}

/// `next_char` gives the length when `c` does not occur.
proof fn lemma_next_char_none(s: Seq<char>, from: int, c: char)
    requires
        forall|k: int| from <= k < s.len() ==> s[k] != c,
    ensures
        next_char(s, from, c) == s.len(),
{
    reveal(next_char);
}

/// The bytes of a header block.
proof fn lemma_header_bytes(head: Seq<u8>, n: nat)
    requires
        head == request_head() || head == response_head(),
        n <= usize::MAX,
    ensures
        ({
            let h = http_header(head, n);
            let d = decimal_bytes(n).len() as int;
            &&& 1 <= d <= 20
            &&& h.len() == 37 + d
            &&& all_ascii(h)
            &&& h.subrange(33, 33 + d) == decimal_bytes(n)
            &&& h[15] == 13u8 && h[16] == 10u8 && h[17] == 67u8 && h[32] == 32u8
            &&& h[33 + d] == 13u8 && h[34 + d] == 10u8 && h[35 + d] == 13u8 && h[36 + d] == 10u8
            &&& forall|k: int| 0 <= k < 33 + d && k != 15 && k != 16 ==> #[trigger] h[k] != 10u8 && h[k] != 13u8
            &&& forall|k: int| 33 <= k < 33 + d ==> 48 <= #[trigger] h[k] <= 57
        }),
{
    lemma_head_facts(head);
    lemma_decimal_digits(n);
    assert(pow10(20) == 100000000000000000000) by {
        reveal_with_fuel(pow10, 21);
    }
    lemma_decimal_len(n, 20);
    let h = http_header(head, n);
    let db = decimal_bytes(n);
    let d = db.len() as int;
    assert(h[17] == head[17]);
    assert(head.subrange(17, 32)[0] == head[17]);
    assert(h.subrange(33, 33 + d) =~= db);
    assert forall|k: int| 0 <= k < 33 + d && k != 15 && k != 16 implies #[trigger] h[k] != 10u8 && h[k] != 13u8 by {
        if k >= 33 {
            assert(h[k] == db[k - 33]);
        } else {
            assert(h[k] == head[k]);
        }
    }
    assert forall|k: int| 33 <= k < 33 + d implies 48 <= #[trigger] h[k] <= 57 by {
        assert(h[k] == db[k - 33]);
    }
    assert forall|k: int| 0 <= k < h.len() implies #[trigger] h[k] < 0x80u8 by {
        if k < 33 {
            assert(h[k] == head[k]);
        } else if k < 33 + d {
            assert(h[k] == db[k - 33]);
        }
    }
}

/// A dressed packet's header block ends at its first blank line.
proof fn lemma_header_blank_line(head: Seq<u8>, n: nat)
    requires
        head == request_head() || head == response_head(),
        n <= usize::MAX,
    ensures
        ends_with_blank_line(http_header(head, n)),
        forall|k: int| 0 <= k < http_header(head, n).len() ==> !ends_with_blank_line(#[trigger] http_header(head, n).take(k)),
{
    lemma_header_bytes(head, n);
    let h = http_header(head, n);
    let d = decimal_bytes(n).len() as int;
    assert(h.skip(h.len() - 4) =~= seq![13u8, 10, 13, 10]);
    assert forall|k: int| 0 <= k < h.len() implies !ends_with_blank_line(#[trigger] h.take(k)) by {
        if k >= 4 && ends_with_blank_line(h.take(k)) {
            let w = h.take(k).skip(k - 4);
            assert(w[0] == h[k - 4]);
            assert(w[2] == h[k - 2]);
            assert(h[k - 4] == 13u8);
            assert(h[k - 2] == 13u8);
        }
    }
}

/// "Content-Length:" lowercased is "content-length:".
proof fn lemma_length_field_lower()
    ensures
        forall|i: int| 0 <= i < 15 ==> ascii_lower(#[trigger] length_field()[i] as char) == content_length_name()[i],
{
    assert(('C' as u32) + 32 == 'c' as u32);
    assert(((('C' as u32) + 32) as char) == 'c');
    assert(((('L' as u32) + 32) as char) == 'l');
}

/// The `Content-Length` of a dressed packet's header block is its body's length.
proof fn lemma_header_length(head: Seq<u8>, n: nat)
    requires
        head == request_head() || head == response_head(),
        n <= usize::MAX,
    ensures
        content_length_spec(lossy_decode(http_header(head, n))) == Ok::<usize, NetworkError>(n as usize),
{
    lemma_header_bytes(head, n);
    lemma_head_facts(head);
    lemma_decimal_digits(n);
    lemma_length_field_lower();
    let h = http_header(head, n);
    let d = decimal_bytes(n).len() as int;
    let s = lossy_decode(h);
    assert(s == h.map_values(|b: u8| b as char));
    assert forall|k: int| 0 <= k < s.len() implies (#[trigger] s[k]) as u32 == h[k] as u32 by {
        assert(s[k] == h[k] as char);
    }

    // The first line ends at index 16 and is no length line.
    assert forall|k: int| 0 <= k < 16 implies #[trigger] s[k] != '\n' by {
        assert(h[k] != 10u8);
        assert(s[k] as u32 == h[k] as u32);
    }
    assert(s[16] == '\n') by { assert(s[16] as u32 == 10); }
    assert(s[15] == '\r') by { assert(s[15] as u32 == 13); }
    lemma_next_char_at(s, 0, '\n', 16);
    let l0 = line_at(s, 0);
    assert(l0 =~= s.subrange(0, 15)) by { reveal(line_at); }
    assert(!is_length_line(l0)) by {
        reveal(is_length_line);
        assert(l0[0] == s[0]);
        assert(s[0] as u32 == h[0] as u32);
        assert(h[0] == head[0]);
        assert(ascii_lower(l0[0]) != 'c');
    }

    // The second line holds the length field.
    assert forall|k: int| 17 <= k < 34 + d implies #[trigger] s[k] != '\n' by {
        assert(s[k] as u32 == h[k] as u32);
        if k < 33 + d {
            assert(h[k] != 10u8);
        } else {
            assert(h[k] == 13u8);
        }
    }
    assert(s[34 + d] == '\n') by { assert(s[34 + d] as u32 == 10); }
    assert(s[33 + d] == '\r') by { assert(s[33 + d] as u32 == 13); }
    lemma_next_char_at(s, 17, '\n', 34 + d);
    let l1 = line_at(s, 17);
    assert(l1 =~= s.subrange(17, 33 + d)) by { reveal(line_at); }
    assert(is_length_line(l1)) by {
        reveal(is_length_line);
        assert forall|i: int| 0 <= i < 15 implies ascii_lower(#[trigger] l1[i]) == content_length_name()[i] by {
            assert(l1[i] == s[17 + i]);
            assert(s[17 + i] == h[17 + i] as char);
            assert(h[17 + i] == head[17 + i]);
            assert(head[17 + i] == head.subrange(17, 32)[i]);
        }
    }

    // Its value is the digits.
    assert forall|k: int| 15 <= k < l1.len() implies #[trigger] l1[k] != ':' by {
        assert(l1[k] == s[17 + k]);
        assert(s[17 + k] as u32 == h[17 + k] as u32);
        if k == 15 {
            assert(h[32] == 32u8);
        } else {
            assert(48 <= h[17 + k] <= 57);
        }
    }
    lemma_next_char_none(l1, 15, ':');
    let v = length_value(l1);
    assert(v =~= s.subrange(32, 33 + d));
    let digits = decimal_bytes(n).map_values(|b: u8| b as char);
    assert(s.subrange(33, 33 + d) =~= digits) by {
        assert forall|k: int| 0 <= k < d implies s.subrange(33, 33 + d)[k] == #[trigger] digits[k] by {
            assert(h[33 + k] == h.subrange(33, 33 + d)[k]);
        }
    }
    assert(v[0] == ' ') by { assert(s[32] as u32 == 32); }
    assert(unicode_whitespace(' '));
    assert(v.drop_first() =~= digits);
    assert(trim_start_spec(v) == trim_start_spec(digits));
    assert(digits[0] as u32 == decimal_bytes(n)[0] as u32);
    assert(!unicode_whitespace(digits[0]));
    assert(trim_start_spec(digits) == digits);
    assert(digits.last() == digits[d - 1]);
    assert(digits[d - 1] as u32 == decimal_bytes(n)[d - 1] as u32);
    assert(!unicode_whitespace(digits.last()));
    assert(trim_spec(v) == digits);
    assert(digits[0] != '+');
    assert(unsigned_digits(digits) == Some(digits));
    assert(parse_usize_spec(trim_spec(v)) == Some(n as usize));

    // The length line is the first one.
    assert(is_line_start(s, 17));
    assert forall|q: int| 0 <= q < 17 && is_line_start(s, q) implies !is_length_line(#[trigger] line_at(s, q)) by {
        if q > 0 {
            assert(s[q - 1] != '\n');
        }
    }
    let p = choose|p: int| is_line_start(s, p) && is_length_line(line_at(s, p))
        && forall|q: int| 0 <= q < p && is_line_start(s, q) ==> !is_length_line(line_at(s, q));
    assert(is_line_start(s, p) && is_length_line(line_at(s, p))
        && forall|q: int| 0 <= q < p && is_line_start(s, q) ==> !is_length_line(line_at(s, q)));
    assert(p == 17) by {
        if p < 17 {
            assert(!is_length_line(line_at(s, p)));
        } else if p > 17 {
            assert(!is_length_line(line_at(s, 17)));
        }
    }
}

/// A packet dressed by `wrap_request` or `wrap_response` is read back as it
/// was written: its header block (what precedes the body) is the shortest
/// prefix that ends in a blank line, fits the header limit, and has the
/// body's length as its `Content-Length`.
pub proof fn lemma_http_roundtrip(head: Seq<u8>, body: Seq<u8>)
    requires
        head == request_head() || head == response_head(),
        body.len() <= usize::MAX,
    ensures
        http_message(head, body) == http_header(head, body.len()) + body,
        http_header(head, body.len()).len() <= MAX_HEADER_SIZE,
        ends_with_blank_line(http_header(head, body.len())),
        forall|k: int| 0 <= k < http_header(head, body.len()).len()
            ==> !ends_with_blank_line(#[trigger] http_header(head, body.len()).take(k)),
        content_length_spec(lossy_decode(http_header(head, body.len())))
            == Ok::<usize, NetworkError>(body.len() as usize),
{
    lemma_header_bytes(head, body.len());
    lemma_header_blank_line(head, body.len());
    lemma_header_length(head, body.len());
}

} // verus!
