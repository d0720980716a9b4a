//! Decisions of a client session: reconnect back-off, the dead man's switch,
//! file offers and uploads, and home-relative paths.

use vstd::prelude::*;
use crate::text::{chars_of, string_of, trim_chars, trim_spec, char_range};

verus! {

/// Largest file that is offered or accepted (10 MiB).
pub const MAX_FILE_SIZE: u64 = 10 * 1024 * 1024;
/// Seconds without input after which the dead man's switch fires.
pub const DEAD_MAN_TIMEOUT_SECS: u64 = 300;
/// Bytes per uploaded chunk.
pub const UPLOAD_CHUNK_SIZE: usize = 1024;

/// Seconds to wait before reconnect attempt `retry_count`: twice the count, at most 10.
pub fn retry_delay_secs(retry_count: u64) -> (d: u64)
    ensures
        d == if 2 * retry_count < 10 { 2 * retry_count } else { 10 },
{
    if retry_count < 5 { retry_count * 2 } else { 10 }
}

/// Whether the dead man's switch fires after `idle_ms` milliseconds without input.
pub fn dead_man_triggered(idle_ms: u64) -> (b: bool)
    ensures
        b == (idle_ms > DEAD_MAN_TIMEOUT_SECS * 1000),
{
    idle_ms > DEAD_MAN_TIMEOUT_SECS * 1000
}

/// What to do with a file offer.
#[derive(Debug, Clone, Copy, PartialEq, Eq)]
pub enum OfferDecision {
    /// Over 10 MiB: ignored with a warning.
    TooLarge,
    /// Remember it so that `/get` can accept it.
    Remember,
    /// Our own offer coming back: nothing to do.
    OwnOffer,
}

/// Decides a file offer received from `sender`.
pub fn decide_offer(file_size: u64, sender: &String, my_username: &String) -> (d: OfferDecision)
    ensures
        file_size > MAX_FILE_SIZE ==> d == OfferDecision::TooLarge,
        file_size <= MAX_FILE_SIZE && sender@ != my_username@ ==> d == OfferDecision::Remember,
        file_size <= MAX_FILE_SIZE && sender@ == my_username@ ==> d == OfferDecision::OwnOffer,
{
    if file_size > MAX_FILE_SIZE {
        OfferDecision::TooLarge
    } else if *sender != *my_username {
        OfferDecision::Remember
    } else {
        OfferDecision::OwnOffer
    }
}

/// Whether a local file may be offered.
pub fn may_offer(size: u64) -> (b: bool)
    ensures
        b == (size <= MAX_FILE_SIZE),
{
    size <= MAX_FILE_SIZE
}

/// The number of 1 KiB chunks of `len` bytes: the ceiling of `len / 1024`.
pub open spec fn chunks_of(len: int) -> int {
    len / (UPLOAD_CHUNK_SIZE as int) + if len % (UPLOAD_CHUNK_SIZE as int) == 0 { 0int } else { 1int }
}

/// Number of 1 KiB chunks of an upload (the ceiling of `len / 1024`, at most `u32::MAX`).
pub fn upload_chunk_count(len: usize) -> (n: u32)
    ensures
        n == if chunks_of(len as int) > u32::MAX { u32::MAX as int } else { chunks_of(len as int) },
        chunks_of(len as int) <= u32::MAX ==> n * UPLOAD_CHUNK_SIZE >= len
            && (len > 0 ==> (n - 1) * UPLOAD_CHUNK_SIZE < len),
        len == 0 ==> n == 0,
{
    let c = len / UPLOAD_CHUNK_SIZE + if len % UPLOAD_CHUNK_SIZE == 0 { 0 } else { 1 };
    assert(c as int == chunks_of(len as int));
    assert(chunks_of(len as int) <= u32::MAX ==> c * 1024 >= len && (len > 0 ==> (c - 1) * 1024 < len))
        by (nonlinear_arith)
        requires c == len / 1024 + if len % 1024 == 0 { 0int } else { 1int };
    if c > u32::MAX as usize { u32::MAX } else { c as u32 }
}

/// `input` trimmed, with a leading `~` replaced by the home directory (when known).
pub open spec fn expand_home_spec(input: Seq<char>, home: Option<Seq<char>>) -> Seq<char> {
    let t = trim_spec(input);
    match home {
        Some(h) => if t.len() > 0 && t[0] == '~' {
            let rest = strip_tildes(t);
            if rest.len() > 0 && rest[0] == '/' { h + rest } else { h + seq!['/'] + rest }
        } else {
            t
        },
        None => t,
    }
}

/// Every leading `~` removed.
pub open spec fn strip_tildes(s: Seq<char>) -> Seq<char>
    decreases s.len(),
{
    if s.len() > 0 && s[0] == '~' { strip_tildes(s.drop_first()) } else { s }
}

fn push_chars(v: &mut Vec<char>, s: &Vec<char>)
    ensures
        final(v)@ == old(v)@ + s@,
{
    let ghost start = v@;
    let mut i: usize = 0;
    while i < s.len()
        invariant
            i <= s@.len(),
            v@ == start + s@.take(i as int),
        decreases s@.len() - i,
    {
        v.push(s[i]);
        i = i + 1;
        assert(s@.take(i as int) =~= s@.take((i - 1) as int).push(s@[i - 1]));
    }
    assert(s@.take(s@.len() as int) =~= s@);
}

/// Expands a typed path: `~/x` becomes `$HOME/x`, `~x` becomes `$HOME/x`.
pub fn expand_home(input: &str, home: Option<&str>) -> (p: String)
    ensures
        p@ == expand_home_spec(input@, match home { Some(h) => Some(h@), None => None }),
{
    let chars = chars_of(input);
    let t = trim_chars(&chars);
    match home {
        Some(h) => {
            if t.len() > 0 && t[0] == '~' {
                let mut k: usize = 0;
                assert(t@.skip(0) =~= t@);
                while k < t.len() && t[k] == '~'
                    invariant
                        k <= t@.len(),
                        strip_tildes(t@) == strip_tildes(t@.skip(k as int)),
                    decreases t@.len() - k,
                {
                    assert(t@.skip(k as int).drop_first() =~= t@.skip(k + 1));
                    k = k + 1;
                }
                let rest = char_range(&t, k, t.len());
                assert(rest@ =~= t@.skip(k as int));
                let mut out = chars_of(h);
                if !(rest.len() > 0 && rest[0] == '/') {
                    out.push('/');
                }
                push_chars(&mut out, &rest);
                string_of(out.as_slice())
            } else {
                string_of(t.as_slice())
            }
        },
        None => string_of(t.as_slice()),
    }
}

} // verus!
