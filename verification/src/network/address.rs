//! Onion service addresses of the form `host.onion:port`.

use vstd::prelude::*;
use crate::text::{chars_of, string_of, parse_u16, parse_u16_spec, unsigned_digits};
use crate::network::http::{decimal_bytes, lemma_decimal_digits};

verus! {

/// Why an address was refused.
#[derive(Debug, Clone, Copy, PartialEq, Eq)]
pub enum AddressError {
    /// The address does not hold exactly one `:`.
    BadFormat,
    /// The part after `:` is not a port number.
    InvalidPort,
    /// The host does not end in `.onion`.
    NotOnion,
}

pub open spec fn onion_suffix() -> Seq<char> {
    seq!['.', 'o', 'n', 'i', 'o', 'n']
}

pub open spec fn ends_with(s: Seq<char>, suffix: Seq<char>) -> bool {
    s.len() >= suffix.len() && s.skip(s.len() - suffix.len()) == suffix
}

/// `k` is the position of the only `:` in `s`.
pub open spec fn single_colon_at(s: Seq<char>, k: int) -> bool {
    &&& 0 <= k < s.len()
    &&& s[k] == ':'
    &&& forall|j: int| 0 <= j < s.len() && j != k ==> s[j] != ':'
}

/// What `parse_onion_address` returns, over the characters of the address.
pub open spec fn parse_onion_spec(s: Seq<char>) -> Result<(Seq<char>, u16), AddressError> {
    if !(exists|k: int| single_colon_at(s, k)) {
        Err(AddressError::BadFormat)
    } else {
        let k = choose|k: int| single_colon_at(s, k);
        let host = s.take(k);
        match parse_u16_spec(s.skip(k + 1)) {
            None => Err(AddressError::InvalidPort),
            Some(port) => if ends_with(host, onion_suffix()) {
                Ok((host, port))
            } else {
                Err(AddressError::NotOnion)
            },
        }
    }
}

/// Splits `host.onion:port` into its host and port.
#[verifier::loop_isolation(false)]
pub fn parse_onion_address(addr: &str) -> (r: Result<(String, u16), AddressError>)
    ensures
        match (r, parse_onion_spec(addr@)) {
            (Ok((h, p)), Ok((sh, sp))) => h@ == sh && p == sp,
            (Err(e), Err(se)) => e == se,
            _ => false,
        },
{
    let chars = chars_of(addr);
    let n = chars.len();
    // Find the colons.
    let mut first: Option<usize> = None;
    let mut count: usize = 0;
    let mut i: usize = 0;
    while i < n
        invariant
            n == chars@.len(),
            i <= n,
            count <= i,
            count == 0 ==> first is None && forall|j: int| 0 <= j < i ==> chars@[j] != ':',
            count >= 1 ==> first is Some && first->0 < i && chars@[first->0 as int] == ':'
                && forall|j: int| 0 <= j < first->0 ==> chars@[j] != ':',
            count == 1 ==> forall|j: int| 0 <= j < i && j != first->0 ==> chars@[j] != ':',
            count >= 2 ==> exists|j: int| 0 <= j < i && j != first->0 && chars@[j] == ':',
        decreases n - i,
    {
        if chars[i] == ':' {
            if count == 0 {
                first = Some(i);
            }
            if count < 2 {
                count = count + 1;
            }
        }
        i = i + 1;
    }
    if count != 1 {
        proof {
            if exists|k: int| single_colon_at(addr@, k) {
                let k = choose|k: int| single_colon_at(addr@, k);
                if count >= 2 {
                    let j = choose|j: int| 0 <= j < n && j != first->0 && chars@[j] == ':';
                    assert(j == k);
                    assert(first->0 == k);
                }
            }
        }
        return Err(AddressError::BadFormat);
    }
    let k = match first { Some(k) => k, None => 0 };
    assert(single_colon_at(addr@, k as int));
    proof {
        let kk = choose|kk: int| single_colon_at(addr@, kk);
        assert(kk == k);
    }
    let host_chars = slice_prefix(&chars, k);
    let port_chars = slice_suffix(&chars, k + 1);
    let port = match parse_u16(port_chars.as_slice()) {
        Some(p) => p,
        None => { return Err(AddressError::InvalidPort); },
    };
    // Suffix check.
    let suffix = ['.', 'o', 'n', 'i', 'o', 'n'];
    assert(suffix@ =~= onion_suffix());
    if k < 6 {
        return Err(AddressError::NotOnion);
    }
    let mut j: usize = 0;
    while j < 6
        invariant
            j <= 6,
            k >= 6,
            host_chars@.len() == k,
            suffix@ == onion_suffix(),
            forall|t: int| 0 <= t < j ==> host_chars@[k - 6 + t] == onion_suffix()[t],
        decreases 6 - j,
    {
        if host_chars[k - 6 + j] != suffix[j] {
            assert(host_chars@.skip(k - 6)[j as int] == host_chars@[k - 6 + j]);
            assert(host_chars@.skip(k - 6)[j as int] != onion_suffix()[j as int]);
            assert(host_chars@.skip(k - 6) != onion_suffix());
            assert(!ends_with(host_chars@, onion_suffix()));
            return Err(AddressError::NotOnion);
        }
        j = j + 1;
    }
    assert(host_chars@.skip(k - 6) =~= onion_suffix());
    Ok((string_of(host_chars.as_slice()), port))
}

/// The first `k` characters.
fn slice_prefix(v: &Vec<char>, k: usize) -> (r: Vec<char>)
    requires
        k <= v@.len(),
    ensures
        r@ == v@.take(k as int),
{
    let mut r: Vec<char> = Vec::new();
    let mut i: usize = 0;
    while i < k
        invariant
            i <= k <= v@.len(),
            r@ =~= v@.take(i as int),
        decreases k - i,
    {
        r.push(v[i]);
        i = i + 1;
    }
    r
}

/// The characters from position `k` on.
fn slice_suffix(v: &Vec<char>, k: usize) -> (r: Vec<char>)
    requires
        k <= v@.len(),
    ensures
        r@ == v@.skip(k as int),
{
    let mut r: Vec<char> = Vec::new();
    let mut i: usize = k;
    while i < v.len()
        invariant
            k <= i <= v@.len(),
            r@ =~= v@.subrange(k as int, i as int),
        decreases v@.len() - i,
    {
        r.push(v[i]);
        i = i + 1;
    }
    r
}

/// The decimal text of a number.
pub open spec fn decimal_text(n: nat) -> Seq<char> {
    decimal_bytes(n).map_values(|b: u8| b as char)
}

/// An address written as `host:port`, with a host that ends in `.onion` and
/// holds no `:` and the port in decimal, is read back as that host and port.
pub proof fn lemma_address_roundtrip(host: Seq<char>, port: u16)
    requires
        ends_with(host, onion_suffix()),
        forall|i: int| 0 <= i < host.len() ==> host[i] != ':',
    ensures
        parse_onion_spec(host + seq![':'] + decimal_text(port as nat))
            == Ok::<(Seq<char>, u16), AddressError>((host, port)),
{
    lemma_decimal_digits(port as nat);
    let d = decimal_text(port as nat);
    let s = host + seq![':'] + d;
    let k = host.len() as int;
    assert forall|j: int| 0 <= j < d.len() implies #[trigger] d[j] != ':' by {
        assert(48 <= decimal_bytes(port as nat)[j] <= 57);
        assert(d[j] == decimal_bytes(port as nat)[j] as char);
        assert((d[j] as u32) == decimal_bytes(port as nat)[j] as u32);
    }
    assert(single_colon_at(s, k)) by {
        assert forall|j: int| 0 <= j < s.len() && j != k implies s[j] != ':' by {
            if j < k {
                assert(s[j] == host[j]);
            } else {
                assert(s[j] == d[j - k - 1]);
            }
        }
    }
    let c = choose|c: int| single_colon_at(s, c);
    assert(c == k);
    assert(s.take(c) =~= host);
    assert(s.skip(c + 1) =~= d);
    assert(d[0] != '+') by {
        assert(d[0] == decimal_bytes(port as nat)[0] as char);
        assert((d[0] as u32) == decimal_bytes(port as nat)[0] as u32);
    }
    assert(unsigned_digits(d) == Some(d));
}

} // verus!
