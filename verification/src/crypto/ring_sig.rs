//! Closed-ring challenge signatures over a set of public keys.
//!
//! A signature is `ring_hash ‖ c_0 ‖ r_0 ‖ … ‖ r_{n-1}`: starting from `c_0`,
//! each step `c_{i+1} = H(domain ‖ ring_hash ‖ i ‖ (c_i ⊕ r_i) ‖ pk_i)` must
//! come back to `c_0` after `n` steps.

use vstd::prelude::*;
use crate::bytes::{push_all, copy_range, be32, u32_to_be};
use crate::crypto::primitives::{blake3_digest, blake3_hash, x25519_public_key, x25519_public, random_bytes};

verus! {

/// "ISOTOPE_RING_SIG_V2"
pub open spec fn ring_domain() -> Seq<u8> {
    seq![73u8, 83, 79, 84, 79, 80, 69, 95, 82, 73, 78, 71, 95, 83, 73, 71, 95, 86, 50]
}

/// "ISOTOPE_CHALLENGE"
pub open spec fn challenge_domain() -> Seq<u8> {
    seq![73u8, 83, 79, 84, 79, 80, 69, 95, 67, 72, 65, 76, 76, 69, 78, 71, 69]
}

/// The byte strings of a list, one after the other.
pub open spec fn concat_all(parts: Seq<Seq<u8>>) -> Seq<u8>
    decreases parts.len(),
{
    if parts.len() == 0 {
        Seq::empty()
    } else {
        concat_all(parts.drop_last()) + parts.last()
    }
}

/// The public keys of a ring, as byte strings.
pub open spec fn key_views(ring: Seq<Vec<u8>>) -> Seq<Seq<u8>> {
    ring.map_values(|k: Vec<u8>| k@)
}

/// The hash that binds a signature to its message and ring.
pub open spec fn ring_digest(message: Seq<u8>, keys: Seq<Seq<u8>>) -> Seq<u8> {
    blake3_digest(ring_domain() + message + concat_all(keys))
}

/// Bytewise exclusive or of two 32-byte strings.
pub open spec fn xor32(a: Seq<u8>, b: Seq<u8>) -> Seq<u8> {
    Seq::new(32, |j: int| a[j] ^ b[j])
}

/// The challenge that step `i` of the ring produces.
pub open spec fn challenge(ring_hash: Seq<u8>, i: int, x: Seq<u8>, pk: Seq<u8>) -> Seq<u8> {
    blake3_digest(challenge_domain() + ring_hash + be32(i as u32) + x + pk)
}

/// The response for ring member `i` inside a signature.
pub open spec fn sig_response(sig: Seq<u8>, i: int) -> Seq<u8> {
    sig.subrange(64 + 32 * i, 64 + 32 * i + 32)
}

/// The challenge after `k` steps of verification.
pub open spec fn chain(sig: Seq<u8>, keys: Seq<Seq<u8>>, k: nat) -> Seq<u8>
    decreases k,
{
    if k == 0 {
        sig.subrange(32, 64)
    } else {
        let prev = chain(sig, keys, (k - 1) as nat);
        challenge(sig.take(32), k - 1, xor32(prev, sig_response(sig, k - 1)), keys[k - 1])
    }
}

/// When `ring_verify` accepts.
pub open spec fn ring_verify_spec(message: Seq<u8>, sig: Seq<u8>, keys: Seq<Seq<u8>>) -> bool {
    let n = keys.len();
    &&& n > 0
    &&& sig.len() >= 64 + 32 * n
    &&& sig.take(32) == ring_digest(message, keys)
    &&& chain(sig, keys, n) == sig.subrange(32, 64)
}

/// The X25519 secret that a private key signs with: its first 32 bytes, or
/// the BLAKE3 hash of a shorter key.
pub open spec fn signing_secret(private: Seq<u8>) -> Seq<u8> {
    if private.len() >= 32 { private.take(32) } else { blake3_digest(private) }
}

/// The position of the first ring member equal to `pk`, or 0 when there is none.
pub open spec fn key_index(keys: Seq<Seq<u8>>, pk: Seq<u8>) -> int {
    if exists|i: int| 0 <= i < keys.len() && keys[i] == pk {
        choose|i: int| 0 <= i < keys.len() && keys[i] == pk && forall|j: int| 0 <= j < i ==> keys[j] != pk
    } else {
        0
    }
}

/// The next position around a ring of `n` members.
pub open spec fn succ(j: int, n: int) -> int {
    if j + 1 == n { 0 } else { j + 1 }
}

/// Position `s` steps after `start` around a ring of `n` members.
pub open spec fn pos(start: int, s: int, n: int) -> int {
    if start + s < n { start + s } else { start + s - n }
}

fn bytes_eq(a: &[u8], b: &[u8]) -> (r: bool)
    ensures
        r == (a@ == b@),
{
    if a.len() != b.len() {
        return false;
    }
    let mut i: usize = 0;
    while i < a.len()
        invariant
            a@.len() == b@.len(),
            i <= a@.len(),
            forall|j: int| 0 <= j < i ==> a@[j] == b@[j],
        decreases a@.len() - i,
    {
        if a[i] != b[i] {
            return false;
        }
        i = i + 1;
    }
    assert(a@ =~= b@);
    true
}

fn xor_bytes(a: &[u8], b: &[u8]) -> (r: Vec<u8>)
    requires
        a@.len() >= 32,
        b@.len() >= 32,
    ensures
        r@ == xor32(a@, b@),
{
    let mut r: Vec<u8> = Vec::new();
    let mut j: usize = 0;
    while j < 32
        invariant
            j <= 32,
            a@.len() >= 32,
            b@.len() >= 32,
            r@.len() == j,
            forall|t: int| 0 <= t < j ==> r@[t] == a@[t] ^ b@[t],
        decreases 32 - j,
    {
        r.push(a[j] ^ b[j]);
        j = j + 1;
    }
    assert(r@ =~= xor32(a@, b@));
    r
}

proof fn lemma_xor_cancel(c: Seq<u8>, x: Seq<u8>)
    requires
        c.len() >= 32,
        x.len() >= 32,
    ensures
        xor32(c, xor32(c, x)) =~= x.take(32),
{
    assert forall|j: int| 0 <= j < 32 implies #[trigger] xor32(c, xor32(c, x))[j] == x[j] by {
        let a = c[j];
        let b = x[j];
        assert(a ^ (a ^ b) == b) by (bit_vector);
    }
}

/// The ring hash of a message and ring.
fn compute_ring_hash(message: &[u8], ring: &[Vec<u8>]) -> (h: Vec<u8>)
    ensures
        h@ == ring_digest(message@, key_views(ring@)),
        h@.len() == 32,
{
    let mut input: Vec<u8> = vec![73u8, 83, 79, 84, 79, 80, 69, 95, 82, 73, 78, 71, 95, 83, 73, 71, 95, 86, 50];
    assert(input@ =~= ring_domain());
    push_all(&mut input, message);
    let ghost prefix = input@;
    let ghost keys = key_views(ring@);
    let mut i: usize = 0;
    while i < ring.len()
        invariant
            i <= ring@.len(),
            keys == key_views(ring@),
            input@ == prefix + concat_all(keys.take(i as int)),
        decreases ring@.len() - i,
    {
        push_all(&mut input, ring[i].as_slice());
        assert(keys.take(i + 1).drop_last() =~= keys.take(i as int));
        assert(input@ =~= prefix + concat_all(keys.take(i + 1)));
        i = i + 1;
    }
    assert(keys.take(ring@.len() as int) =~= keys);
    blake3_hash(input.as_slice())
}

/// The challenge of step `i`.
fn compute_challenge(ring_hash: &[u8], i: usize, x: &[u8], pk: &[u8]) -> (c: Vec<u8>)
    ensures
        c@ == challenge(ring_hash@, i as int, x@, pk@),
        c@.len() == 32,
{
    let mut input: Vec<u8> = vec![73u8, 83, 79, 84, 79, 80, 69, 95, 67, 72, 65, 76, 76, 69, 78, 71, 69];
    assert(input@ =~= challenge_domain());
    push_all(&mut input, ring_hash);
    let idx = u32_to_be(i as u32);
    push_all(&mut input, idx.as_slice());
    push_all(&mut input, x);
    push_all(&mut input, pk);
    assert(input@ =~= challenge_domain() + ring_hash@ + be32((i as int) as u32) + x@ + pk@);
    blake3_hash(input.as_slice())
}

/// Checks a closed-ring signature of `message` against `ring_public_keys`.
pub fn ring_verify(message: &[u8], signature: &[u8], ring_public_keys: &[Vec<u8>]) -> (ok: bool)
    ensures
        ok == ring_verify_spec(message@, signature@, key_views(ring_public_keys@)),
{
    let ghost keys = key_views(ring_public_keys@);
    let n = ring_public_keys.len();
    if n == 0 {
        return false;
    }
    let sig_len = signature.len();
    if n > (usize::MAX - 64) / 32 {
        assert(64 + 32 * n > usize::MAX) by (nonlinear_arith)
            requires n > (usize::MAX - 64) / 32;
        assert(signature@.len() == sig_len);
        return false;
    }
    if signature.len() < 64 + n * 32 {
        return false;
    }
    let ring_hash = copy_range(signature, 0, 32);
    let expected = compute_ring_hash(message, ring_public_keys);
    assert(ring_hash@ =~= signature@.take(32));
    if !bytes_eq(ring_hash.as_slice(), expected.as_slice()) {
        return false;
    }
    let c_initial = copy_range(signature, 32, 64);
    let mut curr = copy_range(signature, 32, 64);
    let mut i: usize = 0;
    while i < n
        invariant
            n == ring_public_keys@.len(),
            n == keys.len(),
            keys == key_views(ring_public_keys@),
            signature@.len() >= 64 + 32 * n,
            signature@.len() <= usize::MAX,
            ring_hash@ == signature@.take(32),
            i <= n,
            curr@ == chain(signature@, keys, i as nat),
            curr@.len() == 32,
        decreases n - i,
    {
        assert(64 + 32 * i + 32 <= 64 + 32 * n);
        let offset = 64 + i * 32;
        let response = copy_range(signature, offset, offset + 32);
        let x = xor_bytes(curr.as_slice(), response.as_slice());
        assert(keys[i as int] == ring_public_keys@[i as int]@);
        curr = compute_challenge(ring_hash.as_slice(), i, x.as_slice(), ring_public_keys[i].as_slice());
        i = i + 1;
    }
    bytes_eq(curr.as_slice(), c_initial.as_slice())
}

/// The 32-byte X25519 secret of a (nonempty) private key.
fn signing_secret_bytes(private: &[u8]) -> (s: Vec<u8>)
    ensures
        s@ == signing_secret(private@),
        s@.len() == 32,
{
    if private.len() >= 32 {
        let s = copy_range(private, 0, 32);
        assert(s@ =~= private@.take(32));
        s
    } else {
        blake3_hash(private)
    }
}

/// The position of `pk` in the ring (the first match), or 0.
fn find_key(ring: &[Vec<u8>], pk: &[u8]) -> (idx: usize)
    ensures
        idx == key_index(key_views(ring@), pk@),
        ring@.len() > 0 ==> idx < ring@.len(),
{
    let ghost keys = key_views(ring@);
    let mut i: usize = 0;
    while i < ring.len()
        invariant
            i <= ring@.len(),
            keys == key_views(ring@),
            forall|j: int| 0 <= j < i ==> keys[j] != pk@,
        decreases ring@.len() - i,
    {
        if bytes_eq(ring[i].as_slice(), pk) {
            assert(keys[i as int] == pk@);
            proof {
                let c = choose|c: int| 0 <= c < keys.len() && keys[c] == pk@ && forall|j: int| 0 <= j < c ==> keys[j] != pk@;
                assert(c == i) by {
                    if c < i { } else if c > i { assert(keys[i as int] != pk@); }
                }
            }
            return i;
        }
        assert(keys[i as int] == ring@[i as int]@);
        i = i + 1;
    }
    0
}

/// The edges of the ring, as stored in the challenge and response tables.
pub open spec fn edge_holds(ring_hash: Seq<u8>, keys: Seq<Seq<u8>>, c: Seq<Vec<u8>>, r: Seq<Vec<u8>>, j: int) -> bool {
    c[succ(j, keys.len() as int)]@ == challenge(ring_hash, j, xor32(c[j]@, r[j]@), keys[j])
}

proof fn lemma_concat_piece(parts: Seq<Seq<u8>>, k: int)
    requires
        forall|i: int| 0 <= i < parts.len() ==> (#[trigger] parts[i]).len() == 32,
        0 <= k < parts.len(),
    ensures
        concat_all(parts).len() == 32 * parts.len(),
        concat_all(parts).subrange(32 * k, 32 * k + 32) == parts[k],
    decreases parts.len(),
{
    lemma_concat_len(parts);
    let n = parts.len() as int;
    if k == n - 1 {
        lemma_concat_len(parts.drop_last());
        assert(concat_all(parts).subrange(32 * k, 32 * k + 32) =~= parts[k]);
    } else {
        lemma_concat_piece(parts.drop_last(), k);
        assert(concat_all(parts).subrange(32 * k, 32 * k + 32) =~= concat_all(parts.drop_last()).subrange(32 * k, 32 * k + 32));
    }
}

proof fn lemma_concat_len(parts: Seq<Seq<u8>>)
    requires
        forall|i: int| 0 <= i < parts.len() ==> (#[trigger] parts[i]).len() == 32,
    ensures
        concat_all(parts).len() == 32 * parts.len(),
    decreases parts.len(),
{
    if parts.len() > 0 {
        lemma_concat_len(parts.drop_last());
    }
}

/// Verification retraces the challenge table.
proof fn lemma_chain_tables(
    sig: Seq<u8>,
    keys: Seq<Seq<u8>>,
    rh: Seq<u8>,
    c: Seq<Vec<u8>>,
    r: Seq<Vec<u8>>,
    k: int,
)
    requires
        keys.len() > 0,
        c.len() == keys.len(),
        r.len() == keys.len(),
        0 <= k <= keys.len(),
        sig.take(32) == rh,
        sig.subrange(32, 64) == c[0]@,
        forall|i: int| 0 <= i < keys.len() ==> sig_response(sig, i) == (#[trigger] r[i])@,
        forall|j: int| 0 <= j < keys.len() ==> #[trigger] edge_holds(rh, keys, c, r, j),
    ensures
        chain(sig, keys, k as nat) == if k == keys.len() { c[0]@ } else { c[k]@ },
    decreases k,
{
    if k > 0 {
        lemma_chain_tables(sig, keys, rh, c, r, k - 1);
        assert(edge_holds(rh, keys, c, r, k - 1));
        assert(sig_response(sig, k - 1) == r[k - 1]@);
    }
}

/// A signature laid out from closed tables verifies.
proof fn lemma_closed_ring_verifies(
    message: Seq<u8>,
    keys: Seq<Seq<u8>>,
    rh: Seq<u8>,
    c: Seq<Vec<u8>>,
    r: Seq<Vec<u8>>,
    sig: Seq<u8>,
)
    requires
        keys.len() > 0,
        c.len() == keys.len(),
        r.len() == keys.len(),
        rh == ring_digest(message, keys),
        rh.len() == 32,
        forall|i: int| 0 <= i < c.len() ==> (#[trigger] c[i])@.len() == 32,
        forall|i: int| 0 <= i < r.len() ==> (#[trigger] r[i])@.len() == 32,
        forall|j: int| 0 <= j < keys.len() ==> #[trigger] edge_holds(rh, keys, c, r, j),
        sig == rh + c[0]@ + concat_all(r.map_values(|v: Vec<u8>| v@)),
    ensures
        ring_verify_spec(message, sig, keys),
        forall|k: int| 0 <= k < keys.len() ==> #[trigger] chain(sig, keys, k as nat) == c[k]@,
        chain(sig, keys, keys.len()) == c[0]@,
        sig.len() == 64 + 32 * keys.len(),
{
    let n = keys.len() as int;
    let rv = r.map_values(|v: Vec<u8>| v@);
    assert forall|i: int| 0 <= i < rv.len() implies (#[trigger] rv[i]).len() == 32 by {}
    lemma_concat_len(rv);
    assert(sig.len() == 64 + 32 * n);
    assert(sig.take(32) =~= rh);
    assert(sig.subrange(32, 64) =~= c[0]@);
    assert forall|k: int| 0 <= k < n implies sig_response(sig, k) == (#[trigger] r[k])@ by {
        lemma_concat_piece(rv, k);
        assert(sig_response(sig, k) =~= concat_all(rv).subrange(32 * k, 32 * k + 32));
    }
    assert forall|k: int| 0 <= k < n implies #[trigger] chain(sig, keys, k as nat) == c[k]@ by {
        lemma_chain_tables(sig, keys, rh, c, r, k);
    }
    lemma_chain_tables(sig, keys, rh, c, r, n);
    assert(chain(sig, keys, n as nat) == c[0]@);
}

/// Tables of `n` zeroed 32-byte entries.
fn zero_table(n: usize) -> (t: Vec<Vec<u8>>)
    ensures
        t@.len() == n,
        forall|i: int| 0 <= i < n ==> (#[trigger] t@[i])@.len() == 32,
{
    let mut t: Vec<Vec<u8>> = Vec::new();
    let mut k: usize = 0;
    while k < n
        invariant
            k <= n,
            t@.len() == k,
            forall|i: int| 0 <= i < k ==> (#[trigger] t@[i])@.len() == 32,
        decreases n - k,
    {
        t.push(vec![0u8; 32]);
        k = k + 1;
    }
    t
}

/// The tables are well shaped and the ring is open at the signer.
pub open spec fn walk_state(
    rh: Seq<u8>,
    keys: Seq<Seq<u8>>,
    my: int,
    x: Seq<u8>,
    c: Seq<Vec<u8>>,
    r: Seq<Vec<u8>>,
    s: int,
) -> bool {
    let n = keys.len() as int;
    &&& 0 <= my < n
    &&& 1 <= s <= n
    &&& c.len() == n
    &&& r.len() == n
    &&& forall|k: int| 0 <= k < n ==> (#[trigger] r[k])@.len() == 32
    &&& forall|k: int| 0 <= k < n ==> (#[trigger] c[k])@.len() == 32
    &&& c[pos(my, 1, n)]@ == challenge(rh, my, x, keys[my])
    &&& forall|q: int| 1 <= q < s ==> #[trigger] edge_holds(rh, keys, c, r, pos(my, q, n))
}

/// One step of the walk around the ring from the signer: draw a response at
/// position `i` and derive the next challenge.
fn walk_step(
    rh: &Vec<u8>,
    ring: &[Vec<u8>],
    my: usize,
    x: &Vec<u8>,
    challenges: &mut Vec<Vec<u8>>,
    responses: &mut Vec<Vec<u8>>,
    i: usize,
    Ghost(s): Ghost<int>,
) -> (next: usize)
    requires
        walk_state(rh@, key_views(ring@), my as int, x@, old(challenges)@, old(responses)@, s),
        s < ring@.len(),
        i == pos(my as int, s, ring@.len() as int),
        rh@.len() == 32,
    ensures
        walk_state(rh@, key_views(ring@), my as int, x@, final(challenges)@, final(responses)@, s + 1),
        next == pos(my as int, s + 1, ring@.len() as int),
{
    let ghost keys = key_views(ring@);
    let n = ring.len();
    let r_i = random_bytes(32);
    let xor_input = xor_bytes(challenges[i].as_slice(), r_i.as_slice());
    assert(keys[i as int] == ring@[i as int]@);
    let next_c = compute_challenge(rh.as_slice(), i, xor_input.as_slice(), ring[i].as_slice());
    let step_next = if i + 1 == n { 0 } else { i + 1 };
    let ghost c_before = challenges@;
    let ghost r_before = responses@;
    responses.set(i, r_i);
    challenges.set(step_next, next_c);
    proof {
        let my = my as int;
        let nn = n as int;
        assert forall|q: int| 1 <= q < s + 1 implies #[trigger] edge_holds(rh@, keys, challenges@, responses@, pos(my, q, nn)) by {
            let j = pos(my, q, nn);
            if q < s {
                assert(edge_holds(rh@, keys, c_before, r_before, j));
            }
        }
        assert forall|k: int| 0 <= k < nn implies (#[trigger] responses@[k])@.len() == 32 by {}
        assert forall|k: int| 0 <= k < nn implies (#[trigger] challenges@[k])@.len() == 32 by {}
    }
    step_next
}

/// Builds the closed challenge and response tables for a ring, opened with seed `x` at position `my`.
fn close_ring(rh: &Vec<u8>, ring: &[Vec<u8>], my: usize, x: &Vec<u8>) -> (tables: (Vec<Vec<u8>>, Vec<Vec<u8>>))
    requires
        my < ring@.len(),
        rh@.len() == 32,
        x@.len() == 32,
    ensures
        tables.0@.len() == ring@.len(),
        tables.1@.len() == ring@.len(),
        forall|k: int| 0 <= k < ring@.len() ==> (#[trigger] tables.0@[k])@.len() == 32,
        forall|k: int| 0 <= k < ring@.len() ==> (#[trigger] tables.1@[k])@.len() == 32,
        forall|j: int| 0 <= j < ring@.len() ==> #[trigger] edge_holds(rh@, key_views(ring@), tables.0@, tables.1@, j),
        tables.0@[succ(my as int, ring@.len() as int)]@ == challenge(rh@, my as int, x@, key_views(ring@)[my as int]),
{
    let ghost keys = key_views(ring@);
    let n = ring.len();
    let mut responses = zero_table(n);
    let mut challenges = zero_table(n);
    let c_next = compute_challenge(rh.as_slice(), my, x.as_slice(), ring[my].as_slice());
    let next_idx = if my + 1 == n { 0 } else { my + 1 };
    challenges.set(next_idx, c_next);
    assert(keys[my as int] == ring@[my as int]@);
    assert forall|k: int| 0 <= k < n implies (#[trigger] challenges@[k])@.len() == 32 by {}

    let mut i = next_idx;
    let ghost mut s: int = 1;
    while i != my
        invariant
            n == ring@.len(),
            keys == key_views(ring@),
            rh@.len() == 32,
            walk_state(rh@, keys, my as int, x@, challenges@, responses@, s),
            i == pos(my as int, s, n as int),
        decreases n - s,
    {
        i = walk_step(rh, ring, my, x, &mut challenges, &mut responses, i, Ghost(s));
        proof { s = s + 1; }
    }
    assert(s == n);

    let fix = xor_bytes(challenges[my].as_slice(), x.as_slice());
    let ghost c_fin = challenges@;
    let ghost r_before = responses@;
    responses.set(my, fix);
    proof {
        let my = my as int;
        let nn = n as int;
        lemma_xor_cancel(c_fin[my]@, x@);
        assert(x@.take(32) =~= x@);
        assert(edge_holds(rh@, keys, challenges@, responses@, my));
        assert forall|j: int| 0 <= j < nn implies #[trigger] edge_holds(rh@, keys, challenges@, responses@, j) by {
            if j != my {
                let q = if j > my { j - my } else { j + nn - my };
                assert(pos(my, q, nn) == j);
                assert(edge_holds(rh@, keys, c_fin, r_before, pos(my, q, nn)));
            }
        }
        assert forall|k: int| 0 <= k < nn implies (#[trigger] responses@[k])@.len() == 32 by {}
    }
    (challenges, responses)
}

/// `ring_hash ‖ c_0 ‖ r_0 ‖ … ‖ r_{n-1}`.
fn layout_signature(rh: &Vec<u8>, c0: &Vec<u8>, responses: &Vec<Vec<u8>>) -> (sig: Vec<u8>)
    ensures
        sig@ == rh@ + c0@ + concat_all(responses@.map_values(|v: Vec<u8>| v@)),
{
    let mut sig: Vec<u8> = Vec::new();
    push_all(&mut sig, rh.as_slice());
    push_all(&mut sig, c0.as_slice());
    let ghost rv = responses@.map_values(|v: Vec<u8>| v@);
    let n = responses.len();
    let mut k: usize = 0;
    while k < n
        invariant
            k <= n,
            n == responses@.len(),
            rv == responses@.map_values(|v: Vec<u8>| v@),
            sig@ == rh@ + c0@ + concat_all(rv.take(k as int)),
        decreases n - k,
    {
        push_all(&mut sig, responses[k].as_slice());
        assert(rv.take(k + 1).drop_last() =~= rv.take(k as int));
        assert(sig@ =~= rh@ + c0@ + concat_all(rv.take(k + 1)));
        k = k + 1;
    }
    assert(rv.take(n as int) =~= rv);
    sig
}

/// Signs `message` on behalf of the ring `ring_public_keys`; empty when the ring or the key is empty.
pub fn ring_sign(message: &[u8], my_private: &[u8], ring_public_keys: &[Vec<u8>]) -> (sig: Vec<u8>)
    ensures
        (ring_public_keys@.len() == 0 || my_private@.len() == 0) ==> sig@.len() == 0,
        (ring_public_keys@.len() > 0 && my_private@.len() > 0) ==> {
            let keys = key_views(ring_public_keys@);
            let n = keys.len();
            let idx = key_index(keys, x25519_public_key(signing_secret(my_private@)));
            let rh = ring_digest(message@, keys);
            &&& sig@.len() == 64 + 32 * n
            &&& sig@.take(32) == rh
            &&& ring_verify_spec(message@, sig@, keys)
            &&& exists|nonce: Seq<u8>| nonce.len() == 32
                && #[trigger] chain(sig@, keys, (idx + 1) as nat)
                    == challenge(rh, idx, blake3_digest(rh + my_private@ + nonce), keys[idx])
        },
{
    if ring_public_keys.len() == 0 || my_private.len() == 0 {
        return Vec::new();
    }
    let ghost keys = key_views(ring_public_keys@);
    let secret = signing_secret_bytes(my_private);
    let my_public = x25519_public(secret.as_slice());
    let n = ring_public_keys.len();
    let my_idx = find_key(ring_public_keys, my_public.as_slice());
    let rh = compute_ring_hash(message, ring_public_keys);

    // The seed binds the ring hash, the private key and a fresh nonce.
    let nonce = random_bytes(32);
    let mut seed_input: Vec<u8> = Vec::new();
    push_all(&mut seed_input, rh.as_slice());
    push_all(&mut seed_input, my_private);
    push_all(&mut seed_input, nonce.as_slice());
    let x_val = blake3_hash(seed_input.as_slice());

    let (challenges, responses) = close_ring(&rh, ring_public_keys, my_idx, &x_val);
    let sig = layout_signature(&rh, &challenges[0], &responses);
    proof {
        lemma_closed_ring_verifies(message@, keys, rh@, challenges@, responses@, sig@);
        let my = my_idx as int;
        let nn = n as int;
        if my + 1 == nn {
            assert(chain(sig@, keys, (my + 1) as nat) == challenges@[0]@);
        } else {
            assert(chain(sig@, keys, (my + 1) as nat) == challenges@[my + 1]@);
        }
        assert(chain(sig@, keys, (my + 1) as nat) == challenges@[succ(my, nn)]@);
        assert(seed_input@ =~= rh@ + my_private@ + nonce@);
        assert(x_val@ == blake3_digest(rh@ + my_private@ + nonce@));
        assert(succ(my, nn) == pos(my, 1, nn));
        assert(chain(sig@, keys, (my + 1) as nat) == challenge(rh@, my, blake3_digest(rh@ + my_private@ + nonce@), keys[my]));
        assert(nonce@.len() == 32);
    }
    sig
}

} // verus!
