//! The 32-byte password digest stored in the container.

use vstd::prelude::*;
use vstd::wrapping::u8_specs;

verus! {

/// Length of the digest in bytes.
pub const DIGEST_LEN: usize = 32;

/// The digest state after every input byte has been folded into its slot:
/// byte `i` updates slot `i % 32` to `(slot + byte) * (31 + i)`, all in `u8`
/// wrapping arithmetic.
pub open spec fn absorb(bytes: Seq<u8>) -> Seq<u8>
    decreases bytes.len(),
{
    if bytes.len() == 0 {
        Seq::new(32, |k: int| 0u8)
    } else {
        let i = bytes.len() - 1;
        let prev = absorb(bytes.drop_last());
        let slot = i % 32;
        prev.update(
            slot,
            u8_specs::wrapping_mul(
                u8_specs::wrapping_add(prev[slot], bytes[i]),
                u8_specs::wrapping_add(31u8, (i % 256) as u8),
            ),
        )
    }
}

/// The chaining pass over the slots `1 .. n`: each slot becomes
/// `(slot + previous slot) * 7` in `u8` wrapping arithmetic.
pub open spec fn chain(h: Seq<u8>, n: nat) -> Seq<u8>
    decreases n,
{
    if n <= 1 {
        h
    } else {
        let m = chain(h, (n - 1) as nat);
        let k = n - 1;
        m.update(k, u8_specs::wrapping_mul(u8_specs::wrapping_add(m[k], m[k - 1]), 7u8))
    }
}

/// The digest of a byte string.
pub open spec fn digest(bytes: Seq<u8>) -> Seq<u8> {
    chain(absorb(bytes), 32)
}

/// The digest of a password, taken over its UTF-8 encoding.
pub open spec fn password_digest(password: Seq<char>) -> Seq<u8> {
    digest(vstd::utf8::encode_utf8(password))
}

pub proof fn lemma_absorb_len(bytes: Seq<u8>)
    ensures
        absorb(bytes).len() == 32,
    decreases bytes.len(),
{
    if bytes.len() > 0 {
        lemma_absorb_len(bytes.drop_last());
    }
}

pub proof fn lemma_chain_len(h: Seq<u8>, n: nat)
    requires
        n <= h.len(),
    ensures
        chain(h, n).len() == h.len(),
    decreases n,
{
    if n > 1 {
        lemma_chain_len(h, (n - 1) as nat);
    }
}

/// Every digest is 32 bytes long.
pub proof fn lemma_digest_len(bytes: Seq<u8>)
    ensures
        digest(bytes).len() == 32,
{
    lemma_absorb_len(bytes);
    lemma_chain_len(absorb(bytes), 32);
}

/// Digest of a byte string.
pub fn hash_bytes(bytes: &[u8]) -> (hash: Vec<u8>)
    ensures
        hash@ == digest(bytes@),
        hash@.len() == DIGEST_LEN,
{
    let mut hash: Vec<u8> = vec![0u8; DIGEST_LEN];
    proof {
        assert(bytes@.take(0) =~= Seq::<u8>::empty());
        assert(hash@ =~= absorb(bytes@.take(0)));
    }
    let mut i: usize = 0;
    while i < bytes.len()
        invariant
            i <= bytes.len(),
            hash@ == absorb(bytes@.take(i as int)),
            hash@.len() == 32,
        decreases bytes.len() - i,
    {
        let slot = i % DIGEST_LEN;
        let v = hash[slot].wrapping_add(bytes[i]).wrapping_mul(31u8.wrapping_add((i % 256) as u8));
        hash.set(slot, v);
        proof {
            assert(bytes@.take(i + 1).drop_last() =~= bytes@.take(i as int));
        }
        i += 1;
    }
    proof {
        assert(bytes@.take(bytes@.len() as int) =~= bytes@);
    }
    let ghost absorbed = hash@;
    let mut j: usize = 1;
    while j < DIGEST_LEN
        invariant
            1 <= j <= 32,
            absorbed.len() == 32,
            hash@ == chain(absorbed, j as nat),
            hash@.len() == 32,
        decreases 32 - j,
    {
        let v = hash[j].wrapping_add(hash[j - 1]).wrapping_mul(7);
        hash.set(j, v);
        j += 1;
    }
    hash
}

/// Digest of a password: the digest of its UTF-8 bytes.
pub fn simple_hash(input: &str) -> (hash: Vec<u8>)
    ensures
        hash@ == password_digest(input@),
        hash@.len() == DIGEST_LEN,
{
    hash_bytes(input.as_bytes())
}

// ---------------------------------------------------------------------------
// Laws of the digest, in plain modular arithmetic

/// Before any byte is absorbed, all 32 slots are zero.
pub proof fn lemma_absorb_empty()
    ensures
        absorb(Seq::empty()).len() == 32,
        forall|k: int| 0 <= k < 32 ==> absorb(Seq::empty())[k] == 0,
{
}

/// Absorbing the byte `b` at index `n` (the number of bytes before it)
/// changes only slot `n % 32`, which becomes `(slot + b) * (31 + n)` modulo
/// 256.
pub proof fn lemma_absorb_step(s: Seq<u8>, b: u8)
    ensures
        absorb(s.push(b)).len() == 32,
        forall|k: int|
            0 <= k < 32 && k != (s.len() % 32) as int ==> #[trigger] absorb(s.push(b))[k] == absorb(s)[k],
        absorb(s.push(b))[(s.len() % 32) as int] as int == ((absorb(s)[(s.len() % 32) as int] as int + b as int) % 256)
            * ((31 + s.len()) % 256) % 256,
{
    lemma_absorb_len(s);
    lemma_absorb_len(s.push(b));
    assert(s.push(b).drop_last() =~= s);
    let n = s.len() as int;
    let x = absorb(s)[n % 32];
    let m = u8_specs::wrapping_add(31u8, (n % 256) as u8);
    assert(m as int == (31 + n) % 256);
    assert(u8_specs::wrapping_add(x, b) as int == (x as int + b as int) % 256);
}

pub proof fn lemma_chain_values(h: Seq<u8>, n: nat)
    requires
        1 <= n <= h.len(),
    ensures
        chain(h, n).len() == h.len(),
        chain(h, n)[0] == h[0],
        forall|k: int|
            1 <= k < n ==> #[trigger] chain(h, n)[k] as int == ((h[k] as int + chain(h, n)[k - 1] as int)
                % 256) * 7 % 256,
        forall|k: int| n <= k < h.len() ==> #[trigger] chain(h, n)[k] == h[k],
    decreases n,
{
    lemma_chain_len(h, n);
    if n > 1 {
        let p = (n - 1) as nat;
        lemma_chain_values(h, p);
        let m = chain(h, p);
        let k = n - 1;
        assert(u8_specs::wrapping_add(m[k], m[k - 1]) as int == (m[k] as int + m[k - 1] as int) % 256);
        assert forall|j: int| 1 <= j < n implies #[trigger] chain(h, n)[j] as int == ((h[j] as int
            + chain(h, n)[j - 1] as int) % 256) * 7 % 256 by {
            if j < k {
                assert(chain(h, n)[j] == m[j]);
                assert(chain(h, n)[j - 1] == m[j - 1]);
            } else {
                assert(chain(h, n)[j - 1] == m[j - 1]);
            }
        }
    }
}

/// The digest is the absorbed state chained from the front: slot 0 is kept,
/// and each later slot `k` becomes `(slot k + digest[k - 1]) * 7` modulo 256.
pub proof fn lemma_digest_chains(bytes: Seq<u8>)
    ensures
        digest(bytes).len() == 32,
        digest(bytes)[0] == absorb(bytes)[0],
        forall|k: int|
            1 <= k < 32 ==> #[trigger] digest(bytes)[k] as int == ((absorb(bytes)[k] as int
                + digest(bytes)[k - 1] as int) % 256) * 7 % 256,
{
    lemma_absorb_len(bytes);
    lemma_chain_values(absorb(bytes), 32);
}

} // verus!
