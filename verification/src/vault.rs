//! The crypto provider consumed by the identity engine.
//!
//! The engine never manages key storage and never hard-codes a crypto
//! backend: callers inject any implementation of [`ProfileVault`]. Each
//! executable method is pinned to a per-implementation specification
//! function, so everything the engine concludes holds for whichever backend
//! is plugged in — and a deterministic in-memory vault, [`StubVault`], is
//! provided for tests.

use vstd::prelude::*;

use crate::compare::bytes_eq;
use crate::error::EntityError;

verus! {

/// A capability supplying hashing, signing and signature verification.
///
/// Any call may fail with a structural error (the provider is unavailable);
/// when a call succeeds, its result is exactly the implementation's
/// specification function applied to the arguments.
pub trait ProfileVault: Sized {
    /// What this provider's hash returns, as a function of the input bytes.
    spec fn hash_spec(data: Seq<u8>) -> Seq<u8>;

    /// What this provider's signing operation returns.
    spec fn sign_spec(secret_key: Seq<u8>, data: Seq<u8>) -> Seq<u8>;

    /// Whether this provider accepts `signature` on `data` under `public_key`.
    spec fn verify_spec(signature: Seq<u8>, public_key: Seq<u8>, data: Seq<u8>) -> bool;

    /// Hash `data`.
    fn sha256(&mut self, data: &[u8]) -> (r: Result<Vec<u8>, EntityError>)
        ensures
            r matches Ok(d) ==> d@ == Self::hash_spec(data@),
    ;

    /// Sign `data` with the secret key `secret_key`.
    fn sign(&mut self, secret_key: &[u8], data: &[u8]) -> (r: Result<Vec<u8>, EntityError>)
        ensures
            r matches Ok(s) ==> s@ == Self::sign_spec(secret_key@, data@),
    ;

    /// Check `signature` over `data` against `public_key`.
    fn verify(&mut self, signature: &[u8], public_key: &[u8], data: &[u8]) -> (r: Result<
        bool,
        EntityError,
    >)
        ensures
            r matches Ok(b) ==> b == Self::verify_spec(signature@, public_key@, data@),
    ;
}

/// The byte at position `i` of the stub digest: the XOR of every input byte
/// whose position is congruent to `i` modulo 32.
pub open spec fn stub_fold_at(data: Seq<u8>, i: int) -> u8
    decreases data.len(),
{
    if data.len() == 0 {
        0u8
    } else if (data.len() - 1) % 32 == i {
        stub_fold_at(data.drop_last(), i) ^ data.last()
    } else {
        stub_fold_at(data.drop_last(), i)
    }
}

/// The stub vault's 32-byte digest.
pub open spec fn stub_digest(data: Seq<u8>) -> Seq<u8> {
    Seq::new(32, |i: int| stub_fold_at(data, i))
}

/// The stub vault's signature: the signing key followed by the digest of the
/// signed bytes. The stub identifies a public key with its secret key.
pub open spec fn stub_signature(key: Seq<u8>, data: Seq<u8>) -> Seq<u8> {
    key + stub_digest(data)
}

/// A deterministic, in-memory crypto provider for tests.
///
/// This is a stub, not cryptography: its digest is a byte-wise XOR fold (so
/// changing any single input byte changes the digest), a "signature" is the
/// signing key followed by the digest of the signed bytes, and a public key
/// equals its secret key. It never fails.
pub struct StubVault {}

impl StubVault {
    /// A fresh stub provider.
    pub fn new() -> StubVault {
        StubVault {}
    }
}

/// Compute the stub digest.
fn stub_digest_exec(data: &[u8]) -> (r: Vec<u8>)
    ensures
        r@ == stub_digest(data@),
{
    let mut d: Vec<u8> = Vec::new();
    let mut k: usize = 0;
    while k < 32
        invariant
            0 <= k <= 32,
            d@.len() == k,
            forall|i: int| 0 <= i < k ==> d@[i] == 0u8,
        decreases 32 - k,
    {
        d.push(0u8);
        k = k + 1;
    }
    let n = data.len();
    let mut j: usize = 0;
    while j < n
        invariant
            n == data@.len(),
            0 <= j <= n,
            d@.len() == 32,
            forall|i: int| 0 <= i < 32 ==> d@[i] == stub_fold_at(data@.take(j as int), i),
        decreases n - j,
    {
        let idx: usize = j % 32;
        let updated: u8 = d[idx] ^ data[j];
        d[idx] = updated;
        proof {
            let pre = data@.take(j as int);
            let post = data@.take(j + 1);
            assert(post.drop_last() =~= pre);
            assert(post.last() == data@[j as int]);
            assert(forall|i: int| 0 <= i < 32 ==> stub_fold_at(post, i) == if (j as int) % 32 == i {
                stub_fold_at(pre, i) ^ data@[j as int]
            } else {
                stub_fold_at(pre, i)
            });
        }
        j = j + 1;
    }
    proof {
        assert(data@.take(n as int) =~= data@);
        assert(d@ =~= stub_digest(data@));
    }
    d
}

/// Compute the stub signature.
fn stub_signature_exec(key: &[u8], data: &[u8]) -> (r: Vec<u8>)
    ensures
        r@ == stub_signature(key@, data@),
{
    let mut out: Vec<u8> = Vec::new();
    let n = key.len();
    let mut i: usize = 0;
    while i < n
        invariant
            n == key@.len(),
            0 <= i <= n,
            out@ == key@.take(i as int),
        decreases n - i,
    {
        out.push(key[i]);
        proof {
            assert(out@ =~= key@.take(i + 1));
        }
        i = i + 1;
    }
    proof {
        assert(out@ =~= key@);
    }
    let mut digest = stub_digest_exec(data);
    let m = digest.len();
    let mut k: usize = 0;
    while k < m
        invariant
            m == digest@.len(),
            0 <= k <= m,
            out@ == key@ + digest@.take(k as int),
        decreases m - k,
    {
        out.push(digest[k]);
        proof {
            assert(out@ =~= key@ + digest@.take(k + 1));
        }
        k = k + 1;
    }
    proof {
        assert(digest@.take(m as int) =~= digest@);
        assert(out@ =~= stub_signature(key@, data@));
    }
    out
}

impl ProfileVault for StubVault {
    open spec fn hash_spec(data: Seq<u8>) -> Seq<u8> {
        stub_digest(data)
    }

    open spec fn sign_spec(secret_key: Seq<u8>, data: Seq<u8>) -> Seq<u8> {
        stub_signature(secret_key, data)
    }

    open spec fn verify_spec(signature: Seq<u8>, public_key: Seq<u8>, data: Seq<u8>) -> bool {
        signature == stub_signature(public_key, data)
    }

    fn sha256(&mut self, data: &[u8]) -> (r: Result<Vec<u8>, EntityError>) {
        Ok(stub_digest_exec(data))
    }

    fn sign(&mut self, secret_key: &[u8], data: &[u8]) -> (r: Result<Vec<u8>, EntityError>) {
        Ok(stub_signature_exec(secret_key, data))
    }

    fn verify(&mut self, signature: &[u8], public_key: &[u8], data: &[u8]) -> (r: Result<
        bool,
        EntityError,
    >) {
        let expected = stub_signature_exec(public_key, data);
        Ok(bytes_eq(signature, expected.as_slice()))
    }
}

/// Helper: changing the single byte at `p` changes the fold at lane
/// `p % 32` by exactly that byte's difference.
proof fn lemma_stub_fold_single_change(a: Seq<u8>, b: Seq<u8>, p: int)
    requires
        a.len() == b.len(),
        0 <= p < a.len(),
        forall|k: int| 0 <= k < a.len() && k != p ==> a[k] == b[k],
    ensures
        stub_fold_at(a, p % 32) ^ stub_fold_at(b, p % 32) == a[p] ^ b[p],
    decreases a.len(),
{
    let i = p % 32;
    let n = a.len() as int;
    let x = a[p];
    let y = b[p];
    if p == n - 1 {
        assert(a.drop_last() =~= b.drop_last());
        if (n - 1) % 32 == i {
            let c = stub_fold_at(a.drop_last(), i);
            assert((c ^ x) ^ (c ^ y) == x ^ y) by (bit_vector);
        }
    } else {
        lemma_stub_fold_single_change(a.drop_last(), b.drop_last(), p);
        assert(a.drop_last()[p] == a[p]);
        assert(b.drop_last()[p] == b[p]);
        let f = stub_fold_at(a.drop_last(), i);
        let g = stub_fold_at(b.drop_last(), i);
        if (n - 1) % 32 == i {
            let l = a.last();
            assert(a.last() == b.last());
            assert(f ^ g == x ^ y ==> (f ^ l) ^ (g ^ l) == x ^ y) by (bit_vector);
        }
    }
}

/// The stub digest detects any single-byte change: two equal-length inputs
/// that differ in exactly one byte have different digests. So re-verifying
/// an event whose encoded change block was altered in one byte, against its
/// unchanged identifier, is denied.
pub proof fn lemma_stub_digest_detects_single_byte_change(a: Seq<u8>, b: Seq<u8>, p: int)
    requires
        a.len() == b.len(),
        0 <= p < a.len(),
        a[p] != b[p],
        forall|k: int| 0 <= k < a.len() && k != p ==> a[k] == b[k],
    ensures
        stub_digest(a) != stub_digest(b),
{
    lemma_stub_fold_single_change(a, b, p);
    let i = p % 32;
    let f = stub_fold_at(a, i);
    let g = stub_fold_at(b, i);
    let x = a[p];
    let y = b[p];
    assert(f ^ g == x ^ y && x != y ==> f != g) by (bit_vector);
    assert(stub_digest(a)[i] != stub_digest(b)[i]);
}

/// A crypto provider that is switched off: every call fails.
///
/// Models an unreachable or timed-out backend, whose failure the engine must
/// report as a structural error, never as a deny.
pub struct UnavailableVault {}

impl UnavailableVault {
    /// A provider that will refuse every call.
    pub fn new() -> UnavailableVault {
        UnavailableVault {}
    }
}

impl ProfileVault for UnavailableVault {
    open spec fn hash_spec(data: Seq<u8>) -> Seq<u8> {
        Seq::empty()
    }

    open spec fn sign_spec(secret_key: Seq<u8>, data: Seq<u8>) -> Seq<u8> {
        Seq::empty()
    }

    open spec fn verify_spec(signature: Seq<u8>, public_key: Seq<u8>, data: Seq<u8>) -> bool {
        false
    }

    fn sha256(&mut self, data: &[u8]) -> (r: Result<Vec<u8>, EntityError>) {
        Err(EntityError::VaultFailed)
    }

    fn sign(&mut self, secret_key: &[u8], data: &[u8]) -> (r: Result<Vec<u8>, EntityError>) {
        Err(EntityError::VaultFailed)
    }

    fn verify(&mut self, signature: &[u8], public_key: &[u8], data: &[u8]) -> (r: Result<
        bool,
        EntityError,
    >) {
        Err(EntityError::VaultFailed)
    }
}

} // verus!
