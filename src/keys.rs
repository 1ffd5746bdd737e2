//! Keys, digests, signatures and blocks, with the cryptographic primitives
//! they rely on.
use vstd::prelude::*;
use ed25519_dalek::Signer;
use fastbloom_rs::Membership;

verus! {

/// Unix time in minutes since the LoFiRe epoch.
pub type Timestamp = u32;

/// A 32-byte BLAKE3 digest.
#[derive(Clone, Copy, Debug)]
pub enum Digest {
    Blake3Digest32([u8; 32]),
}

/// An Ed25519 public key.
#[derive(Clone, Copy, Debug)]
pub enum PubKey {
    Ed25519PubKey([u8; 32]),
}

/// An Ed25519 private key.
#[derive(Clone, Copy, Debug)]
pub enum PrivKey {
    Ed25519PrivKey([u8; 32]),
}

/// A ChaCha20 symmetric key.
#[derive(Clone, Copy, Debug)]
pub enum SymKey {
    ChaCha20Key([u8; 32]),
}

/// An Ed25519 signature, as its two 32-byte halves.
#[derive(Clone, Copy, Debug)]
pub enum Sig {
    Ed25519Sig([[u8; 32]; 2]),
}

/// Block identifier: BLAKE3 digest of the block's canonical encoding.
pub type BlockId = Digest;

/// Object identifier: the id of the object's root block.
pub type ObjectId = Digest;

/// The bytes of a digest.
pub open spec fn digest_bytes(d: Digest) -> Seq<u8> {
    match d {
        Digest::Blake3Digest32(b) => b@,
    }
}

/// The bytes of a public key.
pub open spec fn pubkey_bytes(k: PubKey) -> Seq<u8> {
    match k {
        PubKey::Ed25519PubKey(b) => b@,
    }
}

/// The bytes of a private key.
pub open spec fn privkey_bytes(k: PrivKey) -> Seq<u8> {
    match k {
        PrivKey::Ed25519PrivKey(b) => b@,
    }
}

/// The bytes of a symmetric key.
pub open spec fn symkey_bytes(k: SymKey) -> Seq<u8> {
    match k {
        SymKey::ChaCha20Key(b) => b@,
    }
}

/// The 64 bytes of a signature.
pub open spec fn sig_bytes(s: Sig) -> Seq<u8> {
    match s {
        Sig::Ed25519Sig(h) => h[0]@ + h[1]@,
    }
}

/// Compares two 32-byte arrays.
pub fn bytes32_eq(a: &[u8; 32], b: &[u8; 32]) -> (r: bool)
    ensures
        r == (a@ == b@),
{
    let mut i: usize = 0;
    while i < 32
        invariant
            0 <= i <= 32,
            a@.len() == 32,
            b@.len() == 32,
            forall|j: int| 0 <= j < i ==> a@[j] == b@[j],
        decreases 32 - i,
    {
        if a[i] != b[i] {
            return false;
        }
        i = i + 1;
    }
    assert(a@ =~= b@);
    true
}

/// Two 32-byte arrays with the same bytes are the same array.
pub proof fn lemma_bytes32_ext(a: [u8; 32], b: [u8; 32])
    requires
        a@ == b@,
    ensures
        a == b,
{
    assert forall|i: int| 0 <= i < 32 implies a[i] == b[i] by {
        assert(a@[i] == b@[i]);
    }
    assert(a =~= b);
}

impl Digest {
    /// The digest's bytes.
    pub fn slice(&self) -> (r: &[u8; 32])
        ensures
            r@ == digest_bytes(*self),
    {
        match self {
            Digest::Blake3Digest32(b) => b,
        }
    }

    /// Equality of digests, byte by byte.
    pub fn same(&self, other: &Digest) -> (r: bool)
        ensures
            r == (*self == *other),
    {
        match (self, other) {
            (Digest::Blake3Digest32(a), Digest::Blake3Digest32(b)) => {
                let r = bytes32_eq(a, b);
                proof {
                    if r {
                        lemma_bytes32_ext(*a, *b);
                    }
                }
                r
            },
        }
    }
}

impl PubKey {
    /// The key's bytes.
    pub fn slice(&self) -> (r: &[u8; 32])
        ensures
            r@ == pubkey_bytes(*self),
    {
        match self {
            PubKey::Ed25519PubKey(b) => b,
        }
    }

    /// Equality of public keys, byte by byte.
    pub fn same(&self, other: &PubKey) -> (r: bool)
        ensures
            r == (*self == *other),
    {
        match (self, other) {
            (PubKey::Ed25519PubKey(a), PubKey::Ed25519PubKey(b)) => {
                let r = bytes32_eq(a, b);
                proof {
                    if r {
                        lemma_bytes32_ext(*a, *b);
                    }
                }
                r
            },
        }
    }
}

impl SymKey {
    /// The key's bytes.
    pub fn slice(&self) -> (r: &[u8; 32])
        ensures
            r@ == symkey_bytes(*self),
    {
        match self {
            SymKey::ChaCha20Key(b) => b,
        }
    }

    /// Equality of symmetric keys, byte by byte.
    pub fn same(&self, other: &SymKey) -> (r: bool)
        ensures
            r == (*self == *other),
    {
        match (self, other) {
            (SymKey::ChaCha20Key(a), SymKey::ChaCha20Key(b)) => {
                let r = bytes32_eq(a, b);
                proof {
                    if r {
                        lemma_bytes32_ext(*a, *b);
                    }
                }
                r
            },
        }
    }
}

// ---------------------------------------------------------------------------
// BLAKE3

/// BLAKE3 hash of a byte string.
pub uninterp spec fn blake3_hash_of(input: Seq<u8>) -> Seq<u8>;

/// BLAKE3 keyed hash of a byte string under a 32-byte key.
pub uninterp spec fn blake3_keyed_hash_of(key: Seq<u8>, input: Seq<u8>) -> Seq<u8>;

/// BLAKE3 key derivation from a context string and key material.
pub uninterp spec fn blake3_derive_key_of(context: Seq<char>, material: Seq<u8>) -> Seq<u8>;

/// Relies on blake3::hash: a 32-byte digest that depends on the input alone.
#[verifier::external_body]
pub(crate) fn blake3_hash(input: &[u8]) -> (r: [u8; 32])
    ensures
        r@ == blake3_hash_of(input@),
{
    *blake3::hash(input).as_bytes()
}

/// Relies on blake3::keyed_hash: a 32-byte MAC that depends on key and input alone.
#[verifier::external_body]
pub(crate) fn blake3_keyed_hash(key: &[u8; 32], input: &[u8]) -> (r: [u8; 32])
    ensures
        r@ == blake3_keyed_hash_of(key@, input@),
{
    *blake3::keyed_hash(key, input).as_bytes()
}

/// Relies on blake3::derive_key: a 32-byte key that depends on context and material alone.
#[verifier::external_body]
pub(crate) fn blake3_derive_key(context: &str, material: &[u8]) -> (r: [u8; 32])
    ensures
        r@ == blake3_derive_key_of(context@, material@),
{
    blake3::derive_key(context, material)
}

// ---------------------------------------------------------------------------
// Ed25519

/// Ed25519 signature of `msg` by the keypair `(sk, pk)`; `None` where the
/// public key bytes are not a valid curve point.
pub uninterp spec fn ed25519_sign_of(sk: Seq<u8>, pk: Seq<u8>, msg: Seq<u8>) -> Option<Seq<u8>>;

/// Whether `sig` is a valid strict Ed25519 signature of `msg` under `pk`.
pub uninterp spec fn ed25519_verify_of(pk: Seq<u8>, msg: Seq<u8>, sig: Seq<u8>) -> bool;

/// Relies on ed25519_dalek::Keypair::from_bytes and Signer::sign: Ed25519
/// signing is deterministic, so the signature depends on keys and message
/// alone; the keypair is refused where the public key does not decompress.
/// The 64 signature bytes are handed back as two halves.
#[verifier::external_body]
pub(crate) fn ed25519_sign(sk: &[u8; 32], pk: &[u8; 32], msg: &[u8]) -> (r: Option<[[u8; 32]; 2]>)
    ensures
        match r {
            Some(s) => ed25519_sign_of(sk@, pk@, msg@) == Some(s[0]@ + s[1]@),
            None => ed25519_sign_of(sk@, pk@, msg@) is None,
        },
{
    let kp = [&sk[..], &pk[..]].concat();
    match ed25519_dalek::Keypair::from_bytes(kp.as_slice()) {
        Ok(keypair) => {
            let b = keypair.sign(msg).to_bytes();
            let (lo, hi) = b.split_at(32);
            Some([lo.try_into().unwrap(), hi.try_into().unwrap()])
        },
        Err(_) => None,
    }
}

/// Relies on ed25519_dalek::PublicKey::from_bytes, Signature::from_bytes and
/// PublicKey::verify_strict: whether the signature (given as two halves) is
/// valid depends on key, message and signature alone.
#[verifier::external_body]
pub(crate) fn ed25519_verify(pk: &[u8; 32], msg: &[u8], sig: &[[u8; 32]; 2]) -> (r: bool)
    ensures
        r == ed25519_verify_of(pk@, msg@, sig[0]@ + sig[1]@),
{
    let sig_bytes = [sig[0], sig[1]].concat();
    match (
        ed25519_dalek::PublicKey::from_bytes(pk),
        ed25519_dalek::Signature::from_bytes(&sig_bytes),
    ) {
        (Ok(p), Ok(s)) => p.verify_strict(msg, &s).is_ok(),
        _ => false,
    }
}

// ---------------------------------------------------------------------------
// Bloom filter

/// Bloom filter as sent on the wire: number of hash functions and bit array.
#[derive(Clone, Debug)]
pub struct BloomFilter {
    /// Number of hash functions
    pub k: u32,
    /// Filter bits
    pub f: Vec<u8>,
}

/// Fixed-size 128-byte Bloom filter.
#[derive(Clone, Copy, Debug)]
pub struct BloomFilter128 {
    pub f: [[u8; 32]; 4],
}

/// Whether a Bloom filter can be queried: a non-empty whole number of 64-bit
/// words, small enough that the probe positions do not overflow.
pub open spec fn bloom_queryable(f: Seq<u8>, k: u32) -> bool {
    &&& f.len() > 0
    &&& f.len() % 8 == 0
    &&& f.len() * 8 * (k as int) <= u64::MAX
}

/// Relies on fastbloom_rs::BloomFilter::from_u64_array and
/// Membership::contains: whether the filter with bits `f` and `k` hash
/// functions reports `item`. The filter divides by its bit size and reads
/// whole words, so the bits must be a non-empty multiple of eight bytes; they
/// are handed over as aligned 64-bit words. The filter reads its words in the
/// machine's byte order, so the same bytes may give another answer on another
/// machine: nothing is promised of the answer, and callers take it as it
/// comes.
#[verifier::external_body]
pub(crate) fn bloom_contains(f: &[u8], k: u32, item: &[u8]) -> (r: bool)
    requires
        bloom_queryable(f@, k),
{
    let words: Vec<u64> = f
        .chunks_exact(8)
        .map(|c| u64::from_ne_bytes(c.try_into().unwrap()))
        .collect();
    fastbloom_rs::BloomFilter::from_u64_array(&words, k).contains(item)
}

} // verus!
