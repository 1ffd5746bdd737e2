//! Blocks: the encrypted, content-addressed unit of storage, and their
//! canonical encoding.
use vstd::prelude::*;
use crate::keys::{
    blake3_hash, blake3_hash_of, digest_bytes, pubkey_bytes, symkey_bytes, BlockId, Digest, ObjectId,
    PubKey, SymKey, Timestamp,
};

verus! {

/// Reference to an object: its id and the key of its root block.
#[derive(Clone, Copy, Debug)]
pub struct ObjectRef {
    pub id: ObjectId,
    pub key: SymKey,
}

/// Dependencies of an object.
#[derive(Clone, Debug)]
pub enum ObjectDeps {
    /// List of object ids
    ObjectIdList(Vec<ObjectId>),
    /// Reference to an object holding the list
    DepListRef(ObjectRef),
}

/// Version 0 of a block.
#[derive(Clone, Debug)]
pub struct BlockV0 {
    /// Ids of the child blocks
    pub children: Vec<BlockId>,
    /// Dependencies of the object this block is the root of
    pub deps: ObjectDeps,
    /// Expiry time
    pub expiry: Option<Timestamp>,
    /// Encrypted content
    pub content: Vec<u8>,
    /// Key of the block; only set at object boundaries and never encoded
    pub key: Option<SymKey>,
}

/// A block.
#[derive(Clone, Debug)]
pub enum Block {
    V0(BlockV0),
}

/// Mathematical value of object dependencies.
pub enum DepsView {
    IdList(Seq<ObjectId>),
    Ref(ObjectRef),
}

/// Mathematical value of a block.
pub struct BlockView {
    pub children: Seq<BlockId>,
    pub deps: DepsView,
    pub expiry: Option<Timestamp>,
    pub content: Seq<u8>,
    pub key: Option<SymKey>,
}

impl View for ObjectDeps {
    type V = DepsView;

    open spec fn view(&self) -> DepsView {
        match self {
            ObjectDeps::ObjectIdList(v) => DepsView::IdList(v@),
            ObjectDeps::DepListRef(r) => DepsView::Ref(*r),
        }
    }
}

impl View for Block {
    type V = BlockView;

    open spec fn view(&self) -> BlockView {
        match self {
            Block::V0(b) => BlockView {
                children: b.children@,
                deps: b.deps@,
                expiry: b.expiry,
                content: b.content@,
                key: b.key,
            },
        }
    }
}

// ---------------------------------------------------------------------------
// Canonical encoding (BARE)

/// Variable-length unsigned integer, seven bits per byte, least significant first.
pub open spec fn enc_uint(n: nat) -> Seq<u8>
    decreases n,
{
    if n < 128 {
        seq![n as u8]
    } else {
        seq![(n % 128 + 128) as u8] + enc_uint(n / 128)
    }
}

/// A 32-bit integer, four bytes little-endian.
pub open spec fn enc_u32(x: u32) -> Seq<u8> {
    seq![
        (x % 256) as u8,
        ((x / 256) % 256) as u8,
        ((x / 65536) % 256) as u8,
        ((x / 16777216) % 256) as u8,
    ]
}

/// A digest: its variant tag, then its 32 bytes.
pub open spec fn enc_digest(d: Digest) -> Seq<u8> {
    seq![0u8] + digest_bytes(d)
}

/// A public key: its variant tag, then its 32 bytes.
pub open spec fn enc_pubkey(k: PubKey) -> Seq<u8> {
    seq![0u8] + pubkey_bytes(k)
}

/// A symmetric key: its variant tag, then its 32 bytes.
pub open spec fn enc_symkey(k: SymKey) -> Seq<u8> {
    seq![0u8] + symkey_bytes(k)
}

/// The digests of a list, one after the other.
pub open spec fn enc_digest_items(s: Seq<Digest>) -> Seq<u8>
    decreases s.len(),
{
    if s.len() == 0 {
        Seq::empty()
    } else {
        enc_digest_items(s.drop_last()) + enc_digest(s.last())
    }
}

/// A list of digests: its length, then its items.
pub open spec fn enc_digests(s: Seq<Digest>) -> Seq<u8> {
    enc_uint(s.len()) + enc_digest_items(s)
}

/// A byte string: its length, then its bytes.
pub open spec fn enc_bytes(s: Seq<u8>) -> Seq<u8> {
    enc_uint(s.len()) + s
}

/// An optional 32-bit integer: a presence byte, then the value if present.
pub open spec fn enc_opt_u32(o: Option<u32>) -> Seq<u8> {
    match o {
        None => seq![0u8],
        Some(x) => seq![1u8] + enc_u32(x),
    }
}

/// Object dependencies: variant tag, then the list or the reference.
pub open spec fn enc_deps(d: DepsView) -> Seq<u8> {
    match d {
        DepsView::IdList(s) => seq![0u8] + enc_digests(s),
        DepsView::Ref(r) => seq![1u8] + enc_digest(r.id) + enc_symkey(r.key),
    }
}

/// Canonical encoding of a block: version tag, children, dependencies,
/// expiry and content. The key is not part of it.
pub open spec fn block_encoding(b: BlockView) -> Seq<u8> {
    seq![0u8] + enc_digests(b.children) + enc_deps(b.deps) + enc_opt_u32(b.expiry) + enc_bytes(
        b.content,
    )
}

/// The id of a block: BLAKE3 of its canonical encoding.
pub open spec fn block_id_of(b: BlockView) -> Seq<u8> {
    blake3_hash_of(block_encoding(b))
}

/// Appends a variable-length unsigned integer.
pub fn put_uint(out: &mut Vec<u8>, n: u64)
    ensures
        final(out)@ == old(out)@ + enc_uint(n as nat),
{
    let ghost start = old(out)@;
    let mut x: u64 = n;
    while x >= 128
        invariant
            out@ + enc_uint(x as nat) == start + enc_uint(n as nat),
        decreases x,
    {
        let ghost before = out@;
        out.push(((x % 128) + 128) as u8);
        assert(enc_uint(x as nat) == seq![((x as nat) % 128 + 128) as u8] + enc_uint(
            (x as nat) / 128,
        ));
        assert(out@ + enc_uint((x / 128) as nat) =~= before + enc_uint(x as nat));
        x = x / 128;
    }
    out.push(x as u8);
    assert(out@ =~= start + enc_uint(n as nat));
}

/// Appends a 32-bit integer, little-endian.
pub fn put_u32(out: &mut Vec<u8>, x: u32)
    ensures
        final(out)@ == old(out)@ + enc_u32(x),
{
    out.push((x % 256) as u8);
    out.push(((x / 256) % 256) as u8);
    out.push(((x / 65536) % 256) as u8);
    out.push(((x / 16777216) % 256) as u8);
    assert(final(out)@ =~= old(out)@ + enc_u32(x));
}

/// Appends raw bytes.
pub fn put_raw(out: &mut Vec<u8>, s: &[u8])
    ensures
        final(out)@ == old(out)@ + s@,
{
    let ghost start = old(out)@;
    let mut i: usize = 0;
    while i < s.len()
        invariant
            0 <= i <= s@.len(),
            out@ == start + s@.subrange(0, i as int),
        decreases s@.len() - i,
    {
        out.push(s[i]);
        i = i + 1;
        assert(out@ =~= start + s@.subrange(0, i as int));
    }
    assert(s@.subrange(0, s@.len() as int) =~= s@);
}

/// Appends a byte string with its length.
pub fn put_bytes(out: &mut Vec<u8>, s: &[u8])
    ensures
        final(out)@ == old(out)@ + enc_bytes(s@),
{
    put_uint(out, s.len() as u64);
    put_raw(out, s);
    assert(final(out)@ =~= old(out)@ + enc_bytes(s@));
}

/// Appends a digest.
pub fn put_digest(out: &mut Vec<u8>, d: &Digest)
    ensures
        final(out)@ == old(out)@ + enc_digest(*d),
{
    out.push(0u8);
    put_raw(out, d.slice());
    assert(final(out)@ =~= old(out)@ + enc_digest(*d));
}

/// Appends a public key.
pub fn put_pubkey(out: &mut Vec<u8>, k: &PubKey)
    ensures
        final(out)@ == old(out)@ + enc_pubkey(*k),
{
    out.push(0u8);
    put_raw(out, k.slice());
    assert(final(out)@ =~= old(out)@ + enc_pubkey(*k));
}

/// Appends a symmetric key.
pub fn put_symkey(out: &mut Vec<u8>, k: &SymKey)
    ensures
        final(out)@ == old(out)@ + enc_symkey(*k),
{
    out.push(0u8);
    put_raw(out, k.slice());
    assert(final(out)@ =~= old(out)@ + enc_symkey(*k));
}

/// Appends a list of digests with its length.
pub fn put_digests(out: &mut Vec<u8>, s: &Vec<Digest>)
    ensures
        final(out)@ == old(out)@ + enc_digests(s@),
{
    let ghost start = old(out)@;
    put_uint(out, s.len() as u64);
    let ghost mid = out@;
    let mut i: usize = 0;
    while i < s.len()
        invariant
            0 <= i <= s@.len(),
            mid == start + enc_uint(s@.len()),
            out@ == mid + enc_digest_items(s@.subrange(0, i as int)),
        decreases s@.len() - i,
    {
        put_digest(out, &s[i]);
        assert(s@.subrange(0, i + 1).drop_last() =~= s@.subrange(0, i as int));
        i = i + 1;
        assert(out@ =~= mid + enc_digest_items(s@.subrange(0, i as int)));
    }
    assert(s@.subrange(0, s@.len() as int) =~= s@);
    assert(out@ =~= start + enc_digests(s@));
}

impl ObjectDeps {
    /// Appends the canonical encoding.
    pub fn encode_into(&self, out: &mut Vec<u8>)
        ensures
            final(out)@ == old(out)@ + enc_deps(self@),
    {
        match self {
            ObjectDeps::ObjectIdList(v) => {
                out.push(0u8);
                put_digests(out, v);
            },
            ObjectDeps::DepListRef(r) => {
                out.push(1u8);
                put_digest(out, &r.id);
                put_symkey(out, &r.key);
            },
        }
        assert(final(out)@ =~= old(out)@ + enc_deps(self@));
    }
}

impl Block {
    /// Builds a block.
    pub fn new(
        children: Vec<BlockId>,
        deps: ObjectDeps,
        expiry: Option<Timestamp>,
        content: Vec<u8>,
        key: Option<SymKey>,
    ) -> (r: Block)
        ensures
            r@ == (BlockView {
                children: children@,
                deps: deps@,
                expiry: expiry,
                content: content@,
                key: key,
            }),
    {
        Block::V0(BlockV0 { children, deps, expiry, content, key })
    }

    /// Canonical encoding of the block.
    pub fn encode(&self) -> (r: Vec<u8>)
        ensures
            r@ == block_encoding(self@),
    {
        let mut out: Vec<u8> = Vec::new();
        match self {
            Block::V0(b) => {
                out.push(0u8);
                put_digests(&mut out, &b.children);
                b.deps.encode_into(&mut out);
                match b.expiry {
                    None => out.push(0u8),
                    Some(x) => {
                        out.push(1u8);
                        put_u32(&mut out, x);
                    },
                }
                put_bytes(&mut out, b.content.as_slice());
            },
        }
        assert(out@ =~= block_encoding(self@));
        out
    }

    /// The block's id: BLAKE3 of its canonical encoding.
    pub fn id(&self) -> (r: BlockId)
        ensures
            digest_bytes(r) == block_id_of(self@),
    {
        let enc = self.encode();
        Digest::Blake3Digest32(blake3_hash(enc.as_slice()))
    }

    /// Ids of the child blocks.
    pub fn children(&self) -> (r: &Vec<BlockId>)
        ensures
            r@ == self@.children,
    {
        match self {
            Block::V0(b) => &b.children,
        }
    }

    /// Dependencies of the object.
    pub fn deps(&self) -> (r: &ObjectDeps)
        ensures
            r@ == self@.deps,
    {
        match self {
            Block::V0(b) => &b.deps,
        }
    }

    /// Encrypted content.
    pub fn content(&self) -> (r: &Vec<u8>)
        ensures
            r@ == self@.content,
    {
        match self {
            Block::V0(b) => &b.content,
        }
    }

    /// Expiry time.
    pub fn expiry(&self) -> (r: Option<Timestamp>)
        ensures
            r == self@.expiry,
    {
        match self {
            Block::V0(b) => b.expiry,
        }
    }

    /// Key of the block, if set.
    pub fn key(&self) -> (r: Option<SymKey>)
        ensures
            r == self@.key,
    {
        match self {
            Block::V0(b) => b.key,
        }
    }

    /// A copy with the same value.
    pub fn duplicate(&self) -> (r: Block)
        ensures
            r@ == self@,
    {
        match self {
            Block::V0(b) => {
                let deps = match &b.deps {
                    ObjectDeps::ObjectIdList(v) => ObjectDeps::ObjectIdList(copy_digests(v)),
                    ObjectDeps::DepListRef(r) => ObjectDeps::DepListRef(*r),
                };
                Block::V0(
                    BlockV0 {
                        children: copy_digests(&b.children),
                        deps,
                        expiry: b.expiry,
                        content: copy_bytes(&b.content),
                        key: b.key,
                    },
                )
            },
        }
    }
}

/// A copy of a list of digests.
pub fn copy_digests(v: &Vec<Digest>) -> (r: Vec<Digest>)
    ensures
        r@ == v@,
{
    let mut r: Vec<Digest> = Vec::new();
    let mut i: usize = 0;
    while i < v.len()
        invariant
            0 <= i <= v@.len(),
            r@ == v@.subrange(0, i as int),
        decreases v@.len() - i,
    {
        r.push(v[i]);
        i = i + 1;
        assert(r@ =~= v@.subrange(0, i as int));
    }
    assert(r@ =~= v@);
    r
}

/// A copy of a list of public keys.
pub fn copy_keys(v: &Vec<PubKey>) -> (r: Vec<PubKey>)
    ensures
        r@ == v@,
{
    let mut r: Vec<PubKey> = Vec::new();
    let mut i: usize = 0;
    while i < v.len()
        invariant
            0 <= i <= v@.len(),
            r@ == v@.subrange(0, i as int),
        decreases v@.len() - i,
    {
        r.push(v[i]);
        i = i + 1;
        assert(r@ =~= v@.subrange(0, i as int));
    }
    assert(r@ =~= v@);
    r
}

/// Equality of two byte strings.
pub fn bytes_eq(a: &Vec<u8>, b: &Vec<u8>) -> (r: bool)
    ensures
        r == (a@ == b@),
{
    if a.len() != b.len() {
        return false;
    }
    let mut i: usize = 0;
    while i < a.len()
        invariant
            0 <= i <= a@.len(),
            a@.len() == b@.len(),
            forall|j: int| 0 <= j < i ==> a@[j] == b@[j],
        decreases a@.len() - i,
    {
        if a[i] != b[i] {
            return false;
        }
        i = i + 1;
    }
    assert(a@ =~= b@);
    true
}

/// A copy of a byte string.
pub fn copy_bytes(v: &Vec<u8>) -> (r: Vec<u8>)
    ensures
        r@ == v@,
{
    let mut r: Vec<u8> = Vec::new();
    put_raw(&mut r, v.as_slice());
    assert(r@ =~= v@);
    r
}

} // verus!
