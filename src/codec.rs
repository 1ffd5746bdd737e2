//! Decoding of the canonical block encoding. Only canonical encodings are
//! accepted: an unknown tag, a truncated field, a non-minimal integer, a
//! trailing byte or an input over the size bound is an invalid message.
use vstd::prelude::*;
use crate::block::{
    block_encoding, enc_bytes, enc_deps, enc_digest, enc_digest_items, enc_digests, enc_opt_u32,
    enc_symkey, enc_u32, enc_uint, Block, BlockV0, BlockView, DepsView, ObjectDeps, ObjectRef,
};
use crate::errors::ProtocolError;
use crate::keys::{Digest, SymKey};

verus! {

/// Reads a variable-length unsigned integer at `pos`: its value and the
/// position after it.
pub fn get_uint(b: &[u8], pos: usize) -> (r: Option<(u64, usize)>)
    requires
        pos <= b@.len(),
    ensures
        match r {
            Some((v, p)) => pos < p <= b@.len() && b@.subrange(pos as int, p as int) == enc_uint(v as nat),
            None => true,
        },
        forall|n: nat|
            n <= u64::MAX && pos + #[trigger] enc_uint(n).len() <= b@.len() && b@.subrange(
                pos as int,
                pos + enc_uint(n).len(),
            ) == enc_uint(n) ==> r == Some((n as u64, (pos + enc_uint(n).len()) as usize)),
    decreases b@.len() - pos,
{
    proof {
        assert forall|n: nat| #[trigger] enc_uint(n).len() >= 1 by {
            lemma_enc_uint_nonempty(n);
        }
    }
    if pos >= b.len() {
        return None;
    }
    let x = b[pos];
    if x < 128 {
        proof {
            assert(b@.subrange(pos as int, pos + 1) =~= enc_uint(x as nat));
            assert forall|n: nat|
                n <= u64::MAX && pos + #[trigger] enc_uint(n).len() <= b@.len() && b@.subrange(
                    pos as int,
                    pos + enc_uint(n).len(),
                ) == enc_uint(n) implies n == x && enc_uint(n).len() == 1 by {
                assert(b@.subrange(pos as int, pos + enc_uint(n).len())[0] == x);
                if n >= 128 {
                    assert(enc_uint(n)[0] == (n % 128 + 128) as u8);
                }
            }
        }
        return Some((x as u64, pos + 1));
    }
    let low: u64 = (x - 128) as u64;
    let tail = get_uint(b, pos + 1);
    let r = match tail {
        None => None,
        Some((v, p)) => {
            if v == 0 {
                None
            } else if v > (u64::MAX - low) / 128 {
                None
            } else {
                Some((low + 128 * v, p))
            }
        },
    };
    proof {
        if let Some((v, p)) = tail {
            if v != 0 && v <= (u64::MAX - low) / 128 {
                let n = low + 128 * v;
                assert(n >= 128);
                assert((n as nat) % 128 == low as nat && (n as nat) / 128 == v as nat);
                assert(enc_uint(n as nat) == seq![x] + enc_uint(v as nat));
                assert(b@.subrange(pos as int, p as int) =~= seq![x] + b@.subrange(pos + 1, p as int));
            }
        }
        assert forall|n: nat|
            n <= u64::MAX && pos + #[trigger] enc_uint(n).len() <= b@.len() && b@.subrange(
                pos as int,
                pos + enc_uint(n).len(),
            ) == enc_uint(n) implies r == Some((n as u64, (pos + enc_uint(n).len()) as usize)) by {
            let s = b@.subrange(pos as int, pos + enc_uint(n).len());
            assert(s[0] == x);
            if n < 128 {
                assert(enc_uint(n)[0] == n as u8);
            } else {
                let m = n / 128;
                assert(enc_uint(n) == seq![(n % 128 + 128) as u8] + enc_uint(m));
                assert(x == (n % 128 + 128) as u8);
                assert(b@.subrange(pos + 1, pos + 1 + enc_uint(m).len()) =~= enc_uint(m)) by {
                    assert(b@.subrange(pos + 1, pos + 1 + enc_uint(m).len()) =~= s.subrange(
                        1,
                        enc_uint(n).len() as int,
                    ));
                }
                assert(tail == Some((m as u64, (pos + 1 + enc_uint(m).len()) as usize)));
                assert(m >= 1);
                assert(low == n % 128);
                assert(m <= (u64::MAX - low) / 128) by (nonlinear_arith)
                    requires
                        n == low + 128 * m,
                        n <= u64::MAX,
                        low < 128,
                ;
            }
        }
    }
    r
}

proof fn lemma_enc_uint_nonempty(n: nat)
    ensures
        enc_uint(n).len() >= 1,
    decreases n,
{
    if n >= 128 {
        lemma_enc_uint_nonempty(n / 128);
    }
}

/// Reads 32 raw bytes at `pos`.
fn get_bytes32(b: &[u8], pos: usize) -> (r: [u8; 32])
    requires
        pos + 32 <= b@.len(),
    ensures
        r@ == b@.subrange(pos as int, pos + 32),
{
    let mut a: [u8; 32] = [0u8; 32];
    let mut i: usize = 0;
    while i < 32
        invariant
            pos + 32 <= b@.len(),
            b@.len() == b.len(),
            0 <= i <= 32,
            a@.len() == 32,
            forall|j: int| 0 <= j < i ==> a@[j] == b@[pos + j],
        decreases 32 - i,
    {
        a.set(i, b[pos + i]);
        i = i + 1;
    }
    assert(a@ =~= b@.subrange(pos as int, pos + 32));
    a
}

/// Reads a digest at `pos`.
pub fn get_digest(b: &[u8], pos: usize) -> (r: Option<(Digest, usize)>)
    requires
        pos <= b@.len(),
    ensures
        match r {
            Some((d, p)) => p == pos + 33 && p <= b@.len() && b@.subrange(pos as int, p as int)
                == enc_digest(d),
            None => true,
        },
        forall|d: Digest|
            pos + 33 <= b@.len() && b@.subrange(pos as int, pos + 33) == #[trigger] enc_digest(d)
                ==> r == Some((d, (pos + 33) as usize)),
{
    if b.len() - pos < 33 || b[pos] != 0 {
        proof {
            assert forall|d: Digest|
                pos + 33 <= b@.len() && b@.subrange(pos as int, pos + 33) == #[trigger] enc_digest(
                    d,
                ) implies false by {
                assert(b@.subrange(pos as int, pos + 33)[0] == b@[pos as int]);
            }
        }
        return None;
    }
    let a = get_bytes32(b, pos + 1);
    let d = Digest::Blake3Digest32(a);
    proof {
        assert(b@.subrange(pos as int, pos + 33) =~= enc_digest(d));
        assert forall|e: Digest|
            pos + 33 <= b@.len() && b@.subrange(pos as int, pos + 33) == #[trigger] enc_digest(e)
                implies e == d by {
            assert(enc_digest(e).subrange(1, 33) =~= crate::keys::digest_bytes(e));
            assert(enc_digest(d).subrange(1, 33) =~= crate::keys::digest_bytes(d));
            crate::connection::lemma_same_digest(e, d);
        }
    }
    Some((d, pos + 33))
}

/// Reads a symmetric key at `pos`.
pub fn get_symkey(b: &[u8], pos: usize) -> (r: Option<(SymKey, usize)>)
    requires
        pos <= b@.len(),
    ensures
        match r {
            Some((k, p)) => p == pos + 33 && p <= b@.len() && b@.subrange(pos as int, p as int)
                == enc_symkey(k),
            None => true,
        },
        forall|k: SymKey|
            pos + 33 <= b@.len() && b@.subrange(pos as int, pos + 33) == #[trigger] enc_symkey(k)
                ==> r == Some((k, (pos + 33) as usize)),
{
    if b.len() - pos < 33 || b[pos] != 0 {
        proof {
            assert forall|k: SymKey|
                pos + 33 <= b@.len() && b@.subrange(pos as int, pos + 33) == #[trigger] enc_symkey(
                    k,
                ) implies false by {
                assert(b@.subrange(pos as int, pos + 33)[0] == b@[pos as int]);
            }
        }
        return None;
    }
    let a = get_bytes32(b, pos + 1);
    let k = SymKey::ChaCha20Key(a);
    proof {
        assert(b@.subrange(pos as int, pos + 33) =~= enc_symkey(k));
        assert forall|e: SymKey|
            pos + 33 <= b@.len() && b@.subrange(pos as int, pos + 33) == #[trigger] enc_symkey(e)
                implies e == k by {
            assert(enc_symkey(e).subrange(1, 33) =~= crate::keys::symkey_bytes(e));
            assert(enc_symkey(k).subrange(1, 33) =~= crate::keys::symkey_bytes(k));
            match (e, k) {
                (SymKey::ChaCha20Key(x), SymKey::ChaCha20Key(y)) => {
                    crate::keys::lemma_bytes32_ext(x, y);
                },
            }
        }
    }
    Some((k, pos + 33))
}

/// The encoding of a digest list item by item: 33 bytes each, in order.
proof fn lemma_digest_items(s: Seq<Digest>, i: int)
    requires
        0 <= i <= s.len(),
    ensures
        enc_digest_items(s).len() == 33 * s.len(),
        enc_digest_items(s).subrange(0, 33 * i) == enc_digest_items(s.subrange(0, i)),
    decreases s.len(),
{
    if s.len() > 0 {
        lemma_digest_items(s.drop_last(), if i == s.len() { i - 1 } else { i });
        assert(s.drop_last().subrange(0, if i == s.len() { i - 1 } else { i }) =~= s.subrange(
            0,
            if i == s.len() { i - 1 } else { i },
        ));
        if i == s.len() {
            assert(s.subrange(0, i) =~= s);
            assert(enc_digest_items(s).subrange(0, 33 * i) =~= enc_digest_items(s));
        } else {
            assert(enc_digest_items(s).subrange(0, 33 * i) =~= enc_digest_items(s.drop_last()).subrange(
                0,
                33 * i,
            ));
        }
    } else {
        assert(enc_digest_items(s).subrange(0, 0) =~= enc_digest_items(s.subrange(0, 0)));
    }
}

/// Reads `n` digests at `pos`.
pub fn get_digest_items(b: &[u8], pos: usize, n: u64) -> (r: Option<(Vec<Digest>, usize)>)
    requires
        pos <= b@.len(),
    ensures
        match r {
            Some((v, p)) => v@.len() == n && pos <= p <= b@.len() && b@.subrange(pos as int, p as int)
                == enc_digest_items(v@),
            None => true,
        },
        forall|s: Seq<Digest>|
            s.len() == n && pos + enc_digest_items(s).len() <= b@.len() && b@.subrange(
                pos as int,
                pos + enc_digest_items(s).len(),
            ) == #[trigger] enc_digest_items(s) ==> r is Some && r->Some_0.0@ == s && r->Some_0.1
                == pos + enc_digest_items(s).len(),
{
    let mut v: Vec<Digest> = Vec::new();
    let mut p: usize = pos;
    let mut i: u64 = 0;
    while i < n
        invariant
            pos <= p <= b@.len(),
            0 <= i <= n,
            v@.len() == i,
            b@.subrange(pos as int, p as int) == enc_digest_items(v@),
            forall|s: Seq<Digest>|
                s.len() == n && pos + enc_digest_items(s).len() <= b@.len() && b@.subrange(
                    pos as int,
                    pos + enc_digest_items(s).len(),
                ) == #[trigger] enc_digest_items(s) ==> v@ == s.subrange(0, i as int) && p == pos
                    + 33 * i,
        decreases n - i,
    {
        match get_digest(b, p) {
            None => {
                proof {
                    assert forall|s: Seq<Digest>|
                        s.len() == n && pos + enc_digest_items(s).len() <= b@.len() && b@.subrange(
                            pos as int,
                            pos + enc_digest_items(s).len(),
                        ) == #[trigger] enc_digest_items(s) implies false by {
                        lemma_digest_items(s, i + 1);
                        lemma_digest_items(s.subrange(0, i + 1), i as int);
                        assert(s.subrange(0, i + 1).subrange(0, i as int) =~= s.subrange(0, i as int));
                        let e = enc_digest_items(s.subrange(0, i + 1));
                        assert(s.subrange(0, i + 1).drop_last() =~= s.subrange(0, i as int));
                        assert(e == enc_digest_items(s.subrange(0, i as int)) + enc_digest(s[i as int]));
                        assert(b@.subrange(p as int, p + 33) =~= e.subrange(33 * i, 33 * i + 33)) by {
                            assert(b@.subrange(pos as int, pos + 33 * (i + 1)) =~= enc_digest_items(s).subrange(0, 33 * (i + 1)));
                        }
                        assert(e.subrange(33 * i, 33 * i + 33) =~= enc_digest(s[i as int]));
                    }
                }
                return None;
            },
            Some((d, q)) => {
                proof {
                    let old_v = v@;
                    assert(old_v.push(d).drop_last() =~= old_v);
                    assert(b@.subrange(pos as int, q as int) =~= b@.subrange(pos as int, p as int) + b@.subrange(p as int, q as int));
                    assert forall|s: Seq<Digest>|
                        s.len() == n && pos + enc_digest_items(s).len() <= b@.len() && b@.subrange(
                            pos as int,
                            pos + enc_digest_items(s).len(),
                        ) == #[trigger] enc_digest_items(s) implies old_v.push(d) == s.subrange(0, i + 1) by {
                        lemma_digest_items(s, i + 1);
                        assert(s.subrange(0, i + 1).drop_last() =~= s.subrange(0, i as int));
                        let e = enc_digest_items(s.subrange(0, i + 1));
                        assert(e == enc_digest_items(s.subrange(0, i as int)) + enc_digest(s[i as int]));
                        lemma_digest_items(s.subrange(0, i as int), 0);
                        assert(b@.subrange(p as int, p + 33) =~= e.subrange(33 * i, 33 * i + 33)) by {
                            assert(b@.subrange(pos as int, pos + 33 * (i + 1)) =~= enc_digest_items(s).subrange(0, 33 * (i + 1)));
                        }
                        assert(e.subrange(33 * i, 33 * i + 33) =~= enc_digest(s[i as int]));
                        assert(s.subrange(0, i + 1) =~= s.subrange(0, i as int).push(s[i as int]));
                    }
                }
                v.push(d);
                p = q;
            },
        }
        i = i + 1;
    }
    proof {
        assert forall|s: Seq<Digest>|
            s.len() == n && pos + enc_digest_items(s).len() <= b@.len() && b@.subrange(
                pos as int,
                pos + enc_digest_items(s).len(),
            ) == #[trigger] enc_digest_items(s) implies v@ == s && p == pos + enc_digest_items(s).len() by {
            assert(s.subrange(0, n as int) =~= s);
            lemma_digest_items(s, 0);
        }
    }
    Some((v, p))
}

/// Reads a 32-bit little-endian integer at `pos`.
fn get_u32(b: &[u8], pos: usize) -> (r: u32)
    requires
        pos + 4 <= b@.len(),
    ensures
        b@.subrange(pos as int, pos + 4) == enc_u32(r),
        forall|x: u32| b@.subrange(pos as int, pos + 4) == #[trigger] enc_u32(x) ==> r == x,
{
    let b0 = b[pos] as u32;
    let b1 = b[pos + 1] as u32;
    let b2 = b[pos + 2] as u32;
    let b3 = b[pos + 3] as u32;
    proof {
        assert(b0 + 256 * b1 + 65536 * b2 + 16777216 * b3 <= u32::MAX) by (nonlinear_arith)
            requires
                b0 < 256,
                b1 < 256,
                b2 < 256,
                b3 < 256,
        ;
    }
    let r: u32 = b0 + 256 * b1 + 65536 * b2 + 16777216 * b3;
    proof {
        lemma_u32_bytes(r, b0, b1, b2, b3);
        assert(b@.subrange(pos as int, pos + 4) =~= enc_u32(r));
        assert forall|x: u32| b@.subrange(pos as int, pos + 4) == #[trigger] enc_u32(x) implies r == x by {
            assert(enc_u32(x)[0] == b0 && enc_u32(x)[1] == b1 && enc_u32(x)[2] == b2 && enc_u32(x)[3] == b3);
            lemma_u32_unique(x, b0, b1, b2, b3);
        }
    }
    r
}

proof fn lemma_u32_bytes(r: u32, b0: u32, b1: u32, b2: u32, b3: u32)
    requires
        b0 < 256,
        b1 < 256,
        b2 < 256,
        b3 < 256,
        r == b0 + 256 * b1 + 65536 * b2 + 16777216 * b3,
    ensures
        r % 256 == b0,
        (r / 256) % 256 == b1,
        (r / 65536) % 256 == b2,
        (r / 16777216) % 256 == b3,
{
    assert(r % 256 == b0 && (r / 256) % 256 == b1 && (r / 65536) % 256 == b2 && (r / 16777216) % 256 == b3)
        by (bit_vector)
        requires
            b0 < 256,
            b1 < 256,
            b2 < 256,
            b3 < 256,
            r == b0 + 256 * b1 + 65536 * b2 + 16777216 * b3,
    ;
}

proof fn lemma_u32_unique(x: u32, b0: u32, b1: u32, b2: u32, b3: u32)
    requires
        (x % 256) == b0,
        ((x / 256) % 256) == b1,
        ((x / 65536) % 256) == b2,
        ((x / 16777216) % 256) == b3,
    ensures
        x == b0 + 256 * b1 + 65536 * b2 + 16777216 * b3,
{
    assert(x == b0 + 256 * b1 + 65536 * b2 + 16777216 * b3) by (bit_vector)
        requires
            (x % 256) == b0,
            ((x / 256) % 256) == b1,
            ((x / 65536) % 256) == b2,
            ((x / 16777216) % 256) == b3,
    ;
}

/// Copies `n` bytes at `pos`.
fn get_raw(b: &[u8], pos: usize, n: usize) -> (r: Vec<u8>)
    requires
        pos + n <= b@.len(),
    ensures
        r@ == b@.subrange(pos as int, pos + n),
{
    let mut r: Vec<u8> = Vec::new();
    let mut i: usize = 0;
    while i < n
        invariant
            pos + n <= b@.len(),
            b@.len() == b.len(),
            0 <= i <= n,
            r@ == b@.subrange(pos as int, pos + i),
        decreases n - i,
    {
        r.push(b[pos + i]);
        i = i + 1;
        assert(r@ =~= b@.subrange(pos as int, pos + i));
    }
    r
}

/// Reads a length-prefixed list of digests at `pos`.
pub fn get_digests(b: &[u8], pos: usize) -> (r: Option<(Vec<Digest>, usize)>)
    requires
        pos <= b@.len(),
    ensures
        match r {
            Some((v, p)) => pos <= p <= b@.len() && b@.subrange(pos as int, p as int) == enc_digests(v@),
            None => true,
        },
        forall|s: Seq<Digest>|
            pos + enc_digests(s).len() <= b@.len() && b@.subrange(pos as int, pos + enc_digests(s).len())
                == #[trigger] enc_digests(s) ==> r is Some && r->Some_0.0@ == s && r->Some_0.1 == pos
                + enc_digests(s).len(),
{
    let blen = b.len();
    proof {
        assert forall|s: Seq<Digest>|
            pos + enc_digests(s).len() <= b@.len() && b@.subrange(pos as int, pos + enc_digests(s).len())
                == #[trigger] enc_digests(s) implies s.len() <= u64::MAX && pos + enc_uint(s.len()).len() <= b@.len() && b@.subrange(
                pos as int,
                pos + enc_uint(s.len()).len(),
            ) == enc_uint(s.len()) && b@.subrange(pos + enc_uint(s.len()).len(), pos + enc_digests(s).len()) == enc_digest_items(s) by {
            let k = enc_uint(s.len()).len() as int;
            let l = enc_digests(s).len() as int;
            assert(enc_digests(s).subrange(0, k) =~= enc_uint(s.len()));
            assert(enc_digests(s).subrange(k, l) =~= enc_digest_items(s));
            assert(b@.subrange(pos as int, pos + k) =~= enc_digests(s).subrange(0, k));
            assert(b@.subrange(pos + k, pos + l) =~= enc_digests(s).subrange(k, l));
            lemma_digest_items(s, 0);
            assert(s.len() <= blen);
        }
    }
    let (n, pa) = match get_uint(b, pos) {
        Some(x) => x,
        None => {
            return None;
        },
    };
    let (v, pb) = match get_digest_items(b, pa, n) {
        Some(x) => x,
        None => {
            proof {
                assert forall|s: Seq<Digest>|
                    pos + enc_digests(s).len() <= b@.len() && b@.subrange(
                        pos as int,
                        pos + enc_digests(s).len(),
                    ) == #[trigger] enc_digests(s) implies false by {
                    assert(n == s.len() && pa == pos + enc_uint(s.len()).len());
                }
            }
            return None;
        },
    };
    proof {
        assert(b@.subrange(pos as int, pb as int) =~= b@.subrange(pos as int, pa as int) + b@.subrange(
            pa as int,
            pb as int,
        ));
        assert forall|s: Seq<Digest>|
            pos + enc_digests(s).len() <= b@.len() && b@.subrange(pos as int, pos + enc_digests(s).len())
                == #[trigger] enc_digests(s) implies v@ == s && pb == pos + enc_digests(s).len() by {
            assert(n == s.len() && pa == pos + enc_uint(s.len()).len());
        }
    }
    Some((v, pb))
}

/// Reads object dependencies at `pos`.
pub fn get_deps(b: &[u8], pos: usize) -> (r: Option<(ObjectDeps, usize)>)
    requires
        pos <= b@.len(),
    ensures
        match r {
            Some((d, p)) => pos <= p <= b@.len() && b@.subrange(pos as int, p as int) == enc_deps(d@),
            None => true,
        },
        forall|d: DepsView|
            pos + enc_deps(d).len() <= b@.len() && b@.subrange(pos as int, pos + enc_deps(d).len())
                == #[trigger] enc_deps(d) ==> r is Some && r->Some_0.0@ == d && r->Some_0.1 == pos
                + enc_deps(d).len(),
{
    if pos >= b.len() {
        return None;
    }
    let tag = b[pos];
    proof {
        assert forall|d: DepsView|
            pos + enc_deps(d).len() <= b@.len() && b@.subrange(pos as int, pos + enc_deps(d).len())
                == #[trigger] enc_deps(d) implies (tag == 0 <==> d is IdList) && (tag == 1 <==> d is Ref) by {
            assert(b@.subrange(pos as int, pos + enc_deps(d).len())[0] == tag);
        }
    }
    if tag == 0 {
        match get_digests(b, pos + 1) {
            None => {
                proof {
                    assert forall|d: DepsView|
                        pos + enc_deps(d).len() <= b@.len() && b@.subrange(pos as int, pos + enc_deps(d).len())
                            == #[trigger] enc_deps(d) implies false by {
                        let s = d->IdList_0;
                        assert(enc_deps(d).subrange(1, enc_deps(d).len() as int) =~= enc_digests(s));
                        assert(b@.subrange(pos + 1, pos + 1 + enc_digests(s).len()) =~= enc_deps(d).subrange(1, enc_deps(d).len() as int));
                    }
                }
                None
            },
            Some((ids, p)) => {
                proof {
                    assert(b@.subrange(pos as int, p as int) =~= seq![0u8] + b@.subrange(pos + 1, p as int));
                    assert forall|d: DepsView|
                        pos + enc_deps(d).len() <= b@.len() && b@.subrange(pos as int, pos + enc_deps(d).len())
                            == #[trigger] enc_deps(d) implies ids@ == d->IdList_0 && p == pos + enc_deps(d).len() by {
                        let s = d->IdList_0;
                        assert(enc_deps(d).subrange(1, enc_deps(d).len() as int) =~= enc_digests(s));
                        assert(b@.subrange(pos + 1, pos + 1 + enc_digests(s).len()) =~= enc_deps(d).subrange(1, enc_deps(d).len() as int));
                    }
                }
                Some((ObjectDeps::ObjectIdList(ids), p))
            },
        }
    } else if tag == 1 {
        let (id, qa) = match get_digest(b, pos + 1) {
            Some(x) => x,
            None => {
                proof {
                    assert forall|d: DepsView|
                        pos + enc_deps(d).len() <= b@.len() && b@.subrange(pos as int, pos + enc_deps(d).len())
                            == #[trigger] enc_deps(d) implies false by {
                        assert(b@.subrange(pos + 1, pos + 34) =~= enc_deps(d).subrange(1, 34));
                        assert(enc_deps(d).subrange(1, 34) =~= enc_digest(d->Ref_0.id));
                    }
                }
                return None;
            },
        };
        let (key, qb) = match get_symkey(b, qa) {
            Some(x) => x,
            None => {
                proof {
                    assert forall|d: DepsView|
                        pos + enc_deps(d).len() <= b@.len() && b@.subrange(pos as int, pos + enc_deps(d).len())
                            == #[trigger] enc_deps(d) implies false by {
                        assert(b@.subrange(pos + 34, pos + 67) =~= enc_deps(d).subrange(34, 67));
                        assert(enc_deps(d).subrange(34, 67) =~= enc_symkey(d->Ref_0.key));
                    }
                }
                return None;
            },
        };
        proof {
            assert(b@.subrange(pos as int, qb as int) =~= seq![1u8] + b@.subrange(pos + 1, qa as int) + b@.subrange(qa as int, qb as int));
            assert forall|d: DepsView|
                pos + enc_deps(d).len() <= b@.len() && b@.subrange(pos as int, pos + enc_deps(d).len())
                    == #[trigger] enc_deps(d) implies d == DepsView::Ref(ObjectRef { id, key }) && qb == pos + enc_deps(d).len() by {
                assert(b@.subrange(pos + 1, pos + 34) =~= enc_deps(d).subrange(1, 34));
                assert(enc_deps(d).subrange(1, 34) =~= enc_digest(d->Ref_0.id));
                assert(b@.subrange(pos + 34, pos + 67) =~= enc_deps(d).subrange(34, 67));
                assert(enc_deps(d).subrange(34, 67) =~= enc_symkey(d->Ref_0.key));
            }
        }
        Some((ObjectDeps::DepListRef(ObjectRef { id, key }), qb))
    } else {
        None
    }
}

/// Reads an optional expiry at `pos`.
pub fn get_expiry(b: &[u8], pos: usize) -> (r: Option<(Option<u32>, usize)>)
    requires
        pos <= b@.len(),
    ensures
        match r {
            Some((e, p)) => pos <= p <= b@.len() && b@.subrange(pos as int, p as int) == enc_opt_u32(e),
            None => true,
        },
        forall|e: Option<u32>|
            pos + enc_opt_u32(e).len() <= b@.len() && b@.subrange(pos as int, pos + enc_opt_u32(e).len())
                == #[trigger] enc_opt_u32(e) ==> r == Some((e, (pos + enc_opt_u32(e).len()) as usize)),
{
    if pos >= b.len() {
        return None;
    }
    let tag = b[pos];
    proof {
        assert forall|e: Option<u32>|
            pos + enc_opt_u32(e).len() <= b@.len() && b@.subrange(pos as int, pos + enc_opt_u32(e).len())
                == #[trigger] enc_opt_u32(e) implies (tag == 0 <==> e is None) && (tag == 1 <==> e is Some) by {
            assert(b@.subrange(pos as int, pos + enc_opt_u32(e).len())[0] == tag);
        }
    }
    if tag == 0 {
        proof {
            assert(b@.subrange(pos as int, pos + 1) =~= enc_opt_u32(None));
        }
        Some((None, pos + 1))
    } else if tag == 1 {
        if b.len() - pos < 5 {
            return None;
        }
        let x = get_u32(b, pos + 1);
        proof {
            assert(b@.subrange(pos as int, pos + 5) =~= seq![1u8] + b@.subrange(pos + 1, pos + 5));
            assert forall|e: Option<u32>|
                pos + enc_opt_u32(e).len() <= b@.len() && b@.subrange(pos as int, pos + enc_opt_u32(e).len())
                    == #[trigger] enc_opt_u32(e) implies e == Some(x) by {
                assert(b@.subrange(pos + 1, pos + 5) =~= enc_opt_u32(e).subrange(1, 5));
                assert(enc_opt_u32(e).subrange(1, 5) =~= enc_u32(e->0));
            }
        }
        Some((Some(x), pos + 5))
    } else {
        None
    }
}

/// Reads a length-prefixed byte string that ends the input at `pos`.
pub fn get_final_bytes(b: &[u8], pos: usize) -> (r: Option<Vec<u8>>)
    requires
        pos <= b@.len(),
    ensures
        match r {
            Some(c) => b@.subrange(pos as int, b@.len() as int) == enc_bytes(c@),
            None => true,
        },
        forall|c: Seq<u8>|
            b@.subrange(pos as int, b@.len() as int) == #[trigger] enc_bytes(c) ==> r is Some && r->Some_0@ == c,
{
    let blen = b.len();
    proof {
        assert forall|c: Seq<u8>| b@.subrange(pos as int, b@.len() as int) == #[trigger] enc_bytes(c) implies
            c.len() <= u64::MAX && pos + enc_uint(c.len()).len() <= b@.len() && b@.subrange(pos as int, pos + enc_uint(c.len()).len())
                == enc_uint(c.len()) by {
            let k = enc_uint(c.len()).len() as int;
            assert(b@.subrange(pos as int, b@.len() as int).len() == b@.len() - pos);
            assert(enc_bytes(c).len() == k + c.len());
            assert(enc_bytes(c).subrange(0, k) =~= enc_uint(c.len()));
            assert(b@.subrange(pos as int, pos + k) =~= enc_bytes(c).subrange(0, k));
        }
    }
    let (len, p) = match get_uint(b, pos) {
        Some(x) => x,
        None => {
            return None;
        },
    };
    if len != (b.len() - p) as u64 {
        proof {
            assert forall|c: Seq<u8>| b@.subrange(pos as int, b@.len() as int) == #[trigger] enc_bytes(c) implies false by {
                let k = enc_uint(c.len()).len() as int;
                assert(b@.subrange(pos as int, b@.len() as int).len() == b@.len() - pos);
                assert(enc_bytes(c).len() == k + c.len());
                assert(len == c.len() && p == pos + k);
            }
        }
        return None;
    }
    let c = get_raw(b, p, len as usize);
    proof {
        assert(b@.subrange(pos as int, b@.len() as int) =~= b@.subrange(pos as int, p as int) + b@.subrange(p as int, b@.len() as int));
        assert forall|d: Seq<u8>| b@.subrange(pos as int, b@.len() as int) == #[trigger] enc_bytes(d) implies c@ == d by {
            let k = enc_uint(d.len()).len() as int;
            assert(enc_bytes(d).subrange(k, enc_bytes(d).len() as int) =~= d);
            assert(b@.subrange(p as int, b@.len() as int) =~= enc_bytes(d).subrange(k, enc_bytes(d).len() as int));
        }
    }
    Some(c)
}

/// Whether `bytes` is the canonical encoding of some block.
pub open spec fn is_block_encoding(bytes: Seq<u8>) -> bool {
    exists|v: BlockView| block_encoding(v) == bytes
}

/// Decodes a block from its canonical encoding, refusing inputs longer than
/// `max_size`. The block comes back without a key, which is not encoded.
pub fn decode_block(bytes: &[u8], max_size: usize) -> (r: Result<Block, ProtocolError>)
    ensures
        match r {
            Ok(b) => block_encoding(b@) == bytes@ && b@.key is None && bytes@.len() <= max_size,
            Err(e) => e == ProtocolError::InvalidMessage,
        },
        bytes@.len() <= max_size && is_block_encoding(bytes@) ==> r is Ok,
        forall|v: BlockView|
            bytes@.len() <= max_size && #[trigger] block_encoding(v) == bytes@ ==> r is Ok && r->Ok_0@
                == (BlockView { key: None, ..v }),
{
    let ghost canon = is_block_encoding(bytes@);
    let ghost v = choose|v: BlockView| block_encoding(v) == bytes@;
    let ghost l1: int = enc_digests(v.children).len() as int;
    let ghost l2: int = enc_deps(v.deps).len() as int;
    let ghost l3: int = enc_opt_u32(v.expiry).len() as int;
    proof {
        if canon {
            lemma_block_pieces(bytes@, v);
        }
    }
    if bytes.len() > max_size || bytes.len() == 0 || bytes[0] != 0 {
        return Err(ProtocolError::InvalidMessage);
    }
    let (children, pa) = match get_digests(bytes, 1) {
        Some(x) => x,
        None => {
            return Err(ProtocolError::InvalidMessage);
        },
    };
    let (deps, pb) = match get_deps(bytes, pa) {
        Some(x) => x,
        None => {
            return Err(ProtocolError::InvalidMessage);
        },
    };
    let (expiry, pc) = match get_expiry(bytes, pb) {
        Some(x) => x,
        None => {
            return Err(ProtocolError::InvalidMessage);
        },
    };
    let content = match get_final_bytes(bytes, pc) {
        Some(c) => c,
        None => {
            return Err(ProtocolError::InvalidMessage);
        },
    };
    let b = Block::V0(BlockV0 { children, deps, expiry, content, key: None });
    proof {
        assert(bytes@ =~= seq![bytes@[0]] + bytes@.subrange(1, pa as int) + bytes@.subrange(pa as int, pb as int)
            + bytes@.subrange(pb as int, pc as int) + bytes@.subrange(pc as int, bytes@.len() as int));
        assert(block_encoding(b@) =~= bytes@);
        assert forall|w: BlockView| bytes@.len() <= max_size && #[trigger] block_encoding(w) == bytes@ implies b@
            == (BlockView { key: None, ..w }) by {
            lemma_block_pieces(bytes@, w);
        }
    }
    Ok(b)
}

/// Where the fields of a block lie in its encoding.
proof fn lemma_block_pieces(all: Seq<u8>, v: BlockView)
    requires
        block_encoding(v) == all,
    ensures
        ({
            let l1 = enc_digests(v.children).len() as int;
            let l2 = enc_deps(v.deps).len() as int;
            let l3 = enc_opt_u32(v.expiry).len() as int;
            &&& all.subrange(1, 1 + l1) == enc_digests(v.children)
            &&& all.subrange(1 + l1, 1 + l1 + l2) == enc_deps(v.deps)
            &&& all.subrange(1 + l1 + l2, 1 + l1 + l2 + l3) == enc_opt_u32(v.expiry)
            &&& all.subrange(1 + l1 + l2 + l3, all.len() as int) == enc_bytes(v.content)
        }),
{
    let l1 = enc_digests(v.children).len() as int;
    let l2 = enc_deps(v.deps).len() as int;
    let l3 = enc_opt_u32(v.expiry).len() as int;
    assert(all.subrange(1, 1 + l1) =~= enc_digests(v.children));
    assert(all.subrange(1 + l1, 1 + l1 + l2) =~= enc_deps(v.deps));
    assert(all.subrange(1 + l1 + l2, 1 + l1 + l2 + l3) =~= enc_opt_u32(v.expiry));
    assert(all.subrange(1 + l1 + l2 + l3, all.len() as int) =~= enc_bytes(v.content));
}

} // verus!
