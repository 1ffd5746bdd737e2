//! Breadth-first traversal of the block graph held by a store, along child
//! edges or along object dependency edges.
use vstd::prelude::*;
use crate::block::{Block, BlockView, DepsView, ObjectDeps};
use crate::keys::{bloom_queryable, BlockId, BloomFilter};
use crate::store::BlockStore;

verus! {

/// The edges that a traversal follows.
#[derive(Clone, Copy, Debug, PartialEq, Eq, Structural)]
pub enum Edges {
    /// From a block to its children
    Children,
    /// From an object's root block to the objects it depends on
    Deps,
}

/// The ids that an edge kind leads to from a block.
pub open spec fn edges_of(b: BlockView, e: Edges) -> Seq<BlockId> {
    match e {
        Edges::Children => b.children,
        Edges::Deps => match b.deps {
            DepsView::IdList(s) => s,
            DepsView::Ref(_) => Seq::empty(),
        },
    }
}

/// Whether a Bloom filter can be used: empty, or queryable.
pub open spec fn filter_usable(f: BloomFilter) -> bool {
    f.f@.len() == 0 || bloom_queryable(f.f@, f.k)
}

/// Whether a traversal leaves `id` out: it is known, or it was reported
/// (by a Bloom filter of known ids, for instance).
pub open spec fn is_skipped(known: Seq<BlockId>, reported: Seq<BlockId>, id: BlockId) -> bool {
    known.contains(id) || reported.contains(id)
}

/// Whether a traversal takes `id`: it is in the store and not left out.
pub open spec fn is_taken(
    store: Map<BlockId, BlockView>,
    known: Seq<BlockId>,
    reported: Seq<BlockId>,
    id: BlockId,
) -> bool {
    store.contains_key(id) && !is_skipped(known, reported, id)
}

/// What a traversal from `roots` produces: no id twice; only ids taken; each
/// root taken is in it; it is closed under the edges of the ids in it; and
/// each id is a root or is reached by an edge from an earlier id.
pub open spec fn is_traversal(
    out: Seq<BlockId>,
    store: Map<BlockId, BlockView>,
    roots: Seq<BlockId>,
    edges: Edges,
    known: Seq<BlockId>,
    reported: Seq<BlockId>,
) -> bool {
    &&& out.no_duplicates()
    &&& forall|i: int| 0 <= i < out.len() ==> is_taken(store, known, reported, #[trigger] out[i])
    &&& forall|r: BlockId| #[trigger] roots.contains(r) && is_taken(store, known, reported, r) ==> out.contains(r)
    &&& forall|i: int, c: BlockId|
        0 <= i < out.len() && #[trigger] edges_of(store[out[i]], edges).contains(c) && is_taken(
            store,
            known,
            reported,
            c,
        ) ==> out.contains(c)
    &&& forall|i: int|
        0 <= i < out.len() ==> roots.contains(#[trigger] out[i]) || exists|j: int|
            0 <= j < i && edges_of(store[out[j]], edges).contains(out[i])
}

/// Pushing keeps what a sequence contains, and adds the new item.
pub proof fn lemma_push_keeps_pub(s: Seq<BlockId>, y: BlockId)
    ensures
        forall|x: BlockId| s.contains(x) ==> #[trigger] s.push(y).contains(x),
        s.push(y).contains(y),
{
    assert forall|x: BlockId| s.contains(x) implies #[trigger] s.push(y).contains(x) by {
        let i = choose|i: int| 0 <= i < s.len() && s[i] == x;
        assert(s.push(y)[i] == x);
    }
    assert(s.push(y)[s.len() as int] == y);
}

/// Whether `id` is in the list.
pub fn contains_id(ids: &Vec<BlockId>, id: &BlockId) -> (r: bool)
    ensures
        r == ids@.contains(*id),
{
    let mut i: usize = 0;
    while i < ids.len()
        invariant
            0 <= i <= ids@.len(),
            forall|j: int| 0 <= j < i ==> ids@[j] != *id,
        decreases ids@.len() - i,
    {
        if ids[i].same(id) {
            return true;
        }
        i = i + 1;
    }
    false
}

/// Whether the filter is usable for a traversal.
pub fn check_filter(f: &BloomFilter) -> (r: bool)
    ensures
        r == filter_usable(*f),
{
    let n = f.f.len();
    if n == 0 {
        return true;
    }
    if n % 8 != 0 {
        return false;
    }
    let bits: u128 = (n as u128) * 8;
    proof {
        assert((bits as int) * (f.k as int) <= 0x8_0000_0000_0000_0000 * 0x1_0000_0000)
            by (nonlinear_arith)
            requires
                bits <= 0x8_0000_0000_0000_0000,
                f.k <= 0xffff_ffff,
        ;
    }
    let total: u128 = bits * (f.k as u128);
    total <= (u64::MAX as u128)
}

fn skipped(known: &Vec<BlockId>, reported: &Vec<BlockId>, id: &BlockId) -> (r: bool)
    ensures
        r == is_skipped(
            known@,
            reported@,
            *id,
        ),
{
    if contains_id(known, id) {
        return true;
    }
    contains_id(reported, id)
}

fn edge_list(b: &Block, edges: Edges) -> (r: Vec<BlockId>)
    ensures
        r@ == edges_of(b@, edges),
{
    match edges {
        Edges::Children => crate::block::copy_digests(b.children()),
        Edges::Deps => match b.deps() {
            ObjectDeps::ObjectIdList(v) => crate::block::copy_digests(v),
            ObjectDeps::DepListRef(_) => Vec::new(),
        },
    }
}

proof fn lemma_unique_bounded(out: Seq<BlockId>, store: Map<BlockId, BlockView>)
    requires
        out.no_duplicates(),
        store.dom().finite(),
        forall|i: int| 0 <= i < out.len() ==> store.contains_key(#[trigger] out[i]),
    ensures
        out.len() <= store.len(),
{
    out.unique_seq_to_set();
    assert(out.to_set().subset_of(store.dom()));
    vstd::set_lib::lemma_len_subset(out.to_set(), store.dom());
}

/// Invariant of the breadth-first phase: `out` satisfies what a traversal
/// must, with the closure shown for the first `h` ids.
#[verifier::opaque]
spec fn bfs_inv(
    out: Seq<BlockId>,
    st: Map<BlockId, BlockView>,
    roots: Seq<BlockId>,
    edges: Edges,
    known: Seq<BlockId>,
    rep: Seq<BlockId>,
    h: int,
) -> bool {
    &&& out.no_duplicates()
    &&& forall|i: int| 0 <= i < out.len() ==> is_taken(st, known, rep, #[trigger] out[i])
    &&& forall|r: BlockId| #[trigger] roots.contains(r) && is_taken(st, known, rep, r) ==> out.contains(r)
    &&& forall|i: int, c: BlockId|
        0 <= i < h && #[trigger] edges_of(st[out[i]], edges).contains(c) && is_taken(st, known, rep, c) ==> out.contains(c)
    &&& forall|i: int|
        0 <= i < out.len() ==> roots.contains(#[trigger] out[i]) || exists|j: int|
            0 <= j < i && edges_of(st[out[j]], edges).contains(out[i])
    &&& roots.len() > 0 && is_taken(st, known, rep, roots[0]) ==> out.len() > 0 && out[0] == roots[0]
}

proof fn lemma_prefix_agree(a: Seq<BlockId>, b: Seq<BlockId>)
    requires
        a.len() <= b.len(),
        b.subrange(0, a.len() as int) == a,
    ensures
        forall|i: int| 0 <= i < a.len() ==> #[trigger] b[i] == a[i],
{
    assert forall|i: int| 0 <= i < a.len() implies #[trigger] b[i] == a[i] by {
        assert(b.subrange(0, a.len() as int)[i] == b[i]);
    }
}

proof fn lemma_closure_step(
    before: Seq<BlockId>,
    out: Seq<BlockId>,
    next: Seq<BlockId>,
    st: Map<BlockId, BlockView>,
    edges: Edges,
    known: Seq<BlockId>,
    rep: Seq<BlockId>,
    h: int,
)
    requires
        0 <= h < before.len(),
        before.len() <= out.len(),
        forall|i: int| 0 <= i < before.len() ==> #[trigger] out[i] == before[i],
        forall|x: BlockId| before.contains(x) ==> #[trigger] out.contains(x),
        forall|i: int, c: BlockId|
            0 <= i < h && #[trigger] edges_of(st[before[i]], edges).contains(c) && is_taken(st, known, rep, c) ==> before.contains(c),
        next == edges_of(st[before[h]], edges),
        forall|p: int| 0 <= p < next.len() && is_taken(st, known, rep, #[trigger] next[p]) ==> out.contains(next[p]),
    ensures
        forall|i: int, c: BlockId|
            0 <= i < h + 1 && #[trigger] edges_of(st[out[i]], edges).contains(c) && is_taken(st, known, rep, c) ==> out.contains(c),
{
    assert forall|i: int, c: BlockId|
        0 <= i < h + 1 && #[trigger] edges_of(st[out[i]], edges).contains(c) && is_taken(st, known, rep, c) implies out.contains(c) by {
        assert(out[i] == before[i]);
        if i < h {
            assert(before.contains(c));
        } else {
            let p = choose|p: int| 0 <= p < next.len() && next[p] == c;
            assert(is_taken(st, known, rep, next[p]));
        }
    }
}

proof fn lemma_reach_step(
    before: Seq<BlockId>,
    out: Seq<BlockId>,
    next: Seq<BlockId>,
    st: Map<BlockId, BlockView>,
    roots: Seq<BlockId>,
    edges: Edges,
    h: int,
)
    requires
        0 <= h < before.len(),
        before.len() <= out.len(),
        forall|i: int| 0 <= i < before.len() ==> #[trigger] out[i] == before[i],
        forall|i: int|
            0 <= i < before.len() ==> roots.contains(#[trigger] before[i]) || exists|j: int|
                0 <= j < i && edges_of(st[before[j]], edges).contains(before[i]),
        next == edges_of(st[before[h]], edges),
        forall|i: int| before.len() <= i < out.len() ==> next.contains(#[trigger] out[i]),
    ensures
        forall|i: int|
            0 <= i < out.len() ==> roots.contains(#[trigger] out[i]) || exists|j: int|
                0 <= j < i && edges_of(st[out[j]], edges).contains(out[i]),
{
    assert forall|i: int|
        0 <= i < out.len() implies roots.contains(#[trigger] out[i]) || exists|j: int|
            0 <= j < i && edges_of(st[out[j]], edges).contains(out[i]) by {
        if i < before.len() {
            assert(out[i] == before[i]);
            if !roots.contains(before[i]) {
                let j = choose|j: int| 0 <= j < i && edges_of(st[before[j]], edges).contains(before[i]);
                assert(out[j] == before[j]);
            }
        } else {
            assert(out[h] == before[h]);
            assert(next.contains(out[i]));
        }
    }
}

proof fn lemma_step(
    before: Seq<BlockId>,
    out: Seq<BlockId>,
    next: Seq<BlockId>,
    st: Map<BlockId, BlockView>,
    roots: Seq<BlockId>,
    edges: Edges,
    known: Seq<BlockId>,
    rep: Seq<BlockId>,
    h: int,
)
    requires
        bfs_inv(before, st, roots, edges, known, rep, h),
        0 <= h < before.len(),
        next == edges_of(st[before[h]], edges),
        out.len() >= before.len(),
        out.subrange(0, before.len() as int) == before,
        out.no_duplicates(),
        forall|i: int| 0 <= i < out.len() ==> is_taken(st, known, rep, #[trigger] out[i]),
        forall|i: int| before.len() <= i < out.len() ==> next.contains(#[trigger] out[i]),
        forall|p: int| 0 <= p < next.len() && is_taken(st, known, rep, #[trigger] next[p]) ==> out.contains(next[p]),
    ensures
        bfs_inv(out, st, roots, edges, known, rep, h + 1),
{
    reveal(bfs_inv);
    lemma_prefix_contains(before, out);
    lemma_prefix_agree(before, out);
    lemma_closure_step(before, out, next, st, edges, known, rep, h);
    lemma_reach_step(before, out, next, st, roots, edges, h);
    if roots.len() > 0 && is_taken(st, known, rep, roots[0]) {
        assert(out[0] == before[0]);
    }
}

/// A sequence contains what its prefix contains.
pub proof fn lemma_prefix_contains_pub(a: Seq<BlockId>, b: Seq<BlockId>)
    requires
        a.len() <= b.len(),
        b.subrange(0, a.len() as int) == a,
    ensures
        forall|x: BlockId| a.contains(x) ==> #[trigger] b.contains(x),
{
    lemma_prefix_contains(a, b);
}

proof fn lemma_prefix_contains(a: Seq<BlockId>, b: Seq<BlockId>)
    requires
        a.len() <= b.len(),
        b.subrange(0, a.len() as int) == a,
    ensures
        forall|x: BlockId| a.contains(x) ==> #[trigger] b.contains(x),
{
    assert forall|x: BlockId| a.contains(x) implies #[trigger] b.contains(x) by {
        let i = choose|i: int| 0 <= i < a.len() && a[i] == x;
        assert(b.subrange(0, a.len() as int)[i] == b[i]);
    }
}

/// Appends to `out` each id of `next` that is taken and not yet in it.
fn add_new(
    store: &BlockStore,
    out: &mut Vec<BlockId>,
    next: &Vec<BlockId>,
    known: &Vec<BlockId>,
    reported: &Vec<BlockId>,
    Ghost(rep): Ghost<Seq<BlockId>>,
)
    requires
        store.wf(),
        rep == reported@,
        old(out)@.no_duplicates(),
        forall|i: int| 0 <= i < old(out)@.len() ==> is_taken(store@, known@, rep, #[trigger] old(out)@[i]),
    ensures
        final(out)@.len() >= old(out)@.len(),
        final(out)@.subrange(0, old(out)@.len() as int) == old(out)@,
        final(out)@.no_duplicates(),
        forall|i: int| 0 <= i < final(out)@.len() ==> is_taken(store@, known@, rep, #[trigger] final(out)@[i]),
        forall|i: int| old(out)@.len() <= i < final(out)@.len() ==> next@.contains(#[trigger] final(out)@[i]),
        forall|p: int| 0 <= p < next@.len() && is_taken(store@, known@, rep, #[trigger] next@[p]) ==> final(out)@.contains(next@[p]),
{
    let ghost start = old(out)@;
    let mut m: usize = 0;
    while m < next.len()
        invariant
            store.wf(),
            rep == reported@,
            0 <= m <= next@.len(),
            out@.len() >= start.len(),
            out@.subrange(0, start.len() as int) == start,
            out@.no_duplicates(),
            forall|i: int| 0 <= i < out@.len() ==> is_taken(store@, known@, rep, #[trigger] out@[i]),
            forall|i: int| start.len() <= i < out@.len() ==> next@.contains(#[trigger] out@[i]),
            forall|p: int| 0 <= p < m && is_taken(store@, known@, rep, #[trigger] next@[p]) ==> out@.contains(next@[p]),
        decreases next@.len() - m,
    {
        let c = next[m];
        if store.has(&c) && !skipped(known, reported, &c) && !contains_id(out, &c) {
            proof {
                lemma_push_keeps_pub(out@, c);
                let new_out = out@.push(c);
                assert(new_out.subrange(0, start.len() as int) =~= start) by {
                    assert(out@.subrange(0, start.len() as int) == start);
                }
                assert forall|i: int| start.len() <= i < new_out.len() implies next@.contains(#[trigger] new_out[i]) by {
                    if i < out@.len() {
                        assert(new_out[i] == out@[i]);
                    } else {
                        assert(next@[m as int] == c);
                    }
                }
                assert forall|i: int| 0 <= i < new_out.len() implies is_taken(store@, known@, rep, #[trigger] new_out[i]) by {
                    if i < out@.len() {
                        assert(new_out[i] == out@[i]);
                    }
                }
            }
            out.push(c);
        }
        m = m + 1;
    }
}

/// Breadth-first traversal from `roots` along `edges`, leaving out the ids
/// in `known` and those in `reported`. Ids absent from the store are
/// left out too. Each id comes at most once, and roots come first in their
/// own order.
pub fn traverse(
    store: &BlockStore,
    roots: &Vec<BlockId>,
    edges: Edges,
    known: &Vec<BlockId>,
    reported: &Vec<BlockId>,
) -> (r: Vec<BlockId>)
    requires
        store.wf(),
    ensures
        is_traversal(
            r@,
            store@,
            roots@,
            edges,
            known@,
            reported@,
        ),
        roots@.len() > 0 && is_taken(
            store@,
            known@,
            reported@,
            roots@[0],
        ) ==> r@.len() > 0 && r@[0] == roots@[0],
{
    let ghost rep = reported@;
    let ghost st = store@;
    let mut out: Vec<BlockId> = Vec::new();
    let mut k: usize = 0;
    while k < roots.len()
        invariant
            store.wf(),
            rep == reported@,
            st == store@,
            0 <= k <= roots@.len(),
            out@.no_duplicates(),
            forall|i: int| 0 <= i < out@.len() ==> is_taken(st, known@, rep, #[trigger] out@[i]),
            forall|m: int| 0 <= m < k && is_taken(st, known@, rep, #[trigger] roots@[m]) ==> out@.contains(roots@[m]),
            forall|i: int| 0 <= i < out@.len() ==> roots@.contains(#[trigger] out@[i]),
            k == 0 ==> out@.len() == 0,
            roots@.len() > 0 && k > 0 && is_taken(st, known@, rep, roots@[0]) ==> out@.len() > 0 && out@[0] == roots@[0],
        decreases roots@.len() - k,
    {
        let id = roots[k];
        if store.has(&id) && !skipped(known, reported, &id) && !contains_id(&out, &id) {
            proof {
                lemma_push_keeps_pub(out@, id);
                assert(roots@[k as int] == id);
            }
            out.push(id);
        }
        k = k + 1;
    }
    proof {
        assert forall|r: BlockId| #[trigger] roots@.contains(r) && is_taken(st, known@, rep, r) implies out@.contains(r) by {
            let m = choose|m: int| 0 <= m < roots@.len() && roots@[m] == r;
        }
        store.lemma_len();
        lemma_unique_bounded(out@, st);
        reveal(bfs_inv);
    }
    let n_store = store.len();
    let mut h: usize = 0;
    while h < out.len()
        invariant
            store.wf(),
            rep == reported@,
            st == store@,
            st.dom().finite(),
            n_store == st.len(),
            0 <= h <= out@.len(),
            out@.len() <= n_store,
            bfs_inv(out@, st, roots@, edges, known@, rep, h as int),
        decreases n_store - h,
    {
        proof {
            reveal(bfs_inv);
        }
        let cur = out[h];
        let b = match store.get_ref(&cur) {
            Some(b) => b,
            None => {
                proof {
                    assert(is_taken(st, known@, rep, out@[h as int]));
                }
                vstd::pervasive::unreached()
            },
        };
        let next = edge_list(b, edges);
        let ghost before = out@;
        add_new(store, &mut out, &next, known, reported, Ghost(rep));
        proof {
            lemma_step(before, out@, next@, st, roots@, edges, known@, rep, h as int);
            lemma_unique_bounded(out@, st);
        }
        h = h + 1;
    }
    proof {
        reveal(bfs_inv);
    }
    out
}

} // verus!
