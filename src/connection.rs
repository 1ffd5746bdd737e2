//! Connection façade: a client's view of a broker, here a broker owned by
//! the connection and called in-process, and the overlay client built on it.
use vstd::prelude::*;
use crate::auth::{add_user_content_encoding, encode_add_user_content, sign};
use crate::block::{block_id_of, Block, BlockView};
use crate::errors::ProtocolError;
use crate::keys::{
    blake3_derive_key, blake3_derive_key_of, blake3_hash, blake3_hash_of, blake3_keyed_hash,
    blake3_keyed_hash_of, digest_bytes, ed25519_sign_of, privkey_bytes, pubkey_bytes, sig_bytes,
    symkey_bytes, BlockId, Digest, ObjectId, PrivKey, PubKey, Sig, SymKey, Timestamp,
};
use crate::overlay::{OverlayMeta, OverlayView};
use crate::server::{add_user_outcome, advert_peers, is_deletion, is_sync, joined_members, BrokerServer};
use crate::store::is_id_of;
use crate::traverse::{contains_id, is_traversal, Edges};
use crate::types::{
    AddUserContentV0, BlockGet, BrokerOverlayRequestContentV0, BranchSyncReq, OverlayId, RepoLink,
    RepoLinkV0,
};

verus! {

/// Context string of the key that private overlay ids are keyed with.
pub const OVERLAY_ID_KEY_CONTEXT: &'static str = "LoFiRe OverlayId BLAKE3 key";

/// The bytes of the id of the overlay of a repository: for a public overlay
/// the BLAKE3 hash of the repository key; for a private one its BLAKE3
/// keyed hash, keyed by a key derived from the repository secret.
pub open spec fn overlay_id_of(repo: PubKey, secret: SymKey, public: bool) -> Seq<u8> {
    if public {
        blake3_hash_of(pubkey_bytes(repo))
    } else {
        blake3_keyed_hash_of(
            blake3_derive_key_of(OVERLAY_ID_KEY_CONTEXT@, symkey_bytes(secret)),
            pubkey_bytes(repo),
        )
    }
}

/// Whether connecting `user` to overlay `id` with the link fails: the user
/// is not yet a member, the overlay exists, and its secret is not the
/// link's (the fallback join is refused).
pub open spec fn connect_fails(
    ov: Map<OverlayId, OverlayView>,
    members: Seq<(PubKey, OverlayId)>,
    user: PubKey,
    id: OverlayId,
    link: RepoLink,
) -> bool {
    &&& !members.contains((user, id))
    &&& ov.contains_key(id)
    &&& ov[id].secret != link.secret_spec()
}

/// The overlays after connecting `user` to overlay `id` with the link:
/// unchanged if the user is already a member of it; else as joining it with
/// the link's secret and peers does (created with one user and `now` as
/// last use, or one more user counted), unless the join is refused.
pub open spec fn connected_overlays(
    ov: Map<OverlayId, OverlayView>,
    members: Seq<(PubKey, OverlayId)>,
    user: PubKey,
    id: OverlayId,
    link: RepoLink,
    now: Timestamp,
) -> Map<OverlayId, OverlayView> {
    if ov.contains_key(id) && members.contains((user, id)) {
        ov
    } else if !ov.contains_key(id) {
        ov.insert(
            id,
            OverlayView {
                secret: link.secret_spec(),
                peers: advert_peers(link.peers_spec()@),
                topics: Set::empty(),
                meta: OverlayMeta { users: 1, last_used: now },
                repo: None,
            },
        )
    } else if ov[id].secret == link.secret_spec() {
        ov.insert(
            id,
            OverlayView {
                peers: ov[id].peers.union(advert_peers(link.peers_spec()@)),
                meta: OverlayMeta {
                    users: if ov[id].meta.users < u32::MAX {
                        (ov[id].meta.users + 1) as u32
                    } else {
                        u32::MAX
                    },
                    last_used: now,
                },
                ..ov[id]
            },
        )
    } else {
        ov
    }
}

/// The members after connecting `user` to overlay `id` with the link.
pub open spec fn connected_members(
    ov: Map<OverlayId, OverlayView>,
    members: Seq<(PubKey, OverlayId)>,
    user: PubKey,
    id: OverlayId,
    link: RepoLink,
) -> Seq<(PubKey, OverlayId)> {
    if (ov.contains_key(id) && members.contains((user, id))) || connect_fails(ov, members, user, id, link) {
        members
    } else {
        joined_members(members, user, id)
    }
}

impl RepoLink {
    /// The peers to connect to, borrowed.
    pub fn peers_ref(&self) -> (r: &Vec<crate::types::PeerAdvert>)
        ensures
            *r == self.peers_spec(),
    {
        match self {
            RepoLink::V0(o) => &o.peers,
        }
    }
}

/// A connection to an overlay of a broker.
pub struct OverlayConnectionClient {
    overlay: OverlayId,
}

impl OverlayConnectionClient {
    /// The overlay this client is connected to.
    pub closed spec fn overlay_spec(&self) -> OverlayId {
        self.overlay
    }

    /// The id of the overlay of a repository.
    pub fn overlay(repo_link: &RepoLink, public: bool) -> (r: OverlayId)
        ensures
            digest_bytes(r) == overlay_id_of(repo_link.id_spec(), repo_link.secret_spec(), public),
    {
        let id = repo_link.id();
        if public {
            Digest::Blake3Digest32(blake3_hash(id.slice()))
        } else {
            let secret = repo_link.secret();
            let key = blake3_derive_key(OVERLAY_ID_KEY_CONTEXT, secret.slice());
            Digest::Blake3Digest32(blake3_keyed_hash(&key, id.slice()))
        }
    }

    /// The overlay this client is connected to.
    pub fn overlay_id(&self) -> (r: OverlayId)
        ensures
            r == self.overlay_spec(),
    {
        self.overlay
    }

    /// Stores a block in the overlay and returns its id.
    pub fn put_block(&self, cnx: &mut BrokerConnectionLocal, block: &Block) -> (r: Result<
        BlockId,
        ProtocolError,
    >)
        requires
            old(cnx).wf(),
        ensures
            final(cnx).wf(),
            final(cnx).user() == old(cnx).user(),
            final(cnx).broker().overlays() == old(cnx).broker().overlays(),
            final(cnx).broker().users() == old(cnx).broker().users(),
            final(cnx).broker().max_block_size() == old(cnx).broker().max_block_size(),
            forall|k: BlockId| old(cnx).broker().blocks().contains_key(k) ==> #[trigger] final(cnx).broker().blocks().contains_key(k),
            match r {
                Ok(id) => {
                    &&& is_id_of(id, block@)
                    &&& old(cnx).broker().overlays().contains_key(self.overlay_spec())
                    &&& final(cnx).broker().blocks().contains_key(id)
                    &&& final(cnx).broker().blocks()[id] == (if old(cnx).broker().blocks().contains_key(id) {
                        old(cnx).broker().blocks()[id]
                    } else {
                        block@
                    })
                    &&& forall|k: BlockId| k != id ==> final(cnx).broker().blocks().contains_key(k) == old(cnx).broker().blocks().contains_key(k)
                },
                Err(e) => {
                    &&& final(cnx).broker().blocks() == old(cnx).broker().blocks()
                    &&& (e == ProtocolError::OverlayNotJoined <==> !old(cnx).broker().overlays().contains_key(self.overlay_spec()))
                    &&& (e != ProtocolError::OverlayNotJoined ==> e == ProtocolError::InvalidBlock)
                },
            },
            old(cnx).broker().overlays().contains_key(self.overlay_spec())
                && crate::block::block_encoding(block@).len() <= old(cnx).broker().max_block_size() ==> r is Ok,
            old(cnx).broker().overlays().contains_key(self.overlay_spec())
                && crate::block::block_encoding(block@).len() > old(cnx).broker().max_block_size() ==> r
                == Err::<BlockId, ProtocolError>(ProtocolError::InvalidBlock),
    {
        let id = block.id();
        let res = cnx.broker.block_put(&self.overlay, block.duplicate());
        match res {
            Ok(()) => {
                proof {
                    let w = choose|w: BlockId|
                        is_id_of(w, block@) && #[trigger] cnx.broker.blocks().contains_key(w) && (
                        old(cnx).broker.blocks().contains_key(w) ==> cnx.broker.blocks() == old(cnx).broker.blocks())
                        && (!old(cnx).broker.blocks().contains_key(w) ==> cnx.broker.blocks() == old(
                        cnx,
                    ).broker.blocks().insert(w, block@));
                    lemma_same_digest(w, id);
                }
                Ok(id)
            },
            Err(e) => Err(e),
        }
    }

    /// The blocks of `BlockGet`: the root, then (if asked) every block below
    /// it once, breadth first.
    pub fn get_block(
        &self,
        cnx: &BrokerConnectionLocal,
        id: BlockId,
        include_children: bool,
        topic: Option<PubKey>,
    ) -> (r: Result<Vec<Block>, ProtocolError>)
        requires
            cnx.wf(),
        ensures
            !cnx.broker().overlays().contains_key(self.overlay_spec()) ==> r == Err::<
                Vec<Block>,
                ProtocolError,
            >(ProtocolError::OverlayNotJoined),
            cnx.broker().overlays().contains_key(self.overlay_spec()) && !cnx.broker().blocks().contains_key(id)
                ==> r == Err::<Vec<Block>, ProtocolError>(ProtocolError::NotFound),
            cnx.broker().overlays().contains_key(self.overlay_spec()) && cnx.broker().blocks().contains_key(id)
                ==> r is Ok,
            r is Ok ==> exists|ids: Seq<BlockId>|
                #![trigger blocks_match(r->Ok_0@, ids, cnx.broker().blocks())]
                blocks_match(r->Ok_0@, ids, cnx.broker().blocks()) && ids.len() > 0 && ids[0] == id
                    && (!include_children ==> ids == seq![id]) && (include_children ==> is_traversal(
                    ids,
                    cnx.broker().blocks(),
                    seq![id],
                    Edges::Children,
                    Seq::empty(),
                    Seq::empty(),
                )),
    {
        let req = BrokerOverlayRequestContentV0::BlockGet(
            BlockGet::V0(crate::types::BlockGetV0 { id, include_children, topic }),
        );
        cnx.process_overlay_request_stream_response(self.overlay, &req)
    }

    /// Synchronises a branch: the blocks of the commits reachable from
    /// `heads` through dependencies, leaving out those reachable from
    /// `known_heads` and those the filter of known commits reports.
    pub fn sync_branch(
        &self,
        cnx: &BrokerConnectionLocal,
        heads: Vec<ObjectId>,
        known_heads: Vec<ObjectId>,
        known_commits: crate::keys::BloomFilter,
    ) -> (r: Result<Vec<Block>, ProtocolError>)
        requires
            cnx.wf(),
        ensures
            !cnx.broker().overlays().contains_key(self.overlay_spec()) ==> r == Err::<
                Vec<Block>,
                ProtocolError,
            >(ProtocolError::OverlayNotJoined),
            cnx.broker().overlays().contains_key(self.overlay_spec()) && !crate::traverse::filter_usable(
                known_commits,
            ) ==> r == Err::<Vec<Block>, ProtocolError>(ProtocolError::InvalidMessage),
            cnx.broker().overlays().contains_key(self.overlay_spec()) && crate::traverse::filter_usable(
                known_commits,
            ) ==> r is Ok,
            r is Ok ==> exists|known: Seq<BlockId>, reported: Seq<BlockId>, commits: Seq<BlockId>, ids: Seq<BlockId>|
                #![trigger blocks_match(r->Ok_0@, ids, cnx.broker().blocks()), is_sync(cnx.broker().blocks(), heads@, known_heads@, known, reported, commits)]
                is_sync(cnx.broker().blocks(), heads@, known_heads@, known, reported, commits)
                    && is_traversal(ids, cnx.broker().blocks(), commits, Edges::Children, Seq::empty(), Seq::empty())
                    && blocks_match(r->Ok_0@, ids, cnx.broker().blocks()),
    {
        let req = BrokerOverlayRequestContentV0::BranchSyncReq(
            BranchSyncReq::V0(crate::types::BranchSyncReqV0 { heads, known_heads, known_commits }),
        );
        cnx.process_overlay_request_stream_response(self.overlay, &req)
    }

    /// Deletes an object: its root block leaves the broker's store, with
    /// every block below it that no other stored block still reaches.
    pub fn delete_object(&self, cnx: &mut BrokerConnectionLocal, id: ObjectId, now: Timestamp) -> (r: Result<(), ProtocolError>)
        requires
            old(cnx).wf(),
        ensures
            final(cnx).wf(),
            final(cnx).user() == old(cnx).user(),
            final(cnx).broker().overlays() == old(cnx).broker().overlays(),
            final(cnx).broker().users() == old(cnx).broker().users(),
            !old(cnx).broker().overlays().contains_key(self.overlay_spec()) ==> r == Err::<(), ProtocolError>(
                ProtocolError::OverlayNotJoined) && final(cnx).broker().blocks() == old(cnx).broker().blocks(),
            old(cnx).broker().overlays().contains_key(self.overlay_spec()) && !old(cnx).broker().blocks().contains_key(id)
                ==> r == Err::<(), ProtocolError>(ProtocolError::NotFound) && final(cnx).broker().blocks()
                == old(cnx).broker().blocks(),
            old(cnx).broker().overlays().contains_key(self.overlay_spec()) && old(cnx).broker().blocks().contains_key(id)
                ==> r is Ok && exists|below: Seq<BlockId>, others: Seq<BlockId>, live: Seq<BlockId>|
                #![trigger is_deletion(old(cnx).broker().blocks(), final(cnx).broker().blocks(), id, below, others, live)]
                is_deletion(old(cnx).broker().blocks(), final(cnx).broker().blocks(), id, below, others, live),
    {
        let req = BrokerOverlayRequestContentV0::ObjectDel(
            crate::types::ObjectDel::V0(crate::types::ObjectDelV0 { id }),
        );
        cnx.process_overlay_request(self.overlay, &req, now)
    }

    /// The blocks of an object: its root, then every block below it once.
    /// `MissingBlocks` if a block of the object lists a child that the
    /// broker does not hold.
    pub fn get_object(&self, cnx: &BrokerConnectionLocal, id: ObjectId, topic: Option<PubKey>) -> (r:
        Result<Vec<Block>, ProtocolError>)
        requires
            cnx.wf(),
        ensures
            !cnx.broker().overlays().contains_key(self.overlay_spec()) ==> r == Err::<
                Vec<Block>,
                ProtocolError,
            >(ProtocolError::OverlayNotJoined),
            cnx.broker().overlays().contains_key(self.overlay_spec()) && !cnx.broker().blocks().contains_key(id)
                ==> r == Err::<Vec<Block>, ProtocolError>(ProtocolError::NotFound),
            r is Ok ==> exists|ids: Seq<BlockId>|
                #![trigger blocks_match(r->Ok_0@, ids, cnx.broker().blocks())]
                blocks_match(r->Ok_0@, ids, cnx.broker().blocks()) && ids.len() > 0 && ids[0] == id
                    && is_traversal(
                    ids,
                    cnx.broker().blocks(),
                    seq![id],
                    Edges::Children,
                    Seq::empty(),
                    Seq::empty(),
                ) && forall|i: int, c: BlockId|
                    0 <= i < ids.len() && #[trigger] cnx.broker().blocks()[ids[i]].children.contains(c)
                        ==> cnx.broker().blocks().contains_key(c),
            r is Err && cnx.broker().overlays().contains_key(self.overlay_spec()) && cnx.broker().blocks().contains_key(id)
                ==> r == Err::<Vec<Block>, ProtocolError>(ProtocolError::MissingBlocks),
            r == Err::<Vec<Block>, ProtocolError>(ProtocolError::MissingBlocks) ==> exists|
                ids: Seq<BlockId>,
                i: int,
                c: BlockId,
            |
                #![trigger is_traversal(ids, cnx.broker().blocks(), seq![id], Edges::Children, Seq::empty(), Seq::empty()), cnx.broker().blocks()[ids[i]].children.contains(c)]
                is_traversal(ids, cnx.broker().blocks(), seq![id], Edges::Children, Seq::empty(), Seq::empty())
                    && 0 <= i < ids.len() && cnx.broker().blocks()[ids[i]].children.contains(c)
                    && !cnx.broker().blocks().contains_key(c),
    {
        let blocks = match self.get_block(cnx, id, true, topic) {
            Ok(b) => b,
            Err(e) => {
                return Err(e);
            },
        };
        let ghost ids = choose|ids: Seq<BlockId>|
            #![trigger blocks_match(blocks@, ids, cnx.broker().blocks())]
            blocks_match(blocks@, ids, cnx.broker().blocks()) && ids.len() > 0 && ids[0] == id
                && is_traversal(ids, cnx.broker().blocks(), seq![id], Edges::Children, Seq::empty(), Seq::empty());
        let mut i: usize = 0;
        while i < blocks.len()
            invariant
                cnx.wf(),
                cnx.broker().overlays().contains_key(self.overlay_spec()),
                cnx.broker().blocks().contains_key(id),
                0 <= i <= blocks@.len(),
                blocks_match(blocks@, ids, cnx.broker().blocks()),
                is_traversal(ids, cnx.broker().blocks(), seq![id], Edges::Children, Seq::empty(), Seq::empty()),
                forall|j: int, c: BlockId|
                    0 <= j < i && #[trigger] cnx.broker().blocks()[ids[j]].children.contains(c)
                        ==> cnx.broker().blocks().contains_key(c),
            decreases blocks@.len() - i,
        {
            let children = blocks[i].children();
            let mut k: usize = 0;
            while k < children.len()
                invariant
                    cnx.wf(),
                    cnx.broker().overlays().contains_key(self.overlay_spec()),
                    cnx.broker().blocks().contains_key(id),
                    0 <= i < blocks@.len(),
                    blocks_match(blocks@, ids, cnx.broker().blocks()),
                    is_traversal(ids, cnx.broker().blocks(), seq![id], Edges::Children, Seq::empty(), Seq::empty()),
                    children@ == cnx.broker().blocks()[ids[i as int]].children,
                    0 <= k <= children@.len(),
                    forall|p: int| 0 <= p < k ==> cnx.broker().blocks().contains_key(#[trigger] children@[p]),
                decreases children@.len() - k,
            {
                if !cnx.broker.has_block(&children[k]) {
                    proof {
                        assert(cnx.broker().blocks()[ids[i as int]].children.contains(children@[k as int]));
                    }
                    return Err(ProtocolError::MissingBlocks);
                }
                k = k + 1;
            }
            proof {
                assert forall|j: int, c: BlockId|
                    0 <= j < i + 1 && #[trigger] cnx.broker().blocks()[ids[j]].children.contains(c)
                        implies cnx.broker().blocks().contains_key(c) by {
                    if j == i {
                        let p = choose|p: int| 0 <= p < children@.len() && children@[p] == c;
                    }
                }
            }
            i = i + 1;
        }
        Ok(blocks)
    }

    /// Stores the blocks of an object and returns the object's id: the id of
    /// its root block, which comes last. The blocks put are those at the
    /// positions `object_puts` gives, in that order: each distinct block
    /// once, in order of first occurrence. The first put that fails ends the
    /// upload with its error.
    pub fn put_object(&self, cnx: &mut BrokerConnectionLocal, blocks: &Vec<Block>) -> (r: Result<
        ObjectId,
        ProtocolError,
    >)
        requires
            old(cnx).wf(),
            blocks@.len() > 0,
        ensures
            final(cnx).wf(),
            final(cnx).user() == old(cnx).user(),
            final(cnx).broker().overlays() == old(cnx).broker().overlays(),
            final(cnx).broker().users() == old(cnx).broker().users(),
            r is Ok ==> is_id_of(r->Ok_0, blocks@.last()@) && puts_landed(
                old(cnx).broker().blocks(),
                final(cnx).broker().blocks(),
                blocks@,
                blocks@.len() as int,
            ),
            !old(cnx).broker().overlays().contains_key(self.overlay_spec()) ==> r == Err::<
                ObjectId,
                ProtocolError,
            >(ProtocolError::OverlayNotJoined) && final(cnx).broker().blocks() == old(cnx).broker().blocks(),
            old(cnx).broker().overlays().contains_key(self.overlay_spec()) && (forall|j: int|
                0 <= j < blocks@.len() ==> crate::block::block_encoding(#[trigger] blocks@[j]@).len()
                    <= old(cnx).broker().max_block_size()) ==> r is Ok,
            old(cnx).broker().overlays().contains_key(self.overlay_spec()) && r is Err ==> r == Err::<
                ObjectId,
                ProtocolError,
            >(ProtocolError::InvalidBlock) && exists|j: int|
                0 <= j < blocks@.len() && first_with_id(blocks@, j) && crate::block::block_encoding(#[trigger] blocks@[j]@).len()
                    > old(cnx).broker().max_block_size() && puts_landed(
                    old(cnx).broker().blocks(),
                    final(cnx).broker().blocks(),
                    blocks@,
                    j,
                ),
    {
        let order = object_puts(blocks);
        proof {
            assert(first_with_id(blocks@, 0));
            assert(order@.contains(0usize));
        }
        let mut t: usize = 0;
        while t < order.len()
            invariant
                cnx.wf(),
                cnx.user() == old(cnx).user(),
                cnx.broker().overlays() == old(cnx).broker().overlays(),
                cnx.broker().users() == old(cnx).broker().users(),
                cnx.broker().max_block_size() == old(cnx).broker().max_block_size(),
                0 <= t <= order@.len(),
                t > 0 ==> old(cnx).broker().overlays().contains_key(self.overlay_spec()),
                t == 0 ==> cnx.broker().blocks() == old(cnx).broker().blocks(),
                forall|a: int, b: int| 0 <= a < b < order@.len() ==> order@[a] < order@[b],
                forall|u: int| 0 <= u < order@.len() ==> #[trigger] order@[u] < blocks@.len(),
                forall|i: int| 0 <= i < blocks@.len() ==> (first_with_id(blocks@, i) <==> order@.contains(i as usize)),
                forall|i: int| 0 <= i < blocks@.len() ==> #[trigger] sent_at_or_before(blocks@, order@, i),
                forall|k: BlockId| #[trigger] cnx.broker().blocks().contains_key(k) <==> (old(cnx).broker().blocks().contains_key(k)
                    || exists|s: int| 0 <= s < t && is_id_of(k, blocks@[order@[s] as int]@)),
            decreases order@.len() - t,
        {
            let j = order[t];
            let ghost before = cnx.broker().blocks();
            match self.put_block(cnx, &blocks[j]) {
                Ok(_) => {},
                Err(e) => {
                    proof {
                        lemma_puts_prefix(old(cnx).broker().blocks(), cnx.broker().blocks(), blocks@, order@, t as int, j as int);
                        assert(first_with_id(blocks@, j as int)) by {
                            assert(order@[t as int] == j);
                        }
                    }
                    return Err(e);
                },
            }
            proof {
                assert forall|k: BlockId| #[trigger] cnx.broker().blocks().contains_key(k) <==> (old(cnx).broker().blocks().contains_key(k)
                    || exists|s: int| 0 <= s < t + 1 && is_id_of(k, blocks@[order@[s] as int]@)) by {
                    if exists|s: int| 0 <= s < t + 1 && is_id_of(k, blocks@[order@[s] as int]@) {
                        let s = choose|s: int| 0 <= s < t + 1 && is_id_of(k, blocks@[order@[s] as int]@);
                        if s == t {
                            assert(cnx.broker().blocks().contains_key(k)) by {
                                let w = choose|w: BlockId| is_id_of(w, blocks@[j as int]@) && cnx.broker().blocks().contains_key(w);
                                lemma_same_digest(w, k);
                            }
                        } else {
                            assert(before.contains_key(k));
                        }
                    }
                    if before.contains_key(k) {
                        assert(cnx.broker().blocks().contains_key(k));
                    }
                    if cnx.broker().blocks().contains_key(k) && !before.contains_key(k) {
                        let w = choose|w: BlockId| is_id_of(w, blocks@[j as int]@) && cnx.broker().blocks().contains_key(w) && !before.contains_key(w);
                        assert(is_id_of(k, blocks@[order@[t as int] as int]@));
                    }
                }
            }
            t = t + 1;
        }
        proof {
            lemma_puts_prefix(old(cnx).broker().blocks(), cnx.broker().blocks(), blocks@, order@, t as int, blocks@.len() as int);
        }
        Ok(blocks[blocks.len() - 1].id())
    }
}

/// Whether block `i` is the first of the list with its id.
pub open spec fn first_with_id(blocks: Seq<Block>, i: int) -> bool {
    forall|j: int| 0 <= j < i ==> block_id_of(blocks[j]@) != block_id_of(blocks[i]@)
}

/// Whether some position of `sent`, at or before `i`, holds a block with the
/// id of block `i`.
pub open spec fn sent_at_or_before(blocks: Seq<Block>, sent: Seq<usize>, i: int) -> bool {
    exists|t: int|
        0 <= t < sent.len() && sent[t] <= i && #[trigger] block_id_of(blocks[sent[t] as int]@) == block_id_of(blocks[i]@)
}

/// Which blocks of an object are sent, in order: the positions of the first
/// block with each id, increasing. Every block has the same id as a sent
/// block at or before it.
pub fn object_puts(blocks: &Vec<Block>) -> (r: Vec<usize>)
    ensures
        forall|a: int, b: int| 0 <= a < b < r@.len() ==> r@[a] < r@[b],
        forall|t: int| 0 <= t < r@.len() ==> #[trigger] r@[t] < blocks@.len(),
        forall|i: int| 0 <= i < blocks@.len() ==> (first_with_id(blocks@, i) <==> r@.contains(i as usize)),
        forall|i: int| 0 <= i < blocks@.len() ==> #[trigger] sent_at_or_before(blocks@, r@, i),
{
    let mut r: Vec<usize> = Vec::new();
    let mut ids: Vec<BlockId> = Vec::new();
    let ghost mut rep: Seq<int> = Seq::empty();
    let mut i: usize = 0;
    while i < blocks.len()
        invariant
            0 <= i <= blocks@.len(),
            ids@.len() == r@.len(),
            rep.len() == i,
            forall|a: int, b: int| 0 <= a < b < r@.len() ==> r@[a] < r@[b],
            forall|t: int| 0 <= t < r@.len() ==> #[trigger] r@[t] < i,
            forall|t: int| 0 <= t < r@.len() ==> digest_bytes(#[trigger] ids@[t]) == block_id_of(blocks@[r@[t] as int]@),
            forall|j: int| 0 <= j < i ==> (first_with_id(blocks@, j) <==> r@.contains(j as usize)),
            forall|j: int|
                0 <= j < i ==> 0 <= #[trigger] rep[j] < r@.len() && r@[rep[j]] <= j && block_id_of(blocks@[r@[rep[j]] as int]@)
                    == block_id_of(blocks@[j]@),
        decreases blocks@.len() - i,
    {
        let id = blocks[i].id();
        let seen = contains_id(&ids, &id);
        let ghost old_r = r@;
        let ghost t_seen: int = if seen { choose|t: int| 0 <= t < ids@.len() && ids@[t] == id } else { 0 };
        proof {
            if seen {
                assert(block_id_of(blocks@[r@[t_seen] as int]@) == block_id_of(blocks@[i as int]@));
                assert(!first_with_id(blocks@, i as int));
            } else {
                assert forall|j: int| 0 <= j < i implies block_id_of(blocks@[j]@) != block_id_of(blocks@[i as int]@) by {
                    let t = rep[j];
                    if block_id_of(blocks@[j]@) == block_id_of(blocks@[i as int]@) {
                        lemma_same_digest(ids@[t], id);
                        assert(ids@[t] == id);
                        assert(ids@.contains(id));
                    }
                }
            }
        }
        if !seen {
            r.push(i);
            ids.push(id);
        }
        proof {
            rep = rep.push(if seen { t_seen } else { old_r.len() as int });
            assert forall|j: int| 0 <= j < i + 1 implies (first_with_id(blocks@, j) <==> r@.contains(j as usize)) by {
                if j < i {
                    if old_r.contains(j as usize) {
                        let t = choose|t: int| 0 <= t < old_r.len() && old_r[t] == j as usize;
                        assert(r@[t] == j as usize);
                    }
                    if r@.contains(j as usize) {
                        let t = choose|t: int| 0 <= t < r@.len() && r@[t] == j as usize;
                        if t < old_r.len() {
                            assert(old_r[t] == j as usize);
                        }
                    }
                } else {
                    if !seen {
                        assert(r@[old_r.len() as int] == i);
                    } else {
                        if r@.contains(j as usize) {
                            let t = choose|t: int| 0 <= t < r@.len() && r@[t] == j as usize;
                        }
                    }
                }
            }
        }
        i = i + 1;
    }
    proof {
        assert forall|j: int| 0 <= j < blocks@.len() implies #[trigger] sent_at_or_before(blocks@, r@, j) by {
            let t = rep[j];
            assert(0 <= t < r@.len() && r@[t] <= j && block_id_of(blocks@[r@[t] as int]@) == block_id_of(blocks@[j]@));
        }
    }
    r
}

/// The blocks after putting the first `n` blocks of a list, each distinct
/// one once, in order: those held before, and the ids of those `n` blocks.
pub open spec fn puts_landed(
    before: Map<BlockId, BlockView>,
    after: Map<BlockId, BlockView>,
    blocks: Seq<Block>,
    n: int,
) -> bool {
    forall|k: BlockId| #[trigger] after.contains_key(k) <==> (before.contains_key(k)
        || exists|t: int| 0 <= t < n && is_id_of(k, blocks[t]@))
}

/// The ids put for the first `t` positions of `order` are the ids of the
/// blocks before `bound`, where `bound` is the position `order` names next
/// (or the end of the list).
proof fn lemma_puts_prefix(
    before: Map<BlockId, BlockView>,
    after: Map<BlockId, BlockView>,
    blocks: Seq<Block>,
    order: Seq<usize>,
    t: int,
    bound: int,
)
    requires
        0 <= t <= order.len(),
        t < order.len() ==> bound == order[t],
        t == order.len() ==> bound == blocks.len(),
        forall|a: int, b: int| 0 <= a < b < order.len() ==> order[a] < order[b],
        forall|u: int| 0 <= u < order.len() ==> #[trigger] order[u] < blocks.len(),
        forall|i: int| 0 <= i < blocks.len() ==> #[trigger] sent_at_or_before(blocks, order, i),
        forall|k: BlockId| #[trigger] after.contains_key(k) <==> (before.contains_key(k)
            || exists|s: int| 0 <= s < t && is_id_of(k, blocks[order[s] as int]@)),
    ensures
        puts_landed(before, after, blocks, bound),
{
    assert forall|k: BlockId| #[trigger] after.contains_key(k) <==> (before.contains_key(k)
        || exists|i: int| 0 <= i < bound && is_id_of(k, blocks[i]@)) by {
        if exists|s: int| 0 <= s < t && is_id_of(k, blocks[order[s] as int]@) {
            let s = choose|s: int| 0 <= s < t && is_id_of(k, blocks[order[s] as int]@);
            if t < order.len() {
                assert(order[s] < order[t]);
            }
            assert(0 <= order[s] as int && (order[s] as int) < bound && is_id_of(k, blocks[order[s] as int]@));
        }
        if exists|i: int| 0 <= i < bound && is_id_of(k, blocks[i]@) {
            let i = choose|i: int| 0 <= i < bound && is_id_of(k, blocks[i]@);
            assert(sent_at_or_before(blocks, order, i));
            let u = choose|u: int|
                0 <= u < order.len() && order[u] <= i && #[trigger] block_id_of(blocks[order[u] as int]@) == block_id_of(blocks[i]@);
            if u >= t {
                if u > t {
                    assert(order[t] < order[u]);
                }
            }
            assert(u < t);
            assert(is_id_of(k, blocks[order[u] as int]@));
        }
    }
}

/// Two digests with the same bytes are the same digest.
pub proof fn lemma_same_digest(a: Digest, b: Digest)
    requires
        digest_bytes(a) == digest_bytes(b),
    ensures
        a == b,
{
    match (a, b) {
        (Digest::Blake3Digest32(x), Digest::Blake3Digest32(y)) => {
            crate::keys::lemma_bytes32_ext(x, y);
        },
    }
}

/// Whether `blocks` are the stored blocks with ids `ids`, in order.
pub open spec fn blocks_match(blocks: Seq<Block>, ids: Seq<BlockId>, store: Map<BlockId, BlockView>) -> bool {
    &&& blocks.len() == ids.len()
    &&& forall|i: int| 0 <= i < ids.len() ==> store.contains_key(#[trigger] ids[i])
    &&& forall|i: int| 0 <= i < ids.len() ==> #[trigger] blocks[i]@ == store[ids[i]]
}

/// A connection of one user to a broker held in-process.
pub struct BrokerConnectionLocal {
    broker: BrokerServer,
    user: PubKey,
}

/// The signature that signing a request content with a keypair gives, if any.
pub open spec fn signature_by(sk: PrivKey, pk: PubKey, content: Seq<u8>) -> Option<Seq<u8>> {
    ed25519_sign_of(privkey_bytes(sk), pubkey_bytes(pk), content)
}

impl BrokerConnectionLocal {
    /// The broker.
    pub closed spec fn broker(&self) -> BrokerServer {
        self.broker
    }

    /// The connected user.
    pub closed spec fn user(&self) -> PubKey {
        self.user
    }

    /// The connection's invariant.
    pub closed spec fn wf(&self) -> bool {
        self.broker.wf()
    }

    /// Connects `user` to a broker.
    pub fn new(broker: BrokerServer, user: PubKey) -> (r: BrokerConnectionLocal)
        requires
            broker.wf(),
        ensures
            r.wf(),
            r.broker() == broker,
            r.user() == user,
    {
        BrokerConnectionLocal { broker, user }
    }

    /// The broker, borrowed.
    pub fn broker_ref(&self) -> (r: &BrokerServer)
        ensures
            *r == self.broker(),
    {
        &self.broker
    }

    /// Gives the broker back.
    pub fn into_broker(self) -> (r: BrokerServer)
        ensures
            r == self.broker(),
    {
        self.broker
    }

    /// Adds a user: the connected user signs the request with
    /// `admin_user_pk` and the broker decides.
    pub fn add_user(&mut self, user_id: PubKey, admin_user_pk: PrivKey) -> (r: Result<(), ProtocolError>)
        requires
            old(self).wf(),
        ensures
            final(self).wf(),
            final(self).user() == old(self).user(),
            final(self).broker().overlays() == old(self).broker().overlays(),
            final(self).broker().blocks() == old(self).broker().blocks(),
            final(self).broker().admins() == old(self).broker().admins(),
            final(self).broker().mode() == old(self).broker().mode(),
            signature_by(admin_user_pk, old(self).user(), add_user_content_encoding(AddUserContentV0 { user: user_id })) is None
                ==> r == Err::<(), ProtocolError>(ProtocolError::SignatureError) && final(self).broker().users() == old(self).broker().users(),
            signature_by(admin_user_pk, old(self).user(), add_user_content_encoding(AddUserContentV0 { user: user_id })) is Some
                ==> exists|sig: Sig|
                #![trigger add_user_outcome(old(self).broker().users(), old(self).broker().admins(), old(self).broker().mode(), user_id, old(self).user(), sig)]
                signature_by(admin_user_pk, old(self).user(), add_user_content_encoding(AddUserContentV0 { user: user_id }))
                    == Some(sig_bytes(sig)) && r == add_user_outcome(
                    old(self).broker().users(),
                    old(self).broker().admins(),
                    old(self).broker().mode(),
                    user_id,
                    old(self).user(),
                    sig,
                ) && (r is Ok ==> final(self).broker().users() == old(self).broker().users().push(user_id))
                && (r is Err ==> final(self).broker().users() == old(self).broker().users()),
    {
        let op_content = AddUserContentV0 { user: user_id };
        let bytes = encode_add_user_content(&op_content);
        let sig = match sign(admin_user_pk, self.user, &bytes) {
            Ok(s) => s,
            Err(e) => {
                return Err(e);
            },
        };
        let r = self.broker.add_user(user_id, self.user, sig);
        proof {
            assert(add_user_outcome(old(self).broker().users(), old(self).broker().admins(), old(self).broker().mode(), user_id, old(self).user(), sig) == r);
        }
        r
    }

    /// Connects the user to the overlay of a repository: its id is computed
    /// from the link; if the broker has not joined the overlay, or the user
    /// is not a member of it, the overlay is joined with the link's secret and
    /// peers. A refused join (`InvalidSecret`) is returned unchanged.
    pub fn overlay_connect(&mut self, repo_link: &RepoLink, public: bool, now: Timestamp) -> (r:
        Result<OverlayConnectionClient, ProtocolError>)
        requires
            old(self).wf(),
        ensures
            final(self).wf(),
            final(self).user() == old(self).user(),
            final(self).broker().blocks() == old(self).broker().blocks(),
            final(self).broker().users() == old(self).broker().users(),
            exists|id: OverlayId|
                #![trigger connected_overlays(old(self).broker().overlays(), old(self).broker().members(), old(self).user(), id, *repo_link, now)]
                digest_bytes(id) == overlay_id_of(repo_link.id_spec(), repo_link.secret_spec(), public)
                && final(self).broker().overlays() == connected_overlays(
                    old(self).broker().overlays(),
                    old(self).broker().members(),
                    old(self).user(),
                    id,
                    *repo_link,
                    now,
                ) && final(self).broker().members() == connected_members(
                    old(self).broker().overlays(),
                    old(self).broker().members(),
                    old(self).user(),
                    id,
                    *repo_link,
                ) && (r is Err <==> connect_fails(
                    old(self).broker().overlays(),
                    old(self).broker().members(),
                    old(self).user(),
                    id,
                    *repo_link,
                )) && (r is Err ==> r == Err::<OverlayConnectionClient, ProtocolError>(ProtocolError::InvalidSecret))
                && (r is Ok ==> r->Ok_0.overlay_spec() == id),
    {
        let overlay = OverlayConnectionClient::overlay(repo_link, public);
        let ghost ov0 = self.broker().overlays();
        let ghost m0 = self.broker().members();
        let ghost u0 = self.user;
        match self.broker.overlay_connect(&self.user, &overlay) {
            Ok(()) => {
                proof {
                    assert(ov0.contains_key(overlay) && m0.contains((u0, overlay)));
                    assert(self.broker().overlays() == connected_overlays(ov0, m0, u0, overlay, *repo_link, now));
                    assert(self.broker().members() == connected_members(ov0, m0, u0, overlay, *repo_link));
                }
            },
            Err(_) => {
                let secret = repo_link.secret();
                let joined = self.broker.overlay_join(self.user, &overlay, &secret, repo_link.peers_ref(), None, now);
                proof {
                    assert(!(ov0.contains_key(overlay) && m0.contains((u0, overlay))));
                    assert(self.broker().overlays() == connected_overlays(ov0, m0, u0, overlay, *repo_link, now));
                    assert(self.broker().members() == connected_members(ov0, m0, u0, overlay, *repo_link));
                    assert(joined is Err <==> connect_fails(ov0, m0, u0, overlay, *repo_link));
                }
                if let Err(e) = joined {
                    let r: Result<OverlayConnectionClient, ProtocolError> = Err(e);
                    proof {
                        assert(ov0 == old(self).broker().overlays() && m0 == old(self).broker().members() && u0 == old(self).user());
                        assert(connected_overlays(old(self).broker().overlays(), old(self).broker().members(), old(self).user(), overlay, *repo_link, now) == self.broker().overlays());
                        assert(connect_fails(old(self).broker().overlays(), old(self).broker().members(), old(self).user(), overlay, *repo_link));
                    }
                    return r;
                }
            },
        }
        let r: Result<OverlayConnectionClient, ProtocolError> = Ok(OverlayConnectionClient { overlay });
        proof {
            assert(ov0 == old(self).broker().overlays() && m0 == old(self).broker().members() && u0 == old(self).user());
            assert(connected_overlays(old(self).broker().overlays(), old(self).broker().members(), old(self).user(), overlay, *repo_link, now) == self.broker().overlays());
            assert(connected_members(old(self).broker().overlays(), old(self).broker().members(), old(self).user(), overlay, *repo_link) == self.broker().members());
            assert(!connect_fails(old(self).broker().overlays(), old(self).broker().members(), old(self).user(), overlay, *repo_link));
        }
        r
    }

    /// Performs a unary overlay request: connect, join, store a block or
    /// delete an object. Other requests are `InvalidState` here.
    pub fn process_overlay_request(
        &mut self,
        overlay: OverlayId,
        request: &BrokerOverlayRequestContentV0,
        now: Timestamp,
    ) -> (r: Result<(), ProtocolError>)
        requires
            old(self).wf(),
        ensures
            final(self).wf(),
            final(self).user() == old(self).user(),
            final(self).broker().users() == old(self).broker().users(),
            match request {
                BrokerOverlayRequestContentV0::OverlayConnect(_) => {
                    &&& (r is Ok <==> old(self).broker().overlays().contains_key(overlay)
                        && old(self).broker().members().contains((old(self).user(), overlay)))
                    &&& (r is Err ==> r == Err::<(), ProtocolError>(ProtocolError::OverlayNotJoined))
                    &&& final(self).broker() == old(self).broker()
                },
                BrokerOverlayRequestContentV0::OverlayJoin(crate::types::OverlayJoin::V0(j)) => {
                    &&& final(self).broker().blocks() == old(self).broker().blocks()
                    &&& (!old(self).broker().overlays().contains_key(overlay) ==> r is Ok
                        && final(self).broker().overlays().contains_key(overlay)
                        && final(self).broker().overlays()[overlay].secret == j.secret)
                    &&& (old(self).broker().overlays().contains_key(overlay)
                        && old(self).broker().overlays()[overlay].secret != j.secret ==> r == Err::<(), ProtocolError>(
                        ProtocolError::InvalidSecret) && final(self).broker().overlays() == old(self).broker().overlays())
                    &&& (old(self).broker().overlays().contains_key(overlay)
                        && old(self).broker().overlays()[overlay].secret == j.secret ==> r is Ok)
                },
                BrokerOverlayRequestContentV0::BlockPut(crate::types::BlockPut::V0(b)) => {
                    &&& final(self).broker().overlays() == old(self).broker().overlays()
                    &&& (!old(self).broker().overlays().contains_key(overlay) ==> r == Err::<(), ProtocolError>(
                        ProtocolError::OverlayNotJoined) && final(self).broker().blocks() == old(self).broker().blocks())
                    &&& (old(self).broker().overlays().contains_key(overlay) && crate::block::block_encoding(b@).len()
                        > old(self).broker().max_block_size() ==> r == Err::<(), ProtocolError>(ProtocolError::InvalidBlock)
                        && final(self).broker().blocks() == old(self).broker().blocks())
                    &&& (old(self).broker().overlays().contains_key(overlay) && crate::block::block_encoding(b@).len()
                        <= old(self).broker().max_block_size() ==> r is Ok && exists|id: BlockId|
                        is_id_of(id, b@) && #[trigger] final(self).broker().blocks().contains_key(id))
                },
                BrokerOverlayRequestContentV0::ObjectDel(crate::types::ObjectDel::V0(d)) => {
                    &&& final(self).broker().overlays() == old(self).broker().overlays()
                    &&& (!old(self).broker().overlays().contains_key(overlay) ==> r == Err::<(), ProtocolError>(
                        ProtocolError::OverlayNotJoined) && final(self).broker().blocks() == old(self).broker().blocks())
                    &&& (old(self).broker().overlays().contains_key(overlay) && !old(self).broker().blocks().contains_key(d.id)
                        ==> r == Err::<(), ProtocolError>(ProtocolError::NotFound) && final(self).broker().blocks()
                        == old(self).broker().blocks())
                    &&& (old(self).broker().overlays().contains_key(overlay) && old(self).broker().blocks().contains_key(d.id)
                        ==> r is Ok && exists|below: Seq<BlockId>, others: Seq<BlockId>, live: Seq<BlockId>|
                        #![trigger is_deletion(old(self).broker().blocks(), final(self).broker().blocks(), d.id, below, others, live)]
                        is_deletion(old(self).broker().blocks(), final(self).broker().blocks(), d.id, below, others, live))
                },
                _ => r == Err::<(), ProtocolError>(ProtocolError::InvalidState) && final(self).broker() == old(self).broker(),
            },
    {
        match request {
            BrokerOverlayRequestContentV0::OverlayConnect(_) => self.broker.overlay_connect(&self.user, &overlay),
            BrokerOverlayRequestContentV0::OverlayJoin(j) => {
                let secret = j.secret();
                self.broker.overlay_join(self.user, &overlay, &secret, j.peers(), j.repo_pubkey(), now)
            },
            BrokerOverlayRequestContentV0::BlockPut(b) => self.broker.block_put(&overlay, b.block().duplicate()),
            BrokerOverlayRequestContentV0::ObjectDel(d) => {
                let id = match d {
                    crate::types::ObjectDel::V0(v) => v.id,
                };
                self.broker.object_del(&overlay, &id)
            },
            _ => Err(ProtocolError::InvalidState),
        }
    }

    /// Performs a streamed overlay request, `BlockGet` or `BranchSyncReq`,
    /// and returns the blocks of the stream. Other requests are
    /// `InvalidState` here.
    pub fn process_overlay_request_stream_response(
        &self,
        overlay: OverlayId,
        request: &BrokerOverlayRequestContentV0,
    ) -> (r: Result<Vec<Block>, ProtocolError>)
        requires
            self.wf(),
        ensures
            match request {
                BrokerOverlayRequestContentV0::BlockGet(BlockGet::V0(g)) => {
                    &&& (!self.broker().overlays().contains_key(overlay) ==> r == Err::<Vec<Block>, ProtocolError>(ProtocolError::OverlayNotJoined))
                    &&& (self.broker().overlays().contains_key(overlay) && !self.broker().blocks().contains_key(g.id)
                        ==> r == Err::<Vec<Block>, ProtocolError>(ProtocolError::NotFound))
                    &&& (self.broker().overlays().contains_key(overlay) && self.broker().blocks().contains_key(g.id) ==> r is Ok)
                    &&& (r is Ok ==> exists|ids: Seq<BlockId>|
                        #![trigger blocks_match(r->Ok_0@, ids, self.broker().blocks())]
                        blocks_match(r->Ok_0@, ids, self.broker().blocks()) && ids.len() > 0 && ids[0] == g.id
                            && (!g.include_children ==> ids == seq![g.id]) && (g.include_children ==> is_traversal(
                            ids,
                            self.broker().blocks(),
                            seq![g.id],
                            Edges::Children,
                            Seq::empty(),
                            Seq::empty(),
                        )))
                },
                BrokerOverlayRequestContentV0::BranchSyncReq(BranchSyncReq::V0(q)) => {
                    &&& (!self.broker().overlays().contains_key(overlay) ==> r == Err::<Vec<Block>, ProtocolError>(ProtocolError::OverlayNotJoined))
                    &&& (self.broker().overlays().contains_key(overlay) && !crate::traverse::filter_usable(q.known_commits)
                        ==> r == Err::<Vec<Block>, ProtocolError>(ProtocolError::InvalidMessage))
                    &&& (self.broker().overlays().contains_key(overlay) && crate::traverse::filter_usable(q.known_commits)
                        ==> r is Ok)
                    &&& (r is Ok ==> exists|known: Seq<BlockId>, reported: Seq<BlockId>, commits: Seq<BlockId>, ids: Seq<BlockId>|
                        #![trigger blocks_match(r->Ok_0@, ids, self.broker().blocks()), is_sync(self.broker().blocks(), q.heads@, q.known_heads@, known, reported, commits)]
                        is_sync(self.broker().blocks(), q.heads@, q.known_heads@, known, reported, commits)
                        && is_traversal(ids, self.broker().blocks(), commits, Edges::Children, Seq::empty(), Seq::empty())
                        && blocks_match(r->Ok_0@, ids, self.broker().blocks()))
                },
                _ => r == Err::<Vec<Block>, ProtocolError>(ProtocolError::InvalidState),
            },
    {
        match request {
            BrokerOverlayRequestContentV0::BlockGet(BlockGet::V0(g)) => {
                let ids = match self.broker.block_get_ids(&overlay, &g.id, g.include_children) {
                    Ok(ids) => ids,
                    Err(e) => {
                        return Err(e);
                    },
                };
                proof {
                    if g.include_children {
                        assert forall|i: int| 0 <= i < ids@.len() implies self.broker().blocks().contains_key(#[trigger] ids@[i]) by {
                            assert(crate::traverse::is_taken(self.broker().blocks(), Seq::empty(), Seq::empty(), ids@[i]));
                        }
                    }
                }
                let blocks = self.broker.blocks_of(&ids);
                proof {
                    assert(blocks_match(blocks@, ids@, self.broker().blocks()));
                    assert(ids@.len() > 0 && ids@[0] == g.id);
                    if !g.include_children {
                        assert(ids@ == seq![g.id]);
                    }
                }
                let res: Result<Vec<Block>, ProtocolError> = Ok(blocks);
                proof {
                    assert(blocks_match(res->Ok_0@, ids@, self.broker().blocks()));
                }
                res
            },
            BrokerOverlayRequestContentV0::BranchSyncReq(BranchSyncReq::V0(q)) => {
                let (known, reported, commits) = match self.broker.sync_commits(&overlay, &q.heads, &q.known_heads, &q.known_commits) {
                    Ok(kc) => kc,
                    Err(e) => {
                        return Err(e);
                    },
                };
                let ids = self.broker.traverse_children(&commits);
                let blocks = self.broker.blocks_of(&ids);
                let res: Result<Vec<Block>, ProtocolError> = Ok(blocks);
                proof {
                    assert(blocks_match(res->Ok_0@, ids@, self.broker().blocks()));
                    assert(is_sync(self.broker().blocks(), q.heads@, q.known_heads@, known@, reported@, commits@));
                }
                res
            },
            _ => Err(ProtocolError::InvalidState),
        }
    }
}

/// What a remote client does after the broker answered `OverlayConnect`.
#[derive(Clone, Copy, Debug, PartialEq, Eq, Structural)]
pub enum ConnectStep {
    /// Connected
    Done,
    /// The broker has not joined the overlay: send `OverlayJoin` and retry
    Join,
    /// Any other error is surfaced unchanged
    Fail(ProtocolError),
}

/// The decision of a remote client after the answer to `OverlayConnect`:
/// success is done, `OverlayNotJoined` falls back to joining, any other
/// error is returned as it is.
pub fn overlay_connect_step(outcome: Result<(), ProtocolError>) -> (r: ConnectStep)
    ensures
        outcome is Ok ==> r == ConnectStep::Done,
        outcome == Err::<(), ProtocolError>(ProtocolError::OverlayNotJoined) ==> r == ConnectStep::Join,
        match outcome {
            Err(e) => e != ProtocolError::OverlayNotJoined ==> r == ConnectStep::Fail(e),
            Ok(()) => true,
        },
{
    match outcome {
        Ok(()) => ConnectStep::Done,
        Err(ProtocolError::OverlayNotJoined) => ConnectStep::Join,
        Err(e) => ConnectStep::Fail(e),
    }
}

/// The outcome of a remote connection after the broker answered the
/// fallback `OverlayJoin`: connected to `overlay`, or the join's error
/// unchanged.
pub fn overlay_join_step(overlay: OverlayId, reply: Result<(), ProtocolError>) -> (r: Result<OverlayId, ProtocolError>)
    ensures
        match reply {
            Ok(()) => r == Ok::<OverlayId, ProtocolError>(overlay),
            Err(e) => r == Err::<OverlayId, ProtocolError>(e),
        },
{
    match reply {
        Ok(()) => Ok(overlay),
        Err(e) => Err(e),
    }
}

/// Connecting twice to the overlay of a link leaves the broker's overlays
/// and members as connecting once does: the first connection joins the
/// overlay if needed, the second finds the user a member; a refused join is
/// refused again and changes nothing.
pub proof fn lemma_overlay_connect_idempotent(
    ov: Map<OverlayId, OverlayView>,
    members: Seq<(PubKey, OverlayId)>,
    user: PubKey,
    id: OverlayId,
    link: RepoLink,
    now1: Timestamp,
    now2: Timestamp,
)
    ensures
        ({
            let ov1 = connected_overlays(ov, members, user, id, link, now1);
            let m1 = connected_members(ov, members, user, id, link);
            &&& connected_overlays(ov1, m1, user, id, link, now2) == ov1
            &&& connected_members(ov1, m1, user, id, link) == m1
            &&& (!connect_fails(ov, members, user, id, link) ==> ov1.contains_key(id) && m1.contains((user, id)))
        }),
{
    let m1 = connected_members(ov, members, user, id, link);
    if !(ov.contains_key(id) && members.contains((user, id))) && !connect_fails(ov, members, user, id, link) {
        if !members.contains((user, id)) {
            assert(members.push((user, id))[members.len() as int] == (user, id));
        }
        assert(m1.contains((user, id)));
    }
}

/// A user added once cannot be added again: once `AddUser` for `user` has
/// succeeded, the same request (same signature bytes) fails with
/// `UserAlreadyExists`.
pub proof fn lemma_add_user_twice(
    users: Seq<PubKey>,
    admins: Seq<PubKey>,
    mode: crate::server::ConfigMode,
    user: PubKey,
    admin: PubKey,
    sig1: Sig,
    sig2: Sig,
)
    requires
        add_user_outcome(users, admins, mode, user, admin, sig1) is Ok,
        sig_bytes(sig1) == sig_bytes(sig2),
    ensures
        add_user_outcome(users.push(user), admins, mode, user, admin, sig2) == Err::<(), ProtocolError>(
            ProtocolError::UserAlreadyExists,
        ),
{
    assert(users.push(user)[users.len() as int] == user);
}

} // verus!
