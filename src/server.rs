//! Broker engine: users, overlays and blocks, and the answers to the
//! requests of connected clients.
use vstd::prelude::*;
use crate::auth::{
    add_user_content_encoding, auth_accepted, check_client_auth, contains_key, contains_pair,
    encode_add_user_content, signed_by, verify,
};
use crate::block::{enc_pubkey, put_pubkey, Block, BlockView};
use crate::errors::{error_code, result_code_of, ProtocolError};
use crate::keys::{bloom_contains, BlockId, BloomFilter, PubKey, Sig, SymKey, Timestamp};
use crate::overlay::{OverlayMeta, OverlayRegistry, OverlayView};
use crate::store::{is_id_of, BlockStore};
use crate::traverse::{
    check_filter, contains_id, edges_of, filter_usable, is_taken, is_traversal, traverse, Edges,
};
use crate::types::{
    response_block_of, response_id_of, response_result_of, AddClient, AddUser, DelClient, AddUserContentV0, BlockGet,
    BranchSyncReq, BrokerOverlayRequest, BrokerOverlayRequestContentV0, BrokerOverlayResponse,
    AuthResult, BrokerRequest, BrokerRequestContentV0, BrokerResponse, BrokerResponseV0, ClientAuth,
    BlockPut, DelUser, ObjectDel, OverlayJoin,
    OverlayId, PeerAdvert, PeerId, TopicSub, TopicUnsub, UserId,
};

verus! {

/// How the broker authorises administrative requests.
#[derive(Clone, Copy, Debug, PartialEq, Eq, Structural)]
pub enum ConfigMode {
    /// A broker local to its single owner: any validly signed request is
    /// accepted.
    Local,
    /// A core broker: user administration needs an admin's signature.
    Core,
}

/// The broker's state.
pub struct BrokerServer {
    store: BlockStore,
    overlays: OverlayRegistry,
    users: Vec<UserId>,
    admins: Vec<UserId>,
    clients: Vec<(UserId, PubKey)>,
    members: Vec<(UserId, OverlayId)>,
    mode: ConfigMode,
}

/// The peer id an advert is for.
pub open spec fn advert_peer(a: PeerAdvert) -> PeerId {
    match a {
        PeerAdvert::V0(v) => v.content.peer,
    }
}

/// The peers named by a list of adverts.
pub open spec fn advert_peers(s: Seq<PeerAdvert>) -> Set<PeerId> {
    s.map_values(|a: PeerAdvert| advert_peer(a)).to_set()
}

/// Canonical encoding of the content of a `DelUser` request.
pub open spec fn del_user_content_encoding(user: PubKey) -> Seq<u8> {
    enc_pubkey(user)
}

/// Canonical encoding of the content of an `AddClient` request.
pub open spec fn add_client_content_encoding(client: PubKey) -> Seq<u8> {
    enc_pubkey(client)
}

/// The outcome of an `AddUser` request on a broker with the given users,
/// admins and mode.
pub open spec fn add_user_outcome(
    users: Seq<UserId>,
    admins: Seq<UserId>,
    mode: ConfigMode,
    user: UserId,
    admin: UserId,
    sig: Sig,
) -> Result<(), ProtocolError> {
    if !signed_by(add_user_content_encoding(AddUserContentV0 { user }), sig, admin) {
        Err(ProtocolError::SignatureError)
    } else if mode == ConfigMode::Core && !admins.contains(admin) {
        Err(ProtocolError::NotAnAdmin)
    } else if users.contains(user) {
        Err(ProtocolError::UserAlreadyExists)
    } else {
        Ok(())
    }
}

/// The outcome of a `DelUser` request.
pub open spec fn del_user_outcome(
    users: Seq<UserId>,
    admins: Seq<UserId>,
    mode: ConfigMode,
    user: UserId,
    admin: UserId,
    sig: Sig,
) -> Result<(), ProtocolError> {
    if !signed_by(del_user_content_encoding(user), sig, admin) {
        Err(ProtocolError::SignatureError)
    } else if mode == ConfigMode::Core && !admins.contains(admin) {
        Err(ProtocolError::NotAnAdmin)
    } else if !users.contains(user) {
        Err(ProtocolError::NotFound)
    } else {
        Ok(())
    }
}

/// The outcome of an `AddClient` request by `user`.
pub open spec fn add_client_outcome(users: Seq<UserId>, user: UserId, client: PubKey, sig: Sig) -> Result<
    (),
    ProtocolError,
> {
    if !signed_by(add_client_content_encoding(client), sig, user) {
        Err(ProtocolError::SignatureError)
    } else if !users.contains(user) {
        Err(ProtocolError::NotFound)
    } else {
        Ok(())
    }
}

/// What branch synchronisation computes: `known`, every stored commit the
/// known heads reach through dependencies; `reported`, commits reached from
/// the heads (known ones left out) that the Bloom filter of known commits
/// reported, the filter being asked about those alone; and `commits`, every
/// stored commit the heads reach when the known and reported ones are left
/// out.
pub open spec fn is_sync(
    store: Map<BlockId, BlockView>,
    heads: Seq<BlockId>,
    known_heads: Seq<BlockId>,
    known: Seq<BlockId>,
    reported: Seq<BlockId>,
    commits: Seq<BlockId>,
) -> bool {
    &&& is_traversal(known, store, known_heads, Edges::Deps, Seq::empty(), Seq::empty())
    &&& exists|cand: Seq<BlockId>|
        #[trigger] is_traversal(cand, store, heads, Edges::Deps, known, Seq::empty()) && forall|x: BlockId|
            #[trigger] reported.contains(x) ==> cand.contains(x)
    &&& is_traversal(commits, store, heads, Edges::Deps, known, reported)
}

/// Whether deleting the object with root `root` removes block `k`: it is
/// the root, or it lies below the root and the other stored blocks do not
/// reach it.
pub open spec fn doomed(root: BlockId, below: Seq<BlockId>, live: Seq<BlockId>, k: BlockId) -> bool {
    k == root || (below.contains(k) && !live.contains(k))
}

/// What deleting the object with root `root` does to the blocks: `below`
/// is every stored block reached from the root (the root included),
/// `others` the stored blocks outside it, and `live` every block they reach;
/// the root and the blocks below it that are not live are removed, and
/// nothing else.
pub open spec fn is_deletion(
    before: Map<BlockId, BlockView>,
    after: Map<BlockId, BlockView>,
    root: BlockId,
    below: Seq<BlockId>,
    others: Seq<BlockId>,
    live: Seq<BlockId>,
) -> bool {
    &&& is_traversal(below, before, seq![root], Edges::Children, Seq::empty(), Seq::empty())
    &&& forall|k: BlockId| #[trigger] others.contains(k) <==> (before.contains_key(k) && !below.contains(k))
    &&& is_traversal(live, before, others, Edges::Children, Seq::empty(), Seq::empty())
    &&& after == before.remove_keys(Set::new(|k: BlockId| doomed(root, below, live, k) && below.contains(k)))
}

/// The members after `user` joins `overlay`.
pub open spec fn joined_members(members: Seq<(UserId, OverlayId)>, user: UserId, overlay: OverlayId) -> Seq<
    (UserId, OverlayId),
> {
    if members.contains((user, overlay)) {
        members
    } else {
        members.push((user, overlay))
    }
}

/// Whether a (user, overlay) pair is in a list.
fn contains_member(v: &Vec<(UserId, OverlayId)>, u: &UserId, o: &OverlayId) -> (r: bool)
    ensures
        r == v@.contains((*u, *o)),
{
    let mut i: usize = 0;
    while i < v.len()
        invariant
            0 <= i <= v@.len(),
            forall|j: int| 0 <= j < i ==> v@[j] != (*u, *o),
        decreases v@.len() - i,
    {
        if v[i].0.same(u) && v[i].1.same(o) {
            return true;
        }
        i = i + 1;
    }
    false
}

/// The outcome of a `DelClient` request by `user`.
pub open spec fn del_client_outcome(clients: Seq<(UserId, PubKey)>, user: UserId, client: PubKey, sig: Sig) -> Result<
    (),
    ProtocolError,
> {
    if !signed_by(add_client_content_encoding(client), sig, user) {
        Err(ProtocolError::SignatureError)
    } else if !clients.contains((user, client)) {
        Err(ProtocolError::NotFound)
    } else {
        Ok(())
    }
}

/// The list without the occurrences of a (user, client) pair.
fn without_pair(s: &Vec<(UserId, PubKey)>, u: &UserId, c: &PubKey) -> (r: Vec<(UserId, PubKey)>)
    ensures
        r@.to_set() == s@.to_set().remove((*u, *c)),
{
    let ghost x = (*u, *c);
    let ghost pred = |z: (UserId, PubKey)| z != x;
    let mut r: Vec<(UserId, PubKey)> = Vec::new();
    let mut i: usize = 0;
    while i < s.len()
        invariant
            0 <= i <= s@.len(),
            x == (*u, *c),
            pred == (|z: (UserId, PubKey)| z != x),
            r@ == s@.subrange(0, i as int).filter(pred),
        decreases s@.len() - i,
    {
        let y = s[i];
        proof {
            let pn = s@.subrange(0, i + 1);
            assert(pn.drop_last() =~= s@.subrange(0, i as int));
            assert(pn.last() == y);
            reveal(Seq::filter);
        }
        if !(y.0.same(u) && y.1.same(c)) {
            r.push(y);
        }
        i = i + 1;
    }
    proof {
        assert(s@.subrange(0, s@.len() as int) =~= s@);
        let f = s@.filter(pred);
        assert forall|z: (UserId, PubKey)| f.to_set().contains(z) implies s@.to_set().remove(x).contains(z) by {
            s@.lemma_filter_contains_rev(pred, z);
            let k = choose|k: int| 0 <= k < f.len() && f[k] == z;
            s@.lemma_filter_pred(pred, k);
        }
        assert forall|z: (UserId, PubKey)| s@.to_set().remove(x).contains(z) implies f.to_set().contains(z) by {
            let k = choose|k: int| 0 <= k < s@.len() && s@[k] == z;
            s@.lemma_filter_contains(pred, k);
        }
        assert(f.to_set() =~= s@.to_set().remove(x));
    }
    r
}

/// The stream of responses to a block request: the blocks with the given
/// ids, in order, each under request id `rid` with result `0`, then a
/// terminator with result `EndOfStream`.
pub open spec fn is_block_stream(
    resp: Seq<BrokerOverlayResponse>,
    rid: u64,
    ids: Seq<BlockId>,
    store: Map<BlockId, BlockView>,
) -> bool {
    &&& resp.len() == ids.len() + 1
    &&& forall|i: int| 0 <= i < resp.len() ==> response_id_of(#[trigger] resp[i]) == rid
    &&& forall|i: int|
        0 <= i < ids.len() ==> response_result_of(#[trigger] resp[i]) == 0 && response_block_of(
            resp[i],
        ) is Some && response_block_of(resp[i])->0@ == store[ids[i]]
    &&& response_result_of(resp[ids.len() as int]) == error_code(ProtocolError::EndOfStream)
    &&& response_block_of(resp[ids.len() as int]) is None
}

/// A one-response stream that reports an error.
pub open spec fn is_error_stream(resp: Seq<BrokerOverlayResponse>, rid: u64, e: ProtocolError) -> bool {
    &&& resp.len() == 1
    &&& response_id_of(resp[0]) == rid
    &&& response_result_of(resp[0]) == error_code(e)
    &&& response_block_of(resp[0]) is None
}

/// The id of an overlay request.
pub open spec fn request_id_of(req: BrokerOverlayRequest) -> u64 {
    match req {
        BrokerOverlayRequest::V0(q) => q.id,
    }
}

/// Whether an overlay request is answered with a stream of blocks.
pub open spec fn is_stream_request(req: BrokerOverlayRequest) -> bool {
    match req {
        BrokerOverlayRequest::V0(q) => q.content is BlockGet || q.content is BranchSyncReq,
    }
}

/// The id of a broker request.
pub open spec fn broker_request_id_of(req: BrokerRequest) -> u64 {
    match req {
        BrokerRequest::V0(q) => q.id,
    }
}

/// The content of a broker request.
pub open spec fn broker_request_content_of(req: BrokerRequest) -> BrokerRequestContentV0 {
    match req {
        BrokerRequest::V0(q) => q.content,
    }
}

/// The result code of a broker response.
pub open spec fn broker_response_result_of(r: BrokerResponse) -> u16 {
    match r {
        BrokerResponse::V0(o) => o.result,
    }
}

impl BrokerServer {
    /// The block store.
    pub closed spec fn blocks(&self) -> Map<BlockId, BlockView> {
        self.store@
    }

    /// The overlays.
    pub closed spec fn overlays(&self) -> Map<OverlayId, OverlayView> {
        self.overlays@
    }

    /// The known users.
    pub closed spec fn users(&self) -> Seq<UserId> {
        self.users@
    }

    /// The admins.
    pub closed spec fn admins(&self) -> Seq<UserId> {
        self.admins@
    }

    /// The (user, overlay) pairs of users that joined an overlay.
    pub closed spec fn members(&self) -> Seq<(UserId, OverlayId)> {
        self.members@
    }

    /// The known (user, client) pairs.
    pub closed spec fn clients(&self) -> Seq<(UserId, PubKey)> {
        self.clients@
    }

    /// The authorisation mode.
    pub closed spec fn mode(&self) -> ConfigMode {
        self.mode
    }

    /// The size limit for one encoded block.
    pub closed spec fn max_block_size(&self) -> nat {
        self.store.max_size()
    }

    /// The broker's invariant.
    pub closed spec fn wf(&self) -> bool {
        self.store.wf() && self.overlays.wf()
    }

    /// A broker with no users, overlays or blocks.
    pub fn new(mode: ConfigMode, admins: Vec<UserId>, max_block_size: usize) -> (r: BrokerServer)
        ensures
            r.wf(),
            r.blocks() == Map::<BlockId, BlockView>::empty(),
            r.overlays() == Map::<OverlayId, OverlayView>::empty(),
            r.users() == Seq::<UserId>::empty(),
            r.admins() == admins@,
            r.clients() == Seq::<(UserId, PubKey)>::empty(),
            r.members() == Seq::<(UserId, OverlayId)>::empty(),
            r.mode() == mode,
            r.max_block_size() == max_block_size,
    {
        BrokerServer {
            store: BlockStore::new(max_block_size),
            overlays: OverlayRegistry::new(),
            users: Vec::new(),
            admins,
            clients: Vec::new(),
            members: Vec::new(),
            mode,
        }
    }

    /// Adds a user on the signed request of an admin. The signature covers
    /// the canonical encoding of the request content.
    pub fn add_user(&mut self, user: UserId, admin: UserId, sig: Sig) -> (r: Result<(), ProtocolError>)
        requires
            old(self).wf(),
        ensures
            final(self).wf(),
            r == add_user_outcome(old(self).users(), old(self).admins(), old(self).mode(), user, admin, sig),
            r is Ok ==> final(self).users() == old(self).users().push(user),
            r is Err ==> final(self).users() == old(self).users(),
            final(self).admins() == old(self).admins(),
            final(self).clients() == old(self).clients(),
            final(self).mode() == old(self).mode(),
            final(self).blocks() == old(self).blocks(),
            final(self).overlays() == old(self).overlays(),
            final(self).max_block_size() == old(self).max_block_size(),
    {
        let content = AddUserContentV0 { user };
        let bytes = encode_add_user_content(&content);
        if verify(&bytes, sig, admin).is_err() {
            return Err(ProtocolError::SignatureError);
        }
        if self.mode == ConfigMode::Core && !contains_key(&self.admins, &admin) {
            return Err(ProtocolError::NotAnAdmin);
        }
        if contains_key(&self.users, &user) {
            return Err(ProtocolError::UserAlreadyExists);
        }
        self.users.push(user);
        Ok(())
    }

    /// Removes a user on the signed request of an admin; `NotFound` if the
    /// user is unknown.
    pub fn del_user(&mut self, user: UserId, admin: UserId, sig: Sig) -> (r: Result<(), ProtocolError>)
        requires
            old(self).wf(),
        ensures
            final(self).wf(),
            r == del_user_outcome(old(self).users(), old(self).admins(), old(self).mode(), user, admin, sig),
            r is Ok ==> final(self).users().to_set() == old(self).users().to_set().remove(user),
            r is Err ==> final(self).users() == old(self).users(),
            final(self).admins() == old(self).admins(),
            final(self).clients() == old(self).clients(),
            final(self).mode() == old(self).mode(),
            final(self).blocks() == old(self).blocks(),
            final(self).overlays() == old(self).overlays(),
            final(self).max_block_size() == old(self).max_block_size(),
    {
        let mut bytes: Vec<u8> = Vec::new();
        put_pubkey(&mut bytes, &user);
        assert(bytes@ =~= del_user_content_encoding(user));
        if verify(&bytes, sig, admin).is_err() {
            return Err(ProtocolError::SignatureError);
        }
        if self.mode == ConfigMode::Core && !contains_key(&self.admins, &admin) {
            return Err(ProtocolError::NotAnAdmin);
        }
        if !contains_key(&self.users, &user) {
            return Err(ProtocolError::NotFound);
        }
        self.users = crate::overlay::without(&self.users, &user);
        Ok(())
    }

    /// Adds a client of a user on the user's signed request; `NotFound` if
    /// the user is unknown.
    pub fn add_client(&mut self, user: UserId, client: PubKey, sig: Sig) -> (r: Result<(), ProtocolError>)
        requires
            old(self).wf(),
        ensures
            final(self).wf(),
            r == add_client_outcome(old(self).users(), user, client, sig),
            r is Ok ==> final(self).clients() == old(self).clients().push((user, client)),
            r is Err ==> final(self).clients() == old(self).clients(),
            final(self).users() == old(self).users(),
            final(self).admins() == old(self).admins(),
            final(self).mode() == old(self).mode(),
            final(self).blocks() == old(self).blocks(),
            final(self).overlays() == old(self).overlays(),
            final(self).max_block_size() == old(self).max_block_size(),
    {
        let mut bytes: Vec<u8> = Vec::new();
        put_pubkey(&mut bytes, &client);
        assert(bytes@ =~= add_client_content_encoding(client));
        if verify(&bytes, sig, user).is_err() {
            return Err(ProtocolError::SignatureError);
        }
        if !contains_key(&self.users, &user) {
            return Err(ProtocolError::NotFound);
        }
        self.clients.push((user, client));
        Ok(())
    }

    /// Removes a client of a user on the user's signed request; `NotFound`
    /// if the user has no such client.
    pub fn del_client(&mut self, user: UserId, client: PubKey, sig: Sig) -> (r: Result<(), ProtocolError>)
        requires
            old(self).wf(),
        ensures
            final(self).wf(),
            r == del_client_outcome(old(self).clients(), user, client, sig),
            r is Ok ==> final(self).clients().to_set() == old(self).clients().to_set().remove((user, client)),
            r is Err ==> final(self).clients() == old(self).clients(),
            final(self).users() == old(self).users(),
            final(self).admins() == old(self).admins(),
            final(self).mode() == old(self).mode(),
            final(self).blocks() == old(self).blocks(),
            final(self).overlays() == old(self).overlays(),
            final(self).max_block_size() == old(self).max_block_size(),
    {
        let mut bytes: Vec<u8> = Vec::new();
        put_pubkey(&mut bytes, &client);
        assert(bytes@ =~= add_client_content_encoding(client));
        if verify(&bytes, sig, user).is_err() {
            return Err(ProtocolError::SignatureError);
        }
        if !contains_pair(&self.clients, &user, &client) {
            return Err(ProtocolError::NotFound);
        }
        self.clients = without_pair(&self.clients, &user, &client);
        Ok(())
    }

    /// Whether a (user, client) pair is known.
    pub fn has_client(&self, user: &UserId, client: &PubKey) -> (r: bool)
        ensures
            r == self.clients().contains((*user, *client)),
    {
        contains_pair(&self.clients, user, client)
    }

    /// Answers a client's authentication for the nonce this broker sent:
    /// result `0` exactly when the signature is valid, the user is known and
    /// the client is one of the user's clients.
    pub fn authenticate(&self, auth: &ClientAuth, nonce: &Vec<u8>) -> (r: AuthResult)
        ensures
            (r.result_spec() == 0) == auth_accepted(*auth, nonce@, self.users(), self.clients()),
    {
        check_client_auth(auth, nonce, &self.users, &self.clients)
    }

    /// Whether a user is known.
    pub fn has_user(&self, user: &UserId) -> (r: bool)
        ensures
            r == self.users().contains(*user),
    {
        contains_key(&self.users, user)
    }

    /// Connects `user` to an overlay: `OverlayNotJoined` unless the broker
    /// has the overlay and the user is one of its members. Changes nothing.
    pub fn overlay_connect(&self, user: &UserId, overlay: &OverlayId) -> (r: Result<(), ProtocolError>)
        requires
            self.wf(),
        ensures
            r is Ok <==> self.overlays().contains_key(*overlay) && self.members().contains((*user, *overlay)),
            r is Err ==> r == Err::<(), ProtocolError>(ProtocolError::OverlayNotJoined),
    {
        if self.overlays.has_overlay(overlay) && contains_member(&self.members, user, overlay) {
            Ok(())
        } else {
            Err(ProtocolError::OverlayNotJoined)
        }
    }

    /// Joins an overlay. An overlay not yet known is created with the secret
    /// and repository key, one user, `now` as last use and the advertised
    /// peers. A known one must have the same secret (else `InvalidSecret`);
    /// the advertised peers are added and one more user is counted. On
    /// success `user` is a member of the overlay.
    pub fn overlay_join(
        &mut self,
        user: UserId,
        overlay: &OverlayId,
        secret: &SymKey,
        peers: &Vec<PeerAdvert>,
        repo: Option<PubKey>,
        now: Timestamp,
    ) -> (r: Result<(), ProtocolError>)
        requires
            old(self).wf(),
        ensures
            final(self).wf(),
            final(self).blocks() == old(self).blocks(),
            final(self).users() == old(self).users(),
            final(self).admins() == old(self).admins(),
            final(self).clients() == old(self).clients(),
            final(self).mode() == old(self).mode(),
            final(self).max_block_size() == old(self).max_block_size(),
            r is Ok ==> final(self).members() == joined_members(old(self).members(), user, *overlay),
            r is Err ==> final(self).members() == old(self).members(),
            !old(self).overlays().contains_key(*overlay) ==> r is Ok && final(self).overlays()
                == old(self).overlays().insert(
                *overlay,
                OverlayView {
                    secret: *secret,
                    peers: advert_peers(peers@),
                    topics: Set::empty(),
                    meta: OverlayMeta { users: 1, last_used: now },
                    repo,
                },
            ),
            old(self).overlays().contains_key(*overlay) && old(self).overlays()[*overlay].secret
                != *secret ==> r == Err::<(), ProtocolError>(ProtocolError::InvalidSecret) && final(self).overlays() == old(self).overlays(),
            old(self).overlays().contains_key(*overlay) && old(self).overlays()[*overlay].secret
                == *secret ==> r is Ok && final(self).overlays() == old(self).overlays().insert(
                *overlay,
                OverlayView {
                    peers: old(self).overlays()[*overlay].peers.union(advert_peers(peers@)),
                    meta: OverlayMeta {
                        users: if old(self).overlays()[*overlay].meta.users < u32::MAX {
                            (old(self).overlays()[*overlay].meta.users + 1) as u32
                        } else {
                            u32::MAX
                        },
                        last_used: now,
                    },
                    ..old(self).overlays()[*overlay]
                },
            ),
    {
        match self.overlays.secret(overlay) {
            Err(_) => {
                let _ = self.overlays.create(overlay, secret, repo, now);
                self.add_peers(overlay, peers);
                proof {
                    assert(Set::<PeerId>::empty().union(advert_peers(peers@)) =~= advert_peers(peers@));
                }
                self.add_member(user, overlay);
                Ok(())
            },
            Ok(s) => {
                if !s.same(secret) {
                    return Err(ProtocolError::InvalidSecret);
                }
                self.add_peers(overlay, peers);
                let meta = match self.overlays.metadata(overlay) {
                    Ok(m) => m,
                    Err(_) => vstd::pervasive::unreached(),
                };
                let users: u32 = if meta.users < u32::MAX {
                    meta.users + 1
                } else {
                    u32::MAX
                };
                let _ = self.overlays.set_metadata(overlay, &OverlayMeta { users, last_used: now });
                self.add_member(user, overlay);
                Ok(())
            },
        }
    }

    fn add_member(&mut self, user: UserId, overlay: &OverlayId)
        requires
            old(self).wf(),
        ensures
            final(self).wf(),
            final(self).members() == joined_members(old(self).members(), user, *overlay),
            final(self).blocks() == old(self).blocks(),
            final(self).overlays() == old(self).overlays(),
            final(self).users() == old(self).users(),
            final(self).admins() == old(self).admins(),
            final(self).clients() == old(self).clients(),
            final(self).mode() == old(self).mode(),
            final(self).max_block_size() == old(self).max_block_size(),
    {
        if !contains_member(&self.members, &user, overlay) {
            self.members.push((user, *overlay));
        }
    }

    fn add_peers(&mut self, overlay: &OverlayId, peers: &Vec<PeerAdvert>)
        requires
            old(self).wf(),
            old(self).overlays().contains_key(*overlay),
        ensures
            final(self).wf(),
            final(self).blocks() == old(self).blocks(),
            final(self).users() == old(self).users(),
            final(self).admins() == old(self).admins(),
            final(self).clients() == old(self).clients(),
            final(self).members() == old(self).members(),
            final(self).mode() == old(self).mode(),
            final(self).max_block_size() == old(self).max_block_size(),
            final(self).overlays() == old(self).overlays().insert(
                *overlay,
                OverlayView {
                    peers: old(self).overlays()[*overlay].peers.union(advert_peers(peers@)),
                    ..old(self).overlays()[*overlay]
                },
            ),
    {
        let ghost start = self.overlays@;
        let ghost f = |a: PeerAdvert| advert_peer(a);
        let mut i: usize = 0;
        assert(start.insert(*overlay, OverlayView { peers: start[*overlay].peers.union(
            peers@.subrange(0, 0).map_values(f).to_set()), ..start[*overlay] }) =~= start) by {
            assert(peers@.subrange(0, 0).map_values(f).to_set() =~= Set::<PeerId>::empty());
            assert(start[*overlay].peers.union(Set::<PeerId>::empty()) =~= start[*overlay].peers);
        }
        while i < peers.len()
            invariant
                self.wf(),
                0 <= i <= peers@.len(),
                f == (|a: PeerAdvert| advert_peer(a)),
                start.contains_key(*overlay),
                self.overlays@ == start.insert(
                    *overlay,
                    OverlayView {
                        peers: start[*overlay].peers.union(peers@.subrange(0, i as int).map_values(f).to_set()),
                        ..start[*overlay]
                    },
                ),
                self.store@ == old(self).store@,
                self.store.max_size() == old(self).store.max_size(),
                self.users@ == old(self).users@,
                self.admins@ == old(self).admins@,
                self.clients@ == old(self).clients@,
                self.members@ == old(self).members@,
                self.mode == old(self).mode,
                start == old(self).overlays@,
            decreases peers@.len() - i,
        {
            let p = match &peers[i] {
                PeerAdvert::V0(v) => v.content.peer,
            };
            let _ = self.overlays.add_peer(overlay, &p);
            proof {
                let a = peers@.subrange(0, i as int).map_values(f);
                let b = peers@.subrange(0, i + 1).map_values(f);
                assert(b =~= a.push(p));
                crate::overlay::lemma_push_to_set(a, p);
                assert(start[*overlay].peers.union(a.to_set()).insert(p) =~= start[*overlay].peers.union(b.to_set()));
            }
            i = i + 1;
            proof {
                assert(self.overlays@ =~= start.insert(
                    *overlay,
                    OverlayView {
                        peers: start[*overlay].peers.union(peers@.subrange(0, i as int).map_values(f).to_set()),
                        ..start[*overlay]
                    },
                ));
            }
        }
        assert(peers@.subrange(0, peers@.len() as int) =~= peers@);
    }

    /// Leaves an overlay: one user fewer is counted (never below zero) and
    /// `now` becomes its last use. `OverlayNotJoined` if the overlay is
    /// unknown.
    pub fn overlay_leave(&mut self, overlay: &OverlayId, now: Timestamp) -> (r: Result<(), ProtocolError>)
        requires
            old(self).wf(),
        ensures
            final(self).wf(),
            final(self).blocks() == old(self).blocks(),
            final(self).users() == old(self).users(),
            final(self).max_block_size() == old(self).max_block_size(),
            !old(self).overlays().contains_key(*overlay) ==> r == Err::<(), ProtocolError>(
                ProtocolError::OverlayNotJoined,
            ) && final(self).overlays() == old(self).overlays(),
            old(self).overlays().contains_key(*overlay) ==> r is Ok && final(self).overlays()
                == old(self).overlays().insert(
                *overlay,
                OverlayView {
                    meta: OverlayMeta {
                        users: if old(self).overlays()[*overlay].meta.users > 0 {
                            (old(self).overlays()[*overlay].meta.users - 1) as u32
                        } else {
                            0
                        },
                        last_used: now,
                    },
                    ..old(self).overlays()[*overlay]
                },
            ),
    {
        let meta = match self.overlays.metadata(overlay) {
            Ok(m) => m,
            Err(_) => {
                return Err(ProtocolError::OverlayNotJoined);
            },
        };
        let users: u32 = if meta.users > 0 {
            meta.users - 1
        } else {
            0
        };
        let _ = self.overlays.set_metadata(overlay, &OverlayMeta { users, last_used: now });
        Ok(())
    }

    /// Whether an overlay may be collected: it is known, has no user left,
    /// and was last used more than `threshold` minutes before `now`.
    pub fn overlay_collectable(&self, overlay: &OverlayId, now: Timestamp, threshold: Timestamp) -> (r: bool)
        requires
            self.wf(),
        ensures
            r == (self.overlays().contains_key(*overlay) && self.overlays()[*overlay].meta.users == 0
                && self.overlays()[*overlay].meta.last_used + threshold < now),
    {
        match self.overlays.metadata(overlay) {
            Ok(m) => m.users == 0 && (m.last_used as u64) + (threshold as u64) < (now as u64),
            Err(_) => false,
        }
    }

    /// Removes an overlay and all its properties.
    pub fn overlay_delete(&mut self, overlay: &OverlayId)
        requires
            old(self).wf(),
        ensures
            final(self).wf(),
            final(self).blocks() == old(self).blocks(),
            final(self).users() == old(self).users(),
            final(self).max_block_size() == old(self).max_block_size(),
            final(self).overlays() == old(self).overlays().remove(*overlay),
    {
        let _ = self.overlays.del(overlay);
    }

    /// Stores a block in a joined overlay: `OverlayNotJoined` if the overlay
    /// is unknown, `InvalidBlock` if the block is too large.
    pub fn block_put(&mut self, overlay: &OverlayId, block: Block) -> (r: Result<(), ProtocolError>)
        requires
            old(self).wf(),
        ensures
            final(self).wf(),
            final(self).overlays() == old(self).overlays(),
            final(self).users() == old(self).users(),
            final(self).admins() == old(self).admins(),
            final(self).clients() == old(self).clients(),
            final(self).mode() == old(self).mode(),
            final(self).max_block_size() == old(self).max_block_size(),
            !old(self).overlays().contains_key(*overlay) ==> r == Err::<(), ProtocolError>(
                ProtocolError::OverlayNotJoined,
            ) && final(self).blocks() == old(self).blocks(),
            old(self).overlays().contains_key(*overlay) && crate::block::block_encoding(block@).len()
                > old(self).max_block_size() ==> r == Err::<(), ProtocolError>(
                ProtocolError::InvalidBlock,
            ) && final(self).blocks() == old(self).blocks(),
            old(self).overlays().contains_key(*overlay) && crate::block::block_encoding(block@).len()
                <= old(self).max_block_size() ==> r is Ok && exists|id: BlockId|
                is_id_of(id, block@) && #[trigger] final(self).blocks().contains_key(id) && (
                old(self).blocks().contains_key(id) ==> final(self).blocks() == old(self).blocks())
                && (!old(self).blocks().contains_key(id) ==> final(self).blocks() == old(self).blocks().insert(id, block@)),
    {
        if !self.overlays.has_overlay(overlay) {
            return Err(ProtocolError::OverlayNotJoined);
        }
        let ghost bv = block@;
        match self.store.put(block) {
            Ok(id) => {
                proof {
                    assert(is_id_of(id, bv) && self.blocks().contains_key(id));
                }
                Ok(())
            },
            Err(e) => Err(e),
        }
    }

    /// Stores a block received in its canonical encoding. An input that is
    /// not a canonical block encoding, or is longer than the broker's block
    /// size limit, is an invalid message; otherwise as `block_put`.
    pub fn block_put_encoded(&mut self, overlay: &OverlayId, bytes: &[u8]) -> (r: Result<(), ProtocolError>)
        requires
            old(self).wf(),
        ensures
            final(self).wf(),
            final(self).overlays() == old(self).overlays(),
            final(self).users() == old(self).users(),
            !(bytes@.len() <= old(self).max_block_size() && crate::codec::is_block_encoding(bytes@))
                ==> r == Err::<(), ProtocolError>(ProtocolError::InvalidMessage) && final(self).blocks()
                == old(self).blocks(),
            bytes@.len() <= old(self).max_block_size() && crate::codec::is_block_encoding(bytes@)
                && !old(self).overlays().contains_key(*overlay) ==> r == Err::<(), ProtocolError>(
                ProtocolError::OverlayNotJoined,
            ) && final(self).blocks() == old(self).blocks(),
            bytes@.len() <= old(self).max_block_size() && crate::codec::is_block_encoding(bytes@)
                && old(self).overlays().contains_key(*overlay) ==> r is Ok && exists|id: BlockId|
                #[trigger] final(self).blocks().contains_key(id) && crate::block::block_id_of(
                final(self).blocks()[id],
            ) == crate::keys::blake3_hash_of(bytes@),
    {
        let max = self.store.max_value_size();
        let block = match crate::codec::decode_block(bytes, max) {
            Ok(b) => b,
            Err(e) => {
                return Err(e);
            },
        };
        let ghost bv = block@;
        let r = self.block_put(overlay, block);
        proof {
            if r is Ok {
                let id = choose|id: BlockId|
                    is_id_of(id, bv) && #[trigger] self.blocks().contains_key(id) && (
                    old(self).blocks().contains_key(id) ==> self.blocks() == old(self).blocks())
                    && (!old(self).blocks().contains_key(id) ==> self.blocks() == old(self).blocks().insert(id, bv));
                self.store.lemma_stored_under_own_id();
                assert(is_id_of(id, self.blocks()[id]));
            }
        }
        r
    }

    /// Deletes an object: its root block is removed, and so is every block
    /// below it that no other stored block still reaches. `OverlayNotJoined`
    /// if the overlay is unknown; `NotFound` if the root block is absent.
    pub fn object_del(&mut self, overlay: &OverlayId, id: &BlockId) -> (r: Result<(), ProtocolError>)
        requires
            old(self).wf(),
        ensures
            final(self).wf(),
            final(self).overlays() == old(self).overlays(),
            final(self).users() == old(self).users(),
            final(self).admins() == old(self).admins(),
            final(self).clients() == old(self).clients(),
            final(self).mode() == old(self).mode(),
            final(self).max_block_size() == old(self).max_block_size(),
            !old(self).overlays().contains_key(*overlay) ==> r == Err::<(), ProtocolError>(
                ProtocolError::OverlayNotJoined,
            ) && final(self).blocks() == old(self).blocks(),
            old(self).overlays().contains_key(*overlay) && !old(self).blocks().contains_key(*id)
                ==> r == Err::<(), ProtocolError>(ProtocolError::NotFound) && final(self).blocks()
                == old(self).blocks(),
            old(self).overlays().contains_key(*overlay) && old(self).blocks().contains_key(*id)
                ==> r is Ok && exists|below: Seq<BlockId>, others: Seq<BlockId>, live: Seq<BlockId>|
                #![trigger is_deletion(old(self).blocks(), final(self).blocks(), *id, below, others, live)]
                is_deletion(old(self).blocks(), final(self).blocks(), *id, below, others, live),
    {
        if !self.overlays.has_overlay(overlay) {
            return Err(ProtocolError::OverlayNotJoined);
        }
        if !self.store.has(id) {
            return Err(ProtocolError::NotFound);
        }
        let ghost start = self.store@;
        let none: Vec<BlockId> = Vec::new();
        let mut roots: Vec<BlockId> = Vec::new();
        roots.push(*id);
        proof {
            assert(roots@ == seq![*id]);
        }
        let below = traverse(&self.store, &roots, Edges::Children, &none, &none);
        let all = self.store.ids();
        let mut others: Vec<BlockId> = Vec::new();
        let mut i: usize = 0;
        while i < all.len()
            invariant
                0 <= i <= all@.len(),
                forall|k: BlockId| #[trigger] others@.contains(k) <==> (all@.subrange(0, i as int).contains(k) && !below@.contains(k)),
            decreases all@.len() - i,
        {
            let k = all[i];
            let ghost prev = others@;
            proof {
                assert(all@.subrange(0, i + 1) =~= all@.subrange(0, i as int).push(k));
                crate::traverse::lemma_push_keeps_pub(all@.subrange(0, i as int), k);
            }
            if !contains_id(&below, &k) {
                others.push(k);
                proof {
                    crate::traverse::lemma_push_keeps_pub(prev, k);
                    assert forall|x: BlockId| #[trigger] others@.contains(x) implies prev.contains(x) || x == k by {
                        let j = choose|j: int| 0 <= j < others@.len() && others@[j] == x;
                        if j < prev.len() {
                            assert(prev[j] == x);
                        }
                    }
                }
            }
            proof {
                let sn = all@.subrange(0, i + 1);
                let so = all@.subrange(0, i as int);
                assert forall|x: BlockId| #[trigger] sn.contains(x) implies so.contains(x) || x == k by {
                    let t = choose|t: int| 0 <= t < sn.len() && sn[t] == x;
                    if t < i {
                        assert(so[t] == x);
                    }
                }
            }
            i = i + 1;
        }
        proof {
            assert(all@.subrange(0, all@.len() as int) =~= all@);
        }
        let live = traverse(&self.store, &others, Edges::Children, &none, &none);
        let mut j: usize = 0;
        while j < below.len()
            invariant
                self.wf(),
                0 <= j <= below@.len(),
                self.overlays@ == old(self).overlays@,
                self.users@ == old(self).users@,
                self.admins@ == old(self).admins@,
                self.clients@ == old(self).clients@,
                self.mode == old(self).mode,
                self.store.max_size() == old(self).store.max_size(),
                start == old(self).store@,
                self.store@ == start.remove_keys(
                    Set::new(|k: BlockId| doomed(*id, below@, live@, k) && below@.subrange(0, j as int).contains(k)),
                ),
            decreases below@.len() - j,
        {
            let k = below[j];
            let ghost before = self.store@;
            if k.same(id) || !contains_id(&live, &k) {
                self.store.del(&k);
            }
            proof {
                assert(below@.subrange(0, j + 1) =~= below@.subrange(0, j as int).push(k));
                crate::traverse::lemma_push_keeps_pub(below@.subrange(0, j as int), k);
                let bn = below@.subrange(0, j + 1);
                let bo = below@.subrange(0, j as int);
                assert forall|x: BlockId| #[trigger] bn.contains(x) implies bo.contains(x) || x == k by {
                    let t = choose|t: int| 0 <= t < bn.len() && bn[t] == x;
                    if t < j {
                        assert(bo[t] == x);
                    }
                }
                assert(self.store@ =~= start.remove_keys(
                    Set::new(|x: BlockId| doomed(*id, below@, live@, x) && below@.subrange(0, j + 1).contains(x)),
                ));
            }
            j = j + 1;
        }
        proof {
            assert(below@.subrange(0, below@.len() as int) =~= below@);
            assert(is_traversal(below@, start, seq![*id], Edges::Children, Seq::<BlockId>::empty(), Seq::<BlockId>::empty()));
            assert(self.store@ =~= start.remove_keys(Set::new(|x: BlockId| doomed(*id, below@, live@, x) && below@.contains(x))));
            assert forall|k: BlockId| #[trigger] others@.contains(k) <==> (start.contains_key(k) && !below@.contains(k)) by {
            }
            assert(is_deletion(start, self.store@, *id, below@, others@, live@));
            assert(old(self).blocks() == start);
            assert(is_deletion(old(self).blocks(), self.blocks(), *id, below@, others@, live@));
        }
        Ok(())
    }

    /// The ids of the blocks that `BlockGet` returns: the root, then (if
    /// asked) every block below it once, breadth first. `OverlayNotJoined`
    /// if the overlay is unknown; `NotFound` if the root is absent.
    pub fn block_get_ids(&self, overlay: &OverlayId, id: &BlockId, include_children: bool) -> (r:
        Result<Vec<BlockId>, ProtocolError>)
        requires
            self.wf(),
        ensures
            !self.overlays().contains_key(*overlay) ==> r == Err::<Vec<BlockId>, ProtocolError>(
                ProtocolError::OverlayNotJoined,
            ),
            self.overlays().contains_key(*overlay) && !self.blocks().contains_key(*id) ==> r
                == Err::<Vec<BlockId>, ProtocolError>(ProtocolError::NotFound),
            self.overlays().contains_key(*overlay) && self.blocks().contains_key(*id) ==> r is Ok,
            r is Ok ==> r->Ok_0@.len() > 0 && r->Ok_0@[0] == *id,
            r is Ok && !include_children ==> r->Ok_0@ == seq![*id],
            r is Ok && include_children ==> is_traversal(
                r->Ok_0@,
                self.blocks(),
                seq![*id],
                Edges::Children,
                Seq::empty(),
                Seq::empty(),
            ),
    {
        if !self.overlays.has_overlay(overlay) {
            return Err(ProtocolError::OverlayNotJoined);
        }
        if !self.store.has(id) {
            return Err(ProtocolError::NotFound);
        }
        let mut roots: Vec<BlockId> = Vec::new();
        roots.push(*id);
        if !include_children {
            return Ok(roots);
        }
        let known: Vec<BlockId> = Vec::new();
        let r = traverse(&self.store, &roots, Edges::Children, &known, &known);
        proof {
            assert(roots@ == seq![*id]);
            assert(!known@.contains(*id));
            assert(is_taken(self.store@, known@, known@, roots@[0]));
        }
        Ok(r)
    }

    /// Copies of the blocks with the given ids, which must all be stored.
    pub fn blocks_of(&self, ids: &Vec<BlockId>) -> (r: Vec<Block>)
        requires
            self.wf(),
            forall|i: int| 0 <= i < ids@.len() ==> self.blocks().contains_key(#[trigger] ids@[i]),
        ensures
            r@.len() == ids@.len(),
            forall|i: int| 0 <= i < ids@.len() ==> #[trigger] r@[i]@ == self.blocks()[ids@[i]],
    {
        let mut r: Vec<Block> = Vec::new();
        let mut i: usize = 0;
        while i < ids.len()
            invariant
                self.wf(),
                forall|i: int| 0 <= i < ids@.len() ==> self.blocks().contains_key(#[trigger] ids@[i]),
                0 <= i <= ids@.len(),
                r@.len() == i,
                forall|j: int| 0 <= j < i ==> #[trigger] r@[j]@ == self.blocks()[ids@[j]],
            decreases ids@.len() - i,
        {
            match self.store.get(&ids[i]) {
                Ok(b) => r.push(b),
                Err(_) => {
                    proof {
                        assert(self.blocks().contains_key(ids@[i as int]));
                    }
                    vstd::pervasive::unreached()
                },
            }
            i = i + 1;
        }
        r
    }

    /// The responses to the stream of blocks with the given ids, under
    /// request id `rid`, ended by a terminator.
    pub fn block_stream(&self, rid: u64, ids: &Vec<BlockId>) -> (r: Vec<BrokerOverlayResponse>)
        requires
            self.wf(),
            forall|i: int| 0 <= i < ids@.len() ==> self.blocks().contains_key(#[trigger] ids@[i]),
        ensures
            is_block_stream(r@, rid, ids@, self.blocks()),
    {
        let blocks = self.blocks_of(ids);
        let mut r: Vec<BrokerOverlayResponse> = Vec::new();
        let mut i: usize = 0;
        while i < ids.len()
            invariant
                self.wf(),
                blocks@.len() == ids@.len(),
                forall|i: int| 0 <= i < ids@.len() ==> #[trigger] blocks@[i]@ == self.blocks()[ids@[i]],
                0 <= i <= ids@.len(),
                r@.len() == i,
                forall|j: int| 0 <= j < i ==> response_id_of(#[trigger] r@[j]) == rid,
                forall|j: int|
                    0 <= j < i ==> response_result_of(#[trigger] r@[j]) == 0 && response_block_of(r@[j]) is Some
                        && response_block_of(r@[j])->0@ == self.blocks()[ids@[j]],
            decreases ids@.len() - i,
        {
            let b = blocks[i].duplicate();
            r.push(BrokerOverlayResponse::new(rid, 0, Some(b)));
            i = i + 1;
        }
        r.push(BrokerOverlayResponse::new(rid, ProtocolError::EndOfStream.code(), None));
        r
    }

    /// Answers `BlockGet`: for a missing overlay or root, a single response
    /// with the error; otherwise the root, then (if asked) every block below
    /// it exactly once, then the terminator, all under request id `rid`.
    pub fn block_get(&self, rid: u64, overlay: &OverlayId, id: &BlockId, include_children: bool) -> (r:
        Vec<BrokerOverlayResponse>)
        requires
            self.wf(),
        ensures
            r@.len() >= 1,
            forall|i: int| 0 <= i < r@.len() ==> response_id_of(#[trigger] r@[i]) == rid,
            !self.overlays().contains_key(*overlay) ==> is_error_stream(
                r@,
                rid,
                ProtocolError::OverlayNotJoined,
            ),
            self.overlays().contains_key(*overlay) && !self.blocks().contains_key(*id)
                ==> is_error_stream(r@, rid, ProtocolError::NotFound),
            self.overlays().contains_key(*overlay) && self.blocks().contains_key(*id) ==> exists|
                ids: Seq<BlockId>,
            |
                #![trigger is_block_stream(r@, rid, ids, self.blocks())]
                is_block_stream(r@, rid, ids, self.blocks()) && ids.len() > 0 && ids[0] == *id && (
                !include_children ==> ids == seq![*id]) && (include_children ==> is_traversal(
                    ids,
                    self.blocks(),
                    seq![*id],
                    Edges::Children,
                    Seq::empty(),
                    Seq::empty(),
                )),
    {
        match self.block_get_ids(overlay, id, include_children) {
            Err(e) => {
                let mut r: Vec<BrokerOverlayResponse> = Vec::new();
                r.push(BrokerOverlayResponse::new(rid, e.code(), None));
                r
            },
            Ok(ids) => {
                proof {
                    if include_children {
                        assert forall|i: int| 0 <= i < ids@.len() implies self.blocks().contains_key(#[trigger] ids@[i]) by {
                            assert(is_taken(self.blocks(), Seq::empty(), Seq::empty(), ids@[i]));
                        }
                    }
                }
                self.block_stream(rid, &ids)
            },
        }
    }

    /// The commits that `BranchSyncReq` sends. Returns `(known, reported,
    /// commits)`: the commits reachable from `known_heads`; the commits,
    /// reachable from `heads` and not known, that the Bloom filter of known
    /// commits reported (it is asked about each of those once, and its
    /// answers are taken as they come); and the commits reachable from
    /// `heads` leaving both out. `InvalidMessage` if the filter cannot be
    /// used; `OverlayNotJoined` if the overlay is unknown.
    pub fn sync_commits(
        &self,
        overlay: &OverlayId,
        heads: &Vec<BlockId>,
        known_heads: &Vec<BlockId>,
        known_commits: &BloomFilter,
    ) -> (r: Result<(Vec<BlockId>, Vec<BlockId>, Vec<BlockId>), ProtocolError>)
        requires
            self.wf(),
        ensures
            !self.overlays().contains_key(*overlay) ==> r == Err::<
                (Vec<BlockId>, Vec<BlockId>, Vec<BlockId>),
                ProtocolError,
            >(ProtocolError::OverlayNotJoined),
            self.overlays().contains_key(*overlay) && !filter_usable(*known_commits) ==> r == Err::<
                (Vec<BlockId>, Vec<BlockId>, Vec<BlockId>),
                ProtocolError,
            >(ProtocolError::InvalidMessage),
            self.overlays().contains_key(*overlay) && filter_usable(*known_commits) ==> r is Ok,
            r is Ok ==> is_sync(self.blocks(), heads@, known_heads@, r->Ok_0.0@, r->Ok_0.1@, r->Ok_0.2@),
            r is Ok && known_commits.f@.len() == 0 ==> r->Ok_0.1@ == Seq::<BlockId>::empty(),
    {
        if !self.overlays.has_overlay(overlay) {
            return Err(ProtocolError::OverlayNotJoined);
        }
        if !check_filter(known_commits) {
            return Err(ProtocolError::InvalidMessage);
        }
        let none: Vec<BlockId> = Vec::new();
        let known = traverse(&self.store, known_heads, Edges::Deps, &none, &none);
        let cand = traverse(&self.store, heads, Edges::Deps, &known, &none);
        let mut reported: Vec<BlockId> = Vec::new();
        if known_commits.f.len() > 0 {
            let mut i: usize = 0;
            while i < cand.len()
                invariant
                    0 <= i <= cand@.len(),
                    filter_usable(*known_commits),
                    known_commits.f@.len() > 0,
                    forall|x: BlockId| #[trigger] reported@.contains(x) ==> cand@.contains(x),
                decreases cand@.len() - i,
            {
                if bloom_contains(known_commits.f.as_slice(), known_commits.k, cand[i].slice()) {
                    proof {
                        crate::traverse::lemma_push_keeps_pub(reported@, cand@[i as int]);
                        assert forall|x: BlockId| #[trigger] reported@.push(cand@[i as int]).contains(x) implies cand@.contains(x) by {
                            let j = choose|j: int| 0 <= j < reported@.len() + 1 && reported@.push(cand@[i as int])[j] == x;
                            if j < reported@.len() {
                                assert(reported@[j] == x);
                                assert(reported@.contains(x));
                            } else {
                                assert(cand@[i as int] == x);
                            }
                        }
                    }
                    reported.push(cand[i]);
                }
                i = i + 1;
            }
        }
        let commits = traverse(&self.store, heads, Edges::Deps, &known, &reported);
        proof {
            assert(is_traversal(cand@, self.blocks(), heads@, Edges::Deps, known@, Seq::<BlockId>::empty()));
            if known_commits.f@.len() == 0 {
                assert(reported@ =~= Seq::<BlockId>::empty());
            }
        }
        Ok((known, reported, commits))
    }

    /// Answers `BranchSyncReq`: the blocks of the commits to send (each
    /// commit's blocks, every block once), then the terminator, under
    /// request id `rid`; a single error response where `sync_commits` fails.
    pub fn branch_sync(
        &self,
        rid: u64,
        overlay: &OverlayId,
        heads: &Vec<BlockId>,
        known_heads: &Vec<BlockId>,
        known_commits: &BloomFilter,
    ) -> (r: Vec<BrokerOverlayResponse>)
        requires
            self.wf(),
        ensures
            r@.len() >= 1,
            forall|i: int| 0 <= i < r@.len() ==> response_id_of(#[trigger] r@[i]) == rid,
            !self.overlays().contains_key(*overlay) ==> is_error_stream(
                r@,
                rid,
                ProtocolError::OverlayNotJoined,
            ),
            self.overlays().contains_key(*overlay) && !filter_usable(*known_commits)
                ==> is_error_stream(r@, rid, ProtocolError::InvalidMessage),
            self.overlays().contains_key(*overlay) && filter_usable(*known_commits) ==> exists|
                known: Seq<BlockId>,
                reported: Seq<BlockId>,
                commits: Seq<BlockId>,
                ids: Seq<BlockId>,
            |
                #![trigger is_block_stream(r@, rid, ids, self.blocks()), is_sync(self.blocks(), heads@, known_heads@, known, reported, commits)]
                is_sync(self.blocks(), heads@, known_heads@, known, reported, commits)
                    && is_traversal(ids, self.blocks(), commits, Edges::Children, Seq::empty(), Seq::empty())
                    && is_block_stream(r@, rid, ids, self.blocks()),
    {
        match self.sync_commits(overlay, heads, known_heads, known_commits) {
            Err(e) => {
                let mut r: Vec<BrokerOverlayResponse> = Vec::new();
                r.push(BrokerOverlayResponse::new(rid, e.code(), None));
                r
            },
            Ok((known, reported, commits)) => {
                let none: Vec<BlockId> = Vec::new();
                let ids = traverse(&self.store, &commits, Edges::Children, &none, &none);
                proof {
                    assert forall|i: int| 0 <= i < ids@.len() implies self.blocks().contains_key(#[trigger] ids@[i]) by {
                        assert(is_taken(self.blocks(), none@, Seq::empty(), ids@[i]));
                    }
                }
                self.block_stream(rid, &ids)
            },
        }
    }

    /// Subscribes the overlay to a topic: `OverlayNotJoined` if the overlay
    /// is unknown.
    pub fn topic_sub(&mut self, overlay: &OverlayId, topic: &PubKey) -> (r: Result<(), ProtocolError>)
        requires
            old(self).wf(),
        ensures
            final(self).wf(),
            final(self).blocks() == old(self).blocks(),
            final(self).users() == old(self).users(),
            final(self).max_block_size() == old(self).max_block_size(),
            !old(self).overlays().contains_key(*overlay) ==> r == Err::<(), ProtocolError>(
                ProtocolError::OverlayNotJoined,
            ) && final(self).overlays() == old(self).overlays(),
            old(self).overlays().contains_key(*overlay) ==> r is Ok && final(self).overlays()
                == old(self).overlays().insert(
                *overlay,
                OverlayView {
                    topics: old(self).overlays()[*overlay].topics.insert(*topic),
                    ..old(self).overlays()[*overlay]
                },
            ),
    {
        match self.overlays.add_topic(overlay, topic) {
            Ok(()) => Ok(()),
            Err(_) => Err(ProtocolError::OverlayNotJoined),
        }
    }

    /// Unsubscribes the overlay from a topic: `OverlayNotJoined` if the
    /// overlay is unknown.
    pub fn topic_unsub(&mut self, overlay: &OverlayId, topic: &PubKey) -> (r: Result<(), ProtocolError>)
        requires
            old(self).wf(),
        ensures
            final(self).wf(),
            final(self).blocks() == old(self).blocks(),
            final(self).users() == old(self).users(),
            final(self).max_block_size() == old(self).max_block_size(),
            !old(self).overlays().contains_key(*overlay) ==> r == Err::<(), ProtocolError>(
                ProtocolError::OverlayNotJoined,
            ) && final(self).overlays() == old(self).overlays(),
            old(self).overlays().contains_key(*overlay) ==> r is Ok && final(self).overlays()
                == old(self).overlays().insert(
                *overlay,
                OverlayView {
                    topics: old(self).overlays()[*overlay].topics.remove(*topic),
                    ..old(self).overlays()[*overlay]
                },
            ),
    {
        match self.overlays.remove_topic(overlay, topic) {
            Ok(()) => Ok(()),
            Err(_) => Err(ProtocolError::OverlayNotJoined),
        }
    }

    /// Handles one overlay request with id `R` from the authenticated `user`. A
    /// unary request gets exactly one response `{ id: R, result, content:
    /// None }`, its result the operation's code; `BlockGet` and
    /// `BranchSyncReq` get their streams. Requests this broker does not serve
    /// get `InvalidState`.
    pub fn handle_overlay_request(
        &mut self,
        user: UserId,
        overlay: &OverlayId,
        req: &BrokerOverlayRequest,
        now: Timestamp,
    ) -> (r: Vec<BrokerOverlayResponse>)
        requires
            old(self).wf(),
        ensures
            final(self).wf(),
            final(self).users() == old(self).users(),
            r@.len() >= 1,
            forall|i: int| 0 <= i < r@.len() ==> response_id_of(#[trigger] r@[i]) == request_id_of(*req),
            !is_stream_request(*req) ==> r@.len() == 1 && response_block_of(r@[0]) is None,
            is_stream_request(*req) && !final(self).overlays().contains_key(*overlay) ==> is_error_stream(
                r@,
                request_id_of(*req),
                ProtocolError::OverlayNotJoined,
            ),
            is_stream_request(*req) ==> final(self).blocks() == old(self).blocks()
                && final(self).overlays() == old(self).overlays(),
            match req {
                BrokerOverlayRequest::V0(q) => match q.content {
                    BrokerOverlayRequestContentV0::OverlayConnect(_) => response_result_of(r@[0])
                        == (if old(self).overlays().contains_key(*overlay) && old(self).members().contains((user, *overlay)) {
                        0
                    } else {
                        error_code(ProtocolError::OverlayNotJoined)
                    }) && final(self).overlays() == old(self).overlays() && final(self).blocks()
                        == old(self).blocks(),
                    BrokerOverlayRequestContentV0::ObjectDel(ObjectDel::V0(d)) => response_result_of(r@[0])
                        == (if !old(self).overlays().contains_key(*overlay) {
                        error_code(ProtocolError::OverlayNotJoined)
                    } else if !old(self).blocks().contains_key(d.id) {
                        error_code(ProtocolError::NotFound)
                    } else {
                        0
                    }),
                    BrokerOverlayRequestContentV0::OverlayDisconnect(_)
                    | BrokerOverlayRequestContentV0::TopicConnect(_)
                    | BrokerOverlayRequestContentV0::TopicDisconnect(_)
                    | BrokerOverlayRequestContentV0::Event(_)
                    | BrokerOverlayRequestContentV0::ObjectPin(_)
                    | BrokerOverlayRequestContentV0::ObjectUnpin(_)
                    | BrokerOverlayRequestContentV0::ObjectCopy(_)
                    | BrokerOverlayRequestContentV0::BranchHeadsReq(_) => response_result_of(r@[0])
                        == error_code(ProtocolError::InvalidState) && final(self).overlays() == old(
                        self,
                    ).overlays() && final(self).blocks() == old(self).blocks(),
                    BrokerOverlayRequestContentV0::BlockGet(BlockGet::V0(g)) => {
                        &&& (old(self).overlays().contains_key(*overlay) && !old(self).blocks().contains_key(g.id)
                            ==> is_error_stream(r@, q.id, ProtocolError::NotFound))
                        &&& (old(self).overlays().contains_key(*overlay) && old(self).blocks().contains_key(g.id)
                            ==> exists|ids: Seq<BlockId>|
                            #![trigger is_block_stream(r@, q.id, ids, old(self).blocks())]
                            is_block_stream(r@, q.id, ids, old(self).blocks()) && ids.len() > 0 && ids[0] == g.id
                                && (!g.include_children ==> ids == seq![g.id]) && (g.include_children
                                ==> is_traversal(ids, old(self).blocks(), seq![g.id], Edges::Children, Seq::empty(), Seq::empty())))
                    },
                    BrokerOverlayRequestContentV0::BranchSyncReq(BranchSyncReq::V0(b)) => {
                        &&& (old(self).overlays().contains_key(*overlay) && !filter_usable(b.known_commits)
                            ==> is_error_stream(r@, q.id, ProtocolError::InvalidMessage))
                        &&& (old(self).overlays().contains_key(*overlay) && filter_usable(b.known_commits) ==> exists|
                            known: Seq<BlockId>,
                            reported: Seq<BlockId>,
                            commits: Seq<BlockId>,
                            ids: Seq<BlockId>,
                        |
                            #![trigger is_block_stream(r@, q.id, ids, old(self).blocks()), is_sync(old(self).blocks(), b.heads@, b.known_heads@, known, reported, commits)]
                            is_sync(old(self).blocks(), b.heads@, b.known_heads@, known, reported, commits)
                                && is_traversal(ids, old(self).blocks(), commits, Edges::Children, Seq::empty(), Seq::empty())
                                && is_block_stream(r@, q.id, ids, old(self).blocks()))
                    },
                    BrokerOverlayRequestContentV0::BlockPut(BlockPut::V0(b)) => {
                        &&& final(self).overlays() == old(self).overlays()
                        &&& (!old(self).overlays().contains_key(*overlay) ==> response_result_of(r@[0])
                            == error_code(ProtocolError::OverlayNotJoined) && final(self).blocks() == old(self).blocks())
                        &&& (old(self).overlays().contains_key(*overlay) && crate::block::block_encoding(b@).len()
                            > old(self).max_block_size() ==> response_result_of(r@[0]) == error_code(
                            ProtocolError::InvalidBlock) && final(self).blocks() == old(self).blocks())
                        &&& (old(self).overlays().contains_key(*overlay) && crate::block::block_encoding(b@).len()
                            <= old(self).max_block_size() ==> response_result_of(r@[0]) == 0 && exists|id: BlockId|
                            is_id_of(id, b@) && #[trigger] final(self).blocks().contains_key(id) && (
                            old(self).blocks().contains_key(id) ==> final(self).blocks() == old(self).blocks())
                            && (!old(self).blocks().contains_key(id) ==> final(self).blocks() == old(self).blocks().insert(id, b@)))
                    },
                    BrokerOverlayRequestContentV0::OverlayJoin(OverlayJoin::V0(j)) => {
                        &&& final(self).blocks() == old(self).blocks()
                        &&& (!old(self).overlays().contains_key(*overlay) ==> response_result_of(r@[0]) == 0
                            && final(self).overlays() == old(self).overlays().insert(
                            *overlay,
                            OverlayView {
                                secret: j.secret,
                                peers: advert_peers(j.peers@),
                                topics: Set::empty(),
                                meta: OverlayMeta { users: 1, last_used: now },
                                repo: j.repo_pubkey,
                            },
                        ))
                        &&& (old(self).overlays().contains_key(*overlay) && old(self).overlays()[*overlay].secret
                            != j.secret ==> response_result_of(r@[0]) == error_code(ProtocolError::InvalidSecret)
                            && final(self).overlays() == old(self).overlays())
                        &&& (old(self).overlays().contains_key(*overlay) && old(self).overlays()[*overlay].secret
                            == j.secret ==> response_result_of(r@[0]) == 0 && final(self).overlays()
                            == old(self).overlays().insert(
                            *overlay,
                            OverlayView {
                                peers: old(self).overlays()[*overlay].peers.union(advert_peers(j.peers@)),
                                meta: OverlayMeta {
                                    users: if old(self).overlays()[*overlay].meta.users < u32::MAX {
                                        (old(self).overlays()[*overlay].meta.users + 1) as u32
                                    } else {
                                        u32::MAX
                                    },
                                    last_used: now,
                                },
                                ..old(self).overlays()[*overlay]
                            },
                        ))
                    },
                    BrokerOverlayRequestContentV0::OverlayLeave(_) => {
                        &&& final(self).blocks() == old(self).blocks()
                        &&& (!old(self).overlays().contains_key(*overlay) ==> response_result_of(r@[0])
                            == error_code(ProtocolError::OverlayNotJoined) && final(self).overlays() == old(self).overlays())
                        &&& (old(self).overlays().contains_key(*overlay) ==> response_result_of(r@[0]) == 0
                            && final(self).overlays() == old(self).overlays().insert(
                            *overlay,
                            OverlayView {
                                meta: OverlayMeta {
                                    users: if old(self).overlays()[*overlay].meta.users > 0 {
                                        (old(self).overlays()[*overlay].meta.users - 1) as u32
                                    } else {
                                        0
                                    },
                                    last_used: now,
                                },
                                ..old(self).overlays()[*overlay]
                            },
                        ))
                    },
                    BrokerOverlayRequestContentV0::TopicSub(TopicSub::V0(t)) => {
                        &&& final(self).blocks() == old(self).blocks()
                        &&& (!old(self).overlays().contains_key(*overlay) ==> response_result_of(r@[0])
                            == error_code(ProtocolError::OverlayNotJoined) && final(self).overlays() == old(self).overlays())
                        &&& (old(self).overlays().contains_key(*overlay) ==> response_result_of(r@[0]) == 0
                            && final(self).overlays() == old(self).overlays().insert(
                            *overlay,
                            OverlayView {
                                topics: old(self).overlays()[*overlay].topics.insert(t.topic),
                                ..old(self).overlays()[*overlay]
                            },
                        ))
                    },
                    BrokerOverlayRequestContentV0::TopicUnsub(TopicUnsub::V0(t)) => {
                        &&& final(self).blocks() == old(self).blocks()
                        &&& (!old(self).overlays().contains_key(*overlay) ==> response_result_of(r@[0])
                            == error_code(ProtocolError::OverlayNotJoined) && final(self).overlays() == old(self).overlays())
                        &&& (old(self).overlays().contains_key(*overlay) ==> response_result_of(r@[0]) == 0
                            && final(self).overlays() == old(self).overlays().insert(
                            *overlay,
                            OverlayView {
                                topics: old(self).overlays()[*overlay].topics.remove(t.topic),
                                ..old(self).overlays()[*overlay]
                            },
                        ))
                    },
                },
            },
    {
        let rid = req.id();
        let outcome = match req.content_v0() {
            BrokerOverlayRequestContentV0::BlockGet(BlockGet::V0(g)) => {
                return self.block_get(rid, overlay, &g.id, g.include_children);
            },
            BrokerOverlayRequestContentV0::BranchSyncReq(BranchSyncReq::V0(q)) => {
                return self.branch_sync(rid, overlay, &q.heads, &q.known_heads, &q.known_commits);
            },
            BrokerOverlayRequestContentV0::OverlayConnect(_) => self.overlay_connect(&user, overlay),
            BrokerOverlayRequestContentV0::OverlayLeave(_) => self.overlay_leave(overlay, now),
            BrokerOverlayRequestContentV0::OverlayJoin(OverlayJoin::V0(j)) => {
                self.overlay_join(user, overlay, &j.secret, &j.peers, j.repo_pubkey, now)
            },
            BrokerOverlayRequestContentV0::BlockPut(BlockPut::V0(b)) => self.block_put(overlay, b.duplicate()),
            BrokerOverlayRequestContentV0::ObjectDel(ObjectDel::V0(d)) => self.object_del(overlay, &d.id),
            BrokerOverlayRequestContentV0::TopicSub(TopicSub::V0(t)) => self.topic_sub(overlay, &t.topic),
            BrokerOverlayRequestContentV0::TopicUnsub(TopicUnsub::V0(t)) => self.topic_unsub(overlay, &t.topic),
            _ => Err(ProtocolError::InvalidState),
        };
        let mut r: Vec<BrokerOverlayResponse> = Vec::new();
        r.push(BrokerOverlayResponse::new(rid, crate::errors::result_code(&outcome), None));
        r
    }

    /// Handles one broker request from the authenticated `user`: one
    /// response with the request's id and the operation's result code.
    /// Each request is signed by `user`.
    pub fn handle_broker_request(&mut self, user: UserId, req: &BrokerRequest) -> (r: BrokerResponse)
        requires
            old(self).wf(),
        ensures
            final(self).wf(),
            final(self).blocks() == old(self).blocks(),
            final(self).overlays() == old(self).overlays(),
            final(self).admins() == old(self).admins(),
            final(self).mode() == old(self).mode(),
            r == BrokerResponse::V0(BrokerResponseV0 {
                id: broker_request_id_of(*req),
                result: broker_response_result_of(r),
            }),
            match broker_request_content_of(*req) {
                BrokerRequestContentV0::AddUser(AddUser::V0(a)) => {
                    let o = add_user_outcome(old(self).users(), old(self).admins(), old(self).mode(), a.content.user, user, a.sig);
                    &&& broker_response_result_of(r) == result_code_of(o)
                    &&& final(self).users() == (if o is Ok { old(self).users().push(a.content.user) } else { old(self).users() })
                    &&& final(self).clients() == old(self).clients()
                },
                BrokerRequestContentV0::DelUser(DelUser::V0(d)) => {
                    let o = del_user_outcome(old(self).users(), old(self).admins(), old(self).mode(), d.content.user, user, d.sig);
                    &&& broker_response_result_of(r) == result_code_of(o)
                    &&& (o is Ok ==> final(self).users().to_set() == old(self).users().to_set().remove(d.content.user))
                    &&& (o is Err ==> final(self).users() == old(self).users())
                    &&& final(self).clients() == old(self).clients()
                },
                BrokerRequestContentV0::AddClient(AddClient::V0(a)) => {
                    let o = add_client_outcome(old(self).users(), user, a.content.client, a.sig);
                    &&& broker_response_result_of(r) == result_code_of(o)
                    &&& final(self).clients() == (if o is Ok { old(self).clients().push((user, a.content.client)) } else { old(self).clients() })
                    &&& final(self).users() == old(self).users()
                },
                BrokerRequestContentV0::DelClient(DelClient::V0(d)) => {
                    let o = del_client_outcome(old(self).clients(), user, d.content.client, d.sig);
                    &&& broker_response_result_of(r) == result_code_of(o)
                    &&& (o is Ok ==> final(self).clients().to_set() == old(self).clients().to_set().remove((user, d.content.client)))
                    &&& (o is Err ==> final(self).clients() == old(self).clients())
                    &&& final(self).users() == old(self).users()
                },
            },
    {
        let rid = req.id();
        let outcome = match req.content_v0() {
            BrokerRequestContentV0::AddUser(AddUser::V0(a)) => self.add_user(a.content.user, user, a.sig),
            BrokerRequestContentV0::DelUser(DelUser::V0(d)) => self.del_user(d.content.user, user, d.sig),
            BrokerRequestContentV0::AddClient(AddClient::V0(a)) => self.add_client(user, a.content.client, a.sig),
            BrokerRequestContentV0::DelClient(DelClient::V0(d)) => self.del_client(user, d.content.client, d.sig),
        };
        BrokerResponse::V0(BrokerResponseV0 { id: rid, result: crate::errors::result_code(&outcome) })
    }

    /// Number of blocks stored.
    pub fn block_count(&self) -> (r: usize)
        requires
            self.wf(),
        ensures
            r == self.blocks().len(),
    {
        self.store.len()
    }

    /// The user count of an overlay, if the broker has joined it.
    pub fn overlay_users(&self, overlay: &OverlayId) -> (r: Option<u32>)
        requires
            self.wf(),
        ensures
            match r {
                Some(n) => self.overlays().contains_key(*overlay) && n == self.overlays()[*overlay].meta.users,
                None => !self.overlays().contains_key(*overlay),
            },
    {
        match self.overlays.metadata(overlay) {
            Ok(m) => Some(m.users),
            Err(_) => None,
        }
    }

    /// Whether a block is stored under `id`.
    pub fn has_block(&self, id: &BlockId) -> (r: bool)
        requires
            self.wf(),
        ensures
            r == self.blocks().contains_key(*id),
    {
        self.store.has(id)
    }

    /// Every block below the given roots, once, breadth first.
    pub fn traverse_children(&self, roots: &Vec<BlockId>) -> (r: Vec<BlockId>)
        requires
            self.wf(),
        ensures
            is_traversal(r@, self.blocks(), roots@, Edges::Children, Seq::empty(), Seq::empty()),
            forall|i: int| 0 <= i < r@.len() ==> self.blocks().contains_key(#[trigger] r@[i]),
    {
        let none: Vec<BlockId> = Vec::new();
        let r = traverse(&self.store, roots, Edges::Children, &none, &none);
        proof {
            assert forall|i: int| 0 <= i < r@.len() implies self.blocks().contains_key(#[trigger] r@[i]) by {
                assert(is_taken(self.blocks(), none@, Seq::empty(), r@[i]));
            }
        }
        r
    }

    /// A copy of the block stored under `id`; `NotFound` if there is none.
    pub fn get_block(&self, id: &BlockId) -> (r: Result<Block, ProtocolError>)
        requires
            self.wf(),
        ensures
            match r {
                Ok(b) => self.blocks().contains_key(*id) && self.blocks()[*id] == b@,
                Err(e) => !self.blocks().contains_key(*id) && e == ProtocolError::NotFound,
            },
    {
        self.store.get(id)
    }
}

/// Soundness of branch synchronisation: a dependency of a sent commit that
/// is stored but not sent was reachable from the known heads or was reported
/// by the Bloom filter of known commits (the filter's answers are taken as
/// they came; a false positive only leaves out a commit the requester has).
pub proof fn lemma_sync_omits_only_known(
    store: Map<BlockId, BlockView>,
    heads: Seq<BlockId>,
    known_heads: Seq<BlockId>,
    known: Seq<BlockId>,
    reported: Seq<BlockId>,
    commits: Seq<BlockId>,
    i: int,
    d: BlockId,
)
    requires
        is_sync(store, heads, known_heads, known, reported, commits),
        0 <= i < commits.len(),
        edges_of(store[commits[i]], Edges::Deps).contains(d),
        store.contains_key(d),
        !commits.contains(d),
    ensures
        known.contains(d) || reported.contains(d),
{
}

/// Soundness of branch synchronisation for the heads: a stored head that is
/// not sent was reachable from the known heads or reported by the filter.
pub proof fn lemma_sync_omits_only_known_heads(
    store: Map<BlockId, BlockView>,
    heads: Seq<BlockId>,
    known_heads: Seq<BlockId>,
    known: Seq<BlockId>,
    reported: Seq<BlockId>,
    commits: Seq<BlockId>,
    h: BlockId,
)
    requires
        is_sync(store, heads, known_heads, known, reported, commits),
        heads.contains(h),
        store.contains_key(h),
        !commits.contains(h),
    ensures
        known.contains(h) || reported.contains(h),
{
}

/// Whether `to` is reached from `from` by `n` child edges through stored
/// blocks.
pub open spec fn reaches(store: Map<BlockId, BlockView>, from: BlockId, to: BlockId, n: nat) -> bool
    decreases n,
{
    if n == 0 {
        from == to
    } else {
        store.contains_key(from) && exists|c: BlockId|
            #[trigger] store[from].children.contains(c) && store.contains_key(c) && reaches(store, c, to, (n - 1) as nat)
    }
}

/// A child traversal from one root contains every stored block that the
/// root reaches through stored blocks: `BlockGet` with children sends each
/// transitive child of the root.
pub proof fn lemma_block_get_transitive(
    store: Map<BlockId, BlockView>,
    root: BlockId,
    ids: Seq<BlockId>,
    a: BlockId,
    k: BlockId,
    n: nat,
)
    requires
        is_traversal(ids, store, seq![root], Edges::Children, Seq::empty(), Seq::empty()),
        ids.contains(a),
        reaches(store, a, k, n),
    ensures
        ids.contains(k),
    decreases n,
{
    if n > 0 {
        let c = choose|c: BlockId|
            #[trigger] store[a].children.contains(c) && store.contains_key(c) && reaches(store, c, k, (n - 1) as nat);
        let i = choose|i: int| 0 <= i < ids.len() && ids[i] == a;
        assert(edges_of(store[ids[i]], Edges::Children).contains(c));
        assert(!Seq::<BlockId>::empty().contains(c));
        lemma_block_get_transitive(store, root, ids, c, k, (n - 1) as nat);
    }
}

/// Every block that `BlockGet` with children sends is the root or a child of
/// a block sent before it, and each child of a sent block that is stored is
/// sent too.
pub proof fn lemma_block_get_complete(
    store: Map<BlockId, BlockView>,
    root: BlockId,
    ids: Seq<BlockId>,
    i: int,
    c: BlockId,
)
    requires
        is_traversal(ids, store, seq![root], Edges::Children, Seq::empty(), Seq::empty()),
        0 <= i < ids.len(),
        store[ids[i]].children.contains(c),
        store.contains_key(c),
    ensures
        ids.contains(c),
{
    assert(edges_of(store[ids[i]], Edges::Children).contains(c));
    assert(!Seq::<BlockId>::empty().contains(c));
}

} // verus!
