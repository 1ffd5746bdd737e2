//! Network protocol messages between peers, brokers and clients.
use vstd::prelude::*;
use crate::block::{Block, ObjectRef};
use crate::keys::{
    BloomFilter, BloomFilter128, BlockId, Digest, ObjectId, PrivKey, PubKey, Sig, SymKey,
    Timestamp,
};

verus! {

// ---------------------------------------------------------------------------
// Common types

/// Peer ID: public key of the node
pub type PeerId = PubKey;

/// Overlay ID
///
/// - for public overlays: BLAKE3 hash over the repository public key
/// - for private overlays: BLAKE3 keyed hash over the repository public key,
///   keyed by BLAKE3 derive_key ("LoFiRe OverlayId BLAKE3 key", repo_secret)
pub type OverlayId = Digest;

/// Overlay session ID
pub type SessionId = u64;

/// Topic ID: public key of the topic
pub type TopicId = PubKey;

/// User ID: user account for broker
pub type UserId = PubKey;

/// Client ID: client of a user
pub type ClientId = PubKey;

/// IPv4 address
pub type IPv4 = [u8; 4];

/// IPv6 address
pub type IPv6 = [u8; 16];

/// IP address
#[derive(Clone, Copy, Debug)]
pub enum IP {
    IPv4(IPv4),
    IPv6(IPv6),
}

/// IP transport protocol
#[derive(Clone, Copy, Debug, PartialEq, Eq, Structural)]
pub enum IPTransportProtocol {
    TLS,
    QUIC,
}

/// IP transport address
#[derive(Clone, Copy, Debug)]
pub struct IPTransportAddr {
    pub ip: IP,
    pub port: u16,
    pub protocol: IPTransportProtocol,
}

/// Network address
#[derive(Clone, Copy, Debug)]
pub enum NetAddr {
    IPTransport(IPTransportAddr),
}

// ---------------------------------------------------------------------------
// Overlay messages

/// Overlay connection request
#[derive(Clone, Copy, Debug)]
pub enum OverlayConnect {
    V0(),
}

/// Overlay disconnection request
#[derive(Clone, Copy, Debug)]
pub enum OverlayDisconnect {
    V0(),
}

/// Content of TopicAdvertV0
#[derive(Clone, Copy, Debug)]
pub struct TopicAdvertContentV0 {
    /// Topic public key
    pub topic: TopicId,
    /// Peer public key
    pub peer: PeerId,
}

/// Topic advertisement by a publisher
#[derive(Clone, Copy, Debug)]
pub struct TopicAdvertV0 {
    pub content: TopicAdvertContentV0,
    /// Signature over content by topic key
    pub sig: Sig,
}

/// Topic advertisement by a publisher
#[derive(Clone, Copy, Debug)]
pub enum TopicAdvert {
    V0(TopicAdvertV0),
}

/// Topic subscription request by a peer
#[derive(Clone, Copy, Debug)]
pub struct SubReqV0 {
    /// Random ID generated by the subscriber
    pub id: u64,
    /// Topic public key
    pub topic: TopicId,
}

/// Topic subscription request by a peer
#[derive(Clone, Copy, Debug)]
pub enum SubReq {
    V0(SubReqV0),
}

/// Topic subscription acknowledgement by a publisher
#[derive(Clone, Copy, Debug)]
pub struct SubAckV0 {
    /// SubReq ID to acknowledge
    pub id: u64,
}

/// Topic subscription acknowledgement by a publisher
#[derive(Clone, Copy, Debug)]
pub enum SubAck {
    V0(SubAckV0),
}

/// Topic unsubscription request by a subscriber
#[derive(Clone, Copy, Debug)]
pub struct UnsubReqV0 {
    /// Topic public key
    pub topic: TopicId,
}

/// Topic unsubscription request by a subscriber
#[derive(Clone, Copy, Debug)]
pub enum UnsubReq {
    V0(UnsubReqV0),
}

/// Topic unsubscription acknowledgement
#[derive(Clone, Copy, Debug)]
pub struct UnsubAckV0 {
    /// Topic public key
    pub topic: TopicId,
}

/// Topic unsubscription acknowledgement
#[derive(Clone, Copy, Debug)]
pub enum UnsubAck {
    V0(UnsubAckV0),
}

/// Branch change notification: a chunk of a newly added commit or file
#[derive(Clone, Debug)]
pub struct ChangeV0 {
    /// Block with encrypted content
    pub content: Block,
    /// Encrypted key for the commit object in content; only set for the
    /// root block of the object
    pub key: Option<SymKey>,
}

/// Body of EventContentV0
#[derive(Clone, Copy, Debug)]
pub enum EventBodyV0 {
    SubAck,
    Change,
}

/// Content of EventV0
#[derive(Clone, Copy, Debug)]
pub struct EventContentV0 {
    /// Pub/sub topic
    pub topic: TopicId,
    /// Publisher pubkey hash
    pub publisher: Digest,
    /// Commit sequence number of publisher
    pub seq: u32,
    /// Event body
    pub body: EventBodyV0,
}

/// Pub/sub event published in a topic
#[derive(Clone, Copy, Debug)]
pub struct EventV0 {
    pub content: EventContentV0,
    /// Signature over content by topic key
    pub sig: Sig,
}

/// Pub/sub event published in a topic
#[derive(Clone, Copy, Debug)]
pub enum Event {
    V0(EventV0),
}

/// Object search in a pub/sub topic
#[derive(Clone, Debug)]
pub struct BlockSearchTopicV0 {
    /// Topic to forward the request in
    pub topic: TopicId,
    /// List of Object IDs to request
    pub ids: Vec<ObjectId>,
    /// Whether or not to include all children recursively in the response
    pub include_children: bool,
    /// List of Peer IDs the request traversed so far
    pub path: Vec<PeerId>,
}

/// Object request by ID
#[derive(Clone, Debug)]
pub enum BlockSearchTopic {
    V0(BlockSearchTopicV0),
}

/// Block search along a random walk
#[derive(Clone, Debug)]
pub struct BlockSearchRandomV0 {
    /// List of Block IDs to request
    pub ids: Vec<BlockId>,
    /// Whether or not to include all children recursively in the response
    pub include_children: bool,
    /// Number of random nodes to forward the request to at each step
    pub fanout: u8,
    /// List of Peer IDs the request traversed so far
    pub path: Vec<PeerId>,
}

/// Block request by ID using a random walk
#[derive(Clone, Debug)]
pub enum BlockSearchRandom {
    V0(BlockSearchRandomV0),
}

/// Response to a BlockSearch* request
#[derive(Clone, Debug)]
pub struct BlockResultV0 {
    /// Response path
    pub path: Vec<PeerId>,
    /// Resulting Object(s)
    pub payload: Vec<Block>,
}

/// Response to a BlockSearch* request
#[derive(Clone, Debug)]
pub enum BlockResult {
    V0(BlockResultV0),
}

/// Request latest events corresponding to the branch heads in a pub/sub topic
#[derive(Clone, Debug)]
pub struct BranchHeadsReqV0 {
    /// Topic public key of the branch
    pub topic: TopicId,
    /// Known heads
    pub known_heads: Vec<ObjectId>,
}

/// Request latest events corresponding to the branch heads in a pub/sub topic
#[derive(Clone, Debug)]
pub enum BranchHeadsReq {
    V0(BranchHeadsReqV0),
}

/// Branch synchronization request
#[derive(Clone, Debug)]
pub struct BranchSyncReqV0 {
    /// Heads to request, including all their dependencies
    pub heads: Vec<ObjectId>,
    /// Fully synchronized until these commits
    pub known_heads: Vec<ObjectId>,
    /// Known commit IDs since known_heads
    pub known_commits: BloomFilter,
}

/// Branch synchronization request
#[derive(Clone, Debug)]
pub enum BranchSyncReq {
    V0(BranchSyncReqV0),
}

/// Events the requestor needs, see EventReqV0
#[derive(Clone, Copy, Debug)]
pub struct NeedEventsV0 {
    /// Publisher ID
    pub publisher: Digest,
    /// First sequence number to request
    pub from: u32,
    /// Last sequence number to request
    pub to: u32,
}

/// Events the responder has, see EventRespV0
#[derive(Clone, Copy, Debug)]
pub struct HaveEventsV0 {
    /// Publisher ID
    pub publisher: Digest,
    /// First sequence number to send
    pub from: u32,
    /// Last sequence number to send
    pub to: u32,
}

/// Request missed events for a pub/sub topic
#[derive(Clone, Debug)]
pub struct EventReqV0 {
    /// Topic public key
    pub topic: TopicId,
    /// Events needed by the requestor
    pub need: Vec<NeedEventsV0>,
}

/// Request missed events for a pub/sub topic
#[derive(Clone, Debug)]
pub enum EventReq {
    V0(EventReqV0),
}

/// Response to an EventReq
#[derive(Clone, Debug)]
pub struct EventRespV0 {
    /// Events the responder has
    pub have: Vec<HaveEventsV0>,
}

/// Response to an EventReq
#[derive(Clone, Debug)]
pub enum EventResp {
    V0(EventRespV0),
}

/// Content of OverlayRequestV0
#[derive(Clone, Debug)]
pub enum OverlayRequestContentV0 {
    EventReq(EventReq),
    BranchHeadsReq(BranchHeadsReq),
    BranchSyncReq(BranchSyncReq),
}

/// Request sent to an overlay
#[derive(Clone, Debug)]
pub struct OverlayRequestV0 {
    /// Request ID
    pub id: u64,
    /// Request content
    pub content: OverlayRequestContentV0,
}

/// Request sent to an overlay
#[derive(Clone, Debug)]
pub enum OverlayRequest {
    V0(OverlayRequestV0),
}

/// Content of OverlayResponseV0
#[derive(Clone, Debug)]
pub enum OverlayResponseContentV0 {
    Block(Block),
    EventResp(EventResp),
    Event(Event),
}

/// Response to an OverlayRequest
#[derive(Clone, Debug)]
pub struct OverlayResponseV0 {
    /// Request ID
    pub id: u64,
    /// Result
    pub result: u8,
    /// Response content
    pub content: Option<OverlayResponseContentV0>,
}

/// Response to an OverlayRequest
#[derive(Clone, Debug)]
pub enum OverlayResponse {
    V0(OverlayResponseV0),
}

/// Content of PeerAdvertV0
#[derive(Clone, Debug)]
pub struct PeerAdvertContentV0 {
    /// Peer ID
    pub peer: PeerId,
    /// Topic subscriptions
    pub subs: BloomFilter128,
    /// Network addresses
    pub address: Vec<NetAddr>,
    /// Version number
    pub version: u16,
    /// App-specific metadata (profile, cryptographic material, etc)
    pub metadata: Vec<u8>,
}

/// Peer advertisement
#[derive(Clone, Debug)]
pub struct PeerAdvertV0 {
    /// Peer advertisement content
    pub content: PeerAdvertContentV0,
    /// Signature over content by peer's private key
    pub sig: Sig,
    /// Time-to-live, decremented at each hop
    pub ttl: u8,
}

/// Peer advertisement
#[derive(Clone, Debug)]
pub enum PeerAdvert {
    V0(PeerAdvertV0),
}

/// Whether two peer advertisements hold the same values.
pub open spec fn advert_same(a: PeerAdvert, b: PeerAdvert) -> bool {
    match (a, b) {
        (PeerAdvert::V0(x), PeerAdvert::V0(y)) => {
            &&& x.content.peer == y.content.peer
            &&& x.content.subs == y.content.subs
            &&& x.content.address@ == y.content.address@
            &&& x.content.version == y.content.version
            &&& x.content.metadata@ == y.content.metadata@
            &&& x.sig == y.sig
            &&& x.ttl == y.ttl
        },
    }
}

impl PeerAdvert {
    /// A copy with the same values.
    pub fn duplicate(&self) -> (r: PeerAdvert)
        ensures
            advert_same(r, *self),
    {
        match self {
            PeerAdvert::V0(x) => {
                let mut address: Vec<NetAddr> = Vec::new();
                let mut i: usize = 0;
                while i < x.content.address.len()
                    invariant
                        0 <= i <= x.content.address@.len(),
                        address@ == x.content.address@.subrange(0, i as int),
                    decreases x.content.address@.len() - i,
                {
                    address.push(x.content.address[i]);
                    i = i + 1;
                    assert(address@ =~= x.content.address@.subrange(0, i as int));
                }
                assert(address@ =~= x.content.address@);
                PeerAdvert::V0(
                    PeerAdvertV0 {
                        content: PeerAdvertContentV0 {
                            peer: x.content.peer,
                            subs: x.content.subs,
                            address,
                            version: x.content.version,
                            metadata: crate::block::copy_bytes(&x.content.metadata),
                        },
                        sig: x.sig,
                        ttl: x.ttl,
                    },
                )
            },
        }
    }
}

/// Content of OverlayMessageContentPaddedV0
#[derive(Clone, Debug)]
pub enum OverlayMessageContentV0 {
    OverlayConnect(OverlayConnect),
    OverlayDisconnect(OverlayDisconnect),
    PeerAdvert(PeerAdvert),
    TopicAdvert(TopicAdvert),
    SubReq(SubReq),
    SubAck(SubAck),
    UnsubReq(UnsubReq),
    UnsubAck(UnsubAck),
    Event(Event),
    BlockSearchTopic(BlockSearchTopic),
    BlockSearchRandom(BlockSearchRandom),
    BlockResult(BlockResult),
    OverlayRequest(OverlayRequest),
    OverlayResponse(OverlayResponse),
}

/// Padded content of OverlayMessageV0
#[derive(Clone, Debug)]
pub struct OverlayMessageContentPaddedV0 {
    pub content: OverlayMessageContentV0,
    /// Optional padding
    pub padding: Vec<u8>,
}

/// Overlay message
#[derive(Clone, Debug)]
pub struct OverlayMessageV0 {
    /// Overlay ID
    pub overlay: OverlayId,
    /// Session ID
    pub session: SessionId,
    /// Padded content encrypted with ChaCha20
    pub content: OverlayMessageContentPaddedV0,
    /// BLAKE3 MAC over the encrypted content
    pub mac: Digest,
}

/// Overlay message
#[derive(Clone, Debug)]
pub enum OverlayMessage {
    V0(OverlayMessageV0),
}

// ---------------------------------------------------------------------------
// Broker protocol

/// Content of AddUserV0
#[derive(Clone, Copy, Debug)]
pub struct AddUserContentV0 {
    /// User pub key
    pub user: PubKey,
}

/// Add user account
#[derive(Clone, Copy, Debug)]
pub struct AddUserV0 {
    pub content: AddUserContentV0,
    /// Signature by admin key
    pub sig: Sig,
}

/// Add user account
#[derive(Clone, Copy, Debug)]
pub enum AddUser {
    V0(AddUserV0),
}

impl AddUser {
    pub fn content_v0(&self) -> (r: AddUserContentV0)
        ensures
            r == (match self {
                AddUser::V0(o) => o.content,
            }),
    {
        match self {
            AddUser::V0(o) => o.content,
        }
    }

    pub fn sig(&self) -> (r: Sig)
        ensures
            r == (match self {
                AddUser::V0(o) => o.sig,
            }),
    {
        match self {
            AddUser::V0(o) => o.sig,
        }
    }

    pub fn user(&self) -> (r: PubKey)
        ensures
            r == (match self {
                AddUser::V0(o) => o.content.user,
            }),
    {
        match self {
            AddUser::V0(o) => o.content.user,
        }
    }
}

/// Content of DelUserV0
#[derive(Clone, Copy, Debug)]
pub struct DelUserContentV0 {
    /// User pub key
    pub user: PubKey,
}

/// Delete user account
#[derive(Clone, Copy, Debug)]
pub struct DelUserV0 {
    pub content: DelUserContentV0,
    /// Signature by admin key
    pub sig: Sig,
}

/// Delete user account
#[derive(Clone, Copy, Debug)]
pub enum DelUser {
    V0(DelUserV0),
}

impl DelUser {
    pub fn content_v0(&self) -> (r: DelUserContentV0)
        ensures
            r == (match self {
                DelUser::V0(o) => o.content,
            }),
    {
        match self {
            DelUser::V0(o) => o.content,
        }
    }

    pub fn sig(&self) -> (r: Sig)
        ensures
            r == (match self {
                DelUser::V0(o) => o.sig,
            }),
    {
        match self {
            DelUser::V0(o) => o.sig,
        }
    }

    pub fn user(&self) -> (r: PubKey)
        ensures
            r == (match self {
                DelUser::V0(o) => o.content.user,
            }),
    {
        match self {
            DelUser::V0(o) => o.content.user,
        }
    }
}

/// Content of `AddClientV0`
#[derive(Clone, Copy, Debug)]
pub struct AddClientContentV0 {
    /// Client pub key
    pub client: PubKey,
}

/// Add a client
#[derive(Clone, Copy, Debug)]
pub struct AddClientV0 {
    pub content: AddClientContentV0,
    /// Signature by user key
    pub sig: Sig,
}

/// Add a client
#[derive(Clone, Copy, Debug)]
pub enum AddClient {
    V0(AddClientV0),
}

impl AddClient {
    pub fn content_v0(&self) -> (r: AddClientContentV0)
        ensures
            r == (match self {
                AddClient::V0(o) => o.content,
            }),
    {
        match self {
            AddClient::V0(o) => o.content,
        }
    }

    pub fn sig(&self) -> (r: Sig)
        ensures
            r == (match self {
                AddClient::V0(o) => o.sig,
            }),
    {
        match self {
            AddClient::V0(o) => o.sig,
        }
    }

    pub fn client(&self) -> (r: PubKey)
        ensures
            r == (match self {
                AddClient::V0(o) => o.content.client,
            }),
    {
        match self {
            AddClient::V0(o) => o.content.client,
        }
    }
}

/// Content of `DelClientV0`
#[derive(Clone, Copy, Debug)]
pub struct DelClientContentV0 {
    /// Client pub key
    pub client: PubKey,
}

/// Remove a client
#[derive(Clone, Copy, Debug)]
pub struct DelClientV0 {
    pub content: DelClientContentV0,
    /// Signature by user key
    pub sig: Sig,
}

/// Remove a client
#[derive(Clone, Copy, Debug)]
pub enum DelClient {
    V0(DelClientV0),
}

impl DelClient {
    pub fn content_v0(&self) -> (r: DelClientContentV0)
        ensures
            r == (match self {
                DelClient::V0(o) => o.content,
            }),
    {
        match self {
            DelClient::V0(o) => o.content,
        }
    }

    pub fn sig(&self) -> (r: Sig)
        ensures
            r == (match self {
                DelClient::V0(o) => o.sig,
            }),
    {
        match self {
            DelClient::V0(o) => o.sig,
        }
    }

    pub fn client(&self) -> (r: PubKey)
        ensures
            r == (match self {
                DelClient::V0(o) => o.content.client,
            }),
    {
        match self {
            DelClient::V0(o) => o.content.client,
        }
    }
}

/// Content of `BrokerRequestV0`
#[derive(Clone, Copy, Debug)]
pub enum BrokerRequestContentV0 {
    AddUser(AddUser),
    DelUser(DelUser),
    AddClient(AddClient),
    DelClient(DelClient),
}

/// Broker request
#[derive(Clone, Copy, Debug)]
pub struct BrokerRequestV0 {
    /// Request ID
    pub id: u64,
    /// Request content
    pub content: BrokerRequestContentV0,
}

/// Broker request
#[derive(Clone, Copy, Debug)]
pub enum BrokerRequest {
    V0(BrokerRequestV0),
}

impl BrokerRequest {
    pub fn id(&self) -> (r: u64)
        ensures
            r == (match self {
                BrokerRequest::V0(o) => o.id,
            }),
    {
        match self {
            BrokerRequest::V0(o) => o.id,
        }
    }

    pub fn content_v0(&self) -> (r: BrokerRequestContentV0)
        ensures
            r == (match self {
                BrokerRequest::V0(o) => o.content,
            }),
    {
        match self {
            BrokerRequest::V0(o) => o.content,
        }
    }
}

/// Response to a `BrokerRequest`
#[derive(Clone, Copy, Debug)]
pub struct BrokerResponseV0 {
    /// Request ID
    pub id: u64,
    /// Result code
    pub result: u16,
}

/// Response to a `BrokerRequest`
#[derive(Clone, Copy, Debug)]
pub enum BrokerResponse {
    V0(BrokerResponseV0),
}

impl BrokerResponse {
    pub fn id(&self) -> (r: u64)
        ensures
            r == (match self {
                BrokerResponse::V0(o) => o.id,
            }),
    {
        match self {
            BrokerResponse::V0(o) => o.id,
        }
    }

    pub fn result(&self) -> (r: u16)
        ensures
            r == (match self {
                BrokerResponse::V0(o) => o.result,
            }),
    {
        match self {
            BrokerResponse::V0(o) => o.result,
        }
    }
}

/// Request to join an overlay
#[derive(Clone, Debug)]
pub struct OverlayJoinV0 {
    /// Overlay secret
    pub secret: SymKey,
    /// Repository the overlay belongs to; only set for local brokers
    pub repo_pubkey: Option<PubKey>,
    /// Secret for the repository; only set for local brokers
    pub repo_secret: Option<SymKey>,
    /// Peers to connect to
    pub peers: Vec<PeerAdvert>,
}

/// Request to join an overlay
#[derive(Clone, Debug)]
pub enum OverlayJoin {
    V0(OverlayJoinV0),
}

impl OverlayJoin {
    pub fn secret(&self) -> (r: SymKey)
        ensures
            r == (match self {
                OverlayJoin::V0(o) => o.secret,
            }),
    {
        match self {
            OverlayJoin::V0(o) => o.secret,
        }
    }

    pub fn peers(&self) -> (r: &Vec<PeerAdvert>)
        ensures
            *r == (match self {
                OverlayJoin::V0(o) => o.peers,
            }),
    {
        match self {
            OverlayJoin::V0(o) => &o.peers,
        }
    }

    /// Repository the overlay belongs to, if given.
    pub fn repo_pubkey(&self) -> (r: Option<PubKey>)
        ensures
            r == (match self {
                OverlayJoin::V0(o) => o.repo_pubkey,
            }),
    {
        match self {
            OverlayJoin::V0(o) => o.repo_pubkey,
        }
    }
}

/// Request to leave an overlay
#[derive(Clone, Copy, Debug)]
pub enum OverlayLeave {
    V0(),
}

/// Request a Block by ID
#[derive(Clone, Copy, Debug)]
pub struct BlockGetV0 {
    /// Block ID to request
    pub id: BlockId,
    /// Whether or not to include all children recursively
    pub include_children: bool,
    /// Topic the object is referenced from
    pub topic: Option<PubKey>,
}

/// Request an object by ID
#[derive(Clone, Copy, Debug)]
pub enum BlockGet {
    V0(BlockGetV0),
}

impl BlockGet {
    /// Block ID to request.
    pub fn id(&self) -> (r: BlockId)
        ensures
            r == (match self {
                BlockGet::V0(o) => o.id,
            }),
    {
        match self {
            BlockGet::V0(o) => o.id,
        }
    }

    /// Whether all children are requested too.
    pub fn include_children(&self) -> (r: bool)
        ensures
            r == (match self {
                BlockGet::V0(o) => o.include_children,
            }),
    {
        match self {
            BlockGet::V0(o) => o.include_children,
        }
    }

    /// Topic the object is referenced from.
    pub fn topic(&self) -> (r: Option<PubKey>)
        ensures
            r == (match self {
                BlockGet::V0(o) => o.topic,
            }),
    {
        match self {
            BlockGet::V0(o) => o.topic,
        }
    }
}

/// Request to store an object
#[derive(Clone, Debug)]
pub enum BlockPut {
    V0(Block),
}

impl BlockPut {
    pub fn block(&self) -> (r: &Block)
        ensures
            *r == (match self {
                BlockPut::V0(o) => *o,
            }),
    {
        match self {
            BlockPut::V0(o) => &o,
        }
    }
}

/// Request to pin an object
///
/// Brokers maintain an LRU cache of objects; pinned objects are retained
/// regardless of last access, though expiry is still observed.
#[derive(Clone, Copy, Debug)]
pub struct ObjectPinV0 {
    pub id: ObjectId,
}

/// Request to pin an object
#[derive(Clone, Copy, Debug)]
pub enum ObjectPin {
    ObjectPinV0,
}

/// Request to unpin an object
#[derive(Clone, Copy, Debug)]
pub struct ObjectUnpinV0 {
    pub id: ObjectId,
}

/// Request to unpin an object
#[derive(Clone, Copy, Debug)]
pub enum ObjectUnpin {
    V0(ObjectUnpinV0),
}

/// Request to copy an object with a different expiry time
#[derive(Clone, Copy, Debug)]
pub struct ObjectCopyV0 {
    /// Object ID to copy
    pub id: ObjectId,
    /// New expiry time
    pub expiry: Option<Timestamp>,
}

/// Request to copy an object with a different expiry time
#[derive(Clone, Copy, Debug)]
pub enum ObjectCopy {
    V0(ObjectCopyV0),
}

/// Request to delete an object
#[derive(Clone, Copy, Debug)]
pub struct ObjectDelV0 {
    pub id: ObjectId,
}

/// Request to delete an object
#[derive(Clone, Copy, Debug)]
pub enum ObjectDel {
    V0(ObjectDelV0),
}

/// Request subscription to a `Topic`
#[derive(Clone, Copy, Debug)]
pub struct TopicSubV0 {
    /// Topic to subscribe
    pub topic: PubKey,
    /// Publisher need to provide a signed `TopicAdvert` for the PeerId of the broker
    pub advert: Option<TopicAdvert>,
}

/// Request subscription to a `Topic`
#[derive(Clone, Copy, Debug)]
pub enum TopicSub {
    V0(TopicSubV0),
}

/// Request unsubscription from a `Topic`
#[derive(Clone, Copy, Debug)]
pub struct TopicUnsubV0 {
    /// Topic to unsubscribe
    pub topic: PubKey,
}

/// Request unsubscription from a `Topic`
#[derive(Clone, Copy, Debug)]
pub enum TopicUnsub {
    V0(TopicUnsubV0),
}

/// Connect to an already subscribed `Topic`, and start receiving its `Event`s
#[derive(Clone, Copy, Debug)]
pub struct TopicConnectV0 {
    /// Topic to connect
    pub topic: PubKey,
}

/// Connect to an already subscribed `Topic`, and start receiving its `Event`s
#[derive(Clone, Copy, Debug)]
pub enum TopicConnect {
    V0(TopicConnectV0),
}

/// Disconnect from a Topic, and stop receiving its `Event`s
#[derive(Clone, Copy, Debug)]
pub struct TopicDisconnectV0 {
    /// Topic to disconnect
    pub topic: PubKey,
}

/// Disconnect from a Topic, and stop receiving its `Event`s
#[derive(Clone, Copy, Debug)]
pub enum TopicDisconnect {
    V0(TopicDisconnectV0),
}

/// Content of `BrokerOverlayRequestV0`
#[derive(Clone, Debug)]
pub enum BrokerOverlayRequestContentV0 {
    OverlayConnect(OverlayConnect),
    OverlayDisconnect(OverlayDisconnect),
    OverlayJoin(OverlayJoin),
    OverlayLeave(OverlayLeave),
    TopicSub(TopicSub),
    TopicUnsub(TopicUnsub),
    TopicConnect(TopicConnect),
    TopicDisconnect(TopicDisconnect),
    Event(Event),
    BlockGet(BlockGet),
    BlockPut(BlockPut),
    ObjectPin(ObjectPin),
    ObjectUnpin(ObjectUnpin),
    ObjectCopy(ObjectCopy),
    ObjectDel(ObjectDel),
    BranchHeadsReq(BranchHeadsReq),
    BranchSyncReq(BranchSyncReq),
}

/// Broker overlay request
#[derive(Clone, Debug)]
pub struct BrokerOverlayRequestV0 {
    /// Request ID
    pub id: u64,
    /// Request content
    pub content: BrokerOverlayRequestContentV0,
}

/// Broker overlay request
#[derive(Clone, Debug)]
pub enum BrokerOverlayRequest {
    V0(BrokerOverlayRequestV0),
}

impl BrokerOverlayRequest {
    pub fn id(&self) -> (r: u64)
        ensures
            r == (match self {
                BrokerOverlayRequest::V0(o) => o.id,
            }),
    {
        match self {
            BrokerOverlayRequest::V0(o) => o.id,
        }
    }

    pub fn content_v0(&self) -> (r: &BrokerOverlayRequestContentV0)
        ensures
            *r == (match self {
                BrokerOverlayRequest::V0(o) => o.content,
            }),
    {
        match self {
            BrokerOverlayRequest::V0(o) => &o.content,
        }
    }
}

/// Content of `BrokerOverlayResponseV0`
#[derive(Clone, Debug)]
pub enum BrokerOverlayResponseContentV0 {
    Block(Block),
}

/// Response to a `BrokerOverlayRequest`
#[derive(Clone, Debug)]
pub struct BrokerOverlayResponseV0 {
    /// Request ID
    pub id: u64,
    /// Result code
    pub result: u16,
    /// Response content
    pub content: Option<BrokerOverlayResponseContentV0>,
}

/// Response to a `BrokerOverlayRequest`
#[derive(Clone, Debug)]
pub enum BrokerOverlayResponse {
    V0(BrokerOverlayResponseV0),
}

/// The block carried by an overlay response, if any.
pub open spec fn response_block_of(r: BrokerOverlayResponse) -> Option<Block> {
    match r {
        BrokerOverlayResponse::V0(o) => match o.content {
            Some(BrokerOverlayResponseContentV0::Block(b)) => Some(b),
            None => None,
        },
    }
}

/// The request id of an overlay response.
pub open spec fn response_id_of(r: BrokerOverlayResponse) -> u64 {
    match r {
        BrokerOverlayResponse::V0(o) => o.id,
    }
}

/// The result code of an overlay response.
pub open spec fn response_result_of(r: BrokerOverlayResponse) -> u16 {
    match r {
        BrokerOverlayResponse::V0(o) => o.result,
    }
}

impl BrokerOverlayResponse {
    /// Builds a response.
    pub fn new(id: u64, result: u16, block: Option<Block>) -> (r: BrokerOverlayResponse)
        ensures
            response_id_of(r) == id,
            response_result_of(r) == result,
            response_block_of(r) == block,
    {
        let content = match block {
            Some(b) => Some(BrokerOverlayResponseContentV0::Block(b)),
            None => None,
        };
        BrokerOverlayResponse::V0(BrokerOverlayResponseV0 { id, result, content })
    }

    pub fn id(&self) -> (r: u64)
        ensures
            r == response_id_of(*self),
    {
        match self {
            BrokerOverlayResponse::V0(o) => o.id,
        }
    }

    pub fn result(&self) -> (r: u16)
        ensures
            r == response_result_of(*self),
    {
        match self {
            BrokerOverlayResponse::V0(o) => o.result,
        }
    }

    pub fn block(&self) -> (r: Option<&Block>)
        ensures
            match r {
                Some(b) => response_block_of(*self) == Some(*b),
                None => response_block_of(*self) is None,
            },
    {
        match self {
            BrokerOverlayResponse::V0(o) => match &o.content {
                Some(contentv0) => match contentv0 {
                    BrokerOverlayResponseContentV0::Block(b) => Some(b),
                },
                None => None,
            },
        }
    }
}

/// Content of `BrokerOverlayMessageV0`
#[derive(Clone, Debug)]
pub enum BrokerOverlayMessageContentV0 {
    BrokerOverlayRequest(BrokerOverlayRequest),
    BrokerOverlayResponse(BrokerOverlayResponse),
    Event(Event),
}

/// Broker message for an overlay
#[derive(Clone, Debug)]
pub struct BrokerOverlayMessageV0 {
    pub overlay: OverlayId,
    pub content: BrokerOverlayMessageContentV0,
}

/// Broker message for an overlay
#[derive(Clone, Debug)]
pub enum BrokerOverlayMessage {
    V0(BrokerOverlayMessageV0),
}

/// The content of an overlay message.
pub open spec fn overlay_content_of(m: BrokerOverlayMessage) -> BrokerOverlayMessageContentV0 {
    match m {
        BrokerOverlayMessage::V0(o) => o.content,
    }
}

/// Whether an overlay message is an event (and so carries no request id).
pub open spec fn overlay_is_event(m: BrokerOverlayMessage) -> bool {
    overlay_content_of(m) is Event
}

impl BrokerOverlayMessage {
    pub fn content_v0(&self) -> (r: &BrokerOverlayMessageContentV0)
        ensures
            *r == overlay_content_of(*self),
    {
        match self {
            BrokerOverlayMessage::V0(o) => &o.content,
        }
    }

    pub fn overlay_request(&self) -> (r: &BrokerOverlayRequest)
        requires
            overlay_content_of(*self) is BrokerOverlayRequest,
        ensures
            overlay_content_of(*self) == BrokerOverlayMessageContentV0::BrokerOverlayRequest(*r),
    {
        match self {
            BrokerOverlayMessage::V0(o) => match &o.content {
                BrokerOverlayMessageContentV0::BrokerOverlayRequest(r) => &r,
                _ => vstd::pervasive::unreached(),
            },
        }
    }

    pub fn overlay_id(&self) -> (r: OverlayId)
        ensures
            r == (match self {
                BrokerOverlayMessage::V0(o) => o.overlay,
            }),
    {
        match self {
            BrokerOverlayMessage::V0(o) => o.overlay,
        }
    }

    pub fn is_request(&self) -> (r: bool)
        ensures
            r == overlay_content_of(*self) is BrokerOverlayRequest,
    {
        match self {
            BrokerOverlayMessage::V0(o) => match &o.content {
                BrokerOverlayMessageContentV0::BrokerOverlayRequest(_) => true,
                _ => false,
            },
        }
    }

    pub fn is_response(&self) -> (r: bool)
        ensures
            r == overlay_content_of(*self) is BrokerOverlayResponse,
    {
        match self {
            BrokerOverlayMessage::V0(o) => match &o.content {
                BrokerOverlayMessageContentV0::BrokerOverlayResponse(_) => true,
                _ => false,
            },
        }
    }

    pub fn id(&self) -> (r: u64)
        requires
            !overlay_is_event(*self),
        ensures
            r == (match overlay_content_of(*self) {
                BrokerOverlayMessageContentV0::BrokerOverlayResponse(x) => response_id_of(x),
                BrokerOverlayMessageContentV0::BrokerOverlayRequest(x) => match x {
                    BrokerOverlayRequest::V0(q) => q.id,
                },
                BrokerOverlayMessageContentV0::Event(_) => 0,
            }),
    {
        match self {
            BrokerOverlayMessage::V0(o) => match &o.content {
                BrokerOverlayMessageContentV0::BrokerOverlayResponse(r) => r.id(),
                BrokerOverlayMessageContentV0::BrokerOverlayRequest(r) => r.id(),
                BrokerOverlayMessageContentV0::Event(_) => 0,
            },
        }
    }

    pub fn result(&self) -> (r: u16)
        requires
            overlay_content_of(*self) is BrokerOverlayResponse,
        ensures
            r == response_result_of(overlay_content_of(*self)->BrokerOverlayResponse_0),
    {
        match self {
            BrokerOverlayMessage::V0(o) => match &o.content {
                BrokerOverlayMessageContentV0::BrokerOverlayResponse(r) => r.result(),
                _ => 0,
            },
        }
    }

    pub fn block(&self) -> (r: Option<&Block>)
        requires
            overlay_content_of(*self) is BrokerOverlayResponse,
        ensures
            match r {
                Some(b) => response_block_of(overlay_content_of(*self)->BrokerOverlayResponse_0)
                    == Some(*b),
                None => response_block_of(
                    overlay_content_of(*self)->BrokerOverlayResponse_0,
                ) is None,
            },
    {
        match self {
            BrokerOverlayMessage::V0(o) => match &o.content {
                BrokerOverlayMessageContentV0::BrokerOverlayResponse(r) => r.block(),
                _ => None,
            },
        }
    }
}

/// Content of BrokerMessageV0
#[derive(Clone, Debug)]
pub enum BrokerMessageContentV0 {
    BrokerRequest(BrokerRequest),
    BrokerResponse(BrokerResponse),
    BrokerOverlayMessage(BrokerOverlayMessage),
}

/// Broker message
#[derive(Clone, Debug)]
pub struct BrokerMessageV0 {
    /// Message content
    pub content: BrokerMessageContentV0,
    /// Optional padding
    pub padding: Vec<u8>,
}

/// Broker message
#[derive(Clone, Debug)]
pub enum BrokerMessage {
    V0(BrokerMessageV0),
}

/// The content of a broker message.
pub open spec fn message_content_of(m: BrokerMessage) -> BrokerMessageContentV0 {
    match m {
        BrokerMessage::V0(o) => o.content,
    }
}

/// Whether a broker message is a request.
pub open spec fn message_is_request(m: BrokerMessage) -> bool {
    match message_content_of(m) {
        BrokerMessageContentV0::BrokerOverlayMessage(p) => overlay_content_of(p) is BrokerOverlayRequest,
        BrokerMessageContentV0::BrokerResponse(_) => false,
        BrokerMessageContentV0::BrokerRequest(_) => true,
    }
}

/// Whether a broker message is a response.
pub open spec fn message_is_response(m: BrokerMessage) -> bool {
    match message_content_of(m) {
        BrokerMessageContentV0::BrokerOverlayMessage(p) => overlay_content_of(p) is BrokerOverlayResponse,
        BrokerMessageContentV0::BrokerResponse(_) => true,
        BrokerMessageContentV0::BrokerRequest(_) => false,
    }
}

/// The request id that a request or response carries.
pub open spec fn message_id_of(m: BrokerMessage) -> u64 {
    match message_content_of(m) {
        BrokerMessageContentV0::BrokerOverlayMessage(p) => match overlay_content_of(p) {
            BrokerOverlayMessageContentV0::BrokerOverlayResponse(x) => response_id_of(x),
            BrokerOverlayMessageContentV0::BrokerOverlayRequest(x) => match x {
                BrokerOverlayRequest::V0(q) => q.id,
            },
            BrokerOverlayMessageContentV0::Event(_) => 0,
        },
        BrokerMessageContentV0::BrokerResponse(r) => match r {
            BrokerResponse::V0(o) => o.id,
        },
        BrokerMessageContentV0::BrokerRequest(r) => match r {
            BrokerRequest::V0(o) => o.id,
        },
    }
}

/// The result code that a response carries.
pub open spec fn message_result_of(m: BrokerMessage) -> u16 {
    match message_content_of(m) {
        BrokerMessageContentV0::BrokerOverlayMessage(p) => match overlay_content_of(p) {
            BrokerOverlayMessageContentV0::BrokerOverlayResponse(x) => response_result_of(x),
            _ => 0,
        },
        BrokerMessageContentV0::BrokerResponse(r) => match r {
            BrokerResponse::V0(o) => o.result,
        },
        BrokerMessageContentV0::BrokerRequest(_) => 0,
    }
}

/// The block that an overlay response carries, if any.
pub open spec fn message_block_of(m: BrokerMessage) -> Option<Block> {
    match message_content_of(m) {
        BrokerMessageContentV0::BrokerOverlayMessage(p) => match overlay_content_of(p) {
            BrokerOverlayMessageContentV0::BrokerOverlayResponse(x) => response_block_of(x),
            _ => None,
        },
        _ => None,
    }
}

/// Whether a message is an overlay response.
pub open spec fn message_is_overlay_response(m: BrokerMessage) -> bool {
    match message_content_of(m) {
        BrokerMessageContentV0::BrokerOverlayMessage(p) => overlay_content_of(p) is BrokerOverlayResponse,
        _ => false,
    }
}

/// Whether a message is an overlay response.
pub fn is_overlay_response(m: &BrokerMessage) -> (r: bool)
    ensures
        r == message_is_overlay_response(*m),
{
    match m {
        BrokerMessage::V0(o) => match &o.content {
            BrokerMessageContentV0::BrokerOverlayMessage(p) => p.is_response(),
            _ => false,
        },
    }
}

impl BrokerMessage {
    /// Get the content
    pub fn content(&self) -> (r: &BrokerMessageContentV0)
        ensures
            *r == message_content_of(*self),
    {
        match self {
            BrokerMessage::V0(o) => &o.content,
        }
    }

    pub fn is_request(&self) -> (r: bool)
        ensures
            r == message_is_request(*self),
    {
        match self {
            BrokerMessage::V0(o) => match &o.content {
                BrokerMessageContentV0::BrokerOverlayMessage(p) => p.is_request(),
                BrokerMessageContentV0::BrokerResponse(_) => false,
                BrokerMessageContentV0::BrokerRequest(_) => true,
            },
        }
    }

    pub fn is_response(&self) -> (r: bool)
        ensures
            r == message_is_response(*self),
    {
        match self {
            BrokerMessage::V0(o) => match &o.content {
                BrokerMessageContentV0::BrokerOverlayMessage(p) => p.is_response(),
                BrokerMessageContentV0::BrokerResponse(_) => true,
                BrokerMessageContentV0::BrokerRequest(_) => false,
            },
        }
    }

    pub fn id(&self) -> (r: u64)
        requires
            message_is_request(*self) || message_is_response(*self),
        ensures
            r == message_id_of(*self),
    {
        match self {
            BrokerMessage::V0(o) => match &o.content {
                BrokerMessageContentV0::BrokerOverlayMessage(p) => p.id(),
                BrokerMessageContentV0::BrokerResponse(r) => r.id(),
                BrokerMessageContentV0::BrokerRequest(r) => r.id(),
            },
        }
    }

    pub fn result(&self) -> (r: u16)
        requires
            message_is_response(*self),
        ensures
            r == message_result_of(*self),
    {
        match self {
            BrokerMessage::V0(o) => match &o.content {
                BrokerMessageContentV0::BrokerOverlayMessage(p) => p.result(),
                BrokerMessageContentV0::BrokerResponse(r) => r.result(),
                BrokerMessageContentV0::BrokerRequest(_) => 0,
            },
        }
    }

    pub fn is_overlay(&self) -> (r: bool)
        ensures
            r == message_content_of(*self) is BrokerOverlayMessage,
    {
        match self {
            BrokerMessage::V0(o) => match &o.content {
                BrokerMessageContentV0::BrokerOverlayMessage(_) => true,
                BrokerMessageContentV0::BrokerResponse(_) => false,
                BrokerMessageContentV0::BrokerRequest(_) => false,
            },
        }
    }

    pub fn response_block(&self) -> (r: Option<&Block>)
        requires
            message_is_overlay_response(*self),
        ensures
            match r {
                Some(b) => message_block_of(*self) == Some(*b),
                None => message_block_of(*self) is None,
            },
    {
        match self {
            BrokerMessage::V0(o) => match &o.content {
                BrokerMessageContentV0::BrokerOverlayMessage(p) => p.block(),
                _ => None,
            },
        }
    }
}

// ---------------------------------------------------------------------------
// External requests

/// Request object(s) by ID from a repository by non-members
#[derive(Clone, Debug)]
pub struct ExtObjectGetV0 {
    /// Repository to request the objects from
    pub repo: PubKey,
    /// List of Object IDs to request, including their children
    pub ids: Vec<ObjectId>,
    /// Whether or not to include all children recursively
    pub include_children: bool,
    /// Expiry time after which the link becomes invalid
    pub expiry: Option<Timestamp>,
}

/// Request object(s) by ID from a repository by non-members
#[derive(Clone, Debug)]
pub enum ExtObjectGet {
    V0(ExtObjectGetV0),
}

/// Branch heads request
pub type ExtBranchHeadsReq = BranchHeadsReq;

/// Branch synchronization request
pub type ExtBranchSyncReq = BranchSyncReq;

/// Content of ExtRequestV0
#[derive(Clone, Debug)]
pub enum ExtRequestContentV0 {
    ExtObjectGet(ExtObjectGet),
    ExtBranchHeadsReq(ExtBranchHeadsReq),
    ExtBranchSyncReq(ExtBranchSyncReq),
}

/// External request authenticated by a MAC
#[derive(Clone, Debug)]
pub struct ExtRequestV0 {
    /// Request ID
    pub id: u64,
    /// Request content
    pub content: ExtRequestContentV0,
    /// BLAKE3 MAC over content
    pub mac: Digest,
}

/// External request authenticated by a MAC
#[derive(Clone, Debug)]
pub enum ExtRequest {
    V0(ExtRequestV0),
}

/// Content of ExtResponseV0
#[derive(Clone, Debug)]
pub enum ExtResponseContentV0 {
    Block(Block),
    EventResp(EventResp),
    Event(Event),
}

/// Response to an ExtRequest
#[derive(Clone, Debug)]
pub struct ExtResponseV0 {
    /// Request ID
    pub id: u64,
    /// Result code
    pub result: u16,
    /// Response content
    pub content: Option<ExtResponseContentV0>,
}

/// Response to an ExtRequest
#[derive(Clone, Debug)]
pub enum ExtResponse {
    V0(ExtResponseV0),
}

// ---------------------------------------------------------------------------
// Authentication messages

/// Client Hello
#[derive(Clone, Debug)]
pub enum ClientHello {
    V0(),
}

/// Start chosen protocol: first message sent by the client
#[derive(Clone, Debug)]
pub enum StartProtocol {
    Auth(ClientHello),
    Ext(ExtRequest),
}

/// Server hello sent upon a client connection
#[derive(Clone, Debug)]
pub struct ServerHelloV0 {
    /// Nonce for ClientAuth
    pub nonce: Vec<u8>,
}

/// Server hello sent upon a client connection
#[derive(Clone, Debug)]
pub enum ServerHello {
    V0(ServerHelloV0),
}

impl ServerHello {
    pub fn nonce(&self) -> (r: &Vec<u8>)
        ensures
            *r == (match self {
                ServerHello::V0(o) => o.nonce,
            }),
    {
        match self {
            ServerHello::V0(o) => &o.nonce,
        }
    }
}

/// Content of ClientAuthV0
#[derive(Clone, Debug)]
pub struct ClientAuthContentV0 {
    /// User pub key
    pub user: PubKey,
    /// Client pub key
    pub client: PubKey,
    /// Nonce from ServerHello
    pub nonce: Vec<u8>,
}

/// Client authentication
#[derive(Clone, Debug)]
pub struct ClientAuthV0 {
    /// Authentication data
    pub content: ClientAuthContentV0,
    /// Signature by client key
    pub sig: Sig,
}

/// Client authentication
#[derive(Clone, Debug)]
pub enum ClientAuth {
    V0(ClientAuthV0),
}

impl ClientAuth {
    pub fn content_v0(&self) -> (r: ClientAuthContentV0)
        ensures
            r.user == self.user_spec(),
            r.client == self.client_spec(),
            r.nonce@ == self.nonce_spec()@,
    {
        match self {
            ClientAuth::V0(o) => ClientAuthContentV0 {
                user: o.content.user,
                client: o.content.client,
                nonce: crate::block::copy_bytes(&o.content.nonce),
            },
        }
    }

    pub open spec fn user_spec(&self) -> PubKey {
        match self {
            ClientAuth::V0(o) => o.content.user,
        }
    }

    pub open spec fn client_spec(&self) -> PubKey {
        match self {
            ClientAuth::V0(o) => o.content.client,
        }
    }

    pub open spec fn nonce_spec(&self) -> Vec<u8> {
        match self {
            ClientAuth::V0(o) => o.content.nonce,
        }
    }

    pub fn sig(&self) -> (r: Sig)
        ensures
            r == (match self {
                ClientAuth::V0(o) => o.sig,
            }),
    {
        match self {
            ClientAuth::V0(o) => o.sig,
        }
    }

    pub fn user(&self) -> (r: PubKey)
        ensures
            r == self.user_spec(),
    {
        match self {
            ClientAuth::V0(o) => o.content.user,
        }
    }

    pub fn client(&self) -> (r: PubKey)
        ensures
            r == self.client_spec(),
    {
        match self {
            ClientAuth::V0(o) => o.content.client,
        }
    }

    pub fn nonce(&self) -> (r: &Vec<u8>)
        ensures
            *r == self.nonce_spec(),
    {
        match self {
            ClientAuth::V0(o) => &o.content.nonce,
        }
    }
}

/// Authentication result
#[derive(Clone, Debug)]
pub struct AuthResultV0 {
    pub result: u16,
    pub metadata: Vec<u8>,
}

/// Authentication result
#[derive(Clone, Debug)]
pub enum AuthResult {
    V0(AuthResultV0),
}

impl AuthResult {
    pub fn result(&self) -> (r: u16)
        ensures
            r == (match self {
                AuthResult::V0(o) => o.result,
            }),
    {
        match self {
            AuthResult::V0(o) => o.result,
        }
    }

    pub fn metadata(&self) -> (r: &Vec<u8>)
        ensures
            *r == (match self {
                AuthResult::V0(o) => o.metadata,
            }),
    {
        match self {
            AuthResult::V0(o) => &o.metadata,
        }
    }
}

// ---------------------------------------------------------------------------
// Direct / out-of-band messages

/// Link/invitation to the repository
#[derive(Clone, Debug)]
pub struct RepoLinkV0 {
    /// Repository public key ID
    pub id: PubKey,
    /// Repository secret
    pub secret: SymKey,
    /// Peers to connect to
    pub peers: Vec<PeerAdvert>,
}

/// Link/invitation to the repository
#[derive(Clone, Debug)]
pub enum RepoLink {
    V0(RepoLinkV0),
}

impl RepoLink {
    pub open spec fn id_spec(&self) -> PubKey {
        match self {
            RepoLink::V0(o) => o.id,
        }
    }

    pub open spec fn secret_spec(&self) -> SymKey {
        match self {
            RepoLink::V0(o) => o.secret,
        }
    }

    pub open spec fn peers_spec(&self) -> Vec<PeerAdvert> {
        match self {
            RepoLink::V0(o) => o.peers,
        }
    }

    pub fn id(&self) -> (r: PubKey)
        ensures
            r == self.id_spec(),
    {
        match self {
            RepoLink::V0(o) => o.id,
        }
    }

    pub fn secret(&self) -> (r: SymKey)
        ensures
            r == self.secret_spec(),
    {
        match self {
            RepoLink::V0(o) => o.secret,
        }
    }

    pub fn peers(&self) -> (r: Vec<PeerAdvert>)
        ensures
            r@.len() == self.peers_spec()@.len(),
            forall|i: int| 0 <= i < r@.len() ==> advert_same(#[trigger] r@[i], self.peers_spec()@[i]),
    {
        match self {
            RepoLink::V0(o) => {
                let mut r: Vec<PeerAdvert> = Vec::new();
                let mut i: usize = 0;
                while i < o.peers.len()
                    invariant
                        0 <= i <= o.peers@.len(),
                        r@.len() == i,
                        forall|j: int| 0 <= j < i ==> advert_same(#[trigger] r@[j], o.peers@[j]),
                    decreases o.peers@.len() - i,
                {
                    r.push(o.peers[i].duplicate());
                    i = i + 1;
                }
                r
            },
        }
    }
}

/// Link to object(s) or to a branch from a repository
/// that can be shared to non-members
#[derive(Clone, Debug)]
pub struct ObjectLinkV0 {
    /// Request to send to an overlay peer
    pub req: ExtRequest,
    /// Keys for the root blocks of the requested objects
    pub keys: Vec<ObjectRef>,
}

/// Link to object(s) or to a branch from a repository
/// that can be shared to non-members
#[derive(Clone, Debug)]
pub enum ObjectLink {
    V0(ObjectLinkV0),
}

/// Owned repository with private key
#[derive(Clone, Debug)]
pub struct RepoKeysV0 {
    /// Repository private key
    pub key: PrivKey,
    /// Repository secret
    pub secret: SymKey,
    /// Peers to connect to
    pub peers: Vec<PeerAdvert>,
}

/// Owned repository with private key
#[derive(Clone, Debug)]
pub enum RepoKeys {
    V0(RepoKeysV0),
}

} // verus!
