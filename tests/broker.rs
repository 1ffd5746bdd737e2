use lofire::auth::{auth_outcome, check_client_auth, client_auth, server_hello, sign, verify};
use lofire::block::{Block, ObjectDeps};
use lofire::codec::{decode_block, get_uint};
use lofire::connection::{BrokerConnectionLocal, OverlayConnectionClient};
use lofire::errors::{outcome_of_code, result_code, ProtocolError};
use lofire::keys::{BloomFilter, Digest, PrivKey, PubKey, SymKey};
use lofire::mux::{MuxEvent, Pending, PendingTable, StreamPhase};
use lofire::server::{BrokerServer, ConfigMode};
use lofire::types::{
    BrokerMessage, BrokerMessageContentV0, BrokerMessageV0, BrokerOverlayMessage,
    BrokerOverlayMessageContentV0, BrokerOverlayMessageV0, BrokerOverlayRequestContentV0,
    BrokerOverlayResponse, BrokerRequest, BrokerRequestContentV0, BrokerRequestV0,
    BrokerResponse, BrokerResponseV0, DelUser, DelUserContentV0, DelUserV0, ObjectDel,
    ObjectDelV0, RepoLink, RepoLinkV0,
};

/// The user that joins overlays in broker-level tests.
const OWNER: PubKey = PubKey::Ed25519PubKey([7; 32]);

fn keypair(seed: u8) -> (PrivKey, PubKey) {
    let secret = ed25519_dalek::SecretKey::from_bytes(&[seed; 32]).unwrap();
    let public = ed25519_dalek::PublicKey::from(&secret);
    (
        PrivKey::Ed25519PrivKey(secret.to_bytes()),
        PubKey::Ed25519PubKey(public.to_bytes()),
    )
}

fn digest_bytes(d: &Digest) -> [u8; 32] {
    match d {
        Digest::Blake3Digest32(b) => *b,
    }
}

fn repo_link() -> RepoLink {
    RepoLink::V0(RepoLinkV0 {
        id: PubKey::Ed25519PubKey([1; 32]),
        secret: SymKey::ChaCha20Key([0; 32]),
        peers: vec![],
    })
}

fn leaf(content: Vec<u8>) -> Block {
    Block::new(vec![], ObjectDeps::ObjectIdList(vec![]), None, content, None)
}

fn connected() -> (BrokerConnectionLocal, OverlayConnectionClient) {
    let (_sk, pk) = keypair(3);
    let server = BrokerServer::new(ConfigMode::Local, vec![], 1 << 20);
    let mut cnx = BrokerConnectionLocal::new(server, pk);
    let client = cnx.overlay_connect(&repo_link(), true, 0).unwrap();
    (cnx, client)
}

#[test]
fn block_id_is_blake3_of_encoding() {
    let b = leaf(vec![27; 150]);
    let enc = b.encode();
    assert_eq!(digest_bytes(&b.id()), *blake3::hash(&enc).as_bytes());
    assert_ne!(&digest_bytes(&b.id())[..], &enc[..32]);
}

#[test]
fn block_encoding_layout() {
    let b = Block::new(
        vec![Digest::Blake3Digest32([5; 32])],
        ObjectDeps::ObjectIdList(vec![]),
        Some(0x01020304),
        vec![9; 200],
        None,
    );
    let enc = b.encode();
    let mut expected = vec![0u8, 1, 0];
    expected.extend_from_slice(&[5; 32]);
    expected.extend_from_slice(&[0, 0]);
    expected.extend_from_slice(&[1, 4, 3, 2, 1]);
    expected.extend_from_slice(&[200, 1]);
    expected.extend_from_slice(&[9; 200]);
    assert_eq!(enc, expected);
}

#[test]
fn put_get_round_trip() {
    let (mut cnx, client) = connected();
    let block = leaf(vec![27; 150]);
    let id = client.put_block(&mut cnx, &block).unwrap();
    assert_eq!(digest_bytes(&id), digest_bytes(&block.id()));
    let got = client.get_block(&cnx, id, false, None).unwrap();
    assert_eq!(got.len(), 1);
    assert_eq!(got[0].encode(), block.encode());
    assert_eq!(got[0].content(), &vec![27u8; 150]);
}

#[test]
fn put_is_idempotent() {
    let (mut cnx, client) = connected();
    let block = leaf(vec![1, 2, 3]);
    client.put_block(&mut cnx, &block).unwrap();
    client.put_block(&mut cnx, &block).unwrap();
    assert_eq!(cnx.broker_ref().block_count(), 1);
}

#[test]
fn oversized_block_is_refused() {
    let (_sk, pk) = keypair(3);
    let server = BrokerServer::new(ConfigMode::Local, vec![], 100);
    let mut cnx = BrokerConnectionLocal::new(server, pk);
    let client = cnx.overlay_connect(&repo_link(), true, 0).unwrap();
    let res = client.put_block(&mut cnx, &leaf(vec![0; 150]));
    assert_eq!(res.unwrap_err(), ProtocolError::InvalidBlock);
}

/// A file object of 69000 bytes of 48: three identical 23000-byte chunks
/// under a root block, which comes last.
fn object_blocks() -> Vec<Block> {
    let mut blocks: Vec<Block> = (0..3).map(|_| leaf(vec![48; 23000])).collect();
    let root = Block::new(
        blocks.iter().map(|b| b.id()).collect(),
        ObjectDeps::ObjectIdList(vec![]),
        None,
        vec![],
        None,
    );
    blocks.push(root);
    blocks
}

#[test]
fn object_round_trip() {
    let (mut cnx, client) = connected();
    let blocks = object_blocks();
    let oid = client.put_object(&mut cnx, &blocks).unwrap();
    assert_eq!(digest_bytes(&oid), digest_bytes(&blocks[3].id()));
    // one distinct chunk and the root
    assert_eq!(cnx.broker_ref().block_count(), 2);
    let got = client.get_object(&cnx, oid, None).unwrap();
    assert_eq!(got.len(), 2);
    assert_eq!(got[0].encode(), blocks[3].encode());
    let mut content: Vec<u8> = vec![];
    for child in got[0].children() {
        let b = got
            .iter()
            .find(|b| digest_bytes(&b.id()) == digest_bytes(child))
            .unwrap();
        content.extend_from_slice(b.content());
    }
    assert_eq!(content, vec![48u8; 69000]);
}

#[test]
fn delete_then_get_is_not_found() {
    let (mut cnx, client) = connected();
    let blocks = object_blocks();
    let oid = client.put_object(&mut cnx, &blocks).unwrap();
    let del = BrokerOverlayRequestContentV0::ObjectDel(ObjectDel::V0(ObjectDelV0 { id: oid }));
    cnx.process_overlay_request(client.overlay_id(), &del, 1).unwrap();
    let res = client.get_object(&cnx, oid, None);
    assert_eq!(res.unwrap_err(), ProtocolError::NotFound);
}

#[test]
fn missing_child_is_reported() {
    let (mut cnx, client) = connected();
    let root = Block::new(
        vec![Digest::Blake3Digest32([9; 32])],
        ObjectDeps::ObjectIdList(vec![]),
        None,
        vec![1],
        None,
    );
    let id = client.put_block(&mut cnx, &root).unwrap();
    assert_eq!(
        client.get_object(&cnx, id, None).unwrap_err(),
        ProtocolError::MissingBlocks
    );
}

#[test]
fn duplicate_add_user() {
    let (admin_sk, admin_pk) = keypair(3);
    let server = BrokerServer::new(ConfigMode::Local, vec![], 1 << 20);
    let mut cnx = BrokerConnectionLocal::new(server, admin_pk);
    let u1 = PubKey::Ed25519PubKey([1; 32]);
    cnx.add_user(u1, admin_sk).unwrap();
    cnx.add_user(admin_pk, admin_sk).unwrap();
    assert_eq!(
        cnx.add_user(u1, admin_sk).unwrap_err(),
        ProtocolError::UserAlreadyExists
    );
}

#[test]
fn add_user_needs_admin_on_core_broker() {
    let (admin_sk, admin_pk) = keypair(3);
    let (other_sk, other_pk) = keypair(4);
    let server = BrokerServer::new(ConfigMode::Core, vec![admin_pk], 1 << 20);
    let mut cnx = BrokerConnectionLocal::new(server, other_pk);
    let u1 = PubKey::Ed25519PubKey([1; 32]);
    assert_eq!(
        cnx.add_user(u1, other_sk).unwrap_err(),
        ProtocolError::NotAnAdmin
    );
    let server = cnx.into_broker();
    let mut cnx = BrokerConnectionLocal::new(server, admin_pk);
    cnx.add_user(u1, admin_sk).unwrap();
    assert!(cnx.broker_ref().has_user(&u1));
}

#[test]
fn bad_signature_is_refused() {
    let (_admin_sk, admin_pk) = keypair(3);
    let (other_sk, _other_pk) = keypair(4);
    let server = BrokerServer::new(ConfigMode::Local, vec![], 1 << 20);
    let mut cnx = BrokerConnectionLocal::new(server, admin_pk);
    assert_eq!(
        cnx.add_user(PubKey::Ed25519PubKey([1; 32]), other_sk).unwrap_err(),
        ProtocolError::SignatureError
    );
}

#[test]
fn overlay_fallback_joins() {
    let (_sk, pk) = keypair(3);
    let server = BrokerServer::new(ConfigMode::Local, vec![], 1 << 20);
    let link = repo_link();
    let overlay = OverlayConnectionClient::overlay(&link, true);
    assert_eq!(
        server.overlay_connect(&pk, &overlay).unwrap_err(),
        ProtocolError::OverlayNotJoined
    );
    let mut cnx = BrokerConnectionLocal::new(server, pk);
    let client = cnx.overlay_connect(&link, true, 0).unwrap();
    assert_eq!(
        digest_bytes(&client.overlay_id()),
        digest_bytes(&overlay)
    );
    assert!(cnx.broker_ref().overlay_connect(&pk, &overlay).is_ok());
}

#[test]
fn overlay_connect_is_idempotent() {
    let (mut cnx, first) = connected();
    let second = cnx.overlay_connect(&repo_link(), true, 5).unwrap();
    assert_eq!(
        digest_bytes(&first.overlay_id()),
        digest_bytes(&second.overlay_id())
    );
    assert_eq!(cnx.broker_ref().overlay_users(&first.overlay_id()), Some(1));
}

#[test]
fn overlay_ids_public_and_private() {
    let link = repo_link();
    let public = OverlayConnectionClient::overlay(&link, true);
    assert_eq!(digest_bytes(&public), *blake3::hash(&[1; 32]).as_bytes());
    let private = OverlayConnectionClient::overlay(&link, false);
    let key = blake3::derive_key("LoFiRe OverlayId BLAKE3 key", &[0; 32]);
    assert_eq!(
        digest_bytes(&private),
        *blake3::keyed_hash(&key, &[1; 32]).as_bytes()
    );
}

#[test]
fn put_in_unjoined_overlay() {
    let (_sk, pk) = keypair(3);
    let server = BrokerServer::new(ConfigMode::Local, vec![], 1 << 20);
    let mut cnx = BrokerConnectionLocal::new(server, pk);
    let other = RepoLink::V0(RepoLinkV0 {
        id: PubKey::Ed25519PubKey([2; 32]),
        secret: SymKey::ChaCha20Key([0; 32]),
        peers: vec![],
    });
    let client = cnx.overlay_connect(&repo_link(), true, 0).unwrap();
    let _ = client;
    let overlay = OverlayConnectionClient::overlay(&other, true);
    let put = BrokerOverlayRequestContentV0::BlockPut(lofire::types::BlockPut::V0(leaf(vec![1])));
    assert_eq!(
        cnx.process_overlay_request(overlay, &put, 0).unwrap_err(),
        ProtocolError::OverlayNotJoined
    );
}

#[test]
fn handshake_success() {
    let (user_sk, user_pk) = keypair(3);
    let client_pk = PubKey::Ed25519PubKey([1; 32]);
    let hello = server_hello(vec![0xAA; 32]);
    let auth = client_auth(&hello, user_pk, user_sk, client_pk).unwrap();
    assert_eq!(auth.nonce(), &vec![0xAAu8; 32]);
    let res = check_client_auth(&auth, &vec![0xAA; 32], &vec![user_pk], &vec![(user_pk, client_pk)]);
    assert_eq!(res.result(), 0);
    assert!(auth_outcome(&res).is_ok());
}

#[test]
fn handshake_wrong_nonce_fails() {
    let (user_sk, user_pk) = keypair(3);
    let client_pk = PubKey::Ed25519PubKey([1; 32]);
    let hello = server_hello(vec![0xAA; 32]);
    let auth = client_auth(&hello, user_pk, user_sk, client_pk).unwrap();
    let res = check_client_auth(&auth, &vec![0xBB; 32], &vec![user_pk], &vec![(user_pk, client_pk)]);
    assert_ne!(res.result(), 0);
    assert_eq!(auth_outcome(&res).unwrap_err(), ProtocolError::SignatureError);
}

#[test]
fn sign_then_verify() {
    let (sk, pk) = keypair(7);
    let content = vec![1u8, 2, 3];
    let sig = sign(sk, pk, &content).unwrap();
    assert!(verify(&content, sig, pk).is_ok());
    assert_eq!(
        verify(&vec![1u8, 2, 4], sig, pk).unwrap_err(),
        ProtocolError::SignatureError
    );
}

#[test]
fn result_codes() {
    assert_eq!(result_code(&Ok(())), 0);
    assert_eq!(result_code(&Err(ProtocolError::UserAlreadyExists)), 14);
    assert_eq!(outcome_of_code(0), Ok(()));
    assert_eq!(outcome_of_code(8), Err(ProtocolError::OverlayNotJoined));
    assert_eq!(outcome_of_code(999), Err(ProtocolError::InvalidMessage));
    assert_eq!(ProtocolError::try_from(0), Err(()));
    for c in 1..=17u16 {
        let e = ProtocolError::try_from(c).unwrap();
        assert_eq!(e.code(), c);
    }
}

fn tree() -> (Vec<Block>, Block) {
    let a = leaf(vec![1]);
    let b = leaf(vec![2]);
    let mid = Block::new(vec![a.id(), b.id()], ObjectDeps::ObjectIdList(vec![]), None, vec![3], None);
    let root = Block::new(
        vec![mid.id(), a.id()],
        ObjectDeps::ObjectIdList(vec![]),
        None,
        vec![4],
        None,
    );
    (vec![a, b, mid, root.clone()], root)
}

#[test]
fn block_get_stream_has_each_block_once() {
    let (mut cnx, client) = connected();
    let (blocks, root) = tree();
    for b in &blocks {
        client.put_block(&mut cnx, b).unwrap();
    }
    let stream = cnx
        .broker_ref()
        .block_get(42, &client.overlay_id(), &root.id(), true);
    assert_eq!(stream.len(), 5);
    assert!(stream.iter().all(|r| r.id() == 42));
    assert_eq!(stream[0].block().unwrap().encode(), root.encode());
    let mut seen: Vec<[u8; 32]> = stream[..4]
        .iter()
        .map(|r| digest_bytes(&r.block().unwrap().id()))
        .collect();
    seen.sort();
    seen.dedup();
    assert_eq!(seen.len(), 4);
    assert_eq!(stream[4].result(), ProtocolError::EndOfStream.code());
    assert!(stream[4].block().is_none());
}

#[test]
fn block_get_missing_root() {
    let (cnx, client) = connected();
    let stream = cnx
        .broker_ref()
        .block_get(7, &client.overlay_id(), &Digest::Blake3Digest32([0; 32]), true);
    assert_eq!(stream.len(), 1);
    assert_eq!(stream[0].result(), ProtocolError::NotFound.code());
}

fn commit(deps: Vec<Digest>, tag: u8) -> Block {
    Block::new(vec![], ObjectDeps::ObjectIdList(deps), None, vec![tag], None)
}

#[test]
fn branch_sync_skips_known_commits() {
    let (mut cnx, client) = connected();
    let br = commit(vec![], 0);
    let t1 = commit(vec![br.id()], 1);
    let t2 = commit(vec![br.id()], 2);
    let t4 = commit(vec![t2.id(), t1.id()], 4);
    let a6 = commit(vec![t4.id()], 6);
    let a7 = commit(vec![t4.id()], 7);
    for b in [&br, &t1, &t2, &t4, &a6, &a7] {
        client.put_block(&mut cnx, b).unwrap();
    }
    // known: the branch root as known head, t1 in the filter
    let mut filter = fastbloom_rs::BloomFilter::new(fastbloom_rs::FilterBuilder::new(10, 0.01));
    fastbloom_rs::Membership::add(&mut filter, &digest_bytes(&t1.id()));
    let known_commits = BloomFilter {
        k: filter.config().hashes,
        f: filter.get_u8_array().to_vec(),
    };
    let stream = cnx.broker_ref().branch_sync(
        1,
        &client.overlay_id(),
        &vec![a6.id(), a7.id()],
        &vec![br.id()],
        &known_commits,
    );
    let sent: Vec<[u8; 32]> = stream
        .iter()
        .filter_map(|r| r.block().map(|b| digest_bytes(&b.id())))
        .collect();
    assert!(sent.contains(&digest_bytes(&a6.id())));
    assert!(sent.contains(&digest_bytes(&a7.id())));
    assert!(sent.contains(&digest_bytes(&t4.id())));
    assert!(sent.contains(&digest_bytes(&t2.id())));
    assert!(!sent.contains(&digest_bytes(&br.id())));
    assert!(!sent.contains(&digest_bytes(&t1.id())));
    assert_eq!(stream.last().unwrap().result(), ProtocolError::EndOfStream.code());
}

#[test]
fn branch_sync_bad_filter() {
    let (cnx, client) = connected();
    let bad = BloomFilter { k: 3, f: vec![0; 5] };
    let stream = cnx
        .broker_ref()
        .branch_sync(1, &client.overlay_id(), &vec![], &vec![], &bad);
    assert_eq!(stream.len(), 1);
    assert_eq!(stream[0].result(), ProtocolError::InvalidMessage.code());
}

fn overlay_response(id: u64, result: u16, block: Option<Block>) -> BrokerMessage {
    BrokerMessage::V0(BrokerMessageV0 {
        content: BrokerMessageContentV0::BrokerOverlayMessage(BrokerOverlayMessage::V0(
            BrokerOverlayMessageV0 {
                overlay: Digest::Blake3Digest32([0; 32]),
                content: BrokerOverlayMessageContentV0::BrokerOverlayResponse(
                    BrokerOverlayResponse::new(id, result, block),
                ),
            },
        )),
        padding: vec![],
    })
}

#[test]
fn unary_response_delivered_once() {
    let mut table = PendingTable::new(10);
    let id = table.issue(Pending::Unary).unwrap();
    assert_eq!(id, 10);
    let msg = BrokerMessage::V0(BrokerMessageV0 {
        content: BrokerMessageContentV0::BrokerResponse(BrokerResponse::V0(BrokerResponseV0 {
            id,
            result: 14,
        })),
        padding: vec![],
    });
    let ev = table.on_message(&msg);
    assert_eq!(ev.len(), 1);
    match ev[0] {
        MuxEvent::UnaryResult { id: i, outcome } => {
            assert_eq!(i, 10);
            assert_eq!(outcome, Err(ProtocolError::UserAlreadyExists));
        }
        _ => panic!("expected a unary result"),
    }
    // a second answer to the same request is a protocol violation
    let again = table.on_message(&msg);
    assert_eq!(again.len(), 1);
    assert!(matches!(again[0], MuxEvent::CloseLink));
    assert!(!table.is_pending(id));
}

#[test]
fn stream_state_machine() {
    let mut table = PendingTable::new(0);
    let id = table.issue(Pending::Stream(StreamPhase::Init)).unwrap();
    let ev = table.on_message(&overlay_response(id, 0, Some(leaf(vec![1]))));
    assert_eq!(ev.len(), 2);
    assert!(matches!(ev[0], MuxEvent::StreamHeader { outcome: Ok(()), .. }));
    assert!(matches!(ev[1], MuxEvent::StreamBlock { .. }));
    let ev = table.on_message(&overlay_response(id, 0, Some(leaf(vec![2]))));
    assert!(matches!(ev[0], MuxEvent::StreamBlock { .. }));
    let ev = table.on_message(&overlay_response(id, ProtocolError::EndOfStream.code(), None));
    assert!(matches!(ev[0], MuxEvent::StreamEnd { error: None, .. }));
    assert!(!table.is_pending(id));
    let late = table.on_message(&overlay_response(id, 0, Some(leaf(vec![3]))));
    assert!(matches!(late[0], MuxEvent::CloseLink));
}

#[test]
fn stream_header_failure_and_errors() {
    let mut table = PendingTable::new(0);
    let id = table.issue(Pending::Stream(StreamPhase::Init)).unwrap();
    let ev = table.on_message(&overlay_response(id, ProtocolError::NotFound.code(), None));
    assert!(matches!(
        ev[0],
        MuxEvent::StreamHeader { outcome: Err(ProtocolError::NotFound), .. }
    ));
    let id2 = table.issue(Pending::Stream(StreamPhase::Init)).unwrap();
    table.on_message(&overlay_response(id2, 0, Some(leaf(vec![1]))));
    let ev = table.on_message(&overlay_response(id2, ProtocolError::StorageError.code(), None));
    assert!(matches!(
        ev[0],
        MuxEvent::StreamEnd { error: Some(ProtocolError::StorageError), .. }
    ));
}

#[test]
fn request_frame_closes_link() {
    let mut table = PendingTable::new(0);
    let (_sk, pk) = keypair(3);
    let msg = BrokerMessage::V0(BrokerMessageV0 {
        content: BrokerMessageContentV0::BrokerRequest(BrokerRequest::V0(BrokerRequestV0 {
            id: 1,
            content: BrokerRequestContentV0::DelUser(DelUser::V0(DelUserV0 {
                content: DelUserContentV0 { user: pk },
                sig: lofire::keys::Sig::Ed25519Sig([[0; 32]; 2]),
            })),
        })),
        padding: vec![],
    });
    let ev = table.on_message(&msg);
    assert!(matches!(ev[0], MuxEvent::CloseLink));
}

#[test]
fn cancelled_request_is_ignored() {
    let mut table = PendingTable::new(0);
    let id = table.issue(Pending::Unary).unwrap();
    table.cancel(id);
    assert!(table.on_message(&overlay_response(id, 0, None)).is_empty());
    let id2 = table.issue(Pending::Unary).unwrap();
    assert_ne!(id, id2);
    table.link_lost();
    assert!(!table.is_pending(id2));
}

#[test]
fn decode_round_trip() {
    let b = Block::new(
        vec![Digest::Blake3Digest32([5; 32]), Digest::Blake3Digest32([6; 32])],
        ObjectDeps::DepListRef(lofire::block::ObjectRef {
            id: Digest::Blake3Digest32([7; 32]),
            key: SymKey::ChaCha20Key([8; 32]),
        }),
        Some(123456),
        vec![48; 300],
        None,
    );
    let enc = b.encode();
    let d = decode_block(&enc, 1 << 20).unwrap();
    assert_eq!(d.encode(), enc);
    assert_eq!(d.children().len(), 2);
    assert_eq!(d.expiry(), Some(123456));
    assert_eq!(d.content(), &vec![48u8; 300]);
    assert_eq!(digest_bytes(&d.id()), digest_bytes(&b.id()));
}

#[test]
fn decode_rejects_invalid_input() {
    let enc = leaf(vec![1, 2, 3]).encode();
    // trailing byte
    let mut trailing = enc.clone();
    trailing.push(0);
    assert_eq!(decode_block(&trailing, 1 << 20).unwrap_err(), ProtocolError::InvalidMessage);
    // truncated
    assert_eq!(
        decode_block(&enc[..enc.len() - 1], 1 << 20).unwrap_err(),
        ProtocolError::InvalidMessage
    );
    // unknown version tag
    let mut tag = enc.clone();
    tag[0] = 1;
    assert_eq!(decode_block(&tag, 1 << 20).unwrap_err(), ProtocolError::InvalidMessage);
    // non-minimal length: 0x80 0x00 for zero children
    let mut long = vec![0u8, 0x80, 0x00];
    long.extend_from_slice(&enc[2..]);
    assert_eq!(decode_block(&long, 1 << 20).unwrap_err(), ProtocolError::InvalidMessage);
    // over the size bound
    assert_eq!(decode_block(&enc, enc.len() - 1).unwrap_err(), ProtocolError::InvalidMessage);
    assert!(decode_block(&enc, enc.len()).is_ok());
    // empty input
    assert_eq!(decode_block(&[], 10).unwrap_err(), ProtocolError::InvalidMessage);
}

#[test]
fn varint_values() {
    assert_eq!(get_uint(&[0x7f], 0), Some((127, 1)));
    assert_eq!(get_uint(&[0x80, 0x01], 0), Some((128, 2)));
    assert_eq!(get_uint(&[0xac, 0x02], 0), Some((300, 2)));
    assert_eq!(get_uint(&[0x80], 0), None);
    assert_eq!(get_uint(&[0x80, 0x00], 0), None);
    let mut out = vec![];
    lofire::block::put_uint(&mut out, u64::MAX);
    assert_eq!(out.len(), 10);
    assert_eq!(get_uint(&out, 0), Some((u64::MAX, 10)));
}

fn overlay_request(id: u64, content: BrokerOverlayRequestContentV0) -> lofire::types::BrokerOverlayRequest {
    lofire::types::BrokerOverlayRequest::V0(lofire::types::BrokerOverlayRequestV0 { id, content })
}

#[test]
fn unary_requests_get_one_response_each() {
    let (_sk, pk) = keypair(3);
    let mut server = BrokerServer::new(ConfigMode::Local, vec![], 1 << 20);
    let overlay = OverlayConnectionClient::overlay(&repo_link(), true);
    let connect = overlay_request(
        5,
        BrokerOverlayRequestContentV0::OverlayConnect(lofire::types::OverlayConnect::V0()),
    );
    let r = server.handle_overlay_request(OWNER, &overlay, &connect, 0);
    assert_eq!(r.len(), 1);
    assert_eq!(r[0].id(), 5);
    assert_eq!(r[0].result(), ProtocolError::OverlayNotJoined.code());
    let join = overlay_request(
        6,
        BrokerOverlayRequestContentV0::OverlayJoin(lofire::types::OverlayJoin::V0(
            lofire::types::OverlayJoinV0 {
                secret: SymKey::ChaCha20Key([0; 32]),
                repo_pubkey: None,
                repo_secret: None,
                peers: vec![],
            },
        )),
    );
    let r = server.handle_overlay_request(OWNER, &overlay, &join, 0);
    assert_eq!((r.len(), r[0].id(), r[0].result()), (1, 6, 0));
    let r = server.handle_overlay_request(OWNER, &overlay, &connect, 0);
    assert_eq!((r.len(), r[0].id(), r[0].result()), (1, 5, 0));
    let sub = overlay_request(
        7,
        BrokerOverlayRequestContentV0::TopicSub(lofire::types::TopicSub::V0(
            lofire::types::TopicSubV0 { topic: pk, advert: None },
        )),
    );
    let r = server.handle_overlay_request(OWNER, &overlay, &sub, 0);
    assert_eq!((r.len(), r[0].id(), r[0].result()), (1, 7, 0));
    let pin = overlay_request(
        8,
        BrokerOverlayRequestContentV0::ObjectPin(lofire::types::ObjectPin::ObjectPinV0),
    );
    let r = server.handle_overlay_request(OWNER, &overlay, &pin, 0);
    assert_eq!(r[0].result(), ProtocolError::InvalidState.code());
}

#[test]
fn block_get_request_streams() {
    let mut server = BrokerServer::new(ConfigMode::Local, vec![], 1 << 20);
    let overlay = OverlayConnectionClient::overlay(&repo_link(), true);
    server
        .overlay_join(OWNER, &overlay, &SymKey::ChaCha20Key([0; 32]), &vec![], None, 0)
        .unwrap();
    let (blocks, root) = tree();
    for b in &blocks {
        server.block_put(&overlay, b.clone()).unwrap();
    }
    let get = overlay_request(
        9,
        BrokerOverlayRequestContentV0::BlockGet(lofire::types::BlockGet::V0(
            lofire::types::BlockGetV0 { id: root.id(), include_children: true, topic: None },
        )),
    );
    let r = server.handle_overlay_request(OWNER, &overlay, &get, 0);
    assert_eq!(r.len(), 5);
    assert!(r.iter().all(|x| x.id() == 9));
    assert_eq!(r[4].result(), ProtocolError::EndOfStream.code());
}

#[test]
fn add_user_request_response() {
    let (admin_sk, admin_pk) = keypair(3);
    let mut server = BrokerServer::new(ConfigMode::Local, vec![], 1 << 20);
    let user = PubKey::Ed25519PubKey([1; 32]);
    let content = lofire::types::AddUserContentV0 { user };
    let sig = sign(admin_sk, admin_pk, &lofire::auth::encode_add_user_content(&content)).unwrap();
    let req = BrokerRequest::V0(BrokerRequestV0 {
        id: 11,
        content: BrokerRequestContentV0::AddUser(lofire::types::AddUser::V0(
            lofire::types::AddUserV0 { content, sig },
        )),
    });
    let r = server.handle_broker_request(admin_pk, &req);
    assert_eq!((r.id(), r.result()), (11, 0));
    let r = server.handle_broker_request(admin_pk, &req);
    assert_eq!((r.id(), r.result()), (11, ProtocolError::UserAlreadyExists.code()));
    assert!(server.has_user(&user));
}

#[test]
fn put_encoded_block() {
    let mut server = BrokerServer::new(ConfigMode::Local, vec![], 1 << 20);
    let overlay = OverlayConnectionClient::overlay(&repo_link(), true);
    server
        .overlay_join(OWNER, &overlay, &SymKey::ChaCha20Key([0; 32]), &vec![], None, 0)
        .unwrap();
    let b = leaf(vec![5; 10]);
    server.block_put_encoded(&overlay, &b.encode()).unwrap();
    assert!(server.has_block(&b.id()));
    let mut bad = b.encode();
    bad.push(1);
    assert_eq!(
        server.block_put_encoded(&overlay, &bad).unwrap_err(),
        ProtocolError::InvalidMessage
    );
}

#[test]
fn overlay_leave_and_collect() {
    let mut server = BrokerServer::new(ConfigMode::Local, vec![], 1 << 20);
    let overlay = OverlayConnectionClient::overlay(&repo_link(), true);
    assert_eq!(server.overlay_leave(&overlay, 1).unwrap_err(), ProtocolError::OverlayNotJoined);
    server
        .overlay_join(OWNER, &overlay, &SymKey::ChaCha20Key([0; 32]), &vec![], None, 10)
        .unwrap();
    server
        .overlay_join(OWNER, &overlay, &SymKey::ChaCha20Key([0; 32]), &vec![], None, 10)
        .unwrap();
    assert_eq!(server.overlay_users(&overlay), Some(2));
    assert_eq!(
        server
            .overlay_join(OWNER, &overlay, &SymKey::ChaCha20Key([1; 32]), &vec![], None, 10)
            .unwrap_err(),
        ProtocolError::InvalidSecret
    );
    server.overlay_leave(&overlay, 20).unwrap();
    assert!(!server.overlay_collectable(&overlay, 100, 5));
    server.overlay_leave(&overlay, 20).unwrap();
    assert_eq!(server.overlay_users(&overlay), Some(0));
    assert!(!server.overlay_collectable(&overlay, 24, 5));
    assert!(server.overlay_collectable(&overlay, 26, 5));
    server.overlay_delete(&overlay);
    assert_eq!(server.overlay_users(&overlay), None);
}

#[test]
fn client_sync_and_delete() {
    let (mut cnx, client) = connected();
    let br = commit(vec![], 0);
    let t1 = commit(vec![br.id()], 1);
    client.put_block(&mut cnx, &br).unwrap();
    client.put_block(&mut cnx, &t1).unwrap();
    let none = BloomFilter { k: 0, f: vec![] };
    let got = client
        .sync_branch(&cnx, vec![t1.id()], vec![br.id()], none.clone())
        .unwrap();
    assert_eq!(got.len(), 1);
    assert_eq!(got[0].encode(), t1.encode());
    let all = client.sync_branch(&cnx, vec![t1.id()], vec![], none).unwrap();
    assert_eq!(all.len(), 2);
    client.delete_object(&mut cnx, t1.id(), 3).unwrap();
    assert_eq!(
        client.delete_object(&mut cnx, t1.id(), 3).unwrap_err(),
        ProtocolError::NotFound
    );
}

#[test]
fn overlay_registry_sets() {
    use_registry();
}

fn use_registry() {
    let mut reg = lofire::overlay::OverlayRegistry::new();
    let id = Digest::Blake3Digest32([4; 32]);
    let peer = PubKey::Ed25519PubKey([2; 32]);
    assert_eq!(
        reg.add_peer(&id, &peer).unwrap_err(),
        lofire::overlay::StorageError::NotFound
    );
    reg.create(&id, &SymKey::ChaCha20Key([1; 32]), None, 7).unwrap();
    assert_eq!(
        reg.create(&id, &SymKey::ChaCha20Key([1; 32]), None, 7).unwrap_err(),
        lofire::overlay::StorageError::AlreadyExists
    );
    assert!(reg.has_overlay(&id));
    assert!(reg.has_peer(&id, &peer).is_err());
    reg.add_peer(&id, &peer).unwrap();
    reg.add_peer(&id, &peer).unwrap();
    assert!(reg.has_peer(&id, &peer).is_ok());
    reg.remove_peer(&id, &peer).unwrap();
    assert!(reg.has_peer(&id, &peer).is_err());
    reg.add_topic(&id, &peer).unwrap();
    assert!(reg.has_topic(&id, &peer).is_ok());
    reg.remove_topic(&id, &peer).unwrap();
    assert!(reg.has_topic(&id, &peer).is_err());
    assert_eq!(reg.metadata(&id).unwrap().users, 1);
    assert_eq!(reg.metadata(&id).unwrap().last_used, 7);
    assert!(reg.repo(&id).is_err());
    reg.del(&id).unwrap();
    assert!(!reg.has_overlay(&id));
}

#[test]
fn test_local_cnx() {
    let (priv_key, pub_key) = keypair(9);
    let server = BrokerServer::new(ConfigMode::Local, vec![], 1 << 20);
    let mut cnx = BrokerConnectionLocal::new(server, pub_key);
    cnx.add_user(PubKey::Ed25519PubKey([1; 32]), priv_key).unwrap();
    cnx.add_user(pub_key, priv_key).unwrap();
    assert_eq!(
        cnx.add_user(PubKey::Ed25519PubKey([1; 32]), priv_key).unwrap_err(),
        ProtocolError::UserAlreadyExists
    );
    let repo = repo_link();
    let client = cnx.overlay_connect(&repo, true, 0).unwrap();
    let my_block_id = client.put_block(&mut cnx, &leaf(vec![27; 150])).unwrap();
    let object_id = client.put_object(&mut cnx, &object_blocks()).unwrap();
    assert_eq!(client.get_block(&cnx, my_block_id, true, None).unwrap().len(), 1);
    assert_eq!(client.get_block(&cnx, object_id, true, None).unwrap().len(), 2);
    assert_eq!(client.get_object(&cnx, object_id, None).unwrap().len(), 2);
    client.delete_object(&mut cnx, object_id, 1).unwrap();
    assert_eq!(
        client.get_object(&cnx, object_id, None).unwrap_err(),
        ProtocolError::NotFound
    );
}

#[test]
fn broker_authenticates_known_client() {
    let (user_sk, user_pk) = keypair(3);
    let client_pk = PubKey::Ed25519PubKey([1; 32]);
    let mut server = BrokerServer::new(ConfigMode::Local, vec![], 1 << 20);
    let sig = sign(user_sk, user_pk, &lofire::auth::encode_add_user_content(
        &lofire::types::AddUserContentV0 { user: user_pk },
    ))
    .unwrap();
    server.add_user(user_pk, user_pk, sig).unwrap();
    let hello = server_hello(vec![0xAA; 32]);
    let auth = client_auth(&hello, user_pk, user_sk, client_pk).unwrap();
    assert_ne!(server.authenticate(&auth, &vec![0xAA; 32]).result(), 0);
    let mut client_bytes = vec![0u8];
    client_bytes.extend_from_slice(&[1; 32]);
    let csig = sign(user_sk, user_pk, &client_bytes).unwrap();
    server.add_client(user_pk, client_pk, csig).unwrap();
    assert!(server.has_client(&user_pk, &client_pk));
    assert_eq!(server.authenticate(&auth, &vec![0xAA; 32]).result(), 0);
}

#[test]
fn delete_keeps_shared_children() {
    let (mut cnx, client) = connected();
    let shared = leaf(vec![1]);
    let own = leaf(vec![2]);
    let obj = Block::new(vec![shared.id(), own.id()], ObjectDeps::ObjectIdList(vec![]), None, vec![3], None);
    let other = Block::new(vec![shared.id()], ObjectDeps::ObjectIdList(vec![]), None, vec![4], None);
    for b in [&shared, &own, &obj, &other] {
        client.put_block(&mut cnx, b).unwrap();
    }
    client.delete_object(&mut cnx, obj.id(), 1).unwrap();
    let broker = cnx.broker_ref();
    assert!(!broker.has_block(&obj.id()));
    assert!(!broker.has_block(&own.id()));
    assert!(broker.has_block(&shared.id()));
    assert!(broker.has_block(&other.id()));
    assert_eq!(broker.block_count(), 2);
}

#[test]
fn join_reply_error_is_surfaced() {
    use_join_step();
}

fn use_join_step() {
    let overlay = Digest::Blake3Digest32([3; 32]);
    assert!(lofire::connection::overlay_join_step(overlay, Ok(())).is_ok());
    assert_eq!(
        lofire::connection::overlay_join_step(overlay, Err(ProtocolError::InvalidSecret)).unwrap_err(),
        ProtocolError::InvalidSecret
    );
    assert_eq!(
        lofire::connection::overlay_connect_step(Err(ProtocolError::StorageError)),
        lofire::connection::ConnectStep::Fail(ProtocolError::StorageError)
    );
}

#[test]
fn oversized_block_in_object() {
    let (_sk, pk) = keypair(3);
    let server = BrokerServer::new(ConfigMode::Local, vec![], 100);
    let mut cnx = BrokerConnectionLocal::new(server, pk);
    let client = cnx.overlay_connect(&repo_link(), true, 0).unwrap();
    let small = leaf(vec![1; 10]);
    let big = leaf(vec![2; 200]);
    let after = leaf(vec![3; 10]);
    let res = client.put_object(&mut cnx, &vec![small.clone(), big, after.clone()]);
    assert_eq!(res.unwrap_err(), ProtocolError::InvalidBlock);
    assert!(cnx.broker_ref().has_block(&small.id()));
    assert!(!cnx.broker_ref().has_block(&after.id()));
}

#[test]
fn repo_link_peers_are_copied() {
    let advert = lofire::types::PeerAdvert::V0(lofire::types::PeerAdvertV0 {
        content: lofire::types::PeerAdvertContentV0 {
            peer: PubKey::Ed25519PubKey([6; 32]),
            subs: lofire::keys::BloomFilter128 { f: [[0; 32]; 4] },
            address: vec![],
            version: 2,
            metadata: vec![9, 9],
        },
        sig: lofire::keys::Sig::Ed25519Sig([[1; 32]; 2]),
        ttl: 3,
    });
    let link = RepoLink::V0(RepoLinkV0 {
        id: PubKey::Ed25519PubKey([1; 32]),
        secret: SymKey::ChaCha20Key([0; 32]),
        peers: vec![advert],
    });
    let peers = link.peers();
    assert_eq!(peers.len(), 1);
    match &peers[0] {
        lofire::types::PeerAdvert::V0(v) => {
            assert_eq!(v.content.metadata, vec![9, 9]);
            assert_eq!(v.ttl, 3);
            assert_eq!(v.content.version, 2);
        }
    }
}

#[test]
fn overlay_connect_needs_membership() {
    let (_sk, first) = keypair(3);
    let (_sk2, second) = keypair(4);
    let server = BrokerServer::new(ConfigMode::Local, vec![], 1 << 20);
    let mut cnx = BrokerConnectionLocal::new(server, first);
    let client = cnx.overlay_connect(&repo_link(), true, 0).unwrap();
    let overlay = client.overlay_id();
    let server = cnx.into_broker();
    assert!(server.overlay_connect(&first, &overlay).is_ok());
    assert_eq!(
        server.overlay_connect(&second, &overlay).unwrap_err(),
        ProtocolError::OverlayNotJoined
    );
    // a second user with the right secret joins; with a wrong one is refused
    let mut cnx = BrokerConnectionLocal::new(server, second);
    let bad = RepoLink::V0(RepoLinkV0 {
        id: PubKey::Ed25519PubKey([1; 32]),
        secret: SymKey::ChaCha20Key([5; 32]),
        peers: vec![],
    });
    assert_eq!(
        cnx.overlay_connect(&bad, true, 1).err().unwrap(),
        ProtocolError::InvalidSecret
    );
    cnx.overlay_connect(&repo_link(), true, 1).unwrap();
    assert!(cnx.broker_ref().overlay_connect(&second, &overlay).is_ok());
    assert_eq!(cnx.broker_ref().overlay_users(&overlay), Some(2));
}

#[test]
fn del_client_request() {
    let (user_sk, user_pk) = keypair(3);
    let client_pk = PubKey::Ed25519PubKey([1; 32]);
    let mut server = BrokerServer::new(ConfigMode::Local, vec![], 1 << 20);
    let usig = sign(user_sk, user_pk, &lofire::auth::encode_add_user_content(
        &lofire::types::AddUserContentV0 { user: user_pk },
    ))
    .unwrap();
    server.add_user(user_pk, user_pk, usig).unwrap();
    let mut client_bytes = vec![0u8];
    client_bytes.extend_from_slice(&[1; 32]);
    let csig = sign(user_sk, user_pk, &client_bytes).unwrap();
    server.add_client(user_pk, client_pk, csig).unwrap();
    let req = BrokerRequest::V0(BrokerRequestV0 {
        id: 3,
        content: BrokerRequestContentV0::DelClient(lofire::types::DelClient::V0(
            lofire::types::DelClientV0 {
                content: lofire::types::DelClientContentV0 { client: client_pk },
                sig: csig,
            },
        )),
    });
    let r = server.handle_broker_request(user_pk, &req);
    assert_eq!((r.id(), r.result()), (3, 0));
    assert!(!server.has_client(&user_pk, &client_pk));
    let r = server.handle_broker_request(user_pk, &req);
    assert_eq!(r.result(), ProtocolError::NotFound.code());
}

#[test]
fn object_puts_first_occurrences() {
    let a = leaf(vec![1]);
    let b = leaf(vec![2]);
    let order = lofire::connection::object_puts(&vec![a.clone(), b.clone(), a.clone(), b, a]);
    assert_eq!(order, vec![0, 1]);
}

#[test]
fn cancelled_then_duplicate() {
    let mut table = PendingTable::new(0);
    let id = table.issue(Pending::Unary).unwrap();
    table.cancel(id);
    assert!(table.is_cancelled(id));
    assert!(table.on_message(&overlay_response(id, 0, None)).is_empty());
}
