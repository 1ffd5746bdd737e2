//! Signatures over canonical records, and the authentication handshake.
use vstd::prelude::*;
use crate::block::{enc_bytes, enc_pubkey, put_bytes, put_pubkey};
use crate::errors::ProtocolError;
use crate::keys::{
    ed25519_sign, ed25519_sign_of, ed25519_verify, ed25519_verify_of, privkey_bytes, pubkey_bytes,
    sig_bytes, PrivKey, PubKey, Sig,
};
use crate::types::{
    AddUserContentV0, AuthResult, AuthResultV0, ClientAuth, ClientAuthContentV0, ClientAuthV0,
    ServerHello, ServerHelloV0,
};

verus! {

/// Canonical encoding of the content of an `AddUser` request.
pub open spec fn add_user_content_encoding(c: AddUserContentV0) -> Seq<u8> {
    enc_pubkey(c.user)
}

/// Canonical encoding of the content of a `ClientAuth` message.
pub open spec fn client_auth_content_encoding(user: PubKey, client: PubKey, nonce: Seq<u8>) -> Seq<
    u8,
> {
    enc_pubkey(user) + enc_pubkey(client) + enc_bytes(nonce)
}

/// Whether `sig` is a valid signature of `content` by `key`.
pub open spec fn signed_by(content: Seq<u8>, sig: Sig, key: PubKey) -> bool {
    ed25519_verify_of(pubkey_bytes(key), content, sig_bytes(sig))
}

/// Canonical encoding of the content of an `AddUser` request.
pub fn encode_add_user_content(c: &AddUserContentV0) -> (r: Vec<u8>)
    ensures
        r@ == add_user_content_encoding(*c),
{
    let mut out: Vec<u8> = Vec::new();
    put_pubkey(&mut out, &c.user);
    assert(out@ =~= add_user_content_encoding(*c));
    out
}

/// Canonical encoding of the content of a `ClientAuth` message.
pub fn encode_client_auth_content(c: &ClientAuthContentV0) -> (r: Vec<u8>)
    ensures
        r@ == client_auth_content_encoding(c.user, c.client, c.nonce@),
{
    let mut out: Vec<u8> = Vec::new();
    put_pubkey(&mut out, &c.user);
    put_pubkey(&mut out, &c.client);
    put_bytes(&mut out, c.nonce.as_slice());
    assert(out@ =~= client_auth_content_encoding(c.user, c.client, c.nonce@));
    out
}

/// Signs `content` with the keypair of the author.
pub fn sign(author_privkey: PrivKey, author_pubkey: PubKey, content: &Vec<u8>) -> (r: Result<
    Sig,
    ProtocolError,
>)
    ensures
        match r {
            Ok(s) => ed25519_sign_of(
                privkey_bytes(author_privkey),
                pubkey_bytes(author_pubkey),
                content@,
            ) == Some(sig_bytes(s)),
            Err(e) => e == ProtocolError::SignatureError && ed25519_sign_of(
                privkey_bytes(author_privkey),
                pubkey_bytes(author_pubkey),
                content@,
            ) is None,
        },
{
    let sk = match &author_privkey {
        PrivKey::Ed25519PrivKey(b) => b,
    };
    let pk = author_pubkey.slice();
    match ed25519_sign(sk, pk, content.as_slice()) {
        Some(halves) => Ok(Sig::Ed25519Sig(halves)),
        None => Err(ProtocolError::SignatureError),
    }
}

/// Verifies that `sig` is a signature of `content` by `pub_key`.
pub fn verify(content: &Vec<u8>, sig: Sig, pub_key: PubKey) -> (r: Result<(), ProtocolError>)
    ensures
        r is Ok <==> signed_by(content@, sig, pub_key),
        r is Err ==> r == Err::<(), ProtocolError>(ProtocolError::SignatureError),
{
    let halves = match &sig {
        Sig::Ed25519Sig(h) => h,
    };
    if ed25519_verify(pub_key.slice(), content.as_slice(), halves) {
        Ok(())
    } else {
        Err(ProtocolError::SignatureError)
    }
}

// ---------------------------------------------------------------------------
// Handshake

/// Server side: the hello that carries the nonce to sign.
pub fn server_hello(nonce: Vec<u8>) -> (r: ServerHello)
    ensures
        r == ServerHello::V0(ServerHelloV0 { nonce }),
{
    ServerHello::V0(ServerHelloV0 { nonce })
}

/// Client side: the authentication message for the nonce of a server hello,
/// signed by the user's key.
pub fn client_auth(
    hello: &ServerHello,
    user: PubKey,
    user_priv: PrivKey,
    client: PubKey,
) -> (r: Result<ClientAuth, ProtocolError>)
    ensures
        match r {
            Ok(a) => {
                &&& a.user_spec() == user
                &&& a.client_spec() == client
                &&& a.nonce_spec()@ == hello.nonce_spec()
                &&& ed25519_sign_of(
                    privkey_bytes(user_priv),
                    pubkey_bytes(user),
                    client_auth_content_encoding(user, client, hello.nonce_spec()),
                ) == Some(sig_bytes(a.sig_spec()))
            },
            Err(e) => e == ProtocolError::SignatureError && ed25519_sign_of(
                privkey_bytes(user_priv),
                pubkey_bytes(user),
                client_auth_content_encoding(user, client, hello.nonce_spec()),
            ) is None,
        },
{
    let content = ClientAuthContentV0 {
        user,
        client,
        nonce: crate::block::copy_bytes(hello.nonce()),
    };
    let bytes = encode_client_auth_content(&content);
    let sig = sign(user_priv, user, &bytes)?;
    Ok(ClientAuth::V0(ClientAuthV0 { content, sig }))
}

impl ServerHello {
    /// The nonce, as a byte sequence.
    pub open spec fn nonce_spec(&self) -> Seq<u8> {
        match self {
            ServerHello::V0(o) => o.nonce@,
        }
    }
}

impl ClientAuth {
    /// The signature.
    pub open spec fn sig_spec(&self) -> Sig {
        match self {
            ClientAuth::V0(o) => o.sig,
        }
    }
}

/// Whether a client authentication is acceptable for `nonce`: the nonce is
/// the one sent, the signature by the user is valid, the user is known and
/// the client is one of the user's clients.
pub open spec fn auth_accepted(
    auth: ClientAuth,
    nonce: Seq<u8>,
    users: Seq<PubKey>,
    clients: Seq<(PubKey, PubKey)>,
) -> bool {
    &&& auth.nonce_spec()@ == nonce
    &&& signed_by(
        client_auth_content_encoding(auth.user_spec(), auth.client_spec(), auth.nonce_spec()@),
        auth.sig_spec(),
        auth.user_spec(),
    )
    &&& users.contains(auth.user_spec())
    &&& clients.contains((auth.user_spec(), auth.client_spec()))
}

/// Whether a key is in a list.
pub fn contains_key(keys: &Vec<PubKey>, k: &PubKey) -> (r: bool)
    ensures
        r == keys@.contains(*k),
{
    let mut i: usize = 0;
    while i < keys.len()
        invariant
            0 <= i <= keys@.len(),
            forall|j: int| 0 <= j < i ==> keys@[j] != *k,
        decreases keys@.len() - i,
    {
        if keys[i].same(k) {
            return true;
        }
        i = i + 1;
    }
    false
}

/// Whether a (user, client) pair is in a list.
pub fn contains_pair(pairs: &Vec<(PubKey, PubKey)>, u: &PubKey, c: &PubKey) -> (r: bool)
    ensures
        r == pairs@.contains((*u, *c)),
{
    let mut i: usize = 0;
    while i < pairs.len()
        invariant
            0 <= i <= pairs@.len(),
            forall|j: int| 0 <= j < i ==> pairs@[j] != (*u, *c),
        decreases pairs@.len() - i,
    {
        if pairs[i].0.same(u) && pairs[i].1.same(c) {
            return true;
        }
        i = i + 1;
    }
    false
}

/// Server side: checks a client authentication against the nonce that was
/// sent and the known users and clients, and answers with the result.
pub fn check_client_auth(
    auth: &ClientAuth,
    nonce: &Vec<u8>,
    users: &Vec<PubKey>,
    clients: &Vec<(PubKey, PubKey)>,
) -> (r: AuthResult)
    ensures
        (r.result_spec() == 0) == auth_accepted(*auth, nonce@, users@, clients@),
        r.result_spec() != 0 ==> r.result_spec() == crate::errors::error_code(
            ProtocolError::SignatureError,
        ),
{
    let ok = crate::block::bytes_eq(auth.nonce(), nonce) && verify(
        &encode_client_auth_content(&auth.content_v0()),
        auth.sig(),
        auth.user(),
    ).is_ok() && contains_key(users, &auth.user()) && contains_pair(
        clients,
        &auth.user(),
        &auth.client(),
    );
    let result: u16 = if ok {
        0
    } else {
        ProtocolError::SignatureError.code()
    };
    AuthResult::V0(AuthResultV0 { result, metadata: Vec::new() })
}

impl AuthResult {
    /// The result code.
    pub open spec fn result_spec(&self) -> u16 {
        match self {
            AuthResult::V0(o) => o.result,
        }
    }
}

/// Client side: the outcome of the handshake from the server's answer.
pub fn auth_outcome(res: &AuthResult) -> (r: Result<(), ProtocolError>)
    ensures
        res.result_spec() == 0 <==> r is Ok,
        r is Err ==> r == crate::errors::outcome_of_code_spec(res.result_spec()),
{
    crate::errors::outcome_of_code(res.result())
}

} // verus!
