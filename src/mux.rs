//! Client multiplexer: the table of requests in flight on one connection,
//! and what to do with each incoming message.
use vstd::prelude::*;
use std::collections::{HashMap, HashSet};
use crate::errors::{error_code, outcome_of_code, outcome_of_code_spec, ProtocolError};
use crate::types::{
    message_block_of, message_id_of, message_is_request, message_is_response, message_result_of,
    BrokerMessage,
};

verus! {

/// Where a streamed request stands.
#[derive(Clone, Copy, Debug, PartialEq, Eq, Structural)]
pub enum StreamPhase {
    /// No response yet
    Init,
    /// Header accepted; blocks are flowing
    Open,
}

/// A request in flight.
#[derive(Clone, Copy, Debug, PartialEq, Eq, Structural)]
pub enum Pending {
    /// Awaits a single response
    Unary,
    /// Awaits a header, then blocks, then a terminator
    Stream(StreamPhase),
}

/// What the connection must do with an incoming message.
#[derive(Clone, Copy, Debug)]
pub enum MuxEvent {
    /// The peer sent a request: a protocol violation; close the link
    CloseLink,
    /// Resolve the unary request `id` with `outcome`
    UnaryResult { id: u64, outcome: Result<(), ProtocolError> },
    /// Resolve the header of stream `id`
    StreamHeader { id: u64, outcome: Result<(), ProtocolError> },
    /// Push the message's block to stream `id`
    StreamBlock { id: u64 },
    /// Close stream `id`, with its terminal error if any
    StreamEnd { id: u64, error: Option<ProtocolError> },
}

/// Whether a result code ends a stream without error.
pub open spec fn is_clean_end(code: u16) -> bool {
    code == 0 || code == error_code(ProtocolError::EndOfStream)
}

/// The table and the events after an incoming message. `cancelled` holds
/// the ids of the requests dropped by the caller and `next` the next id to
/// hand out: a response for an id that was handed out, is no longer in
/// flight and was not cancelled has already been answered, and a second
/// answer is a protocol violation.
pub open spec fn dispatch(p: Map<u64, Pending>, cancelled: Set<u64>, next: u64, m: BrokerMessage) -> (
    Map<u64, Pending>,
    Seq<MuxEvent>,
) {
    if message_is_request(m) {
        (p, seq![MuxEvent::CloseLink])
    } else if !message_is_response(m) {
        (p, Seq::empty())
    } else {
        let id = message_id_of(m);
        let code = message_result_of(m);
        if !p.contains_key(id) {
            if id < next && !cancelled.contains(id) {
                (p, seq![MuxEvent::CloseLink])
            } else {
                (p, Seq::empty())
            }
        } else {
            match p[id] {
                Pending::Unary => (
                    p.remove(id),
                    seq![MuxEvent::UnaryResult { id, outcome: outcome_of_code_spec(code) }],
                ),
                Pending::Stream(StreamPhase::Init) => if code != 0 {
                    (
                        p.remove(id),
                        seq![MuxEvent::StreamHeader { id, outcome: outcome_of_code_spec(code) }],
                    )
                } else if message_block_of(m) is Some {
                    (
                        p.insert(id, Pending::Stream(StreamPhase::Open)),
                        seq![
                            MuxEvent::StreamHeader { id, outcome: Ok(()) },
                            MuxEvent::StreamBlock { id },
                        ],
                    )
                } else {
                    (
                        p.remove(id),
                        seq![
                            MuxEvent::StreamHeader { id, outcome: Ok(()) },
                            MuxEvent::StreamEnd { id, error: None },
                        ],
                    )
                },
                Pending::Stream(StreamPhase::Open) => if message_block_of(m) is Some {
                    (p, seq![MuxEvent::StreamBlock { id }])
                } else if is_clean_end(code) {
                    (p.remove(id), seq![MuxEvent::StreamEnd { id, error: None }])
                } else {
                    (
                        p.remove(id),
                        seq![MuxEvent::StreamEnd { id, error: Some(outcome_of_code_spec(code)->Err_0) }],
                    )
                },
            }
        }
    }
}

/// The requests in flight on one connection, keyed by request id. Ids are
/// handed out in increasing order, so none is reused.
pub struct PendingTable {
    pending: HashMap<u64, Pending>,
    cancelled: HashSet<u64>,
    next_id: u64,
}

impl PendingTable {
    /// The requests in flight.
    pub closed spec fn view(&self) -> Map<u64, Pending> {
        self.pending@
    }

    /// The ids of the requests dropped by the caller.
    pub closed spec fn cancelled(&self) -> Set<u64> {
        self.cancelled@
    }

    /// The next id to hand out.
    pub closed spec fn next(&self) -> u64 {
        self.next_id
    }

    /// Every id in flight or cancelled was handed out before, and no id in
    /// flight is cancelled.
    pub closed spec fn wf(&self) -> bool {
        &&& forall|id: u64| #[trigger] self.pending@.contains_key(id) ==> id < self.next_id && !self.cancelled@.contains(id)
        &&& forall|id: u64| #[trigger] self.cancelled@.contains(id) ==> id < self.next_id
    }

    /// An empty table whose first id is `first_id`.
    pub fn new(first_id: u64) -> (r: PendingTable)
        ensures
            r.wf(),
            r@ == Map::<u64, Pending>::empty(),
            r.cancelled() == Set::<u64>::empty(),
            r.next() == first_id,
    {
        let r = PendingTable { pending: HashMap::new(), cancelled: HashSet::new(), next_id: first_id };
        proof {
            assert(r.cancelled@ =~= Set::<u64>::empty());
        }
        r
    }

    /// Installs a request of the given kind under a fresh id, which is
    /// returned; `None` when the ids are exhausted.
    pub fn issue(&mut self, kind: Pending) -> (r: Option<u64>)
        requires
            old(self).wf(),
        ensures
            final(self).wf(),
            final(self).cancelled() == old(self).cancelled(),
            old(self).next() == u64::MAX ==> r is None && final(self)@ == old(self)@,
            old(self).next() < u64::MAX ==> r == Some(old(self).next()) && !old(self)@.contains_key(
                old(self).next(),
            ) && final(self)@ == old(self)@.insert(old(self).next(), kind) && final(self).next()
                == old(self).next() + 1,
    {
        if self.next_id == u64::MAX {
            return None;
        }
        let id = self.next_id;
        self.pending.insert(id, kind);
        self.next_id = id + 1;
        Some(id)
    }

    /// Drops a request that was handed out: later responses to it are
    /// ignored.
    pub fn cancel(&mut self, id: u64)
        requires
            old(self).wf(),
            id < old(self).next(),
        ensures
            final(self).wf(),
            final(self)@ == old(self)@.remove(id),
            final(self).cancelled() == old(self).cancelled().insert(id),
            final(self).next() == old(self).next(),
    {
        self.pending.remove(&id);
        self.cancelled.insert(id);
    }

    /// Whether the caller dropped a request.
    pub fn is_cancelled(&self, id: u64) -> (r: bool)
        ensures
            r == self.cancelled().contains(id),
    {
        self.cancelled.contains(&id)
    }

    /// Whether a request is in flight.
    pub fn is_pending(&self, id: u64) -> (r: bool)
        ensures
            r == self@.contains_key(id),
    {
        self.pending.contains_key(&id)
    }

    /// The link is gone: every request in flight is dropped. The caller
    /// fails each of its outstanding calls with `ConnectionLost`.
    pub fn link_lost(&mut self)
        requires
            old(self).wf(),
        ensures
            final(self).wf(),
            final(self)@ == Map::<u64, Pending>::empty(),
            final(self).cancelled() == old(self).cancelled(),
            final(self).next() == old(self).next(),
    {
        self.pending.clear();
    }

    /// Routes an incoming message: updates the table and says what to do.
    pub fn on_message(&mut self, m: &BrokerMessage) -> (r: Vec<MuxEvent>)
        requires
            old(self).wf(),
        ensures
            final(self).wf(),
            final(self).next() == old(self).next(),
            final(self).cancelled() == old(self).cancelled(),
            (final(self)@, r@) == dispatch(old(self)@, old(self).cancelled(), old(self).next(), *m),
    {
        let mut r: Vec<MuxEvent> = Vec::new();
        if m.is_request() {
            r.push(MuxEvent::CloseLink);
            assert(r@ =~= seq![MuxEvent::CloseLink]);
            return r;
        }
        if !m.is_response() {
            return r;
        }
        let id = m.id();
        let code = m.result();
        let kind = match self.pending.get(&id) {
            None => {
                if id < self.next_id && !self.cancelled.contains(&id) {
                    r.push(MuxEvent::CloseLink);
                    assert(r@ =~= seq![MuxEvent::CloseLink]);
                }
                return r;
            },
            Some(k) => *k,
        };
        match kind {
            Pending::Unary => {
                self.pending.remove(&id);
                r.push(MuxEvent::UnaryResult { id, outcome: outcome_of_code(code) });
            },
            Pending::Stream(StreamPhase::Init) => {
                if code != 0 {
                    self.pending.remove(&id);
                    r.push(MuxEvent::StreamHeader { id, outcome: outcome_of_code(code) });
                } else if m.response_block_opt().is_some() {
                    self.pending.insert(id, Pending::Stream(StreamPhase::Open));
                    r.push(MuxEvent::StreamHeader { id, outcome: Ok(()) });
                    r.push(MuxEvent::StreamBlock { id });
                } else {
                    self.pending.remove(&id);
                    r.push(MuxEvent::StreamHeader { id, outcome: Ok(()) });
                    r.push(MuxEvent::StreamEnd { id, error: None });
                }
            },
            Pending::Stream(StreamPhase::Open) => {
                if m.response_block_opt().is_some() {
                    r.push(MuxEvent::StreamBlock { id });
                } else if code == 0 || code == ProtocolError::EndOfStream.code() {
                    self.pending.remove(&id);
                    r.push(MuxEvent::StreamEnd { id, error: None });
                } else {
                    self.pending.remove(&id);
                    let error = match outcome_of_code(code) {
                        Err(e) => Some(e),
                        Ok(()) => None,
                    };
                    r.push(MuxEvent::StreamEnd { id, error });
                }
            },
        }
        proof {
            let d = dispatch(old(self)@, old(self).cancelled(), old(self).next(), *m);
            assert(r@ =~= d.1);
            assert(self.pending@ =~= d.0);
        }
        r
    }
}

impl BrokerMessage {
    /// The block that an overlay response carries; `None` for any other message.
    pub fn response_block_opt(&self) -> (r: Option<&crate::block::Block>)
        ensures
            match r {
                Some(b) => message_block_of(*self) == Some(*b),
                None => message_block_of(*self) is None,
            },
    {
        if crate::types::is_overlay_response(self) {
            self.response_block()
        } else {
            None
        }
    }
}

/// Whether an event resolves the unary request `id`.
pub open spec fn resolves_unary(e: MuxEvent, id: u64) -> bool {
    match e {
        MuxEvent::UnaryResult { id: i, .. } => i == id,
        _ => false,
    }
}

/// Unary responses are one-to-one with unary requests: an incoming message
/// resolves a unary request only if that request is in flight, and it is
/// then no longer in flight, so no later message can resolve it again.
pub proof fn lemma_unary_one_to_one(p: Map<u64, Pending>, cancelled: Set<u64>, next: u64, m: BrokerMessage, id: u64)
    ensures
        (exists|i: int|
            0 <= i < dispatch(p, cancelled, next, m).1.len() && #[trigger] resolves_unary(
                dispatch(p, cancelled, next, m).1[i],
                id,
            )) ==> p.contains_key(id) && p[id] == Pending::Unary && !dispatch(p, cancelled, next, m).0.contains_key(id),
        !p.contains_key(id) ==> forall|i: int|
            0 <= i < dispatch(p, cancelled, next, m).1.len() ==> !#[trigger] resolves_unary(
                dispatch(p, cancelled, next, m).1[i],
                id,
            ),
{
}

/// A unary request in flight is resolved by the response that carries its
/// id: exactly one event, `Ok` for result `0` and the coded error
/// otherwise, and the request leaves the table.
pub proof fn lemma_unary_resolved(p: Map<u64, Pending>, cancelled: Set<u64>, next: u64, m: BrokerMessage)
    requires
        message_is_response(m),
        !message_is_request(m),
        p.contains_key(message_id_of(m)),
        p[message_id_of(m)] == Pending::Unary,
    ensures
        dispatch(p, cancelled, next, m).1 == seq![
            MuxEvent::UnaryResult { id: message_id_of(m), outcome: outcome_of_code_spec(message_result_of(m)) },
        ],
        dispatch(p, cancelled, next, m).0 == p.remove(message_id_of(m)),
        (message_result_of(m) == 0) == (outcome_of_code_spec(message_result_of(m)) is Ok),
{
}

/// A streamed request in flight follows the stream's steps: a first
/// response with result `0` and a block opens it and hands the block over;
/// each later block is handed over in the order received, the stream
/// staying open; a terminator with `EndOfStream` closes it without error
/// and drops the request.
pub proof fn lemma_stream_steps(p: Map<u64, Pending>, cancelled: Set<u64>, next: u64, m: BrokerMessage)
    requires
        message_is_response(m),
        !message_is_request(m),
        p.contains_key(message_id_of(m)),
    ensures
        p[message_id_of(m)] == Pending::Stream(StreamPhase::Init) && message_result_of(m) == 0
            && message_block_of(m) is Some ==> dispatch(p, cancelled, next, m) == (
            p.insert(message_id_of(m), Pending::Stream(StreamPhase::Open)),
            seq![
                MuxEvent::StreamHeader { id: message_id_of(m), outcome: Ok(()) },
                MuxEvent::StreamBlock { id: message_id_of(m) },
            ],
        ),
        p[message_id_of(m)] == Pending::Stream(StreamPhase::Open) && message_block_of(m) is Some
            ==> dispatch(p, cancelled, next, m) == (p, seq![MuxEvent::StreamBlock { id: message_id_of(m) }]),
        p[message_id_of(m)] == Pending::Stream(StreamPhase::Open) && message_block_of(m) is None
            && message_result_of(m) == error_code(ProtocolError::EndOfStream) ==> dispatch(p, cancelled, next, m)
            == (p.remove(message_id_of(m)), seq![MuxEvent::StreamEnd { id: message_id_of(m), error: None }]),
{
}

/// A second response to a request that was already answered (handed out,
/// no longer in flight, not cancelled) closes the link; a response to a
/// cancelled request is ignored.
pub proof fn lemma_duplicate_response_closes(p: Map<u64, Pending>, cancelled: Set<u64>, next: u64, m: BrokerMessage)
    requires
        message_is_response(m),
        !message_is_request(m),
        !p.contains_key(message_id_of(m)),
    ensures
        message_id_of(m) < next && !cancelled.contains(message_id_of(m)) ==> dispatch(p, cancelled, next, m).1
            == seq![MuxEvent::CloseLink],
        cancelled.contains(message_id_of(m)) ==> dispatch(p, cancelled, next, m).1 == Seq::<MuxEvent>::empty(),
        dispatch(p, cancelled, next, m).0 == p,
{
}

/// A message never adds a request to the table: the ids in flight after it
/// are among those in flight before.
pub proof fn lemma_dispatch_shrinks(p: Map<u64, Pending>, cancelled: Set<u64>, next: u64, m: BrokerMessage)
    ensures
        dispatch(p, cancelled, next, m).0.dom().subset_of(p.dom()),
{
}

} // verus!
