//! Overlay registry: per-overlay secret, member peers, topics, metadata and
//! optional repository key, kept by a broker.
use vstd::prelude::*;
use crate::auth::contains_key;
use crate::keys::{PubKey, SymKey, Timestamp};
use crate::types::{OverlayId, PeerId, TopicId};

verus! {

/// Errors of the registry.
#[derive(Clone, Copy, Debug, PartialEq, Eq, Structural)]
pub enum StorageError {
    /// The overlay or the value is absent
    NotFound,
    /// The overlay is already present
    AlreadyExists,
}

/// Usage metadata of an overlay.
#[derive(Clone, Copy, Debug, PartialEq, Eq, Structural)]
pub struct OverlayMeta {
    pub users: u32,
    pub last_used: Timestamp,
}

/// The record of one overlay.
#[derive(Clone, Debug)]
pub struct Overlay {
    /// Overlay ID
    id: OverlayId,
    secret: SymKey,
    peers: Vec<PeerId>,
    topics: Vec<TopicId>,
    meta: OverlayMeta,
    repo: Option<PubKey>,
}

/// Mathematical value of an overlay record.
pub struct OverlayView {
    pub secret: SymKey,
    pub peers: Set<PeerId>,
    pub topics: Set<TopicId>,
    pub meta: OverlayMeta,
    pub repo: Option<PubKey>,
}

impl View for Overlay {
    type V = OverlayView;

    closed spec fn view(&self) -> OverlayView {
        OverlayView {
            secret: self.secret,
            peers: self.peers@.to_set(),
            topics: self.topics@.to_set(),
            meta: self.meta,
            repo: self.repo,
        }
    }
}

impl Overlay {
    /// The id of the overlay.
    pub closed spec fn id_spec(&self) -> OverlayId {
        self.id
    }

    /// Overlay ID
    pub fn id(&self) -> (r: OverlayId)
        ensures
            r == self.id_spec(),
    {
        self.id
    }

    /// The overlay's secret.
    pub fn secret(&self) -> (r: SymKey)
        ensures
            r == self@.secret,
    {
        self.secret
    }

    /// The overlay's metadata.
    pub fn metadata(&self) -> (r: OverlayMeta)
        ensures
            r == self@.meta,
    {
        self.meta
    }

    /// The repository the overlay belongs to, if known.
    pub fn repo(&self) -> (r: Option<PubKey>)
        ensures
            r == self@.repo,
    {
        self.repo
    }
}

/// All overlays known to a broker, by id.
pub struct OverlayRegistry {
    overlays: Vec<Overlay>,
    contents: Ghost<Map<OverlayId, OverlayView>>,
}

pub proof fn lemma_push_to_set(s: Seq<PubKey>, x: PubKey)
    ensures
        s.push(x).to_set() == s.to_set().insert(x),
{
    assert forall|y: PubKey| s.push(x).to_set().contains(y) implies s.to_set().insert(x).contains(y) by {
        let i = choose|i: int| 0 <= i < s.push(x).len() && s.push(x)[i] == y;
        if i < s.len() {
            assert(s.contains(y));
        }
    }
    assert forall|y: PubKey| s.to_set().insert(x).contains(y) implies s.push(x).to_set().contains(y) by {
        if y == x {
            assert(s.push(x)[s.len() as int] == x);
        } else {
            let i = choose|i: int| 0 <= i < s.len() && s[i] == y;
            assert(s.push(x)[i] == y);
        }
    }
    assert(s.push(x).to_set() =~= s.to_set().insert(x));
}

/// The list without the occurrences of `x`.
pub fn without(s: &Vec<PubKey>, x: &PubKey) -> (r: Vec<PubKey>)
    ensures
        r@.to_set() == s@.to_set().remove(*x),
{
    let ghost pred = |z: PubKey| z != *x;
    let mut r: Vec<PubKey> = Vec::new();
    let mut i: usize = 0;
    while i < s.len()
        invariant
            0 <= i <= s@.len(),
            pred == (|z: PubKey| z != *x),
            r@ == s@.subrange(0, i as int).filter(pred),
        decreases s@.len() - i,
    {
        let y = s[i];
        proof {
            let pn = s@.subrange(0, i + 1);
            assert(pn.drop_last() =~= s@.subrange(0, i as int));
            assert(pn.last() == y);
            reveal(Seq::filter);
        }
        if !y.same(x) {
            r.push(y);
        }
        i = i + 1;
    }
    proof {
        assert(s@.subrange(0, s@.len() as int) =~= s@);
        let f = s@.filter(pred);
        assert forall|z: PubKey| f.to_set().contains(z) implies s@.to_set().remove(*x).contains(z) by {
            s@.lemma_filter_contains_rev(pred, z);
            let k = choose|k: int| 0 <= k < f.len() && f[k] == z;
            s@.lemma_filter_pred(pred, k);
        }
        assert forall|z: PubKey| s@.to_set().remove(*x).contains(z) implies f.to_set().contains(z) by {
            let k = choose|k: int| 0 <= k < s@.len() && s@[k] == z;
            s@.lemma_filter_contains(pred, k);
        }
        assert(f.to_set() =~= s@.to_set().remove(*x));
    }
    r
}

impl OverlayRegistry {
    /// The overlays held, by id.
    pub closed spec fn view(&self) -> Map<OverlayId, OverlayView> {
        self.contents@
    }

    /// The registry's invariant: each id is held once and the ghost map
    /// mirrors the records.
    pub closed spec fn wf(&self) -> bool {
        &&& forall|i: int, j: int|
            0 <= i < j < self.overlays@.len() ==> self.overlays@[i].id != self.overlays@[j].id
        &&& forall|i: int|
            0 <= i < self.overlays@.len() ==> #[trigger] self.contents@.contains_key(
                self.overlays@[i].id,
            ) && self.contents@[self.overlays@[i].id] == self.overlays@[i]@
        &&& forall|id: OverlayId|
            #[trigger] self.contents@.contains_key(id) ==> exists|i: int|
                0 <= i < self.overlays@.len() && self.overlays@[i].id == id
    }

    /// An empty registry.
    pub fn new() -> (r: OverlayRegistry)
        ensures
            r.wf(),
            r@ == Map::<OverlayId, OverlayView>::empty(),
    {
        OverlayRegistry { overlays: Vec::new(), contents: Ghost(Map::empty()) }
    }

    fn find(&self, id: &OverlayId) -> (r: Option<usize>)
        requires
            self.wf(),
        ensures
            match r {
                Some(i) => i < self.overlays@.len() && self.overlays@[i as int].id == *id
                    && self@.contains_key(*id) && self@[*id] == self.overlays@[i as int]@,
                None => !self@.contains_key(*id),
            },
    {
        let mut i: usize = 0;
        while i < self.overlays.len()
            invariant
                self.wf(),
                0 <= i <= self.overlays@.len(),
                forall|j: int| 0 <= j < i ==> self.overlays@[j].id != *id,
            decreases self.overlays@.len() - i,
        {
            if self.overlays[i].id.same(id) {
                proof {
                    assert(self.contents@.contains_key(self.overlays@[i as int].id));
                }
                return Some(i);
            }
            i = i + 1;
        }
        None
    }

    /// Replaces the record at position `i` by one with the same id.
    fn replace_at(&mut self, i: usize, o: Overlay)
        requires
            old(self).wf(),
            i < old(self).overlays@.len(),
            o.id == old(self).overlays@[i as int].id,
        ensures
            final(self).wf(),
            final(self)@ == old(self)@.insert(o.id, o@),
    {
        let ghost old_ov = self.overlays@;
        let ghost id = o.id;
        let ghost v = o@;
        self.overlays.set(i, o);
        self.contents = Ghost(self.contents@.insert(id, v));
        proof {
            assert forall|a: int| 0 <= a < self.overlays@.len() implies #[trigger]
                self.contents@.contains_key(self.overlays@[a].id)
                    && self.contents@[self.overlays@[a].id] == self.overlays@[a]@ by {
                if a != i {
                    assert(self.overlays@[a] == old_ov[a]);
                    assert(old_ov[a].id != old_ov[i as int].id);
                }
            }
            assert forall|k: OverlayId| #[trigger] self.contents@.contains_key(k) implies exists|a: int|
                0 <= a < self.overlays@.len() && self.overlays@[a].id == k by {
                if k == id {
                    assert(self.overlays@[i as int].id == k);
                } else {
                    let a = choose|a: int| 0 <= a < old_ov.len() && old_ov[a].id == k;
                    assert(self.overlays@[a].id == k);
                }
            }
        }
    }

    /// Whether the overlay exists.
    pub fn has_overlay(&self, id: &OverlayId) -> (r: bool)
        requires
            self.wf(),
        ensures
            r == self@.contains_key(*id),
    {
        self.find(id).is_some()
    }

    /// The record of an overlay; `NotFound` if it does not exist.
    pub fn open(&self, id: &OverlayId) -> (r: Result<&Overlay, StorageError>)
        requires
            self.wf(),
        ensures
            match r {
                Ok(o) => self@.contains_key(*id) && self@[*id] == o@ && o.id_spec() == *id,
                Err(e) => !self@.contains_key(*id) && e == StorageError::NotFound,
            },
    {
        match self.find(id) {
            Some(i) => Ok(&self.overlays[i]),
            None => Err(StorageError::NotFound),
        }
    }

    /// Creates an overlay with its secret and optional repository key, one
    /// user, and `now` as last use. Fails with `AlreadyExists` if present.
    pub fn create(&mut self, id: &OverlayId, secret: &SymKey, repo: Option<PubKey>, now: Timestamp) -> (r:
        Result<(), StorageError>)
        requires
            old(self).wf(),
        ensures
            final(self).wf(),
            old(self)@.contains_key(*id) ==> r == Err::<(), StorageError>(StorageError::AlreadyExists)
                && final(self)@ == old(self)@,
            !old(self)@.contains_key(*id) ==> r is Ok && final(self)@ == old(self)@.insert(
                *id,
                OverlayView {
                    secret: *secret,
                    peers: Set::empty(),
                    topics: Set::empty(),
                    meta: OverlayMeta { users: 1, last_used: now },
                    repo,
                },
            ),
    {
        if self.find(id).is_some() {
            return Err(StorageError::AlreadyExists);
        }
        let o = Overlay {
            id: *id,
            secret: *secret,
            peers: Vec::new(),
            topics: Vec::new(),
            meta: OverlayMeta { users: 1, last_used: now },
            repo,
        };
        let ghost v = o@;
        let ghost old_ov = self.overlays@;
        self.overlays.push(o);
        self.contents = Ghost(self.contents@.insert(*id, v));
        proof {
            assert(v.peers =~= Set::<PubKey>::empty());
            assert(v.topics =~= Set::<PubKey>::empty());
            assert forall|k: OverlayId| #[trigger] self.contents@.contains_key(k) implies exists|a: int|
                0 <= a < self.overlays@.len() && self.overlays@[a].id == k by {
                if k == *id {
                    assert(self.overlays@[old_ov.len() as int].id == k);
                } else {
                    let a = choose|a: int| 0 <= a < old_ov.len() && old_ov[a].id == k;
                    assert(self.overlays@[a].id == k);
                }
            }
        }
        Ok(())
    }

    /// Adds a member peer (set semantics). Fails with `NotFound` if the
    /// overlay does not exist.
    pub fn add_peer(&mut self, id: &OverlayId, peer: &PeerId) -> (r: Result<(), StorageError>)
        requires
            old(self).wf(),
        ensures
            final(self).wf(),
            !old(self)@.contains_key(*id) ==> r == Err::<(), StorageError>(StorageError::NotFound)
                && final(self)@ == old(self)@,
            old(self)@.contains_key(*id) ==> r is Ok && final(self)@ == old(self)@.insert(
                *id,
                OverlayView { peers: old(self)@[*id].peers.insert(*peer), ..old(self)@[*id] },
            ),
    {
        match self.find(id) {
            None => Err(StorageError::NotFound),
            Some(i) => {
                let mut o = self.overlays[i].clone_record();
                if !contains_key(&o.peers, peer) {
                    proof {
                        lemma_push_to_set(o.peers@, *peer);
                    }
                    o.peers.push(*peer);
                } else {
                    assert(o.peers@.to_set().insert(*peer) =~= o.peers@.to_set());
                }
                self.replace_at(i, o);
                Ok(())
            },
        }
    }

    /// Removes a member peer, if present. Fails with `NotFound` if the
    /// overlay does not exist.
    pub fn remove_peer(&mut self, id: &OverlayId, peer: &PeerId) -> (r: Result<(), StorageError>)
        requires
            old(self).wf(),
        ensures
            final(self).wf(),
            !old(self)@.contains_key(*id) ==> r == Err::<(), StorageError>(StorageError::NotFound)
                && final(self)@ == old(self)@,
            old(self)@.contains_key(*id) ==> r is Ok && final(self)@ == old(self)@.insert(
                *id,
                OverlayView { peers: old(self)@[*id].peers.remove(*peer), ..old(self)@[*id] },
            ),
    {
        match self.find(id) {
            None => Err(StorageError::NotFound),
            Some(i) => {
                let mut o = self.overlays[i].clone_record();
                o.peers = without(&o.peers, peer);
                self.replace_at(i, o);
                Ok(())
            },
        }
    }

    /// `Ok` if the peer is a member; `NotFound` if it is not or the overlay
    /// does not exist.
    pub fn has_peer(&self, id: &OverlayId, peer: &PeerId) -> (r: Result<(), StorageError>)
        requires
            self.wf(),
        ensures
            r is Ok <==> (self@.contains_key(*id) && self@[*id].peers.contains(*peer)),
            r is Err ==> r == Err::<(), StorageError>(StorageError::NotFound),
    {
        match self.find(id) {
            None => Err(StorageError::NotFound),
            Some(i) => if contains_key(&self.overlays[i].peers, peer) {
                Ok(())
            } else {
                Err(StorageError::NotFound)
            },
        }
    }

    /// Adds a topic (set semantics). Fails with `NotFound` if the overlay
    /// does not exist.
    pub fn add_topic(&mut self, id: &OverlayId, topic: &TopicId) -> (r: Result<(), StorageError>)
        requires
            old(self).wf(),
        ensures
            final(self).wf(),
            !old(self)@.contains_key(*id) ==> r == Err::<(), StorageError>(StorageError::NotFound)
                && final(self)@ == old(self)@,
            old(self)@.contains_key(*id) ==> r is Ok && final(self)@ == old(self)@.insert(
                *id,
                OverlayView { topics: old(self)@[*id].topics.insert(*topic), ..old(self)@[*id] },
            ),
    {
        match self.find(id) {
            None => Err(StorageError::NotFound),
            Some(i) => {
                let mut o = self.overlays[i].clone_record();
                if !contains_key(&o.topics, topic) {
                    proof {
                        lemma_push_to_set(o.topics@, *topic);
                    }
                    o.topics.push(*topic);
                } else {
                    assert(o.topics@.to_set().insert(*topic) =~= o.topics@.to_set());
                }
                self.replace_at(i, o);
                Ok(())
            },
        }
    }

    /// Removes a topic, if present. Fails with `NotFound` if the overlay does
    /// not exist.
    pub fn remove_topic(&mut self, id: &OverlayId, topic: &TopicId) -> (r: Result<(), StorageError>)
        requires
            old(self).wf(),
        ensures
            final(self).wf(),
            !old(self)@.contains_key(*id) ==> r == Err::<(), StorageError>(StorageError::NotFound)
                && final(self)@ == old(self)@,
            old(self)@.contains_key(*id) ==> r is Ok && final(self)@ == old(self)@.insert(
                *id,
                OverlayView { topics: old(self)@[*id].topics.remove(*topic), ..old(self)@[*id] },
            ),
    {
        match self.find(id) {
            None => Err(StorageError::NotFound),
            Some(i) => {
                let mut o = self.overlays[i].clone_record();
                o.topics = without(&o.topics, topic);
                self.replace_at(i, o);
                Ok(())
            },
        }
    }

    /// `Ok` if the topic is held; `NotFound` if it is not or the overlay does
    /// not exist.
    pub fn has_topic(&self, id: &OverlayId, topic: &TopicId) -> (r: Result<(), StorageError>)
        requires
            self.wf(),
        ensures
            r is Ok <==> (self@.contains_key(*id) && self@[*id].topics.contains(*topic)),
            r is Err ==> r == Err::<(), StorageError>(StorageError::NotFound),
    {
        match self.find(id) {
            None => Err(StorageError::NotFound),
            Some(i) => if contains_key(&self.overlays[i].topics, topic) {
                Ok(())
            } else {
                Err(StorageError::NotFound)
            },
        }
    }

    /// The overlay's secret; `NotFound` if it does not exist.
    pub fn secret(&self, id: &OverlayId) -> (r: Result<SymKey, StorageError>)
        requires
            self.wf(),
        ensures
            match r {
                Ok(s) => self@.contains_key(*id) && s == self@[*id].secret,
                Err(e) => !self@.contains_key(*id) && e == StorageError::NotFound,
            },
    {
        match self.find(id) {
            None => Err(StorageError::NotFound),
            Some(i) => Ok(self.overlays[i].secret),
        }
    }

    /// The overlay's metadata; `NotFound` if it does not exist.
    pub fn metadata(&self, id: &OverlayId) -> (r: Result<OverlayMeta, StorageError>)
        requires
            self.wf(),
        ensures
            match r {
                Ok(m) => self@.contains_key(*id) && m == self@[*id].meta,
                Err(e) => !self@.contains_key(*id) && e == StorageError::NotFound,
            },
    {
        match self.find(id) {
            None => Err(StorageError::NotFound),
            Some(i) => Ok(self.overlays[i].meta),
        }
    }

    /// Replaces the overlay's metadata. Fails with `NotFound` if the overlay
    /// does not exist.
    pub fn set_metadata(&mut self, id: &OverlayId, meta: &OverlayMeta) -> (r: Result<(), StorageError>)
        requires
            old(self).wf(),
        ensures
            final(self).wf(),
            !old(self)@.contains_key(*id) ==> r == Err::<(), StorageError>(StorageError::NotFound)
                && final(self)@ == old(self)@,
            old(self)@.contains_key(*id) ==> r is Ok && final(self)@ == old(self)@.insert(
                *id,
                OverlayView { meta: *meta, ..old(self)@[*id] },
            ),
    {
        match self.find(id) {
            None => Err(StorageError::NotFound),
            Some(i) => {
                let mut o = self.overlays[i].clone_record();
                o.meta = *meta;
                self.replace_at(i, o);
                Ok(())
            },
        }
    }

    /// The repository key of the overlay; `NotFound` if the overlay does not
    /// exist or has none.
    pub fn repo(&self, id: &OverlayId) -> (r: Result<PubKey, StorageError>)
        requires
            self.wf(),
        ensures
            match r {
                Ok(k) => self@.contains_key(*id) && self@[*id].repo == Some(k),
                Err(e) => (!self@.contains_key(*id) || self@[*id].repo is None) && e
                    == StorageError::NotFound,
            },
    {
        match self.find(id) {
            None => Err(StorageError::NotFound),
            Some(i) => match self.overlays[i].repo {
                Some(k) => Ok(k),
                None => Err(StorageError::NotFound),
            },
        }
    }

    /// Removes the overlay and all its properties.
    pub fn del(&mut self, id: &OverlayId) -> (r: Result<(), StorageError>)
        requires
            old(self).wf(),
        ensures
            final(self).wf(),
            r is Ok,
            final(self)@ == old(self)@.remove(*id),
    {
        match self.find(id) {
            None => {
                assert(self.contents@.remove(*id) =~= self.contents@);
            },
            Some(i) => {
                let ghost old_ov = self.overlays@;
                let ghost old_contents = self.contents@;
                self.overlays.remove(i);
                self.contents = Ghost(self.contents@.remove(*id));
                proof {
                    assert forall|a: int, b: int|
                        0 <= a < b < self.overlays@.len() implies self.overlays@[a].id
                        != self.overlays@[b].id by {
                        let a0 = if a < i { a } else { a + 1 };
                        let b0 = if b < i { b } else { b + 1 };
                        assert(self.overlays@[a] == old_ov[a0]);
                        assert(self.overlays@[b] == old_ov[b0]);
                    }
                    assert forall|a: int| 0 <= a < self.overlays@.len() implies #[trigger]
                        self.contents@.contains_key(self.overlays@[a].id)
                            && self.contents@[self.overlays@[a].id] == self.overlays@[a]@ by {
                        let a0 = if a < i { a } else { a + 1 };
                        assert(self.overlays@[a] == old_ov[a0]);
                        assert(old_contents.contains_key(old_ov[a0].id));
                        assert(old_ov[a0].id != old_ov[i as int].id);
                    }
                    assert forall|k: OverlayId| #[trigger]
                        self.contents@.contains_key(k) implies exists|a: int|
                        0 <= a < self.overlays@.len() && self.overlays@[a].id == k by {
                        let a0 = choose|a0: int| 0 <= a0 < old_ov.len() && old_ov[a0].id == k;
                        assert(a0 != i);
                        let a = if a0 < i { a0 } else { a0 - 1 };
                        assert(self.overlays@[a] == old_ov[a0]);
                    }
                }
            },
        }
        Ok(())
    }
}

impl Overlay {
    /// A copy of the record.
    fn clone_record(&self) -> (r: Overlay)
        ensures
            r@ == self@,
            r.id == self.id,
            r.peers@ == self.peers@,
            r.topics@ == self.topics@,
    {
        Overlay {
            id: self.id,
            secret: self.secret,
            peers: crate::block::copy_keys(&self.peers),
            topics: crate::block::copy_keys(&self.topics),
            meta: self.meta,
            repo: self.repo,
        }
    }
}

} // verus!
