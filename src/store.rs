//! Content-addressed block store: blocks kept under the id computed from
//! their canonical encoding.
use vstd::prelude::*;
use crate::block::{block_encoding, block_id_of, Block, BlockView};
use crate::errors::ProtocolError;
use crate::keys::{digest_bytes, BlockId};

verus! {

/// In-memory block store. Each block is kept under its id; a store-wide
/// limit caps the size of any single encoded block.
pub struct BlockStore {
    entries: Vec<(BlockId, Block)>,
    max_value_size: usize,
    contents: Ghost<Map<BlockId, BlockView>>,
}

/// Whether `id` is the id of the block `b`.
pub open spec fn is_id_of(id: BlockId, b: BlockView) -> bool {
    digest_bytes(id) == block_id_of(b)
}

impl BlockStore {
    /// The blocks held, by id.
    pub closed spec fn view(&self) -> Map<BlockId, BlockView> {
        self.contents@
    }

    /// Number of entries held.
    pub closed spec fn count(&self) -> nat {
        self.entries@.len()
    }

    /// The size limit for one encoded block.
    pub closed spec fn max_size(&self) -> nat {
        self.max_value_size as nat
    }

    /// The store's invariant: each id is held once, the ghost map mirrors the
    /// entries, and each block is held under its own id.
    pub closed spec fn wf(&self) -> bool {
        &&& forall|i: int, j: int|
            0 <= i < j < self.entries@.len() ==> self.entries@[i].0 != self.entries@[j].0
        &&& forall|i: int|
            0 <= i < self.entries@.len() ==> #[trigger] self.contents@.contains_key(
                self.entries@[i].0,
            ) && self.contents@[self.entries@[i].0] == self.entries@[i].1@
        &&& forall|id: BlockId|
            #[trigger] self.contents@.contains_key(id) ==> exists|i: int|
                0 <= i < self.entries@.len() && self.entries@[i].0 == id
        &&& forall|id: BlockId|
            #[trigger] self.contents@.contains_key(id) ==> is_id_of(id, self.contents@[id])
    }

    /// Every block held is held under its own id: BLAKE3 of its canonical
    /// encoding.
    pub proof fn lemma_stored_under_own_id(&self)
        requires
            self.wf(),
        ensures
            forall|id: BlockId| #[trigger] self@.contains_key(id) ==> is_id_of(id, self@[id]),
    {
    }

    /// An empty store whose blocks may encode to at most `max_value_size` bytes.
    pub fn new(max_value_size: usize) -> (r: BlockStore)
        ensures
            r.wf(),
            r@ == Map::<BlockId, BlockView>::empty(),
            r.max_size() == max_value_size,
    {
        BlockStore { entries: Vec::new(), max_value_size, contents: Ghost(Map::empty()) }
    }

    /// The size limit for one encoded block.
    pub fn max_value_size(&self) -> (r: usize)
        ensures
            r == self.max_size(),
    {
        self.max_value_size
    }

    /// Number of blocks held.
    pub fn len(&self) -> (r: usize)
        requires
            self.wf(),
        ensures
            r == self@.len(),
    {
        proof {
            self.lemma_len();
        }
        self.entries.len()
    }

    /// The store holds finitely many blocks, one per entry.
    pub proof fn lemma_len(&self)
        requires
            self.wf(),
        ensures
            self@.len() == self.count(),
            self@.dom().finite(),
    {
        let keys = self.entries@.map_values(|e: (BlockId, Block)| e.0);
        assert(keys.no_duplicates()) by {
            assert forall|i: int, j: int|
                0 <= i < keys.len() && 0 <= j < keys.len() && i != j implies keys[i]
                != keys[j] by {
                if i < j {
                } else {
                }
            }
        }
        assert(self@.dom() =~= keys.to_set()) by {
            assert forall|id: BlockId| self@.dom().contains(id) implies keys.to_set().contains(
                id,
            ) by {
                let i = choose|i: int| 0 <= i < self.entries@.len() && self.entries@[i].0 == id;
                assert(keys[i] == id);
            }
            assert forall|id: BlockId| keys.to_set().contains(id) implies self@.dom().contains(
                id,
            ) by {
                let i = choose|i: int| 0 <= i < keys.len() && keys[i] == id;
                assert(self.contents@.contains_key(self.entries@[i].0));
            }
        }
        keys.unique_seq_to_set();
    }

    fn find(&self, id: &BlockId) -> (r: Option<usize>)
        requires
            self.wf(),
        ensures
            match r {
                Some(i) => i < self.entries@.len() && self.entries@[i as int].0 == *id,
                None => !self@.contains_key(*id),
            },
    {
        let mut i: usize = 0;
        while i < self.entries.len()
            invariant
                self.wf(),
                0 <= i <= self.entries@.len(),
                forall|j: int| 0 <= j < i ==> self.entries@[j].0 != *id,
            decreases self.entries@.len() - i,
        {
            if self.entries[i].0.same(id) {
                return Some(i);
            }
            i = i + 1;
        }
        None
    }

    /// Stores a block under its id and returns the id. Storing a block that is
    /// already present changes nothing. A block whose encoding exceeds the
    /// size limit is refused with `InvalidBlock`.
    pub fn put(&mut self, block: Block) -> (r: Result<BlockId, ProtocolError>)
        requires
            old(self).wf(),
        ensures
            final(self).wf(),
            final(self).max_size() == old(self).max_size(),
            block_encoding(block@).len() > old(self).max_size() ==> r == Err::<
                BlockId,
                ProtocolError,
            >(ProtocolError::InvalidBlock) && final(self)@ == old(self)@,
            block_encoding(block@).len() <= old(self).max_size() ==> match r {
                Ok(id) => {
                    &&& is_id_of(id, block@)
                    &&& final(self)@.contains_key(id)
                    &&& (old(self)@.contains_key(id) ==> final(self)@ == old(self)@)
                    &&& (!old(self)@.contains_key(id) ==> final(self)@ == old(self)@.insert(
                        id,
                        block@,
                    ))
                },
                Err(_) => false,
            },
    {
        let enc = block.encode();
        if enc.len() > self.max_value_size {
            return Err(ProtocolError::InvalidBlock);
        }
        let id = block.id();
        match self.find(&id) {
            Some(i) => Ok(id),
            None => {
                let ghost old_entries = self.entries@;
                self.entries.push((id, block));
                self.contents = Ghost(self.contents@.insert(id, block@));
                proof {
                    assert forall|k: BlockId| #[trigger]
                        self.contents@.contains_key(k) implies exists|i: int|
                        0 <= i < self.entries@.len() && self.entries@[i].0 == k by {
                        if k == id {
                            assert(self.entries@[old_entries.len() as int].0 == k);
                        } else {
                            let i = choose|i: int|
                                0 <= i < old_entries.len() && old_entries[i].0 == k;
                            assert(self.entries@[i].0 == k);
                        }
                    }
                }
                Ok(id)
            },
        }
    }

    /// The block stored under `id`, if any.
    pub fn get_ref(&self, id: &BlockId) -> (r: Option<&Block>)
        requires
            self.wf(),
        ensures
            match r {
                Some(b) => self@.contains_key(*id) && self@[*id] == b@,
                None => !self@.contains_key(*id),
            },
    {
        match self.find(id) {
            Some(i) => {
                proof {
                    assert(self.contents@.contains_key(self.entries@[i as int].0));
                }
                Some(&self.entries[i].1)
            },
            None => None,
        }
    }

    /// A copy of the block stored under `id`; `NotFound` if there is none.
    pub fn get(&self, id: &BlockId) -> (r: Result<Block, ProtocolError>)
        requires
            self.wf(),
        ensures
            match r {
                Ok(b) => self@.contains_key(*id) && self@[*id] == b@,
                Err(e) => !self@.contains_key(*id) && e == ProtocolError::NotFound,
            },
    {
        match self.get_ref(id) {
            Some(b) => Ok(b.duplicate()),
            None => Err(ProtocolError::NotFound),
        }
    }

    /// The ids of all blocks held.
    pub fn ids(&self) -> (r: Vec<BlockId>)
        requires
            self.wf(),
        ensures
            forall|k: BlockId| #[trigger] r@.contains(k) <==> self@.contains_key(k),
    {
        let mut r: Vec<BlockId> = Vec::new();
        let mut i: usize = 0;
        while i < self.entries.len()
            invariant
                self.wf(),
                0 <= i <= self.entries@.len(),
                r@.len() == i,
                forall|j: int| 0 <= j < i ==> #[trigger] r@[j] == self.entries@[j].0,
            decreases self.entries@.len() - i,
        {
            r.push(self.entries[i].0);
            i = i + 1;
        }
        proof {
            assert forall|k: BlockId| #[trigger] r@.contains(k) <==> self@.contains_key(k) by {
                if r@.contains(k) {
                    let j = choose|j: int| 0 <= j < r@.len() && r@[j] == k;
                    assert(self.contents@.contains_key(self.entries@[j].0));
                }
                if self@.contains_key(k) {
                    let j = choose|j: int| 0 <= j < self.entries@.len() && self.entries@[j].0 == k;
                    assert(r@[j] == k);
                }
            }
        }
        r
    }

    /// Whether a block is stored under `id`.
    pub fn has(&self, id: &BlockId) -> (r: bool)
        requires
            self.wf(),
        ensures
            r == self@.contains_key(*id),
    {
        self.find(id).is_some()
    }

    /// Removes the block stored under `id`, if any.
    pub fn del(&mut self, id: &BlockId)
        requires
            old(self).wf(),
        ensures
            final(self).wf(),
            final(self).max_size() == old(self).max_size(),
            final(self)@ == old(self)@.remove(*id),
    {
        match self.find(id) {
            None => {
                assert(self.contents@.remove(*id) =~= self.contents@);
            },
            Some(i) => {
                let ghost old_entries = self.entries@;
                let ghost old_contents = self.contents@;
                self.entries.remove(i);
                self.contents = Ghost(self.contents@.remove(*id));
                proof {
                    assert forall|a: int, b: int|
                        0 <= a < b < self.entries@.len() implies self.entries@[a].0
                        != self.entries@[b].0 by {
                        let a0 = if a < i { a } else { a + 1 };
                        let b0 = if b < i { b } else { b + 1 };
                        assert(self.entries@[a] == old_entries[a0]);
                        assert(self.entries@[b] == old_entries[b0]);
                    }
                    assert forall|a: int| 0 <= a < self.entries@.len() implies #[trigger]
                        self.contents@.contains_key(self.entries@[a].0)
                            && self.contents@[self.entries@[a].0] == self.entries@[a].1@ by {
                        let a0 = if a < i { a } else { a + 1 };
                        assert(self.entries@[a] == old_entries[a0]);
                        assert(old_contents.contains_key(old_entries[a0].0));
                        assert(old_entries[a0].0 != old_entries[i as int].0);
                    }
                    assert forall|k: BlockId| #[trigger]
                        self.contents@.contains_key(k) implies exists|a: int|
                        0 <= a < self.entries@.len() && self.entries@[a].0 == k by {
                        let a0 = choose|a0: int|
                            0 <= a0 < old_entries.len() && old_entries[a0].0 == k;
                        assert(a0 != i);
                        let a = if a0 < i { a0 } else { a0 - 1 };
                        assert(self.entries@[a] == old_entries[a0]);
                    }
                }
            },
        }
    }
}

/// A block stored in a store that did not hold its id is read back as it
/// was sent; one stored where its id was already held leaves the store as it
/// was, holding a block with that same id.
pub proof fn lemma_put_then_get(s: Map<BlockId, BlockView>, id: BlockId, b: BlockView, after: Map<BlockId, BlockView>)
    requires
        forall|k: BlockId| #[trigger] s.contains_key(k) ==> is_id_of(k, s[k]),
        is_id_of(id, b),
        !s.contains_key(id) ==> after == s.insert(id, b),
        s.contains_key(id) ==> after == s,
    ensures
        after.contains_key(id),
        !s.contains_key(id) ==> after[id] == b,
        is_id_of(id, after[id]),
        block_id_of(after[id]) == block_id_of(b),
{
}

} // verus!
