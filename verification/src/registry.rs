//! Block registry: gives each namespaced block identifier a dense index.
//! It is the leaf the chunk storage leans on for identifier semantics:
//! identifier equality is exact pair equality, and every registered
//! identifier has exactly one slot.

use vstd::prelude::*;
use crate::storage::{BlockData, BlockIdent};

verus! {

/// The registered block identifiers, in registration order, each exactly
/// once.
pub struct BlockRegistry {
    blocks: Vec<BlockData>,
}

impl View for BlockRegistry {
    type V = Seq<BlockIdent>;

    closed spec fn view(&self) -> Seq<BlockIdent> {
        self.blocks@.map_values(|b: BlockData| b@)
    }
}

impl BlockRegistry {
    /// No identifier occupies two slots.
    pub open spec fn wf(self) -> bool {
        forall|i: int, j: int| 0 <= i < j < self@.len() ==> self@[i] != self@[j]
    }

    /// An empty registry.
    pub fn new() -> (r: BlockRegistry)
        ensures
            r.wf(),
            r@ == Seq::<BlockIdent>::empty(),
    {
        let r = BlockRegistry { blocks: Vec::new() };
        proof {
            assert(r@ =~= Seq::<BlockIdent>::empty());
        }
        r
    }

    /// The slot of `block`'s identifier, if it is registered.
    pub fn lookup(&self, block: &BlockData) -> (r: Option<usize>)
        ensures
            match r {
                Some(i) => i < self@.len() && self@[i as int] == block@,
                None => forall|j: int| 0 <= j < self@.len() ==> self@[j] != block@,
            },
    {
        let mut i: usize = 0;
        while i < self.blocks.len()
            invariant
                i <= self@.len(),
                self@.len() == self.blocks@.len(),
                forall|j: int| 0 <= j < i ==> self@[j] != block@,
            decreases self.blocks@.len() - i,
        {
            if self.blocks[i].same_ident(block) {
                return Some(i);
            }
            i = i + 1;
        }
        None
    }

    /// Registers `block`'s identifier and returns its slot: the one it
    /// already holds, or a fresh slot at the end.
    pub fn register(&mut self, block: BlockData) -> (idx: usize)
        requires
            old(self).wf(),
        ensures
            final(self).wf(),
            idx < final(self)@.len(),
            final(self)@[idx as int] == block@,
            if exists|j: int| 0 <= j < old(self)@.len() && old(self)@[j] == block@ {
                final(self)@ == old(self)@
            } else {
                final(self)@ == old(self)@.push(block@) && idx == old(self)@.len()
            },
    {
        match self.lookup(&block) {
            Some(i) => i,
            None => {
                let idx = self.blocks.len();
                self.blocks.push(block);
                proof {
                    assert(self@ =~= old(self)@.push(self.blocks@.last()@));
                }
                idx
            },
        }
    }

    /// The identifier registered in slot `idx`.
    pub fn get(&self, idx: usize) -> (b: &BlockData)
        requires
            idx < self@.len(),
        ensures
            b@ == self@[idx as int],
    {
        proof {
            assert(self@.len() == self.blocks@.len());
        }
        &self.blocks[idx]
    }

    /// Number of registered identifiers.
    pub fn len(&self) -> (n: usize)
        ensures
            n == self@.len(),
    {
        self.blocks.len()
    }
}

} // verus!
