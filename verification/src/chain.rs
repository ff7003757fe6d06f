//! The ledger: an append-only sequence of blocks rooted at a genesis block,
//! with whole-chain validation by recomputation.

use vstd::prelude::*;
use crate::block::{
    digest_with_nonce, meets_target, no_nonce_from, spec_block_hash, Block,
};

verus! {

/// The link and digest checks at position `i` (of a block past the genesis
/// one): its `previous_hash` is the predecessor's stored `hash`, and its
/// stored `hash` is the digest of its own canonical fields.
pub open spec fn linked_at(chain: Seq<Block>, i: int) -> bool {
    &&& chain[i].previous_hash@ == chain[i - 1].hash@
    &&& chain[i].hash@ == spec_block_hash(chain[i])
}

/// Every block past the genesis one passes the link and digest checks.  The
/// genesis block itself is never checked.
pub open spec fn chain_valid(chain: Seq<Block>) -> bool {
    forall|i: int| 1 <= i < chain.len() ==> #[trigger] linked_at(chain, i)
}

/// Each block's `index` field is its position in the sequence.
pub open spec fn indexes_sequential(chain: Seq<Block>) -> bool {
    forall|i: int| 0 <= i < chain.len() ==> #[trigger] chain[i].index == i
}

/// The ledger: the stored chain and the fixed difficulty every appended
/// block is mined at.
#[derive(Debug, Clone)]
pub struct Blockchain {
    pub chain: Vec<Block>,
    pub difficulty: usize,
}

impl Blockchain {
    /// The shape every ledger built through [`Blockchain::new`] and
    /// [`Blockchain::add_block`] keeps: a genesis block is present at
    /// position zero with the sentinel previous hash, positions and `index`
    /// fields agree, and the difficulty fits the digest's 64 hexadecimal
    /// characters.
    pub open spec fn well_formed(self) -> bool {
        &&& 1 <= self.chain@.len()
        &&& indexes_sequential(self.chain@)
        &&& self.chain@[0].previous_hash@ == "0"@
        &&& self.difficulty <= 64
    }

    /// Builds a ledger with the given difficulty, holding exactly the
    /// synthesized genesis block: position zero, the sentinel previous hash
    /// `"0"`, nonce zero, and a hash that is the digest of its fields but was
    /// never mined against the difficulty target.
    pub fn new(difficulty: usize) -> (r: Blockchain)
        requires
            difficulty <= 64,
        ensures
            r.well_formed(),
            r.difficulty == difficulty,
            r.chain@.len() == 1,
            r.chain@[0].index == 0,
            r.chain@[0].data@ == "Genesis Block"@,
            r.chain@[0].previous_hash@ == "0"@,
            r.chain@[0].nonce == 0,
            r.chain@[0].hash@ == spec_block_hash(r.chain@[0]),
            chain_valid(r.chain@),
    {
        let mut blockchain = Blockchain { chain: Vec::new(), difficulty };
        blockchain.create_genesis_block();
        blockchain
    }

    /// Synthesizes the genesis block into an empty chain.  Genesis bypasses
    /// mining: its hash is the digest of its fields, with no target to meet.
    fn create_genesis_block(&mut self)
        requires
            old(self).chain@.len() == 0,
        ensures
            final(self).difficulty == old(self).difficulty,
            final(self).chain@.len() == 1,
            final(self).chain@[0].index == 0,
            final(self).chain@[0].data@ == "Genesis Block"@,
            final(self).chain@[0].previous_hash@ == "0"@,
            final(self).chain@[0].nonce == 0,
            final(self).chain@[0].hash@ == spec_block_hash(final(self).chain@[0]),
    {
        let genesis_block = Block::new(0, "Genesis Block".to_owned(), "0".to_owned());
        self.chain.push(genesis_block);
    }

    /// A reference to the chain's tip.  The chain is never empty after
    /// construction, so an empty one is a caller's invariant violation, ruled
    /// out here rather than handled.
    pub fn get_latest_block(&self) -> (r: &Block)
        requires
            self.chain@.len() >= 1,
        ensures
            *r == self.chain@.last(),
    {
        let n = self.chain.len();
        &self.chain[n - 1]
    }

    /// Appends a block carrying `data`: its index is one past the tip's, its
    /// `previous_hash` is the tip's stored hash, and it is mined at the
    /// ledger's difficulty before being appended.  The stored chain grows by
    /// that one block and a valid chain stays valid; the new block meets the
    /// difficulty target unless no nonce at all does for its fields.
    pub fn add_block(&mut self, data: String)
        requires
            old(self).well_formed(),
        ensures
            final(self).well_formed(),
            final(self).difficulty == old(self).difficulty,
            final(self).chain@.len() == old(self).chain@.len() + 1,
            final(self).chain@.subrange(0, old(self).chain@.len() as int) == old(self).chain@,
            final(self).chain@.last().data == data,
            final(self).chain@.last().index == old(self).chain@.last().index + 1,
            final(self).chain@.last().previous_hash@ == old(self).chain@.last().hash@,
            final(self).chain@.last().hash@ == spec_block_hash(final(self).chain@.last()),
            meets_target(final(self).chain@.last().hash@, old(self).difficulty as nat)
                || no_nonce_from(final(self).chain@.last(), 0, old(self).difficulty as nat),
            chain_valid(old(self).chain@) ==> chain_valid(final(self).chain@),
    {
        let n = self.chain.len();
        let previous_block = self.get_latest_block();
        let previous_index = previous_block.index;
        let previous_hash = previous_block.hash.clone();
        proof {
            assert(self.chain@[n - 1].index == n - 1);
            assert(previous_index < u64::MAX);
        }
        let mut new_block = Block::new(previous_index + 1, data, previous_hash);
        let ghost candidate = new_block;
        new_block.mine_block(self.difficulty);
        let ghost old_chain = self.chain@;
        self.chain.push(new_block);
        proof {
            assert(self.chain@.subrange(0, old_chain.len() as int) =~= old_chain);
            if chain_valid(old_chain) {
                lemma_append_keeps_chain_valid(old_chain, self.chain@.last());
            }
            let tip = self.chain@.last();
            let d = self.difficulty as nat;
            if !meets_target(tip.hash@, d) {
                assert forall|k: u64| 0 <= k implies !#[trigger] meets_target(
                    digest_with_nonce(tip, k),
                    d,
                ) by {
                    assert(digest_with_nonce(tip, k) == digest_with_nonce(candidate, k));
                    assert(!meets_target(digest_with_nonce(candidate, k), d));
                }
            }
        }
    }

    /// Walks the chain from the second block to the end, recomputing each
    /// block's digest against its stored `hash` and comparing its
    /// `previous_hash` to the predecessor's stored `hash`.  Returns true
    /// exactly when every such check passes; the genesis block is never
    /// checked, and difficulty targets are not re-verified.
    pub fn is_chain_valid(&self) -> (r: bool)
        ensures
            r == chain_valid(self.chain@),
    {
        let n = self.chain.len();
        let mut i: usize = 1;
        if n < 2 {
            return true;
        }
        while i < n
            invariant
                1 <= i <= n,
                n == self.chain@.len(),
                forall|j: int| 1 <= j < i ==> #[trigger] linked_at(self.chain@, j),
            decreases n - i,
        {
            let current_block = &self.chain[i];
            let previous_block = &self.chain[i - 1];
            let recomputed = current_block.calculate_hash();
            if !(current_block.hash == recomputed) {
                proof {
                    assert(!linked_at(self.chain@, i as int));
                }
                return false;
            }
            if !(current_block.previous_hash == previous_block.hash) {
                proof {
                    assert(!linked_at(self.chain@, i as int));
                }
                return false;
            }
            i = i + 1;
        }
        true
    }

    /// An independent copy of the full chain, for inspection: the stored
    /// blocks themselves stay out of reach.
    pub fn get_chain(&self) -> (r: Vec<Block>)
        ensures
            r@ == self.chain@,
    {
        let n = self.chain.len();
        let mut snapshot: Vec<Block> = Vec::new();
        proof {
            assert(snapshot@ =~= self.chain@.subrange(0, 0));
        }
        let mut i: usize = 0;
        while i < n
            invariant
                0 <= i <= n,
                n == self.chain@.len(),
                snapshot@ == self.chain@.subrange(0, i as int),
            decreases n - i,
        {
            snapshot.push(self.chain[i].duplicate());
            proof {
                assert(snapshot@ =~= self.chain@.subrange(0, i + 1));
            }
            i = i + 1;
        }
        proof {
            assert(snapshot@ =~= self.chain@);
        }
        snapshot
    }
}

/// Appending a block whose `previous_hash` is the tip's stored hash and whose
/// stored hash is the digest of its own fields keeps a valid chain valid:
/// every ledger built purely through construction and appends passes
/// validation.
pub proof fn lemma_append_keeps_chain_valid(chain: Seq<Block>, b: Block)
    requires
        chain_valid(chain),
        chain.len() >= 1,
        b.previous_hash@ == chain.last().hash@,
        b.hash@ == spec_block_hash(b),
    ensures
        chain_valid(chain.push(b)),
{
    let extended = chain.push(b);
    assert forall|i: int| 1 <= i < extended.len() implies #[trigger] linked_at(extended, i) by {
        if i < chain.len() {
            assert(linked_at(chain, i));
        } else {
            assert(extended[i] == b);
            assert(extended[i - 1] == chain.last());
        }
    }
}

/// A stored block past the genesis one whose hash field is no longer the
/// digest of its own canonical fields makes the whole chain invalid:
/// recomputation detects the mismatch.  Changing a field without recomputing
/// the hash leaves such a mismatch behind whenever the old and new preimages
/// do not collide in the digest.
pub proof fn lemma_hash_mismatch_invalidates(chain: Seq<Block>, j: int)
    requires
        1 <= j < chain.len(),
        chain[j].hash@ != spec_block_hash(chain[j]),
    ensures
        !chain_valid(chain),
{
    assert(!linked_at(chain, j));
}

/// A stored block whose hash no longer equals the `previous_hash` of the
/// block that follows it makes the whole chain invalid: the broken link is
/// detected.
pub proof fn lemma_broken_link_invalidates(chain: Seq<Block>, j: int)
    requires
        1 <= j < chain.len(),
        chain[j].previous_hash@ != chain[j - 1].hash@,
    ensures
        !chain_valid(chain),
{
    assert(!linked_at(chain, j));
}

} // verus!
