//! A single ledger entry: its canonical digest and the proof-of-work search
//! that makes the digest meet a difficulty target.

use vstd::prelude::*;
use vstd::string::StrSliceExecFns;
use vstd::string::StringExecFns;
use crate::clock::current_timestamp;
use crate::decimal::{dec_i64, dec_u64, i64_to_string, u64_to_string};
use crate::hashing::{is_hex_char, sha256_hex, sha256_hex_of};

verus! {

/// The digest preimage: the decimal renderings of the numeric fields and the
/// two text fields, concatenated in this fixed order.
pub open spec fn hash_preimage(
    index: u64,
    timestamp: i64,
    data: Seq<char>,
    previous_hash: Seq<char>,
    nonce: u64,
) -> Seq<char> {
    dec_u64(index) + dec_i64(timestamp) + data + previous_hash + dec_u64(nonce)
}

/// The canonical digest of a block: SHA-256 of its preimage, in lowercase
/// hexadecimal.  The stored `hash` field is not part of the preimage.
pub open spec fn spec_block_hash(b: Block) -> Seq<char> {
    sha256_hex(hash_preimage(b.index, b.timestamp, b.data@, b.previous_hash@, b.nonce))
}

/// Whether the first `difficulty` characters of `hash` are all `'0'`.
pub open spec fn meets_target(hash: Seq<char>, difficulty: nat) -> bool {
    &&& difficulty <= hash.len()
    &&& forall|i: int| 0 <= i < difficulty ==> hash[i] == '0'
}

/// The digest the block would have if its nonce were `k`: the stored `nonce`
/// and `hash` fields play no part.
pub open spec fn digest_with_nonce(b: Block, k: u64) -> Seq<char> {
    sha256_hex(hash_preimage(b.index, b.timestamp, b.data@, b.previous_hash@, k))
}

/// No nonce from `start` up meets the difficulty target for this block's
/// canonical fields: the proof-of-work search space is exhausted.
pub open spec fn no_nonce_from(b: Block, start: u64, difficulty: nat) -> bool {
    forall|k: u64| start <= k ==> !#[trigger] meets_target(digest_with_nonce(b, k), difficulty)
}

/// One ledger entry.  After mining, `hash` is the digest of the other five
/// fields and meets the ledger's difficulty target.
#[derive(Debug, Clone)]
pub struct Block {
    pub index: u64,
    pub timestamp: i64,
    pub data: String,
    pub previous_hash: String,
    pub hash: String,
    pub nonce: u64,
}

impl Block {
    /// Builds a block at the given position, stamped with the current time,
    /// with `nonce` zero and `hash` already the digest of its fields.
    pub fn new(index: u64, data: String, previous_hash: String) -> (r: Block)
        ensures
            r.index == index,
            r.data == data,
            r.previous_hash == previous_hash,
            r.nonce == 0,
            r.hash@ == spec_block_hash(r),
            r.hash@.len() == 64,
            forall|i: int| 0 <= i < r.hash@.len() ==> is_hex_char(#[trigger] r.hash@[i]),
    {
        let timestamp = current_timestamp();
        let mut block = Block {
            index,
            timestamp,
            data,
            previous_hash,
            hash: String::new(),
            nonce: 0,
        };
        block.hash = block.calculate_hash();
        block
    }

    /// The digest of the block's canonical fields.  A pure function of
    /// `(index, timestamp, data, previous_hash, nonce)`: recomputing it on an
    /// unchanged block returns the stored result again.
    pub fn calculate_hash(&self) -> (r: String)
        ensures
            r@ == spec_block_hash(*self),
            r@.len() == 64,
            forall|i: int| 0 <= i < r@.len() ==> is_hex_char(#[trigger] r@[i]),
    {
        let mut preimage = u64_to_string(self.index);
        preimage.append(i64_to_string(self.timestamp).as_str());
        preimage.append(self.data.as_str());
        preimage.append(self.previous_hash.as_str());
        preimage.append(u64_to_string(self.nonce).as_str());
        sha256_hex_of(preimage.as_str())
    }

    /// A field-for-field copy of the block, sharing no storage with it.
    pub fn duplicate(&self) -> (r: Block)
        ensures
            r == *self,
    {
        Block {
            index: self.index,
            timestamp: self.timestamp,
            data: self.data.clone(),
            previous_hash: self.previous_hash.clone(),
            hash: self.hash.clone(),
            nonce: self.nonce,
        }
    }

    /// Searches upward from the current nonce for one whose digest has
    /// `difficulty` leading `'0'` characters, recomputing `hash` at each step.
    /// The other fields are untouched, and a hash that was the digest of the
    /// block's fields on entry still is on exit.  On such a block the search
    /// stops at the least satisfying nonce — every skipped one misses the
    /// target, and one that already meets it leaves the block exactly as it
    /// was — or returns only once the whole remaining nonce space has been
    /// tried and no nonce in it meets the target.
    pub fn mine_block(&mut self, difficulty: usize)
        ensures
            final(self).index == old(self).index,
            final(self).timestamp == old(self).timestamp,
            final(self).data == old(self).data,
            final(self).previous_hash == old(self).previous_hash,
            old(self).nonce <= final(self).nonce,
            final(self).nonce == old(self).nonce ==> final(self).hash == old(self).hash,
            old(self).hash@ == spec_block_hash(*old(self)) ==> final(self).hash@
                == spec_block_hash(*final(self)),
            old(self).hash@ == spec_block_hash(*old(self)) ==> forall|k: u64|
                old(self).nonce <= k < final(self).nonce ==> !#[trigger] meets_target(
                    digest_with_nonce(*old(self), k),
                    difficulty as nat,
                ),
            (old(self).hash@ == spec_block_hash(*old(self)) && meets_target(
                old(self).hash@,
                difficulty as nat,
            )) ==> (final(self).nonce == old(self).nonce && final(self).hash == old(self).hash),
            meets_target(final(self).hash@, difficulty as nat) || (final(self).nonce == u64::MAX
                && (old(self).hash@ == spec_block_hash(*old(self)) ==> no_nonce_from(
                *old(self),
                old(self).nonce,
                difficulty as nat,
            ))),
    {
        loop
            invariant_except_break
                self.index == old(self).index,
                self.timestamp == old(self).timestamp,
                self.data == old(self).data,
                self.previous_hash == old(self).previous_hash,
                old(self).nonce <= self.nonce,
                self.nonce == old(self).nonce ==> self.hash == old(self).hash,
                old(self).hash@ == spec_block_hash(*old(self)) ==> self.hash@ == spec_block_hash(
                    *self,
                ),
                old(self).hash@ == spec_block_hash(*old(self)) ==> forall|k: u64|
                    old(self).nonce <= k < self.nonce ==> !#[trigger] meets_target(
                        digest_with_nonce(*old(self), k),
                        difficulty as nat,
                    ),
            ensures
                self.index == old(self).index,
                self.timestamp == old(self).timestamp,
                self.data == old(self).data,
                self.previous_hash == old(self).previous_hash,
                old(self).nonce <= self.nonce,
                self.nonce == old(self).nonce ==> self.hash == old(self).hash,
                old(self).hash@ == spec_block_hash(*old(self)) ==> self.hash@ == spec_block_hash(
                    *self,
                ),
                old(self).hash@ == spec_block_hash(*old(self)) ==> forall|k: u64|
                    old(self).nonce <= k < self.nonce ==> !#[trigger] meets_target(
                        digest_with_nonce(*old(self), k),
                        difficulty as nat,
                    ),
                meets_target(self.hash@, difficulty as nat) || (self.nonce == u64::MAX && (old(
                    self,
                ).hash@ == spec_block_hash(*old(self)) ==> no_nonce_from(
                    *old(self),
                    old(self).nonce,
                    difficulty as nat,
                ))),
            decreases u64::MAX - self.nonce,
        {
            if hash_meets_difficulty(self.hash.as_str(), difficulty) {
                break;
            }
            if self.nonce == u64::MAX {
                break;
            }
            self.nonce = self.nonce + 1;
            self.hash = self.calculate_hash();
        }
        proof {
            if old(self).hash@ == spec_block_hash(*old(self)) && meets_target(
                old(self).hash@,
                difficulty as nat,
            ) && self.nonce != old(self).nonce {
                assert(digest_with_nonce(*old(self), old(self).nonce) == old(self).hash@);
                assert(!meets_target(digest_with_nonce(*old(self), old(self).nonce), difficulty as nat));
            }
        }
    }
}

/// Whether the first `difficulty` characters of `hash` are all `'0'`.  A hash
/// shorter than the target never meets it, so an oversized difficulty is
/// unattainable rather than an out-of-range access.
pub fn hash_meets_difficulty(hash: &str, difficulty: usize) -> (r: bool)
    ensures
        r == meets_target(hash@, difficulty as nat),
{
    let len = hash.unicode_len();
    if difficulty > len {
        return false;
    }
    let mut i: usize = 0;
    while i < difficulty
        invariant
            0 <= i <= difficulty,
            difficulty <= len,
            len == hash@.len(),
            forall|j: int| 0 <= j < i ==> hash@[j] == '0',
        decreases difficulty - i,
    {
        if hash.get_char(i) != '0' {
            return false;
        }
        i = i + 1;
    }
    true
}

/// The digest is a function of the canonical fields alone: two blocks that
/// agree on them (the stored `hash` aside) have the same digest.
pub proof fn lemma_hash_deterministic(a: Block, b: Block)
    requires
        a.index == b.index,
        a.timestamp == b.timestamp,
        a.data@ == b.data@,
        a.previous_hash@ == b.previous_hash@,
        a.nonce == b.nonce,
    ensures
        spec_block_hash(a) == spec_block_hash(b),
{
}

} // verus!
