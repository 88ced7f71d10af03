//! Persistent on-chain state, modeled as explicit stores.
//!
//! A `CommitmentStore` holds one immutable `MerkleRoot` record per published
//! distribution; a `ClaimReceiptLedger` holds one existence-only
//! `ClaimReceipt` per (distribution root, claimant) pair.  Receipt creation
//! is create-if-absent, which is what makes a claim exactly-once.

use vstd::prelude::*;
use crate::AirdropError;
use crate::hashing::hash_eq;

verus! {

/// The published record of one distribution: the tree root, the bump used
/// to derive the program authority over the vault, and the backing asset.
#[derive(Clone, Copy, Debug)]
pub struct MerkleRoot {
    pub hash: [u8; 32],
    pub bump: u8,
    pub mint: [u8; 32],
}

/// Global program configuration: the administrative authority.
#[derive(Clone, Copy, Debug)]
pub struct Config {
    pub authority: [u8; 32],
}

/// The existence-only marker that a claimant has claimed from a
/// distribution.  Its key is the pair of identities; it carries no further
/// payload.
#[derive(Clone, Debug)]
pub struct ClaimReceipt {
    pub root: [u8; 32],
    pub claimant: String,
}

/// Whether a record for `root` is already present.
pub open spec fn spec_published(records: Seq<MerkleRoot>, root: Seq<u8>) -> bool {
    exists|i: int| 0 <= i < records.len() && (#[trigger] records[i]).hash@ == root
}

/// One `MerkleRoot` record per distribution, created once and never
/// mutated.
pub struct CommitmentStore {
    entries: Vec<MerkleRoot>,
}

impl CommitmentStore {
    /// The records published so far, in order of publication.
    pub closed spec fn records(&self) -> Seq<MerkleRoot> {
        self.entries@
    }

    /// An empty store with no published distribution.
    pub fn new() -> (s: CommitmentStore)
        ensures
            s.records() == Seq::<MerkleRoot>::empty(),
    {
        CommitmentStore { entries: Vec::new() }
    }

    /// Whether a record with this root hash has been published.
    pub fn is_published(&self, root: &[u8; 32]) -> (r: bool)
        ensures
            r == spec_published(self.records(), root@),
    {
        let mut i: usize = 0;
        while i < self.entries.len()
            invariant
                i <= self.entries.len(),
                forall|j: int| 0 <= j < i ==> (#[trigger] self.entries@[j]).hash@ != root@,
            decreases self.entries.len() - i,
        {
            if hash_eq(&self.entries[i].hash, root) {
                return true;
            }
            i = i + 1;
        }
        false
    }

    /// Publish a distribution's record, exactly once: a second record under
    /// the same root hash is refused and the store is left unchanged.
    pub fn publish(&mut self, record: MerkleRoot) -> (r: Result<(), AirdropError>)
        ensures
            r is Err <==> spec_published(old(self).records(), record.hash@),
            r is Err ==> r == Result::<(), AirdropError>::Err(
                AirdropError::DistributionAlreadyPublished,
            ) && final(self).records() == old(self).records(),
            r is Ok ==> final(self).records() == old(self).records().push(record),
    {
        if self.is_published(&record.hash) {
            return Err(AirdropError::DistributionAlreadyPublished);
        }
        self.entries.push(record);
        Ok(())
    }
}

/// Whether the ledger holds a receipt for the `(root, claimant)` pair.
pub open spec fn spec_has_receipt(
    receipts: Seq<(Seq<u8>, Seq<char>)>,
    root: Seq<u8>,
    claimant: Seq<char>,
) -> bool {
    exists|i: int|
        0 <= i < receipts.len() && (#[trigger] receipts[i]).0 == root && receipts[i].1 == claimant
}

/// One receipt per (distribution root, claimant) pair, created exactly
/// once; the create-if-absent operation is the anti-replay gate of the
/// claim flow.
pub struct ClaimReceiptLedger {
    entries: Vec<ClaimReceipt>,
}

impl ClaimReceiptLedger {
    /// The (root, claimant) keys of all receipts created so far, in order
    /// of creation.
    pub closed spec fn receipts(&self) -> Seq<(Seq<u8>, Seq<char>)> {
        Seq::new(self.entries@.len(), |i: int| (self.entries@[i].root@, self.entries@[i].claimant@))
    }

    /// An empty ledger with no recorded claim.
    pub fn new() -> (l: ClaimReceiptLedger)
        ensures
            l.receipts() == Seq::<(Seq<u8>, Seq<char>)>::empty(),
    {
        let l = ClaimReceiptLedger { entries: Vec::new() };
        proof {
            assert(l.receipts() =~= Seq::<(Seq<u8>, Seq<char>)>::empty());
        }
        l
    }

    /// Whether a receipt exists for the pair.
    pub fn has_receipt(&self, root: &[u8; 32], claimant: &String) -> (r: bool)
        ensures
            r == spec_has_receipt(self.receipts(), root@, claimant@),
    {
        let mut i: usize = 0;
        while i < self.entries.len()
            invariant
                i <= self.entries.len(),
                forall|j: int|
                    0 <= j < i ==> !((#[trigger] self.entries@[j]).root@ == root@
                        && self.entries@[j].claimant@ == claimant@),
            decreases self.entries.len() - i,
        {
            let entry = &self.entries[i];
            if hash_eq(&entry.root, root) && entry.claimant.eq(claimant) {
                assert(self.receipts()[i as int] == (root@, claimant@));
                return true;
            }
            i = i + 1;
        }
        assert forall|i: int| 0 <= i < self.receipts().len() implies !(
        (#[trigger] self.receipts()[i]).0 == root@ && self.receipts()[i].1 == claimant@) by {
            assert(self.receipts()[i].0 == self.entries@[i].root@);
        }
        false
    }

    /// Create the receipt for the pair if none exists.  Returns whether it
    /// was created; an existing receipt leaves the ledger unchanged.
    pub fn create_if_absent(&mut self, root: &[u8; 32], claimant: &String) -> (created: bool)
        ensures
            created == !spec_has_receipt(old(self).receipts(), root@, claimant@),
            created ==> final(self).receipts() == old(self).receipts().push((root@, claimant@)),
            !created ==> final(self).receipts() == old(self).receipts(),
    {
        if self.has_receipt(root, claimant) {
            return false;
        }
        let receipt = ClaimReceipt { root: *root, claimant: claimant.clone() };
        self.entries.push(receipt);
        proof {
            assert(self.receipts() =~= old(self).receipts().push((root@, claimant@)));
        }
        true
    }
}

} // verus!
