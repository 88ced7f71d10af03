//! The off-line driver: from input rows to the commitment bundle, and from
//! an address to its claim data and proof.

use vstd::prelude::*;
use vstd::arithmetic::power2::{pow2, lemma_pow2_pos};
use crate::AirdropError;
use crate::hashing::{leaf_hash, node_views, spec_leaf_hash};
use crate::proof_gen::{create_proof, proof_path};
use crate::tree::{construct_merkle_tree, is_tree_of, min_pow2};

verus! {

/// One claimable entry of the published bundle: who may claim, how much,
/// and at which flat index of the tree array the leaf sits.
#[derive(Clone, Debug)]
pub struct ClaimEntry {
    pub address: String,
    pub amount: u64,
    pub leaf_index: usize,
}

/// The commitment bundle of one distribution: the root, the full flat tree
/// array, and one claim entry per input row, in input order.
#[derive(Debug)]
pub struct AirdropData {
    pub merkle_root: [u8; 32],
    pub merkle_tree: Vec<[u8; 32]>,
    pub claims: Vec<ClaimEntry>,
}

/// The leaf commitments of the input rows, in input order.
pub open spec fn spec_leaves_of(rows: Seq<(String, u64)>) -> Seq<Seq<u8>> {
    Seq::new(rows.len(), |i: int| spec_leaf_hash(rows[i].0@, rows[i].1))
}

impl AirdropData {
    /// The tree array is a plausible complete tree and every claim's index
    /// points into it.
    pub open spec fn wf(&self) -> bool {
        &&& 2 <= self.merkle_tree@.len()
        &&& self.merkle_tree@.len() % 2 == 0
        &&& forall|i: int|
            0 <= i < self.claims@.len() ==> (#[trigger] self.claims@[i]).leaf_index
                < self.merkle_tree@.len()
    }

    /// The bundle commits to exactly the given rows: the tree is built over
    /// their leaf commitments, the root is slot 1, and claim `i` names row
    /// `i`'s address and amount at flat index `leafSlotCount + i`.
    pub open spec fn commits_to(&self, rows: Seq<(String, u64)>) -> bool {
        let slots = pow2(min_pow2(rows.len()));
        &&& is_tree_of(spec_leaves_of(rows), node_views(self.merkle_tree@))
        &&& self.merkle_root@ == node_views(self.merkle_tree@)[1]
        &&& self.claims@.len() == rows.len()
        &&& forall|i: int|
            0 <= i < rows.len() ==> ((#[trigger] self.claims@[i]).address@ == rows[i].0@
                && self.claims@[i].amount == rows[i].1 && self.claims@[i].leaf_index == slots + i)
    }
}

/// Build the commitment bundle over the input rows: hash each row into its
/// leaf commitment, build the tree, and record each row's flat leaf index.
/// An empty input is refused.
pub fn create_airdrop(rows: &Vec<(String, u64)>) -> (r: Result<AirdropData, AirdropError>)
    requires
        rows@.len() <= usize::MAX / 4,
    ensures
        r is Err <==> rows@.len() == 0,
        r is Err ==> r == Result::<AirdropData, AirdropError>::Err(AirdropError::EmptyDistribution),
        r is Ok ==> (r->Ok_0).commits_to(rows@) && (r->Ok_0).wf(),
{
    if rows.len() == 0 {
        return Err(AirdropError::EmptyDistribution);
    }

    let n = rows.len();
    let mut leaves: Vec<[u8; 32]> = Vec::new();
    let mut i: usize = 0;
    while i < n
        invariant
            i == leaves.len() <= n,
            n == rows@.len(),
            forall|j: int|
                0 <= j < i ==> (#[trigger] leaves@[j])@ == spec_leaf_hash(rows@[j].0@, rows@[j].1),
        decreases n - i,
    {
        let row = &rows[i];
        let leaf = leaf_hash(row.0.as_str(), row.1);
        leaves.push(leaf);
        i = i + 1;
    }
    proof {
        assert(node_views(leaves@) =~= spec_leaves_of(rows@));
        lemma_pow2_pos(min_pow2(rows@.len()));
    }

    let merkle_tree = construct_merkle_tree(leaves);
    proof {
        crate::tree::lemma_min_pow2_bounds(rows@.len());
    }
    let leaf_offset = merkle_tree.len() / 2;
    let merkle_root = merkle_tree[1];

    let mut claims: Vec<ClaimEntry> = Vec::new();
    let mut k: usize = 0;
    while k < n
        invariant
            k == claims.len() <= n,
            n == rows@.len(),
            n <= leaf_offset,
            leaf_offset + n <= usize::MAX,
            forall|j: int|
                0 <= j < k ==> ((#[trigger] claims@[j]).address@ == rows@[j].0@ && claims@[j].amount
                    == rows@[j].1 && claims@[j].leaf_index == leaf_offset + j),
        decreases n - k,
    {
        let row = &rows[k];
        let entry = ClaimEntry {
            address: row.0.clone(),
            amount: row.1,
            leaf_index: leaf_offset + k,
        };
        claims.push(entry);
        k = k + 1;
    }

    Ok(AirdropData { merkle_root, merkle_tree, claims })
}

/// The index of the first claim whose address is `address`, scanning from
/// position `i`; -1 if there is none.
pub open spec fn spec_find_claim(claims: Seq<ClaimEntry>, address: Seq<char>, i: int) -> int
    decreases claims.len() - i,
{
    if i < 0 || i >= claims.len() {
        -1
    } else if claims[i].address@ == address {
        i
    } else {
        spec_find_claim(claims, address, i + 1)
    }
}

/// Look up a claimant's amount, flat leaf index and sibling path in the
/// bundle.  An address that is not in the distribution is refused.
pub fn lookup_proof(data: &AirdropData, address: &String) -> (r: Result<
    (u64, usize, Vec<[u8; 32]>),
    AirdropError,
>)
    requires
        data.wf(),
    ensures
        r is Err <==> spec_find_claim(data.claims@, address@, 0) == -1,
        r is Err ==> r == Result::<(u64, usize, Vec<[u8; 32]>), AirdropError>::Err(
            AirdropError::AddressNotFound,
        ),
        r is Ok ==> {
            let k = spec_find_claim(data.claims@, address@, 0);
            let entry = data.claims@[k];
            &&& (r->Ok_0).0 == entry.amount
            &&& (r->Ok_0).1 == entry.leaf_index
            &&& node_views((r->Ok_0).2@) == proof_path(
                node_views(data.merkle_tree@),
                entry.leaf_index as nat,
            )
        },
{
    let mut i: usize = 0;
    while i < data.claims.len()
        invariant
            i <= data.claims.len(),
            data.wf(),
            spec_find_claim(data.claims@, address@, i as int) == spec_find_claim(
                data.claims@,
                address@,
                0,
            ),
            forall|j: int| 0 <= j < i ==> (#[trigger] data.claims@[j]).address@ != address@,
        decreases data.claims.len() - i,
    {
        let entry = &data.claims[i];
        if entry.address.eq(address) {
            let pf = create_proof(&data.merkle_tree, entry.leaf_index);
            return Ok((entry.amount, entry.leaf_index, pf));
        }
        i = i + 1;
    }
    Err(AirdropError::AddressNotFound)
}

} // verus!
