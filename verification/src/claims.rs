//! Claim verification and the exactly-once claim flow.
//!
//! A claim carries `(claimant, amount, leaf_index, proof)`.  The verifier
//! rebuilds the leaf commitment, folds the proof into it while walking the
//! index up to the root, and accepts only a bit-for-bit match with the
//! stored root; on acceptance a receipt is created, and an existing receipt
//! turns the same claim into `AlreadyClaimed`.

use vstd::prelude::*;
use vstd::arithmetic::power2::pow2;
use crate::AirdropError;
use crate::hashing::{hash_children, hash_eq, leaf_hash, node_views, spec_leaf_hash, spec_parent_hash};
use crate::proof_gen::{proof_path, sibling_index};
use crate::store::{spec_has_receipt, ClaimReceiptLedger};
use crate::tree::{is_tree_of, lemma_min_pow2_bounds, min_pow2};

verus! {

/// The root reached by folding the proof into `h`, walking up from flat
/// index `idx`: at an even index the running hash is the left child of its
/// parent, at an odd index the right.
pub open spec fn chain_root(h: Seq<u8>, idx: nat, pf: Seq<Seq<u8>>) -> Seq<u8>
    decreases pf.len(),
{
    if pf.len() == 0 {
        h
    } else {
        let next = if idx % 2 == 0 {
            spec_parent_hash(h, pf[0])
        } else {
            spec_parent_hash(pf[0], h)
        };
        chain_root(next, idx / 2, pf.drop_first())
    }
}

/// Whether the claim `(claimant, amount)` at `leaf_index`, with proof `pf`,
/// reconstructs `root`.
pub open spec fn spec_proof_matches(
    root: Seq<u8>,
    claimant: Seq<char>,
    amount: u64,
    leaf_index: nat,
    pf: Seq<Seq<u8>>,
) -> bool {
    chain_root(spec_leaf_hash(claimant, amount), leaf_index, pf) == root
}

/// Whether the claim is accepted against `root` and the given receipts:
/// the proof matches and no receipt for the pair exists yet.
pub open spec fn spec_claim_accepts(
    receipts: Seq<(Seq<u8>, Seq<char>)>,
    root: Seq<u8>,
    claimant: Seq<char>,
    amount: u64,
    leaf_index: nat,
    pf: Seq<Seq<u8>>,
) -> bool {
    spec_proof_matches(root, claimant, amount, leaf_index, pf) && !spec_has_receipt(
        receipts,
        root,
        claimant,
    )
}

/// Fold the proof into the given leaf hash and compare the outcome with the
/// stored root.
pub fn verify_proof(leaf: &[u8; 32], leaf_index: u64, pf: &Vec<[u8; 32]>, root: &[u8; 32]) -> (r:
    bool)
    ensures
        r == (chain_root(leaf@, leaf_index as nat, node_views(pf@)) == root@),
{
    let ghost pfv = node_views(pf@);
    let mut h: [u8; 32] = *leaf;
    let mut idx: u64 = leaf_index;
    let mut i: usize = 0;

    proof {
        assert(pfv.skip(0) =~= pfv);
    }
    while i < pf.len()
        invariant
            i <= pf.len(),
            pfv == node_views(pf@),
            chain_root(leaf@, leaf_index as nat, pfv) == chain_root(
                h@,
                idx as nat,
                pfv.skip(i as int),
            ),
        decreases pf.len() - i,
    {
        let sib = pf[i];
        proof {
            assert(pfv.skip(i as int)[0] == pfv[i as int]);
            assert(pfv.skip(i as int).drop_first() =~= pfv.skip(i + 1));
        }
        if idx % 2 == 0 {
            h = hash_children(&h, &sib);
        } else {
            h = hash_children(&sib, &h);
        }
        idx = idx / 2;
        i = i + 1;
    }
    proof {
        assert(pfv.skip(pf.len() as int) =~= Seq::<Seq<u8>>::empty());
    }
    hash_eq(&h, root)
}

/// Verify a claim against the stored root and, on success, record its
/// receipt.  A failed claim of either kind leaves the ledger unchanged; a
/// successful one returns the amount whose transfer it authorizes.
pub fn verify_and_claim(
    ledger: &mut ClaimReceiptLedger,
    stored_root: &[u8; 32],
    claimant: &String,
    amount: u64,
    leaf_index: u64,
    proof: &Vec<[u8; 32]>,
) -> (r: Result<u64, AirdropError>)
    ensures
        r is Ok <==> spec_claim_accepts(
            old(ledger).receipts(),
            stored_root@,
            claimant@,
            amount,
            leaf_index as nat,
            node_views(proof@),
        ),
        r is Ok ==> r == Result::<u64, AirdropError>::Ok(amount) && final(ledger).receipts()
            == old(ledger).receipts().push((stored_root@, claimant@)),
        r is Err ==> final(ledger).receipts() == old(ledger).receipts(),
        r == Result::<u64, AirdropError>::Err(AirdropError::InvalidProof) <==> !spec_proof_matches(
            stored_root@,
            claimant@,
            amount,
            leaf_index as nat,
            node_views(proof@),
        ),
        r == Result::<u64, AirdropError>::Err(AirdropError::AlreadyClaimed) <==> (
        spec_proof_matches(
            stored_root@,
            claimant@,
            amount,
            leaf_index as nat,
            node_views(proof@),
        ) && spec_has_receipt(old(ledger).receipts(), stored_root@, claimant@)),
{
    let leaf = leaf_hash(claimant.as_str(), amount);
    if !verify_proof(&leaf, leaf_index, proof, stored_root) {
        return Err(AirdropError::InvalidProof);
    }
    if !ledger.create_if_absent(stored_root, claimant) {
        return Err(AirdropError::AlreadyClaimed);
    }
    Ok(amount)
}

/// Round trip: in any parent-linked power-of-two tree array, folding the
/// sibling path of any node into that node's own hash reaches the root at
/// index 1.
pub proof fn lemma_proof_round_trip(tree: Seq<Seq<u8>>, idx: nat)
    requires
        2 <= tree.len(),
        tree.len() % 2 == 0,
        forall|i: int|
            1 <= i < tree.len() / 2 ==> #[trigger] tree[i] == spec_parent_hash(
                tree[2 * i],
                tree[2 * i + 1],
            ),
        1 <= idx < tree.len(),
    ensures
        chain_root(tree[idx as int], idx, proof_path(tree, idx)) == tree[1],
    decreases idx,
{
    if idx > 1 {
        let sib = sibling_index(idx as int);
        let pf = proof_path(tree, idx);
        assert(pf == seq![tree[sib]] + proof_path(tree, idx / 2));
        assert(pf.drop_first() =~= proof_path(tree, idx / 2));
        assert(tree[(idx / 2) as int] == spec_parent_hash(
            tree[2 * ((idx / 2) as int)],
            tree[2 * ((idx / 2) as int) + 1],
        ));
        lemma_proof_round_trip(tree, idx / 2);
    }
}

/// Round trip for a built tree: the proof generated for any real
/// (non-padding) leaf, applied to that leaf's own commitment, is accepted
/// against the tree's root.
pub proof fn lemma_real_leaf_claim_accepted(
    leaves: Seq<Seq<u8>>,
    tree: Seq<Seq<u8>>,
    i: int,
    claimant: Seq<char>,
    amount: u64,
)
    requires
        is_tree_of(leaves, tree),
        0 <= i < leaves.len(),
        leaves[i] == spec_leaf_hash(claimant, amount),
    ensures
        spec_proof_matches(
            tree[1],
            claimant,
            amount,
            (pow2(min_pow2(leaves.len())) + i) as nat,
            proof_path(tree, (pow2(min_pow2(leaves.len())) + i) as nat),
        ),
{
    let slots = pow2(min_pow2(leaves.len()));
    lemma_min_pow2_bounds(leaves.len());
    let idx = (slots + i) as nat;
    assert(tree[idx as int] == leaves[i]);
    lemma_proof_round_trip(tree, idx);
}

/// Exactly-once: once a claim for `(root, claimant)` has been accepted and
/// its receipt recorded, no further claim for the same pair is accepted,
/// whatever amount, leaf index or proof it carries.
pub proof fn lemma_claim_exactly_once(
    receipts: Seq<(Seq<u8>, Seq<char>)>,
    root: Seq<u8>,
    claimant: Seq<char>,
    amount1: u64,
    leaf_index1: nat,
    pf1: Seq<Seq<u8>>,
    amount2: u64,
    leaf_index2: nat,
    pf2: Seq<Seq<u8>>,
)
    requires
        spec_claim_accepts(receipts, root, claimant, amount1, leaf_index1, pf1),
    ensures
        !spec_claim_accepts(
            receipts.push((root, claimant)),
            root,
            claimant,
            amount2,
            leaf_index2,
            pf2,
        ),
{
    assert(receipts.push((root, claimant))[receipts.len() as int] == (root, claimant));
}

} // verus!
