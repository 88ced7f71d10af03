//! Derivation of the sibling-hash path for a leaf of a built tree.
//!
//! Walking up from a flat index, the proof collects the sibling of every
//! node strictly below the root, bottom first.  The verifier consumes the
//! elements in the same order.

use vstd::prelude::*;
use vstd::arithmetic::power2::{pow2, lemma_pow2_unfold};
use crate::hashing::{byte_vec_views, node_views};

verus! {

/// The index of the sibling of node `idx`: its neighbour under the same
/// parent.
pub open spec fn sibling_index(idx: int) -> int {
    if idx % 2 == 0 {
        idx + 1
    } else {
        idx - 1
    }
}

/// The sibling hashes along the path from node `idx` up to the root,
/// bottom first.
pub open spec fn proof_path(tree: Seq<Seq<u8>>, idx: nat) -> Seq<Seq<u8>>
    decreases idx,
{
    if idx <= 1 {
        seq![]
    } else {
        seq![tree[sibling_index(idx as int)]] + proof_path(tree, idx / 2)
    }
}

/// As `proof_path`, but a sibling that falls outside the array is skipped
/// rather than read.
pub open spec fn proof_path_guarded(tree: Seq<Seq<u8>>, idx: nat) -> Seq<Seq<u8>>
    decreases idx,
{
    if idx <= 1 {
        seq![]
    } else {
        let rest = proof_path_guarded(tree, idx / 2);
        if sibling_index(idx as int) < tree.len() {
            seq![tree[sibling_index(idx as int)]] + rest
        } else {
            rest
        }
    }
}

/// The number of levels strictly above node `idx` on the way to the root.
pub open spec fn path_len(idx: nat) -> nat
    decreases idx,
{
    if idx <= 1 {
        0
    } else {
        1 + path_len(idx / 2)
    }
}

/// A proof has one element per level: its length is the height of the leaf's
/// index.
pub proof fn lemma_proof_path_len(tree: Seq<Seq<u8>>, idx: nat)
    ensures
        proof_path(tree, idx).len() == path_len(idx),
    decreases idx,
{
    if idx > 1 {
        lemma_proof_path_len(tree, idx / 2);
    }
}

/// Every index in the leaf band `[2^p, 2^(p+1))` sits `p` levels below the
/// root, so every leaf of a tree with `2^p` leaf slots has a proof of length
/// exactly `p`.
pub proof fn lemma_path_len_of_leaf(p: nat, idx: nat)
    requires
        pow2(p) <= idx < pow2(p + 1),
    ensures
        path_len(idx) == p,
    decreases p,
{
    lemma_pow2_unfold(p + 1);
    if p == 0 {
        assert(idx == 1) by {
            vstd::arithmetic::power2::lemma2_to64();
        }
    } else {
        lemma_pow2_unfold(p);
        lemma_path_len_of_leaf((p - 1) as nat, idx / 2);
    }
}

/// In a built tree over `N` leaves, every leaf slot's proof has length
/// exactly `minPow2(N)` — one sibling per level of the tree.
pub proof fn lemma_leaf_proof_length(leaves: Seq<Seq<u8>>, tree: Seq<Seq<u8>>, i: int)
    requires
        crate::tree::is_tree_of(leaves, tree),
        0 <= i < pow2(crate::tree::min_pow2(leaves.len())),
    ensures
        proof_path(tree, (pow2(crate::tree::min_pow2(leaves.len())) + i) as nat).len()
            == crate::tree::min_pow2(leaves.len()),
{
    let p = crate::tree::min_pow2(leaves.len());
    let idx = (pow2(p) + i) as nat;
    lemma_pow2_unfold(p + 1);
    lemma_path_len_of_leaf(p, idx);
    lemma_proof_path_len(tree, idx);
}

/// Collect the sibling path for the node at flat index `leaf_index` of a
/// complete tree array.
pub fn create_proof(tree: &Vec<[u8; 32]>, leaf_index: usize) -> (pf: Vec<[u8; 32]>)
    requires
        tree.len() % 2 == 0,
        leaf_index < tree.len(),
    ensures
        node_views(pf@) == proof_path(node_views(tree@), leaf_index as nat),
{
    let ghost t = node_views(tree@);
    let mut pf: Vec<[u8; 32]> = Vec::new();
    let mut index = leaf_index;

    proof {
        assert(node_views(pf@) =~= Seq::<Seq<u8>>::empty());
    }
    while index > 1
        invariant
            tree.len() % 2 == 0,
            index < tree.len(),
            t == node_views(tree@),
            proof_path(t, leaf_index as nat) == node_views(pf@) + proof_path(t, index as nat),
        decreases index,
    {
        let sibling_index = if index % 2 == 0 {
            index + 1
        } else {
            index - 1
        };
        let ghost pf_before = node_views(pf@);
        let sibling = tree[sibling_index];
        pf.push(sibling);
        proof {
            assert(node_views(pf@) =~= pf_before.push(t[sibling_index as int]));
            assert(proof_path(t, index as nat) == seq![t[sibling_index as int]] + proof_path(
                t,
                (index / 2) as nat,
            ));
            assert(pf_before.push(t[sibling_index as int]) + proof_path(t, (index / 2) as nat)
                =~= pf_before + proof_path(t, index as nat));
        }
        index = index / 2;
    }
    proof {
        assert(proof_path(t, index as nat) =~= Seq::<Seq<u8>>::empty());
        assert(node_views(pf@) =~= node_views(pf@) + proof_path(t, index as nat));
    }
    pf
}

/// Collect the sibling path from a tree of loose byte vectors, skipping any
/// sibling index outside the array.  Each node must hold exactly 32 bytes.
pub fn generate_proof(merkle_tree: &Vec<Vec<u8>>, leaf_index: u64) -> (pf: Vec<[u8; 32]>)
    requires
        leaf_index <= usize::MAX,
        forall|i: int|
            0 <= i < merkle_tree.len() ==> (#[trigger] merkle_tree@[i])@.len() == 32,
    ensures
        node_views(pf@) == proof_path_guarded(byte_vec_views(merkle_tree@), leaf_index as nat),
{
    let ghost t = byte_vec_views(merkle_tree@);
    let mut pf: Vec<[u8; 32]> = Vec::new();
    let mut index: usize = leaf_index as usize;

    proof {
        assert(node_views(pf@) =~= Seq::<Seq<u8>>::empty());
    }
    while index > 1
        invariant
            t == byte_vec_views(merkle_tree@),
            forall|i: int|
                0 <= i < merkle_tree.len() ==> (#[trigger] merkle_tree@[i])@.len() == 32,
            proof_path_guarded(t, leaf_index as nat) == node_views(pf@) + proof_path_guarded(
                t,
                index as nat,
            ),
        decreases index,
    {
        let sibling_index = if index % 2 == 0 {
            index + 1
        } else {
            index - 1
        };
        let ghost pf_before = node_views(pf@);
        if sibling_index < merkle_tree.len() {
            let sibling = &merkle_tree[sibling_index];
            let mut arr = [0u8; 32];
            let mut k: usize = 0;
            while k < 32
                invariant
                    k <= 32,
                    sibling@.len() == 32,
                    arr@.len() == 32,
                    forall|q: int| 0 <= q < k ==> arr@[q] == sibling@[q],
                decreases 32 - k,
            {
                arr[k] = sibling[k];
                k = k + 1;
            }
            proof {
                assert(arr@ =~= t[sibling_index as int]);
            }
            pf.push(arr);
            proof {
                assert(node_views(pf@) =~= pf_before.push(t[sibling_index as int]));
                assert(pf_before.push(t[sibling_index as int]) + proof_path_guarded(
                    t,
                    (index / 2) as nat,
                ) =~= pf_before + proof_path_guarded(t, index as nat));
            }
        } else {
            proof {
                assert(proof_path_guarded(t, index as nat) == proof_path_guarded(
                    t,
                    (index / 2) as nat,
                ));
            }
        }
        index = index / 2;
    }
    proof {
        assert(proof_path_guarded(t, index as nat) =~= Seq::<Seq<u8>>::empty());
        assert(node_views(pf@) =~= node_views(pf@) + proof_path_guarded(t, index as nat));
    }
    pf
}

} // verus!
