//! Construction of the flat, 1-indexed complete binary tree of digests.
//!
//! For `N >= 1` leaves the tree occupies `2 * 2^minPow2(N)` slots, where
//! `minPow2(N)` is the smallest `p` with `2^p >= N`.  Slot 0 is unused and
//! zero; the (zero-padded) leaves fill the second half of the array in input
//! order; every internal node `i` is the parent hash of slots `2i` and
//! `2i + 1`; slot 1 is the root.

use vstd::prelude::*;
use vstd::arithmetic::power2::{
    pow2, lemma_pow2_strictly_increases, lemma_pow2_unfold, lemma2_to64,
};
use vstd::pervasive::VecAdditionalExecFns;
use crate::hashing::{hash_children, node_views, spec_parent_hash, zero_hash, zero_node};

verus! {

/// The smallest `p` with `2^p >= n`; 0 for `n <= 1`.
pub open spec fn min_pow2(n: nat) -> nat
    decreases n,
{
    if n <= 1 {
        0
    } else {
        (1 + min_pow2(((n + 1) / 2) as nat)) as nat
    }
}

/// `2^minPow2(n)` bounds `n` from above, and is the least power of two to
/// do so.
pub proof fn lemma_min_pow2_bounds(n: nat)
    ensures
        pow2(min_pow2(n)) >= n,
        min_pow2(n) > 0 ==> pow2((min_pow2(n) - 1) as nat) < n,
    decreases n,
{
    lemma2_to64();
    if n > 1 {
        let m = ((n + 1) / 2) as nat;
        lemma_min_pow2_bounds(m);
        let p = min_pow2(m);
        lemma_pow2_unfold((p + 1) as nat);
        if p > 0 {
            lemma_pow2_unfold(p);
        }
    }
}

/// Any `p` with `2^p >= n` whose predecessor power (if any) is below `n`
/// is `minPow2(n)`.
pub proof fn lemma_min_pow2_unique(n: nat, p: nat)
    requires
        pow2(p) >= n,
        p > 0 ==> pow2((p - 1) as nat) < n,
    ensures
        p == min_pow2(n),
{
    let q = min_pow2(n);
    lemma_min_pow2_bounds(n);
    if p < q {
        if p < q - 1 {
            lemma_pow2_strictly_increases(p, (q - 1) as nat);
        }
        assert(false);
    } else if q < p {
        if q < p - 1 {
            lemma_pow2_strictly_increases(q, (p - 1) as nat);
        }
        assert(false);
    }
}

/// The smallest power of 2 greater than or equal to `num_leaves`, as an
/// exponent.
pub fn min_power_of_2(num_leaves: usize) -> (power: usize)
    requires
        num_leaves <= usize::MAX / 2 + 1,
    ensures
        power == min_pow2(num_leaves as nat),
        pow2(power as nat) >= num_leaves,
        power > 0 ==> pow2((power - 1) as nat) < num_leaves,
{
    let mut num: usize = 1;
    let mut power: usize = 0;

    proof {
        lemma2_to64();
    }
    while num < num_leaves
        invariant
            num_leaves <= usize::MAX / 2 + 1,
            num == pow2(power as nat),
            1 <= num,
            power <= num,
            power > 0 ==> pow2((power - 1) as nat) < num_leaves,
        decreases num_leaves - power,
    {
        proof {
            lemma_pow2_unfold((power + 1) as nat);
        }
        num = num * 2;
        power = power + 1;
    }
    proof {
        lemma_min_pow2_unique(num_leaves as nat, power as nat);
    }
    power
}

/// `2^e`, computed by doubling.
fn pow2_usize(e: usize) -> (r: usize)
    requires
        pow2(e as nat) <= usize::MAX,
    ensures
        r == pow2(e as nat),
{
    let mut r: usize = 1;
    let mut k: usize = 0;
    proof {
        lemma2_to64();
    }
    while k < e
        invariant
            k <= e,
            r == pow2(k as nat),
            pow2(e as nat) <= usize::MAX,
        decreases e - k,
    {
        proof {
            lemma_pow2_unfold((k + 1) as nat);
            if k + 1 < e {
                lemma_pow2_strictly_increases((k + 1) as nat, e as nat);
            }
        }
        r = r * 2;
        k = k + 1;
    }
    r
}

/// What it means for `tree` to be the Merkle tree built over `leaves`:
/// the sizing, the placement of the real and padding leaves, the unused
/// zero slot 0, and the parent-hash equation at every internal node.
pub open spec fn is_tree_of(leaves: Seq<Seq<u8>>, tree: Seq<Seq<u8>>) -> bool {
    let slots = pow2(min_pow2(leaves.len()));
    &&& tree.len() == 2 * slots
    &&& tree[0] == zero_hash()
    &&& forall|i: int|
        slots <= i < 2 * slots ==> #[trigger] tree[i] == if i - slots < leaves.len() {
            leaves[i - slots]
        } else {
            zero_hash()
        }
    &&& forall|i: int|
        1 <= i < slots ==> #[trigger] tree[i] == spec_parent_hash(tree[2 * i], tree[2 * i + 1])
}

/// A single-leaf distribution builds a two-slot tree whose root at index 1
/// is the lone leaf commitment itself, unhashed — the one tree in which the
/// root is not a parent hash.
pub proof fn lemma_single_leaf_root(leaves: Seq<Seq<u8>>, tree: Seq<Seq<u8>>)
    requires
        is_tree_of(leaves, tree),
        leaves.len() == 1,
    ensures
        tree.len() == 2,
        tree[1] == leaves[0],
{
    lemma2_to64();
    assert(min_pow2(1) == 0);
}

/// Build the full tree array over the given leaf commitments.
#[verifier::rlimit(50)]
pub fn construct_merkle_tree(leaves: Vec<[u8; 32]>) -> (tree: Vec<[u8; 32]>)
    requires
        1 <= leaves.len() <= usize::MAX / 4,
    ensures
        is_tree_of(node_views(leaves@), node_views(tree@)),
{
    let ghost orig_raw: Seq<[u8; 32]> = leaves@;
    let ghost orig: Seq<Seq<u8>> = node_views(leaves@);
    let n = leaves.len();
    let power = min_power_of_2(n);
    proof {
        // the leaf slot count is below 2 * n, so the whole array fits
        if power > 0 {
            lemma_pow2_unfold(power as nat);
        }
        lemma2_to64();
    }
    let tree_leaf_nodes = pow2_usize(power);
    let tree_size = tree_leaf_nodes * 2;

    let mut leaves = leaves;
    while leaves.len() < tree_leaf_nodes
        invariant
            n <= leaves.len() <= tree_leaf_nodes,
            forall|s: int| 0 <= s < n ==> #[trigger] leaves@[s] == orig_raw[s],
            forall|s: int| n <= s < leaves.len() ==> (#[trigger] leaves@[s])@ == zero_hash(),
        decreases tree_leaf_nodes - leaves.len(),
    {
        leaves.push(zero_node());
    }
    let ghost padded: Seq<[u8; 32]> = leaves@;

    let mut tree: Vec<[u8; 32]> = Vec::new();
    let mut k: usize = 0;
    while k < tree_size
        invariant
            k == tree.len() <= tree_size,
            forall|s: int| 0 <= s < k ==> (#[trigger] tree@[s])@ == zero_hash(),
        decreases tree_size - k,
    {
        tree.push(zero_node());
        k = k + 1;
    }

    let mut i: usize = 0;
    while i < tree_leaf_nodes
        invariant
            i <= tree_leaf_nodes,
            tree.len() == tree_size,
            tree_size == 2 * tree_leaf_nodes,
            leaves.len() == tree_leaf_nodes,
            leaves@ == padded,
            forall|s: int|
                tree_leaf_nodes <= s < tree_leaf_nodes + i ==> #[trigger] tree@[s] == padded[s
                    - tree_leaf_nodes],
            forall|s: int|
                0 <= s < tree.len() && !(tree_leaf_nodes <= s < tree_leaf_nodes + i)
                    ==> (#[trigger] tree@[s])@ == zero_hash(),
        decreases tree_leaf_nodes - i,
    {
        let leaf = leaves[i];
        tree.set(tree_leaf_nodes + i, leaf);
        i = i + 1;
    }

    let mut j: usize = tree_leaf_nodes;
    while j > 1
        invariant
            1 <= j <= tree_leaf_nodes,
            tree.len() == tree_size,
            tree_size == 2 * tree_leaf_nodes,
            forall|s: int|
                tree_leaf_nodes <= s < tree_size ==> #[trigger] tree@[s] == padded[s
                    - tree_leaf_nodes],
            (tree@[0])@ == zero_hash(),
            forall|s: int|
                j <= s < tree_leaf_nodes ==> (#[trigger] tree@[s])@ == spec_parent_hash(
                    (tree@[2 * s])@,
                    (tree@[2 * s + 1])@,
                ),
        decreases j,
    {
        j = j - 1;
        let left = tree[2 * j];
        let right = tree[2 * j + 1];
        let parent = hash_children(&left, &right);
        tree.set(j, parent);
    }

    proof {
        let slots = tree_leaf_nodes as int;
        assert(orig.len() == n);
        assert(pow2(min_pow2(orig.len())) == tree_leaf_nodes);
        assert forall|s: int|
            slots <= s < 2 * slots implies #[trigger] node_views(tree@)[s] == (if s - slots
            < orig.len() {
            orig[s - slots]
        } else {
            zero_hash()
        }) by {
            assert(node_views(tree@)[s] == (tree@[s])@);
            assert(tree@[s] == padded[s - slots]);
            if s - slots < n {
                assert(padded[s - slots] == orig_raw[s - slots]);
            }
        }
        assert forall|s: int| 1 <= s < slots implies #[trigger] node_views(tree@)[s]
            == spec_parent_hash(node_views(tree@)[2 * s], node_views(tree@)[2 * s + 1]) by {
            assert(node_views(tree@)[s] == (tree@[s])@);
            assert(node_views(tree@)[2 * s] == (tree@[2 * s])@);
            assert(node_views(tree@)[2 * s + 1] == (tree@[2 * s + 1])@);
        }
        assert(node_views(tree@)[0] == (tree@[0])@);
        assert(is_tree_of(orig, node_views(tree@)));
    }
    tree
}

} // verus!
