//! Merkle trees over digests: the group of allowed control IDs, its root, and the
//! inclusion proofs that tie one control ID to that root.

use vstd::prelude::*;

use super::digest::{zero_digest, Digest};
use super::error::RecursionError;
use super::hash::{hash_accepts, hash_accepts_digest, hash_pair, pair_hash, HashSuite};

verus! {

/// The depth of the Merkle tree over the allowed recursion control IDs.
pub const ALLOWED_CODE_MERKLE_DEPTH: u32 = 8;

/// 2 to the power n.
pub open spec fn pow2(n: nat) -> nat
    decreases n,
{
    if n == 0 {
        1
    } else {
        2 * pow2((n - 1) as nat)
    }
}

/// The words of each digest of a list.
pub open spec fn digests_view(ds: Seq<Digest>) -> Seq<Seq<u32>> {
    ds.map_values(|d: Digest| d@)
}

/// Leaf `i` of a tree over `leaves`: the leaf itself, or the zero digest past the end.
pub open spec fn leaf_at(leaves: Seq<Seq<u32>>, i: int) -> Seq<u32> {
    if 0 <= i < leaves.len() {
        leaves[i]
    } else {
        zero_digest()
    }
}

/// The root of the subtree at height `h` whose index among the nodes of that height is `i`:
/// it covers the leaves `i * 2^h .. (i + 1) * 2^h`.
pub open spec fn subtree_root(suite: HashSuite, leaves: Seq<Seq<u32>>, h: nat, i: int) -> Seq<u32>
    decreases h,
{
    if h == 0 {
        leaf_at(leaves, i)
    } else {
        pair_hash(
            suite,
            subtree_root(suite, leaves, (h - 1) as nat, 2 * i),
            subtree_root(suite, leaves, (h - 1) as nat, 2 * i + 1),
        )
    }
}

/// The index of the sibling of node `i` at one height.
pub open spec fn sibling(i: int) -> int {
    if i % 2 == 0 {
        i + 1
    } else {
        i - 1
    }
}

/// The siblings met on the way from node `i` at height `h` up to height `depth`.
pub open spec fn proof_path(
    suite: HashSuite,
    leaves: Seq<Seq<u32>>,
    h: nat,
    i: int,
    depth: nat,
) -> Seq<Seq<u32>>
    decreases depth - h,
{
    if h >= depth {
        Seq::empty()
    } else {
        seq![subtree_root(suite, leaves, h, sibling(i))] + proof_path(
            suite,
            leaves,
            h + 1,
            i / 2,
            depth,
        )
    }
}

/// The root that a Merkle path leads to from `leaf` at position `index`: at each step the
/// current node is hashed with the next sibling, on the left when the position is even.
pub open spec fn path_root(suite: HashSuite, leaf: Seq<u32>, index: int, siblings: Seq<Seq<u32>>) -> Seq<u32>
    decreases siblings.len(),
{
    if siblings.len() == 0 {
        leaf
    } else {
        let next = if index % 2 == 0 {
            pair_hash(suite, leaf, siblings[0])
        } else {
            pair_hash(suite, siblings[0], leaf)
        };
        path_root(suite, next, index / 2, siblings.drop_first())
    }
}

/// Every digest of the list may be handed to the suite's pair hash.
pub open spec fn all_accepted(suite: HashSuite, ds: Seq<Seq<u32>>) -> bool {
    forall|k: int| 0 <= k < ds.len() ==> hash_accepts(suite, #[trigger] ds[k])
}

/// A path from a node at height `h` up to the root, made of the nodes' siblings, leads
/// to the root of the whole tree.
pub proof fn lemma_proof_path_reaches_root(
    suite: HashSuite,
    leaves: Seq<Seq<u32>>,
    h: nat,
    i: int,
    depth: nat,
)
    requires
        h <= depth,
        0 <= i < pow2((depth - h) as nat),
    ensures
        path_root(suite, subtree_root(suite, leaves, h, i), i, proof_path(suite, leaves, h, i, depth))
            == subtree_root(suite, leaves, depth, 0),
    decreases depth - h,
{
    if h == depth {
        assert(proof_path(suite, leaves, h, i, depth) =~= Seq::<Seq<u32>>::empty());
    } else {
        let path = proof_path(suite, leaves, h, i, depth);
        let rest = proof_path(suite, leaves, h + 1, i / 2, depth);
        assert(path.drop_first() =~= rest);
        assert(pow2((depth - h) as nat) == 2 * pow2((depth - (h + 1)) as nat));
        let cur = subtree_root(suite, leaves, h, i);
        let up = subtree_root(suite, leaves, h + 1, i / 2);
        if i % 2 == 0 {
            assert(2 * (i / 2) == i);
            assert(up == pair_hash(suite, cur, path[0]));
        } else {
            assert(2 * (i / 2) + 1 == i);
            assert(up == pair_hash(suite, path[0], cur));
        }
        lemma_proof_path_reaches_root(suite, leaves, h + 1, i / 2, depth);
    }
}

/// Law: the inclusion proof of the leaf at `index` leads from that leaf to the root of
/// the tree of height `depth` over `leaves`.
pub proof fn lemma_inclusion_proof_verifies(
    suite: HashSuite,
    leaves: Seq<Seq<u32>>,
    index: int,
    depth: nat,
)
    requires
        0 <= index < pow2(depth),
    ensures
        path_root(suite, leaf_at(leaves, index), index, proof_path(suite, leaves, 0, index, depth))
            == subtree_root(suite, leaves, depth, 0),
{
    lemma_proof_path_reaches_root(suite, leaves, 0, index, depth);
}

/// Whether the suite's pair hash takes every digest of the list.
pub fn digests_accepted(suite: HashSuite, ds: &Vec<Digest>) -> (r: bool)
    ensures
        r == all_accepted(suite, digests_view(ds@)),
{
    let ghost v = digests_view(ds@);
    let mut k: usize = 0;
    while k < ds.len()
        invariant
            0 <= k <= ds@.len(),
            v == digests_view(ds@),
            forall|t: int| 0 <= t < k ==> hash_accepts(suite, #[trigger] v[t]),
        decreases ds@.len() - k,
    {
        assert(v[k as int] == ds@[k as int]@);
        if !hash_accepts_digest(suite, &ds[k]) {
            return false;
        }
        k = k + 1;
    }
    true
}

/// A proof that a digest is a leaf of a Merkle tree: the leaf's position and the
/// siblings on its path to the root, from the bottom up.
#[derive(Clone, Debug)]
pub struct MerkleProof {
    pub index: u32,
    pub digests: Vec<Digest>,
}

impl MerkleProof {
    /// The root that this path leads to from `leaf`.
    pub fn root(&self, leaf: &Digest, suite: HashSuite) -> (r: Digest)
        requires
            hash_accepts(suite, leaf@),
            all_accepted(suite, digests_view(self.digests@)),
        ensures
            r@ == path_root(suite, leaf@, self.index as int, digests_view(self.digests@)),
    {
        let ghost siblings = digests_view(self.digests@);
        let mut cur = *leaf;
        let mut cur_index: u32 = self.index;
        let mut k: usize = 0;
        assert(siblings.skip(0) =~= siblings);
        while k < self.digests.len()
            invariant
                0 <= k <= self.digests@.len(),
                siblings == digests_view(self.digests@),
                all_accepted(suite, siblings),
                hash_accepts(suite, cur@),
                path_root(suite, leaf@, self.index as int, siblings) == path_root(
                    suite,
                    cur@,
                    cur_index as int,
                    siblings.skip(k as int),
                ),
            decreases self.digests@.len() - k,
        {
            let sib = &self.digests[k];
            assert(siblings[k as int] == sib@);
            assert(siblings.skip(k as int).drop_first() =~= siblings.skip(k + 1));
            let next = if cur_index % 2 == 0 {
                hash_pair(suite, &cur, sib)
            } else {
                hash_pair(suite, sib, &cur)
            };
            cur = next;
            cur_index = cur_index / 2;
            k = k + 1;
        }
        assert(siblings.skip(k as int) =~= Seq::<Seq<u32>>::empty());
        cur
    }
}

/// 2^n grows with n.
pub proof fn lemma_pow2_monotone(a: nat, b: nat)
    requires
        a <= b,
    ensures
        pow2(a) <= pow2(b),
    decreases b,
{
    if a < b {
        lemma_pow2_monotone(a, (b - 1) as nat);
    }
}

/// 2^8 is 256, and 2^n is at most 256 for n up to 8.
pub proof fn lemma_pow2_at_most_256(n: nat)
    requires
        n <= 8,
    ensures
        pow2(n) <= 256,
        pow2(8) == 256,
{
    reveal_with_fuel(pow2, 9);
    lemma_pow2_monotone(n, 8);
}

/// 2^(n+1) is twice 2^n.
pub proof fn lemma_pow2_step(n: nat)
    ensures
        pow2(n + 1) == 2 * pow2(n),
{
}

/// Taking one more sibling off the path from height `h`.
proof fn lemma_proof_path_extend(
    suite: HashSuite,
    leaves: Seq<Seq<u32>>,
    before: Seq<Seq<u32>>,
    h: nat,
    i: int,
)
    requires
        h < 8,
    ensures
        before + proof_path(suite, leaves, h, i, 8) == before.push(
            subtree_root(suite, leaves, h, sibling(i)),
        ) + proof_path(suite, leaves, h + 1, i / 2, 8),
{
    let rest = proof_path(suite, leaves, h + 1, i / 2, 8);
    let x = subtree_root(suite, leaves, h, sibling(i));
    assert(proof_path(suite, leaves, h, i, 8) == seq![x] + rest);
    assert(before + (seq![x] + rest) =~= before.push(x) + rest);
}

/// A group of digests committed to by a Merkle tree of fixed depth; positions past the
/// last leaf hold the zero digest.
#[derive(Clone, Debug)]
pub struct MerkleGroup {
    pub depth: u32,
    pub leaves: Vec<Digest>,
}

impl MerkleGroup {
    /// The leaves, taken by their words.
    pub open spec fn leaves_view(&self) -> Seq<Seq<u32>> {
        digests_view(self.leaves@)
    }

    /// The group's depth is the allowed code depth and its leaves fit in the tree.
    pub open spec fn wf(&self) -> bool {
        &&& self.depth == ALLOWED_CODE_MERKLE_DEPTH
        &&& self.leaves@.len() <= 256
    }

    /// The root of the group's tree.
    pub open spec fn spec_root(&self, suite: HashSuite) -> Seq<u32> {
        subtree_root(suite, self.leaves_view(), self.depth as nat, 0)
    }

    /// A group over `leaves`, of the allowed code depth; refused when there are more
    /// leaves than the tree holds.
    pub fn new(leaves: Vec<Digest>) -> (r: Result<MerkleGroup, RecursionError>)
        ensures
            r is Ok <==> leaves@.len() <= 256,
            r matches Ok(g) ==> g.wf() && g.leaves@ == leaves@,
            r matches Err(e) ==> e == RecursionError::TooManyLeaves,
    {
        if leaves.len() > 256 {
            Err(RecursionError::TooManyLeaves)
        } else {
            Ok(MerkleGroup { depth: ALLOWED_CODE_MERKLE_DEPTH, leaves })
        }
    }

    /// The root of the subtree at height `h` and index `i`.
    fn subtree(&self, suite: HashSuite, h: u32, i: u32) -> (r: Digest)
        requires
            self.wf(),
            h <= 8,
            (i as nat) < pow2((8 - h) as nat),
            all_accepted(suite, self.leaves_view()),
        ensures
            r@ == subtree_root(suite, self.leaves_view(), h as nat, i as int),
            hash_accepts(suite, r@),
        decreases h,
    {
        proof {
            lemma_pow2_at_most_256((8 - h) as nat);
        }
        if h == 0 {
            if (i as usize) < self.leaves.len() {
                assert(self.leaves_view()[i as int] == self.leaves@[i as int]@);
                self.leaves[i as usize]
            } else {
                Digest::zero()
            }
        } else {
            assert(pow2((8 - h + 1) as nat) == 2 * pow2((8 - h) as nat));
            let left = self.subtree(suite, h - 1, 2 * i);
            let right = self.subtree(suite, h - 1, 2 * i + 1);
            hash_pair(suite, &left, &right)
        }
    }

    /// The root of the group's tree.
    pub fn calc_root(&self, suite: HashSuite) -> (r: Digest)
        requires
            self.wf(),
            all_accepted(suite, self.leaves_view()),
        ensures
            r@ == self.spec_root(suite),
            hash_accepts(suite, r@),
    {
        proof {
            lemma_pow2_at_most_256(0);
            reveal_with_fuel(pow2, 1);
        }
        self.subtree(suite, self.depth, 0)
    }

    /// The inclusion proof of the leaf at position `index`: the siblings on its path to
    /// the root.
    pub fn get_proof_by_index(&self, index: u32, suite: HashSuite) -> (r: MerkleProof)
        requires
            self.wf(),
            index < 256,
            all_accepted(suite, self.leaves_view()),
        ensures
            r.index == index,
            digests_view(r.digests@) == proof_path(suite, self.leaves_view(), 0, index as int, 8),
            all_accepted(suite, digests_view(r.digests@)),
    {
        let ghost lv = self.leaves_view();
        let mut digests: Vec<Digest> = Vec::new();
        let mut cur: u32 = index;
        let mut k: u32 = 0;
        proof {
            lemma_pow2_at_most_256(8);
        }
        assert(digests_view(digests@) + proof_path(suite, lv, 0, index as int, 8) =~= proof_path(
            suite,
            lv,
            0,
            index as int,
            8,
        ));
        while k < self.depth
            invariant
                self.wf(),
                all_accepted(suite, lv),
                lv == self.leaves_view(),
                0 <= k <= 8,
                (cur as nat) < pow2((8 - k) as nat),
                proof_path(suite, lv, 0, index as int, 8) == digests_view(digests@) + proof_path(
                    suite,
                    lv,
                    k as nat,
                    cur as int,
                    8,
                ),
                all_accepted(suite, digests_view(digests@)),
            decreases 8 - k,
        {
            proof {
                lemma_pow2_step((8 - k - 1) as nat);
            }
            let sib: u32 = if cur % 2 == 0 {
                cur + 1
            } else {
                cur - 1
            };
            let d = self.subtree(suite, k, sib);
            let ghost before = digests_view(digests@);
            digests.push(d);
            proof {
                assert(digests_view(digests@) =~= before.push(d@));
                lemma_proof_path_extend(suite, lv, before, k as nat, cur as int);
            }
            cur = cur / 2;
            k = k + 1;
        }
        assert(proof_path(suite, lv, 8, cur as int, 8) =~= Seq::<Seq<u32>>::empty());
        assert(digests_view(digests@) =~= proof_path(suite, lv, 0, index as int, 8));
        MerkleProof { index, digests }
    }

    /// The first position at which `leaf` occurs among the leaves, if it does.
    pub fn position(&self, leaf: &Digest) -> (r: Option<usize>)
        ensures
            r is Some <==> self.leaves_view().contains(leaf@),
            r matches Some(i) ==> (i as int) < self.leaves@.len() && self.leaves_view().index_of_first(
                leaf@,
            ) == Some(i as int),
    {
        let ghost lv = self.leaves_view();
        let mut j: usize = 0;
        while j < self.leaves.len()
            invariant
                0 <= j <= self.leaves@.len(),
                lv == self.leaves_view(),
                forall|t: int| 0 <= t < j ==> lv[t] != leaf@,
            decreases self.leaves@.len() - j,
        {
            assert(lv[j as int] == self.leaves@[j as int]@);
            if self.leaves[j].equals(leaf) {
                proof {
                    assert(lv.contains(leaf@));
                    lv.index_of_first_ensures(leaf@);
                    let f = lv.index_of_first(leaf@).unwrap();
                    if f < j {
                        assert(lv[f] != leaf@);
                    }
                    if f > j {
                        assert(lv[j as int] != leaf@);
                    }
                }
                return Some(j);
            }
            j = j + 1;
        }
        assert(!lv.contains(leaf@));
        None
    }

    /// The inclusion proof of `leaf`, at the first position where it occurs; refused
    /// when `leaf` is not in the group. The proof leads from `leaf` to the group's root.
    pub fn get_proof(&self, leaf: &Digest, suite: HashSuite) -> (r: Result<MerkleProof, RecursionError>)
        requires
            self.wf(),
            all_accepted(suite, self.leaves_view()),
        ensures
            r is Ok <==> self.leaves_view().contains(leaf@),
            r matches Err(e) ==> e == RecursionError::LeafNotFound,
            r matches Ok(p) ==> {
                &&& self.leaves_view().index_of_first(leaf@) == Some(p.index as int)
                &&& digests_view(p.digests@) == proof_path(
                    suite,
                    self.leaves_view(),
                    0,
                    p.index as int,
                    8,
                )
                &&& all_accepted(suite, digests_view(p.digests@))
                &&& path_root(suite, leaf@, p.index as int, digests_view(p.digests@))
                    == self.spec_root(suite)
            },
    {
        match self.position(leaf) {
            None => Err(RecursionError::LeafNotFound),
            Some(i) => {
                let p = self.get_proof_by_index(i as u32, suite);
                proof {
                    let lv = self.leaves_view();
                    lv.index_of_first_ensures(leaf@);
                    lemma_pow2_at_most_256(8);
                    lemma_inclusion_proof_verifies(suite, lv, i as int, 8);
                }
                Ok(p)
            },
        }
    }
}

} // verus!
