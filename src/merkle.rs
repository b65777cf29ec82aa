use vstd::prelude::*;
use vstd::std_specs::cmp::PartialEqSpec;
use crate::digest::{Digest, Hashable, combine, sha256_of, be_u64};

verus! {

/// A layer of the tree as seen by the hash: each node's digest and leaf count.
pub type Layer = Seq<(Seq<u8>, nat)>;

/// The digest of a parent over its two children and its leaf count.
pub open spec fn merge_digest(left: Seq<u8>, right: Seq<u8>, size: nat) -> Seq<u8> {
    combine(left + right + sha256_of(be_u64(size as u64)))
}

/// The parent of two nodes.
pub open spec fn merged(a: (Seq<u8>, nat), b: (Seq<u8>, nat)) -> (Seq<u8>, nat) {
    (merge_digest(a.0, b.0, a.1 + b.1), a.1 + b.1)
}

/// The layer above `l`: pairs merged left to right, an odd last node carried unchanged.
pub open spec fn next_layer(l: Layer) -> Layer
    decreases l.len(),
{
    if l.len() < 2 {
        l
    } else {
        seq![merged(l[0], l[1])] + next_layer(l.subrange(2, l.len() as int))
    }
}

/// At most `k` rounds of building layers from `l`, stopping at a single node.
pub open spec fn reduce(l: Layer, k: nat) -> Layer
    decreases k,
{
    if k == 0 || l.len() <= 1 {
        l
    } else {
        reduce(next_layer(l), (k - 1) as nat)
    }
}

/// The leaf layer over the leaves' digests.
pub open spec fn leaf_layer(leaves: Seq<Seq<u8>>) -> Layer {
    leaves.map(|i: int, d: Seq<u8>| (d, 1nat))
}

/// The root digest of the tree over leaves with the given digests.
pub open spec fn merkle_root(leaves: Seq<Seq<u8>>) -> Seq<u8> {
    if leaves.len() == 0 {
        sha256_of(Seq::<u8>::empty())
    } else {
        reduce(leaf_layer(leaves), leaves.len())[0].0
    }
}

/// The number of leaves under the nodes of a layer.
pub open spec fn total(l: Layer) -> nat
    decreases l.len(),
{
    if l.len() == 0 {
        0
    } else {
        l[0].1 + total(l.subrange(1, l.len() as int))
    }
}

/// Adding a node to a layer adds its leaves.
proof fn lemma_total_push(l: Layer, x: (Seq<u8>, nat))
    ensures
        total(l.push(x)) == total(l) + x.1,
    decreases l.len(),
{
    if l.len() > 0 {
        assert(l.push(x).subrange(1, l.len() as int + 1) =~= l.subrange(1, l.len() as int).push(x));
        assert(l.push(x)[0] == l[0]);
        lemma_total_push(l.subrange(1, l.len() as int), x);
    } else {
        assert(l.push(x).subrange(1, 1) =~= Seq::<(Seq<u8>, nat)>::empty());
        assert(l.push(x)[0] == x);
        assert(total(Seq::<(Seq<u8>, nat)>::empty()) == 0);
    }
}

/// A leaf layer holds one leaf per node.
proof fn lemma_total_leaves(leaves: Seq<Seq<u8>>)
    ensures
        total(leaf_layer(leaves)) == leaves.len(),
    decreases leaves.len(),
{
    if leaves.len() > 0 {
        let rest = leaves.subrange(1, leaves.len() as int);
        assert(leaf_layer(leaves).subrange(1, leaves.len() as int) =~= leaf_layer(rest));
        lemma_total_leaves(rest);
    }
}

/// Each layer has half as many nodes as the one below, rounded up.
proof fn lemma_next_layer_len(l: Layer)
    ensures
        next_layer(l).len() == (l.len() + 1) / 2,
    decreases l.len(),
{
    if l.len() >= 2 {
        lemma_next_layer_len(l.subrange(2, l.len() as int));
    }
}

/// A node of the tree: its digest, its children's positions and its leaf count.
pub struct MerkleNode {
    value: Digest<()>,
    children: Option<(usize, usize)>,
    size: usize,
}

impl MerkleNode {
    pub closed spec fn digest(&self) -> Seq<u8> {
        self.value@
    }

    pub closed spec fn leaf_count(&self) -> nat {
        self.size as nat
    }

    pub closed spec fn child_positions(&self) -> Option<(usize, usize)> {
        self.children
    }

    pub open spec fn model(&self) -> (Seq<u8>, nat) {
        (self.digest(), self.leaf_count())
    }

    /// A leaf holding the digest of `x`.
    pub fn new<H: Hashable>(x: &H) -> (r: MerkleNode)
        ensures
            r.digest() == x.digest_spec(),
            r.leaf_count() == 1,
            r.child_positions() is None,
    {
        MerkleNode { value: x.hash().cast(), children: None, size: 1 }
    }

    /// The node of a tree without leaves.
    pub fn empty() -> (r: MerkleNode)
        ensures
            r.digest() == sha256_of(Seq::<u8>::empty()),
            r.leaf_count() == 0,
            r.child_positions() is None,
    {
        MerkleNode { value: Digest::empty(), children: None, size: 0 }
    }

    /// The parent of the nodes at `left` and `right` in `tree`.
    pub fn merge(tree: &[MerkleNode], left: usize, right: usize) -> (r: MerkleNode)
        requires
            left < tree@.len(),
            right < tree@.len(),
            tree@[left as int].leaf_count() + tree@[right as int].leaf_count() <= usize::MAX,
        ensures
            r.model() == merged(tree@[left as int].model(), tree@[right as int].model()),
            r.child_positions() == Some((left, right)),
    {
        let size = tree[left].size + tree[right].size;
        let mut parts = tree[left].value.to_vec();
        let mut r_bytes = tree[right].value.to_vec();
        let mut s_bytes = (size as u64).hash().to_vec();
        parts.append(&mut r_bytes);
        parts.append(&mut s_bytes);
        MerkleNode { value: Digest::from_bytes(parts.as_slice()), children: Some((left, right)), size }
    }
}

impl Hashable for MerkleNode {
    open spec fn digest_spec(&self) -> Seq<u8> {
        self.digest()
    }

    fn hash(&self) -> (r: Digest<Self>) {
        self.value.clone_digest().cast()
    }
}

/// The layer that the nodes at positions `layer` of `nodes` form.
pub open spec fn layer_of(nodes: Seq<MerkleNode>, layer: Seq<usize>) -> Layer {
    layer.map(|i: int, j: usize| nodes[j as int].model())
}

/// A hash tree over an ordered sequence of items, built once.
pub struct MerkleTree {
    nodes: Vec<MerkleNode>,
    root: usize,
    leaves: usize,
}

impl MerkleTree {
    #[verifier::type_invariant]
    closed spec fn wf(&self) -> bool {
        self.root < self.nodes@.len()
    }

    /// The digest at the root.
    pub closed spec fn root_digest(&self) -> Seq<u8> {
        self.nodes@[self.root as int].digest()
    }

    /// The number of leaves.
    pub closed spec fn leaf_count(&self) -> nat {
        self.leaves as nat
    }

    /// The number of leaves the tree was built over.
    pub fn leaves(&self) -> (r: usize)
        ensures
            r == self.leaf_count(),
    {
        self.leaves
    }

    /// The tree over `leaves`, in order.
    pub fn new<H: Hashable>(leaves: &[H]) -> (r: MerkleTree)
        ensures
            r.root_digest() == merkle_root(leaves@.map(|i: int, h: H| h.digest_spec())),
            r.leaf_count() == leaves@.len(),
    {
        let ghost digests = leaves@.map(|i: int, h: H| h.digest_spec());
        if leaves.len() == 0 {
            let nodes = vec![MerkleNode::empty()];
            return MerkleTree { nodes, root: 0, leaves: 0 };
        }
        let n = leaves.len();
        let mut nodes: Vec<MerkleNode> = Vec::new();
        let mut current: Vec<usize> = Vec::new();
        let mut i: usize = 0;
        while i < n
            invariant
                n == leaves@.len(),
                digests == leaves@.map(|i: int, h: H| h.digest_spec()),
                0 <= i <= n,
                nodes@.len() == i,
                current@.len() == i,
                forall|j: int| 0 <= j < i ==> current@[j] == j,
                forall|j: int| 0 <= j < i ==> nodes@[j].model() == (digests[j], 1nat),
            decreases n - i,
        {
            nodes.push(MerkleNode::new(&leaves[i]));
            current.push(i);
            i = i + 1;
        }
        proof {
            assert(layer_of(nodes@, current@) =~= leaf_layer(digests));
            lemma_total_leaves(digests);
        }
        let ghost mut fuel: nat = n as nat;
        while current.len() != 1
            invariant
                n == leaves@.len(),
                n > 0,
                current@.len() >= 1,
                fuel + 1 >= current@.len(),
                forall|j: int| 0 <= j < current@.len() ==> current@[j] < nodes@.len(),
                total(layer_of(nodes@, current@)) == n,
                reduce(layer_of(nodes@, current@), fuel) == reduce(leaf_layer(digests), n as nat),
            decreases current@.len(),
        {
            let ghost before = nodes@;
            let ghost prev = layer_of(nodes@, current@);
            let mut next: Vec<usize> = Vec::new();
            let len = current.len();
            let mut k: usize = 0;
            proof {
                assert(layer_of(nodes@, next@) =~= Seq::<(Seq<u8>, nat)>::empty());
                assert(prev.subrange(0, len as int) =~= prev);
                assert(Seq::<(Seq<u8>, nat)>::empty() + next_layer(prev) =~= next_layer(prev));
            }
            while k + 1 < len
                invariant
                    len == current@.len(),
                    len >= 2,
                    k <= len,
                    k % 2 == 0,
                    n == leaves@.len(),
                    before.len() <= nodes@.len(),
                    forall|j: int| 0 <= j < before.len() ==> nodes@[j] == before[j],
                    forall|j: int| 0 <= j < current@.len() ==> current@[j] < before.len(),
                    forall|j: int| 0 <= j < next@.len() ==> next@[j] < nodes@.len(),
                    prev == layer_of(before, current@),
                    total(prev) == n,
                    total(layer_of(nodes@, next@)) + total(prev.subrange(k as int, len as int)) == n,
                    layer_of(nodes@, next@) + next_layer(prev.subrange(k as int, len as int))
                        == next_layer(prev),
                decreases len - k,
            {
                let left = current[k];
                let right = current[k + 1];
                let ghost rest = prev.subrange(k as int, len as int);
                proof {
                    assert(rest[0] == prev[k as int]);
                    assert(rest[1] == prev[k + 1]);
                    let rest1 = rest.subrange(1, rest.len() as int);
                    assert(rest1 =~= prev.subrange(k + 1, len as int));
                    assert(rest1.subrange(1, rest1.len() as int) =~= prev.subrange(k + 2, len as int));
                    assert(rest.subrange(2, rest.len() as int) =~= prev.subrange(k + 2, len as int));
                    assert(rest1[0] == prev[k + 1]);
                    assert(total(rest1) == prev[k + 1].1 + total(prev.subrange(k + 2, len as int)));
                    assert(total(rest) == prev[k as int].1 + prev[k + 1].1 + total(
                        prev.subrange(k + 2, len as int),
                    ));
                }
                let node = MerkleNode::merge(nodes.as_slice(), left, right);
                let ghost old_nodes = nodes@;
                let ghost old_next = next@;
                nodes.push(node);
                next.push(nodes.len() - 1);
                proof {
                    assert(layer_of(nodes@, old_next) =~= layer_of(old_nodes, old_next));
                    assert(layer_of(nodes@, next@) =~= layer_of(old_nodes, old_next).push(
                        merged(prev[k as int], prev[k + 1]),
                    ));
                    lemma_total_push(layer_of(old_nodes, old_next), merged(prev[k as int], prev[k + 1]));
                    assert(seq![merged(rest[0], rest[1])] + next_layer(rest.subrange(2, rest.len() as int))
                        == next_layer(rest));
                    assert(layer_of(nodes@, next@) + next_layer(prev.subrange(k + 2, len as int))
                        =~= layer_of(old_nodes, old_next) + next_layer(rest));
                }
                k = k + 2;
            }
            if k < len {
                let last = current[k];
                let ghost old_next = next@;
                next.push(last);
                proof {
                    let rest = prev.subrange(k as int, len as int);
                    assert(rest.len() == 1);
                    assert(next_layer(rest) == rest);
                    assert(layer_of(nodes@, next@) =~= layer_of(nodes@, old_next).push(rest[0]));
                    assert(rest.subrange(1, 1) =~= Seq::<(Seq<u8>, nat)>::empty());
                    assert(total(rest) == rest[0].1);
                    lemma_total_push(layer_of(nodes@, old_next), rest[0]);
                    assert(layer_of(nodes@, next@) =~= layer_of(nodes@, old_next) + rest);
                }
            } else {
                proof {
                    let rest = prev.subrange(k as int, len as int);
                    assert(rest =~= Seq::<(Seq<u8>, nat)>::empty());
                    assert(layer_of(nodes@, next@) =~= layer_of(nodes@, next@) + rest);
                }
            }
            proof {
                assert(layer_of(nodes@, current@) =~= prev);
                lemma_next_layer_len(prev);
                assert(layer_of(nodes@, next@) == next_layer(prev));
                assert(reduce(prev, fuel) == reduce(next_layer(prev), (fuel - 1) as nat));
                fuel = (fuel - 1) as nat;
            }
            current = next;
        }
        let root = current[0];
        proof {
            let l = layer_of(nodes@, current@);
            assert(reduce(l, fuel) == l);
            assert(l[0] == nodes@[root as int].model());
        }
        MerkleTree { nodes, root, leaves: n }
    }
}

/// A tree depends on its leaves alone: two trees built from leaves with the same digests have
/// the same root, and so are equal.
pub proof fn lemma_merkle_deterministic(a: MerkleTree, b: MerkleTree, leaves: Seq<Seq<u8>>)
    requires
        a.root_digest() == merkle_root(leaves),
        b.root_digest() == merkle_root(leaves),
    ensures
        a.digest_spec() == b.digest_spec(),
        a.eq_spec(&b),
{
}

/// The tree without leaves has the empty digest at its root; a tree with leaves is reduced
/// to a single root node.
pub proof fn lemma_merkle_shape(leaves: Seq<Seq<u8>>)
    ensures
        leaves.len() == 0 ==> merkle_root(leaves) == sha256_of(Seq::<u8>::empty()),
        leaves.len() > 0 ==> reduce(leaf_layer(leaves), leaves.len()).len() == 1,
{
    if leaves.len() > 0 {
        lemma_reduce_single(leaf_layer(leaves), leaves.len());
    }
}

/// Enough rounds reduce a layer to a single node.
proof fn lemma_reduce_single(l: Layer, k: nat)
    requires
        l.len() >= 1,
        k + 1 >= l.len(),
    ensures
        reduce(l, k).len() == 1,
    decreases k,
{
    if k > 0 && l.len() > 1 {
        lemma_next_layer_len(l);
        lemma_reduce_single(next_layer(l), (k - 1) as nat);
    }
}

impl Hashable for MerkleTree {
    open spec fn digest_spec(&self) -> Seq<u8> {
        self.root_digest()
    }

    fn hash(&self) -> (r: Digest<Self>) {
        proof {
            use_type_invariant(self);
        }
        self.nodes[self.root].hash().cast()
    }
}

impl PartialEq for MerkleTree {
    fn eq(&self, other: &MerkleTree) -> (r: bool) {
        self.hash() == other.hash()
    }
}

impl vstd::std_specs::cmp::PartialEqSpecImpl for MerkleTree {
    open spec fn obeys_eq_spec() -> bool {
        true
    }

    open spec fn eq_spec(&self, other: &MerkleTree) -> bool {
        self.root_digest() == other.root_digest()
    }
}

impl Eq for MerkleTree {}

} // verus!
