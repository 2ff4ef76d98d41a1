//! One band's blob: 255 fixed-width branch node slots in breadth-first
//! order, read and written in place.

use vstd::prelude::*;
use crate::codec::{
    lemma_branch_round_trip, decode_branch, encode_branch, encode_merge_value, load_branch_node, zeros, MERGE_VALUE_SIZE,
    NODE_SIZE,
};
use crate::index::{calculate_index, slot_index, NODES_PER_TRIE};
use crate::types::{BranchKey, BranchModel, BranchNode, MergeModel, MergeValue};

verus! {

broadcast use vstd::array::group_array_axioms;

/// Bytes of one band's blob.
pub const TRIE_SIZE: usize = 33660;

/// `d` with the bytes from `offset` on replaced by `b`.
pub open spec fn splice(d: Seq<u8>, offset: int, b: Seq<u8>) -> Seq<u8> {
    Seq::new(d.len(), |j: int| if offset <= j < offset + b.len() { b[j - offset] } else { d[j] })
}

/// The branch node held in slot `i` of blob `d`.
pub open spec fn node_at(d: Seq<u8>, i: int) -> BranchModel {
    decode_branch(d.subrange(i * 132, i * 132 + 132))
}

/// Blob `d` with slot `i` holding `n`.
pub open spec fn put_node(d: Seq<u8>, i: int, n: BranchModel) -> Seq<u8> {
    splice(d, i * 132, encode_branch(n))
}

/// Blob `d` with slot `i` cleared.
pub open spec fn clear_node(d: Seq<u8>, i: int) -> Seq<u8> {
    splice(d, i * 132, zeros(132))
}

/// The node that an all-zero slot holds: two plain zero values.
pub open spec fn empty_node() -> BranchModel {
    BranchModel {
        left: MergeModel::Value { value: zeros(32) },
        right: MergeModel::Value { value: zeros(32) },
    }
}

proof fn lemma_slot_bounds(i: int, j: int)
    requires
        0 <= i < NODES_PER_TRIE,
        0 <= j < NODES_PER_TRIE,
    ensures
        0 <= i * 132,
        i * 132 + 132 <= TRIE_SIZE,
        i != j ==> (i * 132 + 132 <= j * 132 || j * 132 + 132 <= i * 132),
{
    assert(0 <= i * 132 && i * 132 + 132 <= TRIE_SIZE) by (nonlinear_arith)
        requires
            0 <= i < 255,
    ;
    if i < j {
        assert(i * 132 + 132 <= j * 132) by (nonlinear_arith)
            requires
                i + 1 <= j,
        ;
    } else if j < i {
        assert(j * 132 + 132 <= i * 132) by (nonlinear_arith)
            requires
                j + 1 <= i,
        ;
    }
}

/// A slot of an all-zero blob holds the empty node.
pub proof fn lemma_zero_slot(d: Seq<u8>, i: int)
    requires
        d.len() == TRIE_SIZE,
        0 <= i < NODES_PER_TRIE,
        forall|j: int| i * 132 <= j < i * 132 + 132 ==> d[j] == 0u8,
    ensures
        node_at(d, i) == empty_node(),
{
    lemma_slot_bounds(i, i);
    let s = d.subrange(i * 132, i * 132 + 132);
    assert(s.subrange(0, 66).subrange(2, 34) =~= zeros(32));
    assert(s.subrange(66, 132).subrange(2, 34) =~= zeros(32));
}

/// Reading the slot just written gives the node written.
pub proof fn lemma_put_node_same(d: Seq<u8>, i: int, n: BranchModel)
    requires
        d.len() == TRIE_SIZE,
        0 <= i < NODES_PER_TRIE,
        n.wf(),
    ensures
        put_node(d, i, n).len() == TRIE_SIZE,
        node_at(put_node(d, i, n), i) == n,
{
    lemma_slot_bounds(i, i);
    lemma_branch_round_trip(n);
    assert(put_node(d, i, n).subrange(i * 132, i * 132 + 132) =~= encode_branch(n));
}

/// Writing one slot leaves every other slot as it was.
pub proof fn lemma_put_node_other(d: Seq<u8>, i: int, j: int, n: BranchModel)
    requires
        d.len() == TRIE_SIZE,
        0 <= i < NODES_PER_TRIE,
        0 <= j < NODES_PER_TRIE,
        i != j,
        n.wf(),
    ensures
        node_at(put_node(d, i, n), j) == node_at(d, j),
{
    lemma_slot_bounds(i, j);
    lemma_slot_bounds(j, i);
    lemma_branch_round_trip(n);
    assert(put_node(d, i, n).subrange(j * 132, j * 132 + 132) =~= d.subrange(j * 132, j * 132 + 132));
}

/// Reading a slot just cleared gives the empty node.
pub proof fn lemma_clear_node_same(d: Seq<u8>, i: int)
    requires
        d.len() == TRIE_SIZE,
        0 <= i < NODES_PER_TRIE,
    ensures
        clear_node(d, i).len() == TRIE_SIZE,
        node_at(clear_node(d, i), i) == empty_node(),
{
    lemma_slot_bounds(i, i);
    lemma_zero_slot(clear_node(d, i), i);
}

/// The blob of one band, with the key of the band.
pub(crate) struct BranchTrie {
    pub(crate) data: Vec<u8>,
    pub(crate) rounded_path: BranchKey,
}

impl BranchTrie {
    pub(crate) open spec fn wf(&self) -> bool {
        self.data@.len() == TRIE_SIZE
    }

    /// The slot of `branch_key` in this band.
    pub(crate) open spec fn slot(&self, branch_key: BranchKey) -> int {
        slot_index(branch_key.height, branch_key.node_key@[(self.rounded_path.height / 8) as int])
    }

    /// A band with no node written: every byte zero.
    pub(crate) fn empty(rounded_path: BranchKey) -> (r: Self)
        ensures
            r.wf(),
            r.data@ == zeros(TRIE_SIZE as nat),
            r.rounded_path == rounded_path,
    {
        let data = vec![0u8; TRIE_SIZE];
        assert(data@ =~= zeros(TRIE_SIZE as nat));
        BranchTrie { data, rounded_path }
    }

    pub(crate) fn calculate_index(&self, branch_key: &BranchKey) -> (r: usize)
        ensures
            r == self.slot(*branch_key),
            r < NODES_PER_TRIE,
    {
        let index_byte = branch_key.node_key[(self.rounded_path.height / 8) as usize];
        calculate_index(branch_key.height, index_byte)
    }

    pub(crate) fn get_branch(&self, branch_key: &BranchKey) -> (r: BranchNode)
        requires
            self.wf(),
        ensures
            r@ == node_at(self.data@, self.slot(*branch_key)),
    {
        let index = self.calculate_index(branch_key);
        self.load_branch_node(index)
    }

    pub(crate) fn insert_branch(&mut self, branch_key: &BranchKey, branch: &BranchNode)
        requires
            old(self).wf(),
        ensures
            final(self).wf(),
            final(self).rounded_path == old(self).rounded_path,
            final(self).data@ == put_node(old(self).data@, old(self).slot(*branch_key), branch@),
    {
        let index = self.calculate_index(branch_key);
        self.save_branch_node(index, branch);
    }

    /// Clears the slot of `branch_key`. The record is always rewritten in
    /// full, also when every slot has become empty: deleting an empty
    /// band's record is left as an extension.
    pub(crate) fn remove_branch(&mut self, branch_key: &BranchKey)
        requires
            old(self).wf(),
        ensures
            final(self).wf(),
            final(self).rounded_path == old(self).rounded_path,
            final(self).data@ == clear_node(old(self).data@, old(self).slot(*branch_key)),
    {
        let index = self.calculate_index(branch_key);
        let offset = index * NODE_SIZE;
        let mut i: usize = 0;
        while i < NODE_SIZE
            invariant
                offset + NODE_SIZE <= TRIE_SIZE,
                self.rounded_path == old(self).rounded_path,
                self.data@.len() == TRIE_SIZE,
                i <= NODE_SIZE,
                forall|j: int|
                    0 <= j < TRIE_SIZE ==> #[trigger] self.data@[j] == if offset <= j < offset + i {
                        0u8
                    } else {
                        old(self).data@[j]
                    },
            decreases NODE_SIZE - i,
        {
            self.data.set(offset + i, 0u8);
            i = i + 1;
        }
        assert(self.data@ =~= clear_node(old(self).data@, index as int));
    }

    fn load_branch_node(&self, index: usize) -> (r: BranchNode)
        requires
            self.wf(),
            index < NODES_PER_TRIE,
        ensures
            r@ == node_at(self.data@, index as int),
    {
        load_branch_node(self.data.as_slice(), index * NODE_SIZE)
    }

    fn save_branch_node(&mut self, index: usize, branch: &BranchNode)
        requires
            old(self).wf(),
            index < NODES_PER_TRIE,
        ensures
            final(self).wf(),
            final(self).rounded_path == old(self).rounded_path,
            final(self).data@ == put_node(old(self).data@, index as int, branch@),
    {
        let offset = index * NODE_SIZE;
        self.save_merge_value(offset, &branch.left);
        self.save_merge_value(offset + MERGE_VALUE_SIZE, &branch.right);
        assert(self.data@ =~= put_node(old(self).data@, index as int, branch@));
    }

    fn save_merge_value(&mut self, offset: usize, merge_value: &MergeValue)
        requires
            old(self).wf(),
            offset + MERGE_VALUE_SIZE <= TRIE_SIZE,
        ensures
            final(self).wf(),
            final(self).rounded_path == old(self).rounded_path,
            final(self).data@ == splice(
                old(self).data@,
                offset as int,
                encode_merge_value(merge_value@),
            ),
    {
        match merge_value {
            MergeValue::Value(value) => {
                self.data.set(offset, 0u8);
                self.data.set(offset + 1, 0u8);
                self.save_h256(offset + 2, value);
                let empty = [0u8; 32];
                assert(empty@ =~= zeros(32));
                self.save_h256(offset + 2 + 32, &empty);
            },
            MergeValue::MergeWithZero { base_node, zero_bits, zero_count } => {
                self.data.set(offset, 1u8);
                self.data.set(offset + 1, *zero_count);
                self.save_h256(offset + 2, base_node);
                self.save_h256(offset + 2 + 32, zero_bits);
            },
        }
        assert(self.data@ =~= splice(
            old(self).data@,
            offset as int,
            encode_merge_value(merge_value@),
        ));
    }

    fn save_h256(&mut self, offset: usize, h: &[u8; 32])
        requires
            old(self).wf(),
            offset + 32 <= TRIE_SIZE,
        ensures
            final(self).wf(),
            final(self).rounded_path == old(self).rounded_path,
            final(self).data@ == splice(old(self).data@, offset as int, h@),
    {
        let mut i: usize = 0;
        while i < 32
            invariant
                offset + 32 <= TRIE_SIZE,
                self.rounded_path == old(self).rounded_path,
                self.data@.len() == TRIE_SIZE,
                h@.len() == 32,
                i <= 32,
                forall|j: int|
                    0 <= j < TRIE_SIZE ==> #[trigger] self.data@[j] == if offset <= j < offset + i {
                        h@[j - offset]
                    } else {
                        old(self).data@[j]
                    },
            decreases 32 - i,
        {
            self.data.set(offset + i, h[i]);
            i = i + 1;
        }
        assert(self.data@ =~= splice(old(self).data@, offset as int, h@));
    }
}

} // verus!
