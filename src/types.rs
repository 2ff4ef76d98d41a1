//! The values that the storage layer keeps: merge values, branch nodes,
//! branch keys, and their mathematical models.

use vstd::prelude::*;

verus! {

/// The value attached to one child edge of a branch node.
#[derive(Clone, Copy, Debug, PartialEq, Eq)]
pub enum MergeValue {
    /// A 256-bit value that is hashed as it is.
    Value([u8; 32]),
    /// A subtree that is all zero below a point.
    MergeWithZero { base_node: [u8; 32], zero_bits: [u8; 32], zero_count: u8 },
}

/// The two children of one internal tree position.
#[derive(Clone, Copy, Debug, PartialEq, Eq)]
pub struct BranchNode {
    pub left: MergeValue,
    pub right: MergeValue,
}

/// A branch node's identity: its height and the path leading to it.
#[derive(Clone, Copy, Debug, PartialEq, Eq)]
pub struct BranchKey {
    pub height: u8,
    pub node_key: [u8; 32],
}

/// Mathematical model of a merge value: its 32-byte fields as sequences.
pub enum MergeModel {
    Value { value: Seq<u8> },
    MergeWithZero { base_node: Seq<u8>, zero_bits: Seq<u8>, zero_count: u8 },
}

/// Mathematical model of a branch node.
pub struct BranchModel {
    pub left: MergeModel,
    pub right: MergeModel,
}

impl View for MergeValue {
    type V = MergeModel;

    open spec fn view(&self) -> MergeModel {
        match *self {
            MergeValue::Value(v) => MergeModel::Value { value: v@ },
            MergeValue::MergeWithZero { base_node, zero_bits, zero_count } => MergeModel::MergeWithZero {
                base_node: base_node@,
                zero_bits: zero_bits@,
                zero_count,
            },
        }
    }
}

impl View for BranchNode {
    type V = BranchModel;

    open spec fn view(&self) -> BranchModel {
        BranchModel { left: self.left@, right: self.right@ }
    }
}

impl MergeModel {
    /// Every 256-bit field holds exactly 32 bytes.
    pub open spec fn wf(self) -> bool {
        match self {
            MergeModel::Value { value } => value.len() == 32,
            MergeModel::MergeWithZero { base_node, zero_bits, .. } => base_node.len() == 32
                && zero_bits.len() == 32,
        }
    }
}

impl BranchModel {
    pub open spec fn wf(self) -> bool {
        self.left.wf() && self.right.wf()
    }
}

/// What goes wrong when a stored record cannot be read.
#[derive(Clone, Copy, Debug, PartialEq, Eq)]
pub enum StoreError {
    /// A packed subtree record whose length is not the fixed blob size.
    CorruptedTrie,
    /// A single branch record whose length is not the fixed node size.
    CorruptedBranch,
    /// A merge value record whose length is not the fixed size.
    CorruptedMergeValue,
    /// A leaf record whose length is not 32 bytes.
    CorruptedLeaf,
}

} // verus!
