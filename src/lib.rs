//! Storage layout for a sparse Merkle tree that packs every band of eight
//! tree levels into one fixed-size record of a key-value store.

pub mod codec;
pub mod direct;
pub mod index;
pub mod stats;
pub mod store;
pub mod trie;
pub mod types;

pub use codec::{
    pack_branch, pack_key, pack_merge_value, unpack_branch, unpack_h256, unpack_merge_value,
};
pub use direct::CountingStore;
pub use index::{calculate_index, round_branch_key};
pub use store::{StoreOp, TrieStore, BRANCH_COLUMN, LEAF_COLUMN};
pub use types::{BranchKey, BranchNode, MergeValue, StoreError};
