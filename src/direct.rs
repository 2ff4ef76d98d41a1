//! The direct store: every branch node is a record of its own, keyed by its
//! height and path. It serves as the baseline that the packed store is
//! measured against.

use vstd::prelude::*;
use crate::codec::{
    decode_branch, encode_branch, encode_key, lemma_branch_round_trip, pack_branch, pack_key,
    unpack_branch, NODE_SIZE,
};
use crate::stats::{counted, stats_text, Counters};
use crate::store::{
    branch_result, h256_bytes, leaf_read, leaf_result, read_leaf, record_view, OpModel, StoreOp,
    BRANCH_COLUMN, LEAF_COLUMN,
};
use crate::types::{BranchKey, BranchModel, BranchNode, StoreError};

verus! {

/// What reading a node gives, given its own record.
pub open spec fn direct_read(record: Option<Seq<u8>>) -> Result<Option<BranchModel>, StoreError> {
    match record {
        None => Ok(None),
        Some(d) => if d.len() != NODE_SIZE {
            Err(StoreError::CorruptedBranch)
        } else {
            Ok(Some(decode_branch(d)))
        },
    }
}

/// A store that keeps one record per branch node, and counts the reads and
/// writes it asks of the underlying store.
pub struct CountingStore {
    counters: Counters,
}

impl CountingStore {
    pub closed spec fn spec_reads(&self) -> nat {
        self.counters.spec_reads()
    }

    pub closed spec fn spec_writes(&self) -> nat {
        self.counters.spec_writes()
    }

    pub fn new() -> (r: Self)
        ensures
            r.spec_reads() == 0,
            r.spec_writes() == 0,
    {
        CountingStore { counters: Counters::new() }
    }

    /// `Reads: <reads>, writes: <writes>`.
    pub fn stats(&self) -> (r: String)
        ensures
            r@ == stats_text(self.spec_reads(), self.spec_writes()),
    {
        self.counters.text()
    }

    pub fn reads(&self) -> (r: usize)
        ensures
            r == self.spec_reads(),
    {
        self.counters.reads()
    }

    pub fn writes(&self) -> (r: usize)
        ensures
            r == self.spec_writes(),
    {
        self.counters.writes()
    }

    /// The key, in the branch namespace, of the record of `branch_key`.
    pub fn branch_record_key(branch_key: &BranchKey) -> (r: Vec<u8>)
        ensures
            r@ == encode_key(*branch_key),
    {
        pack_key(branch_key)
    }

    /// The node, given its record: none where there is no record, an error
    /// where the record is not an encoded node.
    pub fn get_branch(&mut self, record: Option<&[u8]>) -> (r: Result<
        Option<BranchNode>,
        StoreError,
    >)
        ensures
            branch_result(r) == direct_read(record_view(record)),
            final(self).spec_reads() == counted(old(self).spec_reads()),
            final(self).spec_writes() == old(self).spec_writes(),
    {
        self.counters.count_read();
        match record {
            Some(slice) => match unpack_branch(slice) {
                Ok(branch) => Ok(Some(branch)),
                Err(e) => Err(e),
            },
            None => Ok(None),
        }
    }

    /// The write that stores the node at `branch_key`.
    pub fn insert_branch(&mut self, branch_key: BranchKey, branch: BranchNode) -> (r: StoreOp)
        ensures
            r@ == (OpModel::Put {
                column: BRANCH_COLUMN,
                key: encode_key(branch_key),
                value: encode_branch(branch@),
            }),
            final(self).spec_reads() == old(self).spec_reads(),
            final(self).spec_writes() == counted(old(self).spec_writes()),
    {
        let key = pack_key(&branch_key);
        let value = pack_branch(&branch);
        self.counters.count_write();
        StoreOp::Put { column: BRANCH_COLUMN, key, value }
    }

    /// The write that removes the node at `branch_key`.
    pub fn remove_branch(&mut self, branch_key: &BranchKey) -> (r: StoreOp)
        ensures
            r@ == (OpModel::Delete { column: BRANCH_COLUMN, key: encode_key(*branch_key) }),
            final(self).spec_reads() == old(self).spec_reads(),
            final(self).spec_writes() == counted(old(self).spec_writes()),
    {
        let key = pack_key(branch_key);
        self.counters.count_write();
        StoreOp::Delete { column: BRANCH_COLUMN, key }
    }

    /// The leaf value, given its record: a record of any length but 32 is
    /// corrupt.
    pub fn get_leaf(&mut self, record: Option<&[u8]>) -> (r: Result<Option<[u8; 32]>, StoreError>)
        ensures
            leaf_result(r) == leaf_read(record_view(record)),
            final(self).spec_reads() == counted(old(self).spec_reads()),
            final(self).spec_writes() == old(self).spec_writes(),
    {
        self.counters.count_read();
        read_leaf(record)
    }

    /// The write that stores a leaf.
    pub fn insert_leaf(&mut self, leaf_key: [u8; 32], leaf: [u8; 32]) -> (r: StoreOp)
        ensures
            r@ == (OpModel::Put { column: LEAF_COLUMN, key: leaf_key@, value: leaf@ }),
            final(self).spec_reads() == old(self).spec_reads(),
            final(self).spec_writes() == counted(old(self).spec_writes()),
    {
        self.counters.count_write();
        StoreOp::Put { column: LEAF_COLUMN, key: h256_bytes(&leaf_key), value: h256_bytes(&leaf) }
    }

    /// The write that removes a leaf.
    pub fn remove_leaf(&mut self, leaf_key: &[u8; 32]) -> (r: StoreOp)
        ensures
            r@ == (OpModel::Delete { column: LEAF_COLUMN, key: leaf_key@ }),
            final(self).spec_reads() == old(self).spec_reads(),
            final(self).spec_writes() == counted(old(self).spec_writes()),
    {
        self.counters.count_write();
        StoreOp::Delete { column: LEAF_COLUMN, key: h256_bytes(leaf_key) }
    }
}

/// In the direct store too, a node reads back as it was written.
pub proof fn lemma_direct_write_then_read(n: BranchNode)
    ensures
        direct_read(Some(encode_branch(n@))) == Ok::<Option<BranchModel>, StoreError>(Some(n@)),
{
    lemma_branch_round_trip(n@);
}

} // verus!
