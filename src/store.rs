//! The packed store: each band of eight levels of branch nodes lives in one
//! record. The caller runs the underlying key-value store: it fetches the
//! record that an operation names, hands it in, and performs the write
//! that the operation returns.

use vstd::prelude::*;
use crate::codec::{pack_key, push_h256, unpack_h256, zeros};
use crate::index::{
    band_key, canonical, lemma_band_slots_distinct, lemma_slot_in_range, round_branch_key,
    same_band, slot_of,
};
use crate::stats::{counted, stats_text, Counters};
use crate::trie::{
    clear_node, empty_node, lemma_clear_node_same, lemma_put_node_other, lemma_put_node_same,
    lemma_zero_slot, node_at, put_node, BranchTrie, TRIE_SIZE,
};
use crate::types::{BranchKey, BranchModel, BranchNode, StoreError};

verus! {

/// The namespace of branch records.
pub const BRANCH_COLUMN: u8 = 0;

/// The namespace of leaf records.
pub const LEAF_COLUMN: u8 = 1;

/// A write that an operation asks of the underlying store.
#[derive(Debug, PartialEq, Eq)]
pub enum StoreOp {
    /// Store `value` under `key` in namespace `column`.
    Put { column: u8, key: Vec<u8>, value: Vec<u8> },
    /// Remove the record under `key` in namespace `column`.
    Delete { column: u8, key: Vec<u8> },
}

/// Mathematical model of a store write.
pub enum OpModel {
    Put { column: u8, key: Seq<u8>, value: Seq<u8> },
    Delete { column: u8, key: Seq<u8> },
}

impl View for StoreOp {
    type V = OpModel;

    open spec fn view(&self) -> OpModel {
        match self {
            StoreOp::Put { column, key, value } => OpModel::Put {
                column: *column,
                key: key@,
                value: value@,
            },
            StoreOp::Delete { column, key } => OpModel::Delete { column: *column, key: key@ },
        }
    }
}

/// The bytes of a fetched record, if there was one.
pub open spec fn record_view(record: Option<&[u8]>) -> Option<Seq<u8>> {
    match record {
        Some(s) => Some(s@),
        None => None,
    }
}

/// A fetched band record that can be read: absent, or of the blob size.
pub open spec fn record_ok(record: Option<Seq<u8>>) -> bool {
    match record {
        Some(d) => d.len() == TRIE_SIZE,
        None => true,
    }
}

/// The model of a read of a branch node.
pub open spec fn branch_result(r: Result<Option<BranchNode>, StoreError>) -> Result<
    Option<BranchModel>,
    StoreError,
> {
    match r {
        Ok(Some(n)) => Ok(Some(n@)),
        Ok(None) => Ok(None),
        Err(e) => Err(e),
    }
}

/// The model of a read of a leaf.
pub open spec fn leaf_result(r: Result<Option<[u8; 32]>, StoreError>) -> Result<
    Option<Seq<u8>>,
    StoreError,
> {
    match r {
        Ok(Some(v)) => Ok(Some(v@)),
        Ok(None) => Ok(None),
        Err(e) => Err(e),
    }
}

/// What reading `k` gives, given the record of its band.
pub open spec fn band_read(k: BranchKey, record: Option<Seq<u8>>) -> Result<
    Option<BranchModel>,
    StoreError,
> {
    match record {
        None => Ok(None),
        Some(d) => if d.len() != TRIE_SIZE {
            Err(StoreError::CorruptedTrie)
        } else {
            Ok(Some(node_at(d, slot_of(k))))
        },
    }
}

/// The band's blob as it stands before a write: the record, or all zero
/// where there is none.
pub open spec fn band_before(record: Option<Seq<u8>>) -> Seq<u8> {
    match record {
        Some(d) => d,
        None => zeros(TRIE_SIZE as nat),
    }
}

/// The band's record after `k` is set to `n`.
pub open spec fn band_after_insert(k: BranchKey, n: BranchModel, record: Option<Seq<u8>>) -> Result<
    Seq<u8>,
    StoreError,
> {
    if record_ok(record) {
        Ok(put_node(band_before(record), slot_of(k), n))
    } else {
        Err(StoreError::CorruptedTrie)
    }
}

/// The band's record after `k` is removed.
pub open spec fn band_after_remove(k: BranchKey, record: Option<Seq<u8>>) -> Result<
    Seq<u8>,
    StoreError,
> {
    if record_ok(record) {
        Ok(clear_node(band_before(record), slot_of(k)))
    } else {
        Err(StoreError::CorruptedTrie)
    }
}

/// What reading a leaf gives, given its record.
pub open spec fn leaf_read(record: Option<Seq<u8>>) -> Result<Option<Seq<u8>>, StoreError> {
    match record {
        None => Ok(None),
        Some(v) => if v.len() != 32 {
            Err(StoreError::CorruptedLeaf)
        } else {
            Ok(Some(v))
        },
    }
}

/// Reads a fetched leaf record.
pub(crate) fn read_leaf(record: Option<&[u8]>) -> (r: Result<Option<[u8; 32]>, StoreError>)
    ensures
        leaf_result(r) == leaf_read(record_view(record)),
{
    match record {
        Some(slice) => match unpack_h256(slice) {
            Ok(leaf) => Ok(Some(leaf)),
            Err(e) => Err(e),
        },
        None => Ok(None),
    }
}

/// The bytes of a 32-byte value.
pub(crate) fn h256_bytes(h: &[u8; 32]) -> (r: Vec<u8>)
    ensures
        r@ == h@,
{
    let mut out: Vec<u8> = Vec::new();
    push_h256(&mut out, h);
    assert(out@ =~= h@);
    out
}

/// Opens the record fetched for a band: absent, or a blob of the right size.
fn load_trie(rounded_path: BranchKey, record: Option<&[u8]>) -> (r: Result<
    Option<BranchTrie>,
    StoreError,
>)
    ensures
        match record_view(record) {
            None => r matches Ok(None),
            Some(d) => if d.len() != TRIE_SIZE {
                r == Err::<Option<BranchTrie>, StoreError>(StoreError::CorruptedTrie)
            } else {
                r matches Ok(Some(t)) && t.wf() && t.data@ == d && t.rounded_path == rounded_path
            },
        },
{
    match record {
        Some(slice) => {
            if slice.len() != TRIE_SIZE {
                return Err(StoreError::CorruptedTrie);
            }
            Ok(Some(BranchTrie { data: vstd::slice::slice_to_vec(slice), rounded_path }))
        },
        None => Ok(None),
    }
}

/// A store that packs each band of branch nodes into one record, and counts
/// the reads and writes it asks of the underlying store.
pub struct TrieStore {
    counters: Counters,
}

impl TrieStore {
    pub closed spec fn spec_reads(&self) -> nat {
        self.counters.spec_reads()
    }

    pub closed spec fn spec_writes(&self) -> nat {
        self.counters.spec_writes()
    }

    pub fn new() -> (r: Self)
        ensures
            r.spec_reads() == 0,
            r.spec_writes() == 0,
    {
        TrieStore { counters: Counters::new() }
    }

    pub fn clear_stats(&mut self)
        ensures
            final(self).spec_reads() == 0,
            final(self).spec_writes() == 0,
    {
        self.counters.clear();
    }

    /// `Reads: <reads>, writes: <writes>`.
    pub fn stats(&self) -> (r: String)
        ensures
            r@ == stats_text(self.spec_reads(), self.spec_writes()),
    {
        self.counters.text()
    }

    pub fn reads(&self) -> (r: usize)
        ensures
            r == self.spec_reads(),
    {
        self.counters.reads()
    }

    pub fn writes(&self) -> (r: usize)
        ensures
            r == self.spec_writes(),
    {
        self.counters.writes()
    }

    /// The key, in the branch namespace, of the record that the branch
    /// operations on `branch_key` read and write.
    pub fn branch_record_key(branch_key: &BranchKey) -> (r: Vec<u8>)
        ensures
            r@ == band_key(*branch_key),
    {
        crate::index::band_record_key(branch_key)
    }

    /// The node at `branch_key`, given the record of its band: none where
    /// the band has no record, an error where the record is not a blob.
    pub fn get_branch(&mut self, branch_key: &BranchKey, record: Option<&[u8]>) -> (r: Result<
        Option<BranchNode>,
        StoreError,
    >)
        ensures
            branch_result(r) == band_read(*branch_key, record_view(record)),
            record is None ==> r matches Ok(None),
            record is Some && record->0@.len() != TRIE_SIZE ==> r == Err::<
                Option<BranchNode>,
                StoreError,
            >(StoreError::CorruptedTrie),
            final(self).spec_reads() == counted(old(self).spec_reads()),
            final(self).spec_writes() == old(self).spec_writes(),
    {
        let rounded_key = round_branch_key(branch_key);
        self.counters.count_read();
        let trie = match load_trie(rounded_key, record) {
            Ok(Some(trie)) => trie,
            Ok(None) => return Ok(None),
            Err(e) => return Err(e),
        };
        Ok(Some(trie.get_branch(branch_key)))
    }

    /// Sets the node at `branch_key`, given the record of its band; returns
    /// the band's new record.
    pub fn insert_branch(
        &mut self,
        branch_key: BranchKey,
        branch: BranchNode,
        record: Option<&[u8]>,
    ) -> (r: Result<StoreOp, StoreError>)
        ensures
            match band_after_insert(branch_key, branch@, record_view(record)) {
                Ok(blob) => r is Ok && r->Ok_0@ == (OpModel::Put {
                    column: BRANCH_COLUMN,
                    key: band_key(branch_key),
                    value: blob,
                }),
                Err(e) => r == Err::<StoreOp, StoreError>(e),
            },
            final(self).spec_reads() == counted(old(self).spec_reads()),
            final(self).spec_writes() == if r is Ok {
                counted(old(self).spec_writes())
            } else {
                old(self).spec_writes()
            },
    {
        let rounded_key = round_branch_key(&branch_key);
        let key = pack_key(&rounded_key);
        self.counters.count_read();
        let mut trie = match load_trie(rounded_key, record) {
            Ok(Some(trie)) => trie,
            Ok(None) => BranchTrie::empty(rounded_key),
            Err(e) => return Err(e),
        };
        trie.insert_branch(&branch_key, &branch);
        self.counters.count_write();
        Ok(StoreOp::Put { column: BRANCH_COLUMN, key, value: trie.data })
    }

    /// Clears the node at `branch_key`, given the record of its band;
    /// returns the band's new record, which is written also when the band
    /// has become empty.
    pub fn remove_branch(&mut self, branch_key: &BranchKey, record: Option<&[u8]>) -> (r: Result<
        StoreOp,
        StoreError,
    >)
        ensures
            match band_after_remove(*branch_key, record_view(record)) {
                Ok(blob) => r is Ok && r->Ok_0@ == (OpModel::Put {
                    column: BRANCH_COLUMN,
                    key: band_key(*branch_key),
                    value: blob,
                }),
                Err(e) => r == Err::<StoreOp, StoreError>(e),
            },
            final(self).spec_reads() == counted(old(self).spec_reads()),
            final(self).spec_writes() == if r is Ok {
                counted(old(self).spec_writes())
            } else {
                old(self).spec_writes()
            },
    {
        let rounded_key = round_branch_key(branch_key);
        let key = pack_key(&rounded_key);
        self.counters.count_read();
        let mut trie = match load_trie(rounded_key, record) {
            Ok(Some(trie)) => trie,
            Ok(None) => BranchTrie::empty(rounded_key),
            Err(e) => return Err(e),
        };
        trie.remove_branch(branch_key);
        self.counters.count_write();
        Ok(StoreOp::Put { column: BRANCH_COLUMN, key, value: trie.data })
    }

    /// The leaf value, given the record fetched under the leaf key in the
    /// leaf namespace: a record of any length but 32 is corrupt.
    pub fn get_leaf(&mut self, record: Option<&[u8]>) -> (r: Result<Option<[u8; 32]>, StoreError>)
        ensures
            leaf_result(r) == leaf_read(record_view(record)),
            final(self).spec_reads() == counted(old(self).spec_reads()),
            final(self).spec_writes() == old(self).spec_writes(),
    {
        self.counters.count_read();
        read_leaf(record)
    }

    /// The write that stores a leaf.
    pub fn insert_leaf(&mut self, leaf_key: [u8; 32], leaf: [u8; 32]) -> (r: StoreOp)
        ensures
            r@ == (OpModel::Put { column: LEAF_COLUMN, key: leaf_key@, value: leaf@ }),
            final(self).spec_reads() == old(self).spec_reads(),
            final(self).spec_writes() == counted(old(self).spec_writes()),
    {
        self.counters.count_write();
        StoreOp::Put { column: LEAF_COLUMN, key: h256_bytes(&leaf_key), value: h256_bytes(&leaf) }
    }

    /// The write that removes a leaf.
    pub fn remove_leaf(&mut self, leaf_key: &[u8; 32]) -> (r: StoreOp)
        ensures
            r@ == (OpModel::Delete { column: LEAF_COLUMN, key: leaf_key@ }),
            final(self).spec_reads() == old(self).spec_reads(),
            final(self).spec_writes() == counted(old(self).spec_writes()),
    {
        self.counters.count_write();
        StoreOp::Delete { column: LEAF_COLUMN, key: h256_bytes(leaf_key) }
    }
}

/// A band that has no record reads as not found; once its record exists
/// as an all-zero blob, each of its nodes reads as the empty node.
pub proof fn lemma_unwritten_read(k: BranchKey)
    ensures
        band_read(k, None) == Ok::<Option<BranchModel>, StoreError>(None),
        band_read(k, Some(zeros(TRIE_SIZE as nat))) == Ok::<Option<BranchModel>, StoreError>(
            Some(empty_node()),
        ),
{
    lemma_slot_in_range(k.height, k.node_key@[(k.height / 8) as int]);
    lemma_zero_slot(zeros(TRIE_SIZE as nat), slot_of(k));
}

/// After a node is set, reading it gives it back.
pub proof fn lemma_write_then_read(k: BranchKey, n: BranchNode, record: Option<Seq<u8>>)
    requires
        record_ok(record),
    ensures
        band_after_insert(k, n@, record) is Ok,
        band_read(k, Some(band_after_insert(k, n@, record)->Ok_0)) == Ok::<
            Option<BranchModel>,
            StoreError,
        >(Some(n@)),
{
    lemma_slot_in_range(k.height, k.node_key@[(k.height / 8) as int]);
    lemma_put_node_same(band_before(record), slot_of(k), n@);
}

/// After a node is removed from a band, reading it gives the empty node,
/// not "not found".
pub proof fn lemma_remove_then_read(k: BranchKey, record: Option<Seq<u8>>)
    requires
        record_ok(record),
    ensures
        band_after_remove(k, record) is Ok,
        band_read(k, Some(band_after_remove(k, record)->Ok_0)) == Ok::<
            Option<BranchModel>,
            StoreError,
        >(Some(empty_node())),
{
    lemma_slot_in_range(k.height, k.node_key@[(k.height / 8) as int]);
    lemma_clear_node_same(band_before(record), slot_of(k));
}

/// Setting two different nodes of one band, one after the other, leaves
/// both readable as set.
pub proof fn lemma_sibling_isolation(
    k1: BranchKey,
    n1: BranchNode,
    k2: BranchKey,
    n2: BranchNode,
    record: Option<Seq<u8>>,
)
    requires
        canonical(k1),
        canonical(k2),
        same_band(k1, k2),
        k1 != k2,
        record_ok(record),
    ensures
        ({
            let first = band_after_insert(k1, n1@, record);
            let second = band_after_insert(k2, n2@, Some(first->Ok_0));
            &&& first is Ok
            &&& second is Ok
            &&& band_read(k1, Some(second->Ok_0)) == Ok::<Option<BranchModel>, StoreError>(
                Some(n1@),
            )
            &&& band_read(k2, Some(second->Ok_0)) == Ok::<Option<BranchModel>, StoreError>(
                Some(n2@),
            )
        }),
{
    lemma_slot_in_range(k1.height, k1.node_key@[(k1.height / 8) as int]);
    lemma_slot_in_range(k2.height, k2.node_key@[(k2.height / 8) as int]);
    lemma_band_slots_distinct(k1, k2);
    let d = band_before(record);
    lemma_put_node_same(d, slot_of(k1), n1@);
    let d1 = put_node(d, slot_of(k1), n1@);
    lemma_put_node_same(d1, slot_of(k2), n2@);
    lemma_put_node_other(d1, slot_of(k2), slot_of(k1), n2@);
}

/// A band record or a leaf record of the wrong length reads as corrupt.
pub proof fn lemma_corrupt_records(k: BranchKey, record: Seq<u8>)
    ensures
        record.len() != TRIE_SIZE ==> band_read(k, Some(record)) == Err::<
            Option<BranchModel>,
            StoreError,
        >(StoreError::CorruptedTrie),
        record.len() != TRIE_SIZE ==> band_after_insert(k, empty_node(), Some(record)) is Err,
        record.len() != 32 ==> leaf_read(Some(record)) == Err::<Option<Seq<u8>>, StoreError>(
            StoreError::CorruptedLeaf,
        ),
{
}

} // verus!
