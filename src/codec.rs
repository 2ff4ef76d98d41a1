//! Fixed-width byte encoding of merge values, branch nodes and branch keys.

use vstd::prelude::*;
use crate::types::{BranchKey, BranchModel, BranchNode, MergeModel, MergeValue, StoreError};

verus! {

broadcast use vstd::array::group_array_axioms;

/// Bytes of one encoded merge value: tag, zero count, base and zero bits.
pub const MERGE_VALUE_SIZE: usize = 66;

/// Bytes of one encoded branch node: two merge values.
pub const NODE_SIZE: usize = 132;

/// Bytes of one encoded branch key: height and path.
pub const KEY_SIZE: usize = 33;

/// `n` zero bytes.
pub open spec fn zeros(n: nat) -> Seq<u8> {
    Seq::new(n, |i: int| 0u8)
}

/// The encoding of a merge value.
pub open spec fn encode_merge_value(m: MergeModel) -> Seq<u8> {
    match m {
        MergeModel::Value { value } => seq![0u8, 0u8] + value + zeros(32),
        MergeModel::MergeWithZero { base_node, zero_bits, zero_count } => seq![1u8, zero_count]
            + base_node + zero_bits,
    }
}

/// What a 66-byte record decodes to: tag 1 is a merge with zero, any
/// other tag a plain value.
pub open spec fn decode_merge_value(s: Seq<u8>) -> MergeModel {
    if s[0] == 1 {
        MergeModel::MergeWithZero {
            base_node: s.subrange(2, 34),
            zero_bits: s.subrange(34, 66),
            zero_count: s[1],
        }
    } else {
        MergeModel::Value { value: s.subrange(2, 34) }
    }
}

/// The encoding of a branch node: left, then right.
pub open spec fn encode_branch(b: BranchModel) -> Seq<u8> {
    encode_merge_value(b.left) + encode_merge_value(b.right)
}

pub open spec fn decode_branch(s: Seq<u8>) -> BranchModel {
    BranchModel {
        left: decode_merge_value(s.subrange(0, 66)),
        right: decode_merge_value(s.subrange(66, 132)),
    }
}

/// The encoding of a branch key: the height byte, then the 32 path bytes.
pub open spec fn encode_key(k: BranchKey) -> Seq<u8> {
    seq![k.height] + k.node_key@
}

/// Decoding an encoded merge value gives it back.
pub proof fn lemma_merge_value_round_trip(m: MergeModel)
    requires
        m.wf(),
    ensures
        encode_merge_value(m).len() == MERGE_VALUE_SIZE,
        decode_merge_value(encode_merge_value(m)) == m,
{
    let e = encode_merge_value(m);
    match m {
        MergeModel::Value { value } => {
            assert(e.subrange(2, 34) =~= value);
        },
        MergeModel::MergeWithZero { base_node, zero_bits, zero_count } => {
            assert(e.subrange(2, 34) =~= base_node);
            assert(e.subrange(34, 66) =~= zero_bits);
        },
    }
}

/// Decoding an encoded branch node gives it back.
pub proof fn lemma_branch_round_trip(b: BranchModel)
    requires
        b.wf(),
    ensures
        encode_branch(b).len() == NODE_SIZE,
        decode_branch(encode_branch(b)) == b,
{
    lemma_merge_value_round_trip(b.left);
    lemma_merge_value_round_trip(b.right);
    let e = encode_branch(b);
    assert(e.subrange(0, 66) =~= encode_merge_value(b.left));
    assert(e.subrange(66, 132) =~= encode_merge_value(b.right));
}

/// Appends the 32 bytes of `h`.
pub(crate) fn push_h256(out: &mut Vec<u8>, h: &[u8; 32])
    ensures
        final(out)@ == old(out)@ + h@,
{
    let mut i: usize = 0;
    while i < 32
        invariant
            i <= 32,
            out@ == old(out)@ + h@.subrange(0, i as int),
        decreases 32 - i,
    {
        out.push(h[i]);
        i = i + 1;
        assert(h@.subrange(0, i as int) =~= h@.subrange(0, i - 1) + seq![h@[i - 1]]);
    }
    assert(h@.subrange(0, 32) =~= h@);
}

/// Copies 32 bytes of `bytes` from `offset` on.
pub(crate) fn load_h256(bytes: &[u8], offset: usize) -> (r: [u8; 32])
    requires
        offset + 32 <= bytes@.len(),
    ensures
        r@ == bytes@.subrange(offset as int, offset + 32),
{
    let mut buf = [0u8; 32];
    let mut i: usize = 0;
    while i < 32
        invariant
            i <= 32,
            offset + 32 <= bytes.len(),
            buf@.len() == 32,
            forall|j: int| 0 <= j < i ==> buf@[j] == bytes@[offset + j],
        decreases 32 - i,
    {
        buf[i] = bytes[offset + i];
        i = i + 1;
    }
    assert(buf@ =~= bytes@.subrange(offset as int, offset + 32));
    buf
}

/// Reads the merge value encoded at `offset`.
pub(crate) fn load_merge_value(bytes: &[u8], offset: usize) -> (r: MergeValue)
    requires
        offset + MERGE_VALUE_SIZE <= bytes@.len(),
    ensures
        r@ == decode_merge_value(bytes@.subrange(offset as int, offset + MERGE_VALUE_SIZE)),
{
    let ghost s = bytes@.subrange(offset as int, offset + MERGE_VALUE_SIZE);
    if bytes[offset] == 1 {
        let base_node = load_h256(bytes, offset + 2);
        let zero_bits = load_h256(bytes, offset + 2 + 32);
        assert(base_node@ =~= s.subrange(2, 34));
        assert(zero_bits@ =~= s.subrange(34, 66));
        MergeValue::MergeWithZero { base_node, zero_bits, zero_count: bytes[offset + 1] }
    } else {
        let value = load_h256(bytes, offset + 2);
        assert(value@ =~= s.subrange(2, 34));
        MergeValue::Value(value)
    }
}

/// Reads the branch node encoded at `offset`.
pub(crate) fn load_branch_node(bytes: &[u8], offset: usize) -> (r: BranchNode)
    requires
        offset + NODE_SIZE <= bytes.len(),
    ensures
        r@ == decode_branch(bytes@.subrange(offset as int, offset + NODE_SIZE)),
{
    let ghost s = bytes@.subrange(offset as int, offset + NODE_SIZE);
    let left = load_merge_value(bytes, offset);
    let right = load_merge_value(bytes, offset + MERGE_VALUE_SIZE);
    assert(s.subrange(0, 66) =~= bytes@.subrange(offset as int, offset + 66));
    assert(s.subrange(66, 132) =~= bytes@.subrange(offset + 66, offset + 132));
    BranchNode { left, right }
}

/// Encodes a merge value into its 66 bytes.
pub fn pack_merge_value(value: &MergeValue) -> (r: Vec<u8>)
    ensures
        r@ == encode_merge_value(value@),
        r@.len() == MERGE_VALUE_SIZE,
{
    let mut out: Vec<u8> = Vec::new();
    match value {
        MergeValue::Value(v) => {
            out.push(0u8);
            out.push(0u8);
            push_h256(&mut out, v);
            let empty = [0u8; 32];
            assert(empty@ =~= zeros(32));
            push_h256(&mut out, &empty);
        },
        MergeValue::MergeWithZero { base_node, zero_bits, zero_count } => {
            out.push(1u8);
            out.push(*zero_count);
            push_h256(&mut out, base_node);
            push_h256(&mut out, zero_bits);
        },
    }
    assert(out@ =~= encode_merge_value(value@));
    out
}

/// Decodes a merge value; a record of any length but 66 is corrupt.
pub fn unpack_merge_value(bytes: &[u8]) -> (r: Result<MergeValue, StoreError>)
    ensures
        bytes@.len() == MERGE_VALUE_SIZE <==> r is Ok,
        r is Err ==> r->Err_0 == StoreError::CorruptedMergeValue,
        r is Ok ==> r->Ok_0@ == decode_merge_value(bytes@),
{
    if bytes.len() != MERGE_VALUE_SIZE {
        return Err(StoreError::CorruptedMergeValue);
    }
    let v = load_merge_value(bytes, 0);
    assert(bytes@.subrange(0, 66) =~= bytes@);
    Ok(v)
}

/// Encodes a branch node into its 132 bytes.
pub fn pack_branch(branch: &BranchNode) -> (r: Vec<u8>)
    ensures
        r@ == encode_branch(branch@),
        r@.len() == NODE_SIZE,
{
    let mut out = pack_merge_value(&branch.left);
    let mut right = pack_merge_value(&branch.right);
    out.append(&mut right);
    out
}

/// Decodes a branch node; a record of any length but 132 is corrupt.
pub fn unpack_branch(bytes: &[u8]) -> (r: Result<BranchNode, StoreError>)
    ensures
        bytes@.len() == NODE_SIZE <==> r is Ok,
        r is Err ==> r->Err_0 == StoreError::CorruptedBranch,
        r is Ok ==> r->Ok_0@ == decode_branch(bytes@),
{
    if bytes.len() != NODE_SIZE {
        return Err(StoreError::CorruptedBranch);
    }
    let b = load_branch_node(bytes, 0);
    assert(bytes@.subrange(0, 132) =~= bytes@);
    Ok(b)
}

/// Reads a 32-byte value; a record of any other length is corrupt.
pub fn unpack_h256(bytes: &[u8]) -> (r: Result<[u8; 32], StoreError>)
    ensures
        bytes@.len() == 32 <==> r is Ok,
        r is Err ==> r->Err_0 == StoreError::CorruptedLeaf,
        r is Ok ==> r->Ok_0@ == bytes@,
{
    if bytes.len() != 32 {
        return Err(StoreError::CorruptedLeaf);
    }
    let h = load_h256(bytes, 0);
    assert(bytes@.subrange(0, 32) =~= bytes@);
    Ok(h)
}

/// Encodes a branch key into its 33 bytes.
pub fn pack_key(key: &BranchKey) -> (r: Vec<u8>)
    ensures
        r@ == encode_key(*key),
        r@.len() == KEY_SIZE,
{
    let mut out: Vec<u8> = Vec::new();
    out.push(key.height);
    push_h256(&mut out, &key.node_key);
    assert(out@ =~= encode_key(*key));
    out
}

} // verus!
