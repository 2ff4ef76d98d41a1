use smt_trie_store::trie::TRIE_SIZE;
use smt_trie_store::{
    pack_branch, pack_key, BranchKey, BranchNode, CountingStore, MergeValue, StoreError, StoreOp,
    TrieStore, BRANCH_COLUMN, LEAF_COLUMN,
};

fn node(seed: u8) -> BranchNode {
    BranchNode {
        left: MergeValue::Value([seed; 32]),
        right: MergeValue::MergeWithZero {
            base_node: [seed.wrapping_add(1); 32],
            zero_bits: [seed.wrapping_add(2); 32],
            zero_count: seed,
        },
    }
}

fn empty_node() -> BranchNode {
    BranchNode { left: MergeValue::Value([0u8; 32]), right: MergeValue::Value([0u8; 32]) }
}

fn put_value(op: StoreOp) -> Vec<u8> {
    match op {
        StoreOp::Put { column, value, .. } => {
            assert_eq!(column, BRANCH_COLUMN);
            value
        }
        StoreOp::Delete { .. } => panic!("expected a put"),
    }
}

fn key(height: u8, fill: u8, dir: u8) -> BranchKey {
    let mut node_key = [fill; 32];
    let byte = (height / 8) as usize;
    for b in node_key.iter_mut().take(byte) {
        *b = 0;
    }
    node_key[byte] = dir;
    BranchKey { height, node_key }
}

#[test]
fn unwritten_band_reads_as_not_found() {
    let mut store = TrieStore::new();
    assert_eq!(store.get_branch(&key(10, 3, 0), None), Ok(None));
    assert_eq!(store.reads(), 1);
    assert_eq!(store.writes(), 0);
}

#[test]
fn unwritten_slot_of_existing_blob_reads_as_empty_node() {
    let mut store = TrieStore::new();
    let k1 = key(10, 3, 0b1000_0000);
    let k2 = key(9, 3, 0b0100_0000);
    let blob = put_value(store.insert_branch(k1, node(5), None).unwrap());
    assert_eq!(store.get_branch(&k2, Some(&blob[..])), Ok(Some(empty_node())));
    let zero = vec![0u8; TRIE_SIZE];
    assert_eq!(store.get_branch(&k1, Some(&zero[..])), Ok(Some(empty_node())));
}

#[test]
fn write_then_read() {
    let mut store = TrieStore::new();
    let k = key(42, 9, 0b1100_0000);
    let op = store.insert_branch(k, node(7), None).unwrap();
    match &op {
        StoreOp::Put { column, key: record_key, value } => {
            assert_eq!(*column, BRANCH_COLUMN);
            assert_eq!(record_key, &TrieStore::branch_record_key(&k));
            assert_eq!(value.len(), TRIE_SIZE);
        }
        StoreOp::Delete { .. } => panic!("expected a put"),
    }
    let blob = put_value(op);
    assert_eq!(store.get_branch(&k, Some(&blob[..])), Ok(Some(node(7))));
    assert_eq!(store.reads(), 2);
    assert_eq!(store.writes(), 1);
}

#[test]
fn band_record_key_is_rounded_key() {
    let k = key(42, 9, 0b1100_0000);
    let rk = TrieStore::branch_record_key(&k);
    let mut expected_path = [9u8; 32];
    for b in expected_path.iter_mut().take(6) {
        *b = 0;
    }
    assert_eq!(rk, pack_key(&BranchKey { height: 47, node_key: expected_path }));
}

#[test]
fn remove_then_read_gives_empty_node() {
    let mut store = TrieStore::new();
    let k = key(20, 1, 0b1110_0000);
    let blob = put_value(store.insert_branch(k, node(11), None).unwrap());
    let blob = put_value(store.remove_branch(&k, Some(&blob[..])).unwrap());
    assert_eq!(blob.len(), TRIE_SIZE);
    assert_eq!(store.get_branch(&k, Some(&blob[..])), Ok(Some(empty_node())));
    let fresh = put_value(store.remove_branch(&k, None).unwrap());
    assert_eq!(fresh, vec![0u8; TRIE_SIZE]);
}

#[test]
fn siblings_in_one_band_stay_apart() {
    let mut store = TrieStore::new();
    let k1 = key(16, 4, 0b0000_0010);
    let k2 = key(16, 4, 0b0000_0100);
    let k3 = key(23, 4, 0);
    assert_eq!(TrieStore::branch_record_key(&k1), TrieStore::branch_record_key(&k2));
    assert_eq!(TrieStore::branch_record_key(&k1), TrieStore::branch_record_key(&k3));
    let blob = put_value(store.insert_branch(k1, node(1), None).unwrap());
    let blob = put_value(store.insert_branch(k2, node(2), Some(&blob[..])).unwrap());
    let blob = put_value(store.insert_branch(k3, node(3), Some(&blob[..])).unwrap());
    assert_eq!(store.get_branch(&k1, Some(&blob[..])), Ok(Some(node(1))));
    assert_eq!(store.get_branch(&k2, Some(&blob[..])), Ok(Some(node(2))));
    assert_eq!(store.get_branch(&k3, Some(&blob[..])), Ok(Some(node(3))));
}

#[test]
fn corrupt_band_record_is_rejected() {
    let mut store = TrieStore::new();
    let k = key(5, 0, 0);
    let short = vec![0u8; TRIE_SIZE - 1];
    let long = vec![0u8; TRIE_SIZE + 1];
    assert_eq!(store.get_branch(&k, Some(&short[..])), Err(StoreError::CorruptedTrie));
    assert_eq!(store.insert_branch(k, node(1), Some(&long[..])), Err(StoreError::CorruptedTrie));
    assert_eq!(store.remove_branch(&k, Some(&[0u8; 0][..])), Err(StoreError::CorruptedTrie));
    assert_eq!(store.reads(), 3);
    assert_eq!(store.writes(), 0);
}

#[test]
fn leaves_pass_through() {
    let mut store = TrieStore::new();
    let op = store.insert_leaf([1u8; 32], [2u8; 32]);
    assert_eq!(
        op,
        StoreOp::Put { column: LEAF_COLUMN, key: vec![1u8; 32], value: vec![2u8; 32] }
    );
    assert_eq!(store.get_leaf(Some(&[2u8; 32][..])), Ok(Some([2u8; 32])));
    assert_eq!(store.get_leaf(None), Ok(None));
    assert_eq!(store.get_leaf(Some(&[2u8; 31][..])), Err(StoreError::CorruptedLeaf));
    assert_eq!(
        store.remove_leaf(&[1u8; 32]),
        StoreOp::Delete { column: LEAF_COLUMN, key: vec![1u8; 32] }
    );
    assert_eq!(store.stats(), "Reads: 3, writes: 2");
    store.clear_stats();
    assert_eq!(store.stats(), "Reads: 0, writes: 0");
}

#[test]
fn stats_text_counts_in_decimal() {
    let mut store = TrieStore::new();
    for _ in 0..1234 {
        let _ = store.get_leaf(None);
    }
    for _ in 0..10 {
        let _ = store.insert_leaf([0u8; 32], [0u8; 32]);
    }
    assert_eq!(store.stats(), "Reads: 1234, writes: 10");
}

#[test]
fn direct_store_keeps_one_record_per_node() {
    let mut store = CountingStore::new();
    let k = key(100, 6, 0);
    let op = store.insert_branch(k, node(4));
    assert_eq!(
        op,
        StoreOp::Put { column: BRANCH_COLUMN, key: pack_key(&k), value: pack_branch(&node(4)) }
    );
    assert_eq!(CountingStore::branch_record_key(&k), pack_key(&k));
    let enc = pack_branch(&node(4));
    assert_eq!(store.get_branch(Some(&enc[..])), Ok(Some(node(4))));
    assert_eq!(store.get_branch(None), Ok(None));
    assert_eq!(store.get_branch(Some(&enc[..100])), Err(StoreError::CorruptedBranch));
    assert_eq!(
        store.remove_branch(&k),
        StoreOp::Delete { column: BRANCH_COLUMN, key: pack_key(&k) }
    );
    assert_eq!(store.get_leaf(Some(&[7u8; 32][..])), Ok(Some([7u8; 32])));
    assert_eq!(store.stats(), "Reads: 4, writes: 2");
}
