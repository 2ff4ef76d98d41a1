use rand_chacha::rand_core::{RngCore, SeedableRng};
use rand_chacha::ChaCha20Rng;
use smt_trie_store::{
    BranchKey, BranchNode, CountingStore, MergeValue, StoreError, StoreOp, TrieStore,
    BRANCH_COLUMN, LEAF_COLUMN,
};
use sparse_merkle_tree::blake2b::Blake2bHasher;
use sparse_merkle_tree::error::Error as SmtError;
use sparse_merkle_tree::merge::MergeValue as SmtMergeValue;
use sparse_merkle_tree::traits::{StoreReadOps, StoreWriteOps};
use sparse_merkle_tree::{
    BranchKey as SmtBranchKey, BranchNode as SmtBranchNode, SparseMerkleTree, H256,
};
use std::cell::RefCell;
use std::collections::BTreeMap;

type Db = BTreeMap<(u8, Vec<u8>), Vec<u8>>;

fn lib_value(v: &SmtMergeValue) -> MergeValue {
    match v {
        SmtMergeValue::Value(h) => MergeValue::Value((*h).into()),
        SmtMergeValue::MergeWithZero { base_node, zero_bits, zero_count } => {
            MergeValue::MergeWithZero {
                base_node: (*base_node).into(),
                zero_bits: (*zero_bits).into(),
                zero_count: *zero_count,
            }
        }
    }
}

fn smt_value(v: &MergeValue) -> SmtMergeValue {
    match v {
        MergeValue::Value(h) => SmtMergeValue::Value(H256::from(*h)),
        MergeValue::MergeWithZero { base_node, zero_bits, zero_count } => {
            SmtMergeValue::MergeWithZero {
                base_node: H256::from(*base_node),
                zero_bits: H256::from(*zero_bits),
                zero_count: *zero_count,
            }
        }
    }
}

fn lib_key(k: &SmtBranchKey) -> BranchKey {
    BranchKey { height: k.height, node_key: k.node_key.into() }
}

fn lib_node(n: &SmtBranchNode) -> BranchNode {
    BranchNode { left: lib_value(&n.left), right: lib_value(&n.right) }
}

fn smt_node(n: BranchNode) -> SmtBranchNode {
    SmtBranchNode { left: smt_value(&n.left), right: smt_value(&n.right) }
}

fn smt_err(e: StoreError) -> SmtError {
    SmtError::Store(format!("{:?}", e))
}

fn apply(db: &RefCell<Db>, op: StoreOp) {
    match op {
        StoreOp::Put { column, key, value } => {
            db.borrow_mut().insert((column, key), value);
        }
        StoreOp::Delete { column, key } => {
            db.borrow_mut().remove(&(column, key));
        }
    }
}

fn fetch(db: &RefCell<Db>, column: u8, key: Vec<u8>) -> Option<Vec<u8>> {
    db.borrow().get(&(column, key)).cloned()
}

struct Packed<'a> {
    db: &'a RefCell<Db>,
    store: RefCell<TrieStore>,
}

impl StoreReadOps<H256> for Packed<'_> {
    fn get_branch(&self, branch_key: &SmtBranchKey) -> Result<Option<SmtBranchNode>, SmtError> {
        let key = lib_key(branch_key);
        let record = fetch(self.db, BRANCH_COLUMN, TrieStore::branch_record_key(&key));
        let r = self.store.borrow_mut().get_branch(&key, record.as_deref());
        r.map(|n| n.map(smt_node)).map_err(smt_err)
    }

    fn get_leaf(&self, leaf_key: &H256) -> Result<Option<H256>, SmtError> {
        let record = fetch(self.db, LEAF_COLUMN, leaf_key.as_slice().to_vec());
        let r = self.store.borrow_mut().get_leaf(record.as_deref());
        r.map(|v| v.map(H256::from)).map_err(smt_err)
    }
}

impl StoreWriteOps<H256> for Packed<'_> {
    fn insert_branch(&mut self, node_key: SmtBranchKey, branch: SmtBranchNode) -> Result<(), SmtError> {
        let key = lib_key(&node_key);
        let record = fetch(self.db, BRANCH_COLUMN, TrieStore::branch_record_key(&key));
        let op = self.store.borrow_mut().insert_branch(key, lib_node(&branch), record.as_deref());
        apply(self.db, op.map_err(smt_err)?);
        Ok(())
    }

    fn insert_leaf(&mut self, leaf_key: H256, leaf: H256) -> Result<(), SmtError> {
        let op = self.store.borrow_mut().insert_leaf(leaf_key.into(), leaf.into());
        apply(self.db, op);
        Ok(())
    }

    fn remove_branch(&mut self, node_key: &SmtBranchKey) -> Result<(), SmtError> {
        let key = lib_key(node_key);
        let record = fetch(self.db, BRANCH_COLUMN, TrieStore::branch_record_key(&key));
        let op = self.store.borrow_mut().remove_branch(&key, record.as_deref());
        apply(self.db, op.map_err(smt_err)?);
        Ok(())
    }

    fn remove_leaf(&mut self, leaf_key: &H256) -> Result<(), SmtError> {
        let op = self.store.borrow_mut().remove_leaf(&(*leaf_key).into());
        apply(self.db, op);
        Ok(())
    }
}

struct Direct<'a> {
    db: &'a RefCell<Db>,
    store: RefCell<CountingStore>,
}

impl StoreReadOps<H256> for Direct<'_> {
    fn get_branch(&self, branch_key: &SmtBranchKey) -> Result<Option<SmtBranchNode>, SmtError> {
        let key = lib_key(branch_key);
        let record = fetch(self.db, BRANCH_COLUMN, CountingStore::branch_record_key(&key));
        let r = self.store.borrow_mut().get_branch(record.as_deref());
        r.map(|n| n.map(smt_node)).map_err(smt_err)
    }

    fn get_leaf(&self, leaf_key: &H256) -> Result<Option<H256>, SmtError> {
        let record = fetch(self.db, LEAF_COLUMN, leaf_key.as_slice().to_vec());
        let r = self.store.borrow_mut().get_leaf(record.as_deref());
        r.map(|v| v.map(H256::from)).map_err(smt_err)
    }
}

impl StoreWriteOps<H256> for Direct<'_> {
    fn insert_branch(&mut self, node_key: SmtBranchKey, branch: SmtBranchNode) -> Result<(), SmtError> {
        let op = self.store.borrow_mut().insert_branch(lib_key(&node_key), lib_node(&branch));
        apply(self.db, op);
        Ok(())
    }

    fn insert_leaf(&mut self, leaf_key: H256, leaf: H256) -> Result<(), SmtError> {
        let op = self.store.borrow_mut().insert_leaf(leaf_key.into(), leaf.into());
        apply(self.db, op);
        Ok(())
    }

    fn remove_branch(&mut self, node_key: &SmtBranchKey) -> Result<(), SmtError> {
        let op = self.store.borrow_mut().remove_branch(&lib_key(node_key));
        apply(self.db, op);
        Ok(())
    }

    fn remove_leaf(&mut self, leaf_key: &H256) -> Result<(), SmtError> {
        let op = self.store.borrow_mut().remove_leaf(&(*leaf_key).into());
        apply(self.db, op);
        Ok(())
    }
}

fn random_h256(rng: &mut impl RngCore) -> H256 {
    let mut buf = [0u8; 32];
    rng.fill_bytes(&mut buf);
    buf.into()
}

fn branch_records(db: &RefCell<Db>) -> usize {
    db.borrow().keys().filter(|(c, _)| *c == BRANCH_COLUMN).count()
}

#[test]
fn two_hundred_updates_read_back_exactly() {
    let mut rng = ChaCha20Rng::seed_from_u64(0);
    let pairs: Vec<(H256, H256)> =
        (0..200).map(|_| (random_h256(&mut rng), random_h256(&mut rng))).collect();

    let packed_db = RefCell::new(Db::new());
    let packed = Packed { db: &packed_db, store: RefCell::new(TrieStore::new()) };
    let mut packed_tree =
        SparseMerkleTree::<Blake2bHasher, H256, Packed>::new(H256::zero(), packed);
    for (k, v) in &pairs {
        packed_tree.update(*k, *v).unwrap();
    }

    let direct_db = RefCell::new(Db::new());
    let direct = Direct { db: &direct_db, store: RefCell::new(CountingStore::new()) };
    let mut direct_tree =
        SparseMerkleTree::<Blake2bHasher, H256, Direct>::new(H256::zero(), direct);
    for (k, v) in &pairs {
        direct_tree.update(*k, *v).unwrap();
    }

    assert_eq!(packed_tree.root(), direct_tree.root());
    assert_ne!(*packed_tree.root(), H256::zero());
    for (k, v) in &pairs {
        assert_eq!(packed_tree.get(k).unwrap(), *v);
        assert_eq!(direct_tree.get(k).unwrap(), *v);
    }
    assert!(branch_records(&packed_db) < branch_records(&direct_db));
    let packed_writes = packed_tree.store().store.borrow().writes();
    let direct_writes = direct_tree.store().store.borrow().writes();
    assert!(packed_writes > 0);
    assert_eq!(packed_writes, direct_writes);
}

#[test]
fn packed_tree_reopens_from_its_records() {
    let mut rng = ChaCha20Rng::seed_from_u64(7);
    let db = RefCell::new(Db::new());
    let first = Packed { db: &db, store: RefCell::new(TrieStore::new()) };
    let mut tree = SparseMerkleTree::<Blake2bHasher, H256, Packed>::new(H256::zero(), first);
    let mut pairs = Vec::new();
    for _ in 0..50 {
        let (k, v) = (random_h256(&mut rng), random_h256(&mut rng));
        tree.update(k, v).unwrap();
        pairs.push((k, v));
    }
    let root = *tree.root();
    drop(tree);

    let second = Packed { db: &db, store: RefCell::new(TrieStore::new()) };
    let mut tree = SparseMerkleTree::<Blake2bHasher, H256, Packed>::new(root, second);
    for (k, v) in &pairs {
        assert_eq!(tree.get(k).unwrap(), *v);
    }
    let (k, _) = pairs[0];
    tree.update(k, H256::zero()).unwrap();
    assert_eq!(tree.get(&k).unwrap(), H256::zero());
    assert_ne!(*tree.root(), root);
}
