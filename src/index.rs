//! Where a branch node sits: the band of eight levels it belongs to, the
//! key of that band's record, and its slot inside the band's blob.

use vstd::prelude::*;
use vstd::arithmetic::power2::{lemma2_to64, pow2};
use vstd::bits::{lemma_u8_shr_is_div, lemma_usize_shl_is_mul};
use crate::codec::{encode_key, pack_key};
use crate::types::BranchKey;

verus! {

broadcast use vstd::array::group_array_axioms;

/// Levels in one band, that is bits in one path byte.
pub const BYTE_SIZE: usize = 8;

/// Branch node slots in one band: a complete binary tree of height eight.
pub const NODES_PER_TRIE: usize = 255;

/// The slot of a node at `height` whose direction byte is `dir`: the nodes
/// of the shallower levels of the band come first, then the node's place
/// among those of its own level.
pub open spec fn slot_index(height: u8, dir: u8) -> int {
    let inner = (height % 8) as nat;
    (pow2((7 - inner) as nat) - 1) + (dir as int) / (pow2(inner + 1) as int)
}

/// A direction byte holds no bits at or below the node's own level.
pub open spec fn aligned(height: u8, dir: u8) -> bool {
    (dir as int) % (pow2(((height % 8) + 1) as nat) as int) == 0
}

/// The deepest height of the band that holds `height`.
pub open spec fn rounded_height(height: u8) -> int {
    (height / 8 + 1) * 8 - 1
}

/// Of the low `cut` bits of `b`, all cleared.
pub open spec fn clear_low_bits(b: u8, cut: int) -> u8 {
    ((b as int / pow2(cut as nat) as int) * pow2(cut as nat) as int) as u8
}

/// How many low bits of path byte `j` lie at or below `height`.
pub open spec fn cut_of_byte(height: u8, j: int) -> int {
    let c = height + 1 - 8 * j;
    if c < 0 {
        0
    } else if c > 8 {
        8
    } else {
        c
    }
}

/// The path of the ancestor at `height`: the bits above `height` kept,
/// those at or below it cleared.
pub open spec fn parent_path_of(path: Seq<u8>, height: u8) -> Seq<u8> {
    Seq::new(32, |j: int| clear_low_bits(path[j], cut_of_byte(height, j)))
}

/// The key of the band that holds `k`.
pub open spec fn round_key(k: BranchKey) -> (int, Seq<u8>) {
    (rounded_height(k.height), parent_path_of(k.node_key@, rounded_height(k.height) as u8))
}

/// The store key of the record of the band that holds `k`: the band
/// height, then the band path.
pub open spec fn band_key(k: BranchKey) -> Seq<u8> {
    seq![round_key(k).0 as u8] + round_key(k).1
}

/// The slot that `k` takes in its band's blob.
pub open spec fn slot_of(k: BranchKey) -> int {
    slot_index(k.height, k.node_key@[(k.height / 8) as int])
}

/// A key as the tree names its nodes: no path bits at or below its height.
pub open spec fn canonical(k: BranchKey) -> bool {
    k.node_key@ == parent_path_of(k.node_key@, k.height)
}

/// Two keys share a band: the same band height and the same band path.
pub open spec fn same_band(k1: BranchKey, k2: BranchKey) -> bool {
    round_key(k1) == round_key(k2)
}

/// Relies on sparse_merkle_tree's H256::parent_path, which clears the bits
/// of the path at and below `height` and keeps the others.
#[verifier::external_body]
fn parent_path(node_key: &[u8; 32], height: u8) -> (r: [u8; 32])
    ensures
        r@ == parent_path_of(node_key@, height),
{
    let path = sparse_merkle_tree::H256::from(*node_key);
    path.parent_path(height).into()
}

/// The key of the band that holds `branch_key`: the band's deepest height
/// and the path cut off there.
pub fn round_branch_key(branch_key: &BranchKey) -> (r: BranchKey)
    ensures
        r.height == rounded_height(branch_key.height),
        (r.height as int, r.node_key@) == round_key(*branch_key),
{
    let rounded_height = ((branch_key.height / 8 + 1) as usize * BYTE_SIZE - 1) as u8;
    BranchKey { height: rounded_height, node_key: parent_path(&branch_key.node_key, rounded_height) }
}

/// The store key of the record of the band that holds `branch_key`.
pub fn band_record_key(branch_key: &BranchKey) -> (r: Vec<u8>)
    ensures
        r@ == band_key(*branch_key),
{
    let rounded = round_branch_key(branch_key);
    let r = pack_key(&rounded);
    assert(r@ == encode_key(rounded));
    r
}

/// The slot of the node at `height` with direction byte `dir`, by the
/// closed form of a breadth-first layout.
pub fn calculate_index(height: u8, dir: u8) -> (r: usize)
    ensures
        r == slot_index(height, dir),
        r < NODES_PER_TRIE,
{
    let inner_height: u8 = height % 8;
    proof {
        lemma_slot_in_range(height, dir);
        lemma2_to64();
        lemma_usize_shl_is_mul(1, (7 - inner_height) as usize);
    }
    let base_index: usize = (1usize << (7 - inner_height) as usize) - 1;
    let index: u8 = if inner_height == 7 {
        0
    } else {
        proof {
            lemma_u8_shr_is_div(dir, (inner_height + 1) as u8);
        }
        dir >> (inner_height + 1)
    };
    base_index + index as usize
}

/// The slots of one level of a band lie between those of the level above
/// and those of the level below.
pub proof fn lemma_slot_in_range(height: u8, dir: u8)
    ensures
        pow2((7 - height % 8) as nat) - 1 <= slot_index(height, dir),
        slot_index(height, dir) < pow2((8 - height % 8) as nat) - 1,
        0 <= slot_index(height, dir) < NODES_PER_TRIE,
{
    lemma2_to64();
    let d = dir as int;
    let inner = height % 8;
    if inner == 0 {
        assert(d / 2 < 128);
    } else if inner == 1 {
        assert(d / 4 < 64);
    } else if inner == 2 {
        assert(d / 8 < 32);
    } else if inner == 3 {
        assert(d / 16 < 16);
    } else if inner == 4 {
        assert(d / 32 < 8);
    } else if inner == 5 {
        assert(d / 64 < 4);
    } else if inner == 6 {
        assert(d / 128 < 2);
    } else {
        assert(d / 256 == 0);
    }
}

/// Within one band, two nodes given by their heights and aligned direction
/// bytes take the same slot only when they are the same node.
pub proof fn lemma_slot_injective(h1: u8, d1: u8, h2: u8, d2: u8)
    requires
        h1 / 8 == h2 / 8,
        aligned(h1, d1),
        aligned(h2, d2),
        slot_index(h1, d1) == slot_index(h2, d2),
    ensures
        h1 == h2,
        d1 == d2,
{
    lemma_slot_in_range(h1, d1);
    lemma_slot_in_range(h2, d2);
    lemma2_to64();
    let i1 = h1 % 8;
    let i2 = h2 % 8;
    if i1 != i2 {
        if i1 < i2 {
            vstd::arithmetic::power2::lemma_pow2_strictly_increases((7 - i2) as nat, (7 - i1) as nat);
            assert(pow2((8 - i2) as nat) <= pow2((7 - i1) as nat)) by {
                if (8 - i2) < (7 - i1) {
                    vstd::arithmetic::power2::lemma_pow2_strictly_increases((8 - i2) as nat, (7 - i1) as nat);
                }
            }
        } else {
            assert(pow2((8 - i1) as nat) <= pow2((7 - i2) as nat)) by {
                if (8 - i1) < (7 - i2) {
                    vstd::arithmetic::power2::lemma_pow2_strictly_increases((8 - i1) as nat, (7 - i2) as nat);
                }
            }
        }
    }
    assert(i1 == i2);
    assert(h1 == h2);
    let p = pow2((i1 + 1) as nat) as int;
    assert(p > 0) by {
        vstd::arithmetic::power2::lemma_pow2_pos((i1 + 1) as nat);
    }
    vstd::arithmetic::div_mod::lemma_fundamental_div_mod(d1 as int, p);
    vstd::arithmetic::div_mod::lemma_fundamental_div_mod(d2 as int, p);
    assert((d1 as int) / p == (d2 as int) / p);
}

/// Which level of a band holds slot `i`.
pub open spec fn level_of_slot(i: int) -> u8 {
    if i < 1 {
        7
    } else if i < 3 {
        6
    } else if i < 7 {
        5
    } else if i < 15 {
        4
    } else if i < 31 {
        3
    } else if i < 63 {
        2
    } else if i < 127 {
        1
    } else {
        0
    }
}

/// The direction byte of the node of band level `level` that takes slot `i`.
pub open spec fn dir_of_slot(i: int, level: u8) -> u8 {
    ((i - (pow2((7 - level) as nat) - 1)) * pow2((level + 1) as nat)) as u8
}

/// Every slot of a band is taken by a node of that band.
pub proof fn lemma_slot_surjective(band: u8, i: int)
    requires
        band < 32,
        0 <= i < NODES_PER_TRIE,
    ensures
        ({
            let h = (band * 8 + level_of_slot(i)) as u8;
            let d = dir_of_slot(i, level_of_slot(i));
            h / 8 == band && aligned(h, d) && slot_index(h, d) == i
        }),
{
    lemma2_to64();
    let level = level_of_slot(i);
    let h = (band * 8 + level) as u8;
    assert(h % 8 == level);
    let d = dir_of_slot(i, level);
    let p = pow2((level + 1) as nat) as int;
    let base = pow2((7 - level) as nat) - 1;
    assert(0 <= (i - base) * p < 256) by {
        if level == 7 {
            assert(p == 256 && base == 0);
            assert(0 <= (i - base) * p < 256) by (nonlinear_arith)
                requires
                    p == 256,
                    0 <= i - base < 1,
            ;
        } else if level == 6 {
            assert(p == 128 && base == 1);
            assert(0 <= (i - base) * p < 256) by (nonlinear_arith)
                requires
                    p == 128,
                    0 <= i - base < 2,
            ;
        } else if level == 5 {
            assert(p == 64 && base == 3);
            assert(0 <= (i - base) * p < 256) by (nonlinear_arith)
                requires
                    p == 64,
                    0 <= i - base < 4,
            ;
        } else if level == 4 {
            assert(p == 32 && base == 7);
            assert(0 <= (i - base) * p < 256) by (nonlinear_arith)
                requires
                    p == 32,
                    0 <= i - base < 8,
            ;
        } else if level == 3 {
            assert(p == 16 && base == 15);
            assert(0 <= (i - base) * p < 256) by (nonlinear_arith)
                requires
                    p == 16,
                    0 <= i - base < 16,
            ;
        } else if level == 2 {
            assert(p == 8 && base == 31);
            assert(0 <= (i - base) * p < 256) by (nonlinear_arith)
                requires
                    p == 8,
                    0 <= i - base < 32,
            ;
        } else if level == 1 {
            assert(p == 4 && base == 63);
            assert(0 <= (i - base) * p < 256) by (nonlinear_arith)
                requires
                    p == 4,
                    0 <= i - base < 64,
            ;
        } else {
            assert(p == 2 && base == 127);
            assert(0 <= (i - base) * p < 256) by (nonlinear_arith)
                requires
                    p == 2,
                    0 <= i - base < 128,
            ;
        }
    }
    assert(d as int == (i - base) * p);
    vstd::arithmetic::div_mod::lemma_div_multiples_vanish(i - base, p);
    vstd::arithmetic::mul::lemma_mul_is_commutative(p, i - base);
    vstd::arithmetic::div_mod::lemma_mod_multiples_basic(i - base, p);
}

/// Two canonical keys of one band take the same slot only when they are
/// the same key.
pub proof fn lemma_band_slots_distinct(k1: BranchKey, k2: BranchKey)
    requires
        canonical(k1),
        canonical(k2),
        same_band(k1, k2),
        k1 != k2,
    ensures
        slot_of(k1) != slot_of(k2),
{
    let b = k1.height / 8;
    lemma_band_shape(k1);
    lemma_band_shape(k2);
    lemma_canonical_shape(k1);
    lemma_canonical_shape(k2);
    assert(k2.height / 8 == b);
    if slot_of(k1) == slot_of(k2) {
        lemma_slot_injective(
            k1.height,
            k1.node_key@[b as int],
            k2.height,
            k2.node_key@[b as int],
        );
        assert forall|j: int| 0 <= j < 32 implies k1.node_key@[j] == k2.node_key@[j] by {
            if j > b {
                assert(round_key(k1).1[j] == round_key(k2).1[j]);
            }
        }
        assert(k1.node_key@ =~= k2.node_key@);
        assert(k1.node_key == k2.node_key);
    }
}

/// Clearing the low `cut` bits of a byte takes away its remainder modulo
/// `2^cut`.
proof fn lemma_clear_low_bits(b: u8, cut: int)
    requires
        0 <= cut <= 8,
    ensures
        clear_low_bits(b, cut) as int == b as int - (b as int) % (pow2(cut as nat) as int),
        cut == 0 ==> clear_low_bits(b, cut) == b,
        cut == 8 ==> clear_low_bits(b, cut) == 0,
        (b == clear_low_bits(b, cut)) <==> (b as int) % (pow2(cut as nat) as int) == 0,
{
    lemma2_to64();
    let p = pow2(cut as nat) as int;
    vstd::arithmetic::power2::lemma_pow2_pos(cut as nat);
    vstd::arithmetic::div_mod::lemma_fundamental_div_mod(b as int, p);
    vstd::arithmetic::div_mod::lemma_mod_pos_bound(b as int, p);
    vstd::arithmetic::mul::lemma_mul_is_commutative(p, b as int / p);
    if cut == 0 {
        assert(p == 1);
        vstd::arithmetic::div_mod::lemma_mod_self_0(1);
        assert((b as int) % 1 == 0);
    }
    if cut == 8 {
        assert(p == 256);
        vstd::arithmetic::div_mod::lemma_small_mod(b as nat, 256);
    }
}

/// What rounding keeps: the band height, and the path bytes above the band.
proof fn lemma_band_shape(k: BranchKey)
    ensures
        rounded_height(k.height) == (k.height / 8) * 8 + 7,
        forall|j: int|
            0 <= j < 32 ==> #[trigger] round_key(k).1[j] == if j <= k.height / 8 {
                0u8
            } else {
                k.node_key@[j]
            },
{
    let r = rounded_height(k.height) as u8;
    assert forall|j: int| 0 <= j < 32 implies #[trigger] round_key(k).1[j] == if j <= k.height / 8 {
        0u8
    } else {
        k.node_key@[j]
    } by {
        lemma_clear_low_bits(k.node_key@[j], cut_of_byte(r, j));
    }
}

/// What a canonical key holds: no path bytes below its own, and an aligned
/// direction byte.
proof fn lemma_canonical_shape(k: BranchKey)
    requires
        canonical(k),
    ensures
        forall|j: int| 0 <= j < k.height / 8 ==> #[trigger] k.node_key@[j] == 0u8,
        aligned(k.height, k.node_key@[(k.height / 8) as int]),
{
    let b = k.height / 8;
    assert forall|j: int| 0 <= j < k.height / 8 implies #[trigger] k.node_key@[j] == 0u8 by {
        assert(k.node_key@[j] == parent_path_of(k.node_key@, k.height)[j]);
        lemma_clear_low_bits(k.node_key@[j], cut_of_byte(k.height, j));
    }
    let d = k.node_key@[b as int];
    assert(d == parent_path_of(k.node_key@, k.height)[b as int]);
    lemma_clear_low_bits(d, cut_of_byte(k.height, b as int));
}

} // verus!
