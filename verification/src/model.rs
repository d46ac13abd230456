//! The mathematical model of the estimator's register state.
//!
//! A register array is a `Seq<u8>` of length `pow2(precision)`.  A 64-bit
//! hash selects a register by its low `precision` bits and contributes a
//! rank computed from the remaining bits; the register keeps the largest
//! rank seen.  The laws at the end of this module state the algebra that
//! makes the structure a counter: updates are monotone and idempotent, and
//! the element-wise maximum of two register arrays counts the union of the
//! two streams that produced them.

use vstd::arithmetic::power2::{
    lemma2_to64, lemma2_to64_rest, lemma_pow2_adds, lemma_pow2_pos, lemma_pow2_unfold, pow2,
};
use vstd::prelude::*;

verus! {

/// Position of the highest set bit of `x`, plus one; `0` for `x == 0`.
pub open spec fn bit_length(x: nat) -> nat
    decreases x,
{
    if x == 0 {
        0
    } else {
        1 + bit_length(x / 2)
    }
}

/// The register that hash `h` selects: its low `p` bits.
pub open spec fn bucket_of(h: u64, p: nat) -> int {
    ((h as nat) % pow2(p)) as int
}

/// The rank that hash `h` contributes: one more than the count of leading
/// zero bits among the `64 - p` hash bits left after the register index.
pub open spec fn rank_of(h: u64, p: nat) -> int {
    64 - p - bit_length((h as nat) / pow2(p)) + 1
}

/// The largest rank a register can hold at precision `p`.
pub open spec fn max_rank(p: nat) -> int {
    65 - p
}

/// Register state after recording hash `h`: the selected register rises to
/// the hash's rank if that is larger; every other register is unchanged.
pub open spec fn insert_hash(regs: Seq<u8>, p: nat, h: u64) -> Seq<u8> {
    let j = bucket_of(h, p);
    let r = rank_of(h, p);
    if r > regs[j] {
        regs.update(j, r as u8)
    } else {
        regs
    }
}

/// Element-wise maximum of two register arrays of the same length.
pub open spec fn merge_regs(a: Seq<u8>, b: Seq<u8>) -> Seq<u8> {
    Seq::new(a.len(), |i: int| if a[i] >= b[i] { a[i] } else { b[i] })
}

/// A freshly constructed or cleared register array: `m` zeroes.
pub open spec fn zero_regs(m: nat) -> Seq<u8> {
    Seq::new(m, |i: int| 0u8)
}

/// Whether every register is still zero, i.e. nothing was ever recorded.
pub open spec fn all_zero(s: Seq<u8>) -> bool {
    forall|i: int| 0 <= i < s.len() ==> s[i] == 0
}

/// How many entries of `s` equal `needle`.
pub open spec fn count_eq(s: Seq<u8>, needle: u8) -> nat
    decreases s.len(),
{
    if s.len() == 0 {
        0
    } else {
        count_eq(s.drop_last(), needle) + (if s.last() == needle {
            1nat
        } else {
            0nat
        })
    }
}

/// Register state after a whole sequence of hashes, starting from all-zero.
pub open spec fn regs_after(p: nat, hs: Seq<u64>) -> Seq<u8>
    decreases hs.len(),
{
    if hs.len() == 0 {
        zero_regs(pow2(p))
    } else {
        insert_hash(regs_after(p, hs.drop_last()), p, hs.last())
    }
}

/// `bit_length` never exceeds the width of a binade: `x < 2^n` bounds it by `n`.
pub proof fn lemma_bit_length_le(x: nat, n: nat)
    requires
        x < pow2(n),
    ensures
        bit_length(x) <= n,
    decreases n,
{
    if x == 0 {
    } else if n == 0 {
        assert(pow2(0) == 1) by {
            lemma2_to64();
        }
    } else {
        lemma_pow2_unfold(n);
        lemma_bit_length_le(x / 2, (n - 1) as nat);
    }
}

/// `pow2(64)` is one past `u64::MAX`, so every `u64` lies below it.
pub proof fn lemma_u64_below_pow2_64(x: u64)
    ensures
        (x as nat) < pow2(64),
{
    lemma2_to64_rest();
}

/// The selected register index is always within the register array.
pub proof fn lemma_bucket_in_range(h: u64, p: nat)
    ensures
        0 <= bucket_of(h, p) < pow2(p),
{
    lemma_pow2_pos(p);
}

/// The rank of any hash lies between 1 and the largest representable rank.
pub proof fn lemma_rank_bounds(h: u64, p: nat)
    requires
        p <= 18,
    ensures
        1 <= rank_of(h, p) <= max_rank(p),
{
    let w = (h as nat) / pow2(p);
    lemma_u64_below_pow2_64(h);
    lemma_pow2_adds(p, (64 - p) as nat);
    lemma_pow2_pos(p);
    assert(w < pow2((64 - p) as nat)) by (nonlinear_arith)
        requires
            pow2(p) > 0,
            (h as nat) < pow2(p) * pow2((64 - p) as nat),
            w == (h as nat) / pow2(p),
    ;
    lemma_bit_length_le(w, (64 - p) as nat);
}

/// Recording a hash never lowers any register, and never changes the
/// length of the register array.
pub proof fn lemma_insert_monotone(regs: Seq<u8>, p: nat, h: u64)
    requires
        regs.len() == pow2(p),
    ensures
        insert_hash(regs, p, h).len() == regs.len(),
        forall|i: int|
            0 <= i < regs.len() ==> regs[i] <= #[trigger] insert_hash(regs, p, h)[i],
{
    lemma_bucket_in_range(h, p);
}

/// Recording the same hash twice leaves exactly the state of recording it
/// once: the update is idempotent.
pub proof fn lemma_insert_idempotent(regs: Seq<u8>, p: nat, h: u64)
    requires
        regs.len() == pow2(p),
    ensures
        insert_hash(insert_hash(regs, p, h), p, h) == insert_hash(regs, p, h),
{
    lemma_bucket_in_range(h, p);
}

/// Recording a hash keeps every register within the rank bound.
pub proof fn lemma_insert_preserves_bound(regs: Seq<u8>, p: nat, h: u64)
    requires
        p <= 18,
        regs.len() == pow2(p),
        forall|i: int| 0 <= i < regs.len() ==> regs[i] <= max_rank(p),
    ensures
        forall|i: int|
            0 <= i < regs.len() ==> #[trigger] insert_hash(regs, p, h)[i] <= max_rank(p),
{
    lemma_rank_bounds(h, p);
    lemma_bucket_in_range(h, p);
}

/// Element-wise maximum is commutative: the order of the two counters does
/// not matter to the merged register state.
pub proof fn lemma_merge_comm(a: Seq<u8>, b: Seq<u8>)
    requires
        a.len() == b.len(),
    ensures
        merge_regs(a, b) == merge_regs(b, a),
{
    assert(merge_regs(a, b) =~= merge_regs(b, a));
}

/// Element-wise maximum is associative: folding many counters into one
/// accumulator yields the same registers in any grouping.
pub proof fn lemma_merge_assoc(a: Seq<u8>, b: Seq<u8>, c: Seq<u8>)
    requires
        a.len() == b.len(),
        b.len() == c.len(),
    ensures
        merge_regs(merge_regs(a, b), c) == merge_regs(a, merge_regs(b, c)),
{
    assert(merge_regs(merge_regs(a, b), c) =~= merge_regs(a, merge_regs(b, c)));
}

/// An all-zero counter is the identity of the merge.
pub proof fn lemma_merge_zero(a: Seq<u8>)
    ensures
        merge_regs(a, zero_regs(a.len())) == a,
{
    assert(merge_regs(a, zero_regs(a.len())) =~= a);
}

/// Merging commutes with recording a hash on either side.
pub proof fn lemma_merge_insert(a: Seq<u8>, b: Seq<u8>, p: nat, h: u64)
    requires
        a.len() == pow2(p),
        b.len() == pow2(p),
    ensures
        merge_regs(insert_hash(a, p, h), b) == insert_hash(merge_regs(a, b), p, h),
        merge_regs(a, insert_hash(b, p, h)) == insert_hash(merge_regs(a, b), p, h),
{
    lemma_bucket_in_range(h, p);
    assert(merge_regs(insert_hash(a, p, h), b) =~= insert_hash(merge_regs(a, b), p, h));
    assert(merge_regs(a, insert_hash(b, p, h)) =~= insert_hash(merge_regs(a, b), p, h));
}

/// Every stream of hashes leaves a register array of the fixed length.
pub proof fn lemma_regs_after_len(p: nat, hs: Seq<u64>)
    ensures
        regs_after(p, hs).len() == pow2(p),
    decreases hs.len(),
{
    if hs.len() > 0 {
        lemma_regs_after_len(p, hs.drop_last());
        lemma_insert_monotone(regs_after(p, hs.drop_last()), p, hs.last());
    }
}

/// The merge is exact for unions: merging the registers of two streams
/// recorded with the same precision gives exactly the registers of the
/// concatenated stream.  This is why merging two compatible counters
/// estimates the cardinality of the union of what they saw.
pub proof fn lemma_merge_counts_union(p: nat, hs1: Seq<u64>, hs2: Seq<u64>)
    ensures
        regs_after(p, hs1 + hs2) == merge_regs(regs_after(p, hs1), regs_after(p, hs2)),
    decreases hs2.len(),
{
    lemma_regs_after_len(p, hs1);
    lemma_regs_after_len(p, hs2);
    if hs2.len() == 0 {
        assert(hs1 + hs2 =~= hs1);
        lemma_merge_zero(regs_after(p, hs1));
    } else {
        let front = hs2.drop_last();
        let h = hs2.last();
        assert((hs1 + hs2).len() > 0);
        assert((hs1 + hs2).drop_last() =~= hs1 + front);
        assert((hs1 + hs2).last() == h);
        lemma_merge_counts_union(p, hs1, front);
        lemma_regs_after_len(p, front);
        lemma_merge_insert(regs_after(p, hs1), regs_after(p, front), p, h);
    }
}

/// A cleared register array is empty again: clearing leaves `zero_regs`,
/// and a counter reports empty exactly on an all-zero array, so clearing
/// after any sequence of insertions always yields an empty counter.
pub proof fn lemma_cleared_counter_is_empty(m: nat)
    ensures
        all_zero(zero_regs(m)),
{
}

/// Counting a value in a sequence never finds more entries than there are,
/// and finds them all exactly when every entry is that value.
pub proof fn lemma_count_eq_all(s: Seq<u8>, needle: u8)
    ensures
        count_eq(s, needle) <= s.len(),
        count_eq(s, needle) == s.len() <==> (forall|i: int|
            0 <= i < s.len() ==> s[i] == needle),
    decreases s.len(),
{
    if s.len() > 0 {
        lemma_count_eq_all(s.drop_last(), needle);
        assert(forall|i: int| 0 <= i < s.len() - 1 ==> s.drop_last()[i] == s[i]);
        if count_eq(s, needle) == s.len() {
            assert(forall|i: int| 0 <= i < s.len() - 1 ==> s[i] == needle);
            assert(s.last() == needle);
        }
        if forall|i: int| 0 <= i < s.len() ==> s[i] == needle {
            assert(forall|i: int|
                0 <= i < s.drop_last().len() ==> s.drop_last()[i] == needle);
        }
    }
}

} // verus!
