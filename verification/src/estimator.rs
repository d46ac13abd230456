//! The estimator itself: register state plus the verified operations on
//! it.  The floating-point cardinality formulas that read this state are
//! not part of the verified core; everything they need (the zero-register
//! count, the registers, the parameters) is exposed here with contracts.

use crate::model::{
    all_zero, bit_length, bucket_of, count_eq, insert_hash, lemma_bucket_in_range,
    lemma_count_eq_all, lemma_insert_preserves_bound, lemma_u64_below_pow2_64, max_rank,
    merge_regs, rank_of, zero_regs,
};
use crate::outside::{count_byte, sip13_hash_str, sip13_of};
use vstd::arithmetic::power2::{
    lemma2_to64, lemma_pow2_pos, lemma_pow2_strictly_increases, lemma_pow2_unfold, pow2,
};
use vstd::prelude::*;

verus! {

/// Why a merge was refused: the two counters were built from different
/// hash keys, so the same element would have landed in different
/// registers and their union would be meaningless.
#[derive(Clone, Copy, Debug, PartialEq, Eq, Structural)]
pub enum MergeError {
    KeyMismatch,
}

/// A HyperLogLog counter: `2^precision` registers, each holding the
/// largest rank seen among the hashes that selected it, plus the immutable
/// key pair that seeds the hash.
#[derive(Clone, Debug)]
pub struct HyperLogLog {
    precision: u8,
    register_count: usize,
    registers: Vec<u8>,
    key0: u64,
    key1: u64,
}

impl HyperLogLog {
    /// The number of index bits, between 4 and 18.
    pub closed spec fn precision_spec(&self) -> nat {
        self.precision as nat
    }

    /// The fixed number of registers, `pow2(precision)`.
    pub closed spec fn register_count_spec(&self) -> nat {
        self.register_count as nat
    }

    /// The register values.
    pub closed spec fn regs(&self) -> Seq<u8> {
        self.registers@
    }

    /// The first hash key.
    pub closed spec fn key0_spec(&self) -> u64 {
        self.key0
    }

    /// The second hash key.
    pub closed spec fn key1_spec(&self) -> u64 {
        self.key1
    }

    /// Two counters place elements identically exactly when they were
    /// built from the same key pair.
    pub open spec fn same_keys(&self, other: &Self) -> bool {
        self.key0_spec() == other.key0_spec() && self.key1_spec() == other.key1_spec()
    }

    /// The construction parameters that insertion and merging preserve.
    pub open spec fn same_params(&self, other: &Self) -> bool {
        self.precision_spec() == other.precision_spec()
            && self.register_count_spec() == other.register_count_spec()
            && self.same_keys(other)
    }

    /// Well-formedness: the precision is in range, the register array has
    /// exactly `pow2(precision)` entries, and every register is within the
    /// largest rank the hash can produce.
    pub open spec fn inv(&self) -> bool {
        &&& 4 <= self.precision_spec() <= 18
        &&& self.register_count_spec() == pow2(self.precision_spec())
        &&& self.regs().len() == self.register_count_spec()
        &&& forall|i: int|
            0 <= i < self.regs().len() ==> self.regs()[i] <= max_rank(self.precision_spec())
    }

    /// Compute `pow2(precision)` as a register count.
    fn compute_register_count(precision: u8) -> (m: usize)
        requires
            4 <= precision <= 18,
        ensures
            m as nat == pow2(precision as nat),
    {
        let mut m: usize = 1;
        let mut i: u8 = 0;
        proof {
            lemma2_to64();
        }
        while i < precision
            invariant
                i <= precision <= 18,
                m as nat == pow2(i as nat),
                m <= 262144,
            decreases precision - i,
        {
            proof {
                lemma_pow2_unfold((i + 1) as nat);
                if (i as nat) + 1 < 18 {
                    lemma_pow2_strictly_increases((i + 1) as nat, 18nat);
                }
                lemma2_to64();
            }
            m = m * 2;
            i = i + 1;
        }
        m
    }

    /// A fresh, all-zero counter from an explicit precision and key pair.
    /// Reproducible: two counters built from the same arguments place
    /// every element identically, so they are mergeable.
    pub fn new_from_keys(precision: u8, key0: u64, key1: u64) -> (r: Self)
        requires
            4 <= precision <= 18,
        ensures
            r.inv(),
            r.precision_spec() == precision as nat,
            r.key0_spec() == key0,
            r.key1_spec() == key1,
            r.regs() == zero_regs(pow2(precision as nat)),
    {
        let m = Self::compute_register_count(precision);
        let mut registers: Vec<u8> = Vec::new();
        let mut i: usize = 0;
        while i < m
            invariant
                i <= m,
                registers@.len() == i,
                forall|k: int| 0 <= k < i ==> registers@[k] == 0,
            decreases m - i,
        {
            registers.push(0);
            i = i + 1;
        }
        let r = HyperLogLog { precision, register_count: m, registers, key0, key1 };
        proof {
            assert(r.regs() =~= zero_regs(pow2(precision as nat)));
        }
        r
    }

    /// A fresh counter at the given precision, seeded from the process's
    /// random source.  Such a counter is not reproducible; build from
    /// explicit keys when a later merge is intended.
    pub fn new_with_random_keys(precision: u8) -> (r: Self)
        requires
            4 <= precision <= 18,
        ensures
            r.inv(),
            r.precision_spec() == precision as nat,
            r.regs() == zero_regs(pow2(precision as nat)),
    {
        let key0: u64 = rand::random();
        let key1: u64 = rand::random();
        Self::new_from_keys(precision, key0, key1)
    }

    /// A fresh, all-zero counter with the same parameters (precision and
    /// keys) as an existing one: the way to obtain a second counter that
    /// is guaranteed mergeable with the first.
    pub fn new_from_template(hll: &HyperLogLog) -> (r: Self)
        requires
            hll.inv(),
        ensures
            r.inv(),
            r.same_params(hll),
            r.regs() == zero_regs(hll.register_count_spec()),
    {
        Self::new_from_keys(hll.precision, hll.key0, hll.key1)
    }

    /// The precision this counter was built with.
    pub fn precision(&self) -> (r: u8)
        ensures
            r as nat == self.precision_spec(),
    {
        self.precision
    }

    /// The fixed number of registers.
    pub fn register_count(&self) -> (r: usize)
        ensures
            r as nat == self.register_count_spec(),
    {
        self.register_count
    }

    /// The first hash key.
    pub fn key0(&self) -> (r: u64)
        ensures
            r == self.key0_spec(),
    {
        self.key0
    }

    /// The second hash key.
    pub fn key1(&self) -> (r: u64)
        ensures
            r == self.key1_spec(),
    {
        self.key1
    }

    /// The register values, read-only.
    pub fn registers(&self) -> (r: &Vec<u8>)
        ensures
            r@ == self.regs(),
    {
        &self.registers
    }

    /// Position of the highest set bit of `x`, plus one; `0` for `x == 0`.
    fn bit_length(x: u64) -> (r: u8)
        ensures
            r as nat == bit_length(x as nat),
    {
        let mut bits: u8 = 0;
        let mut xm: u64 = x;
        proof {
            lemma_u64_below_pow2_64(x);
            crate::model::lemma_bit_length_le(x as nat, 64);
        }
        while xm != 0
            invariant
                bit_length(x as nat) == bits as nat + bit_length(xm as nat),
                bit_length(xm as nat) <= 64 - bits,
            decreases xm,
        {
            assert(xm >> 1u64 == xm / 2) by (bit_vector);
            bits = bits + 1;
            xm = xm >> 1u64;
        }
        bits
    }

    /// The rank recorded for a hash remainder `w` of `max_width` bits: one
    /// more than its count of leading zero bits.
    fn get_rho(w: u64, max_width: u8) -> (r: u8)
        requires
            max_width <= 64,
            (w as nat) < pow2(max_width as nat),
        ensures
            r as int == max_width - bit_length(w as nat) + 1,
            1 <= r <= max_width + 1,
    {
        proof {
            crate::model::lemma_bit_length_le(w as nat, max_width as nat);
        }
        let rho = max_width - Self::bit_length(w) + 1;
        rho
    }

    /// Record a pre-computed 64-bit hash value: raise the register the
    /// hash's low bits select to the hash's rank, if that is larger.  At
    /// most one register changes, and no register ever decreases.
    pub fn insert_by_hash_value(&mut self, x: u64)
        requires
            old(self).inv(),
        ensures
            final(self).inv(),
            final(self).same_params(old(self)),
            final(self).regs() == insert_hash(old(self).regs(), old(self).precision_spec(), x),
    {
        let ghost p = self.precision_spec();
        proof {
            lemma_pow2_pos(p);
        }
        let mask: u64 = (self.register_count as u64) - 1;
        proof {
            assert(mask as nat == vstd::bits::low_bits_mask(p));
            vstd::bits::lemma_u64_low_bits_mask_is_mod(x, p);
        }
        let j: usize = (x & mask) as usize;
        let w: u64 = x >> (self.precision as u64);
        proof {
            vstd::bits::lemma_u64_shr_is_div(x, self.precision as u64);
            lemma_u64_below_pow2_64(x);
            vstd::arithmetic::power2::lemma_pow2_adds(p, (64 - p) as nat);
            lemma_pow2_pos(p);
            assert((w as nat) < pow2((64 - p) as nat)) by (nonlinear_arith)
                requires
                    pow2(p) > 0,
                    (x as nat) < pow2(p) * pow2((64 - p) as nat),
                    w as nat == (x as nat) / pow2(p),
            ;
        }
        let rho = Self::get_rho(w, 64 - self.precision);
        proof {
            lemma_bucket_in_range(x, p);
            assert(j as int == bucket_of(x, p));
            assert(rho as int == rank_of(x, p));
            lemma_insert_preserves_bound(self.regs(), p, x);
        }
        if rho > self.registers[j] {
            self.registers[j] = rho;
        }
        proof {
            assert(self.regs() =~= insert_hash(old(self).regs(), p, x));
        }
    }

    /// Insert a string value: hash it under the counter's keys and record
    /// the hash.  Inserting the same string again changes nothing once its
    /// rank is recorded, and no register ever decreases.
    pub fn insert(&mut self, value: &str)
        requires
            old(self).inv(),
        ensures
            final(self).inv(),
            final(self).same_params(old(self)),
            final(self).regs() == insert_hash(
                old(self).regs(),
                old(self).precision_spec(),
                sip13_of(old(self).key0_spec(), old(self).key1_spec(), value@),
            ),
    {
        let x = sip13_hash_str(self.key0, self.key1, value);
        self.insert_by_hash_value(x);
    }

    /// How many registers are still zero: the quantity the small-range
    /// (linear-counting) estimate is computed from.
    pub fn count_zero_registers(&self) -> (r: usize)
        requires
            self.inv(),
        ensures
            r as nat == count_eq(self.regs(), 0),
            r <= self.register_count_spec(),
    {
        proof {
            lemma_count_eq_all(self.regs(), 0);
        }
        count_byte(&self.registers, 0)
    }

    /// Whether nothing has ever been inserted (or the counter was just
    /// cleared): true exactly when every register is still zero, which is
    /// exactly when the estimated cardinality is zero.
    pub fn is_empty(&self) -> (r: bool)
        requires
            self.inv(),
        ensures
            r <==> all_zero(self.regs()),
    {
        proof {
            lemma_count_eq_all(self.regs(), 0);
        }
        self.count_zero_registers() == self.register_count
    }

    /// Zero every register in place, keeping the precision and the keys:
    /// the counter starts counting a fresh stream, and stays mergeable
    /// with exactly the counters it was mergeable with before.
    pub fn clear(&mut self)
        requires
            old(self).inv(),
        ensures
            final(self).inv(),
            final(self).same_params(old(self)),
            final(self).regs() == zero_regs(old(self).register_count_spec()),
    {
        let m = self.registers.len();
        let mut i: usize = 0;
        while i < m
            invariant
                i <= m,
                self.registers@.len() == m,
                self.precision == old(self).precision,
                self.register_count == old(self).register_count,
                self.key0 == old(self).key0,
                self.key1 == old(self).key1,
                forall|k: int| 0 <= k < i ==> self.registers@[k] == 0,
            decreases m - i,
        {
            self.registers[i] = 0;
            i = i + 1;
        }
        proof {
            assert(self.regs() =~= zero_regs(old(self).register_count_spec()));
        }
    }

    /// Merge another counter into this one, making it the estimator of
    /// the union of both streams: every register becomes the maximum of
    /// the two values.  Both counters must have the same precision; if
    /// they were built from different keys the merge is refused and this
    /// counter is left exactly as it was.
    pub fn merge(&mut self, src: &HyperLogLog) -> (r: Result<(), MergeError>)
        requires
            old(self).inv(),
            src.inv(),
            old(self).precision_spec() == src.precision_spec(),
        ensures
            final(self).inv(),
            final(self).same_params(old(self)),
            old(self).same_keys(src) ==> r == Result::<(), MergeError>::Ok(())
                && final(self).regs() == merge_regs(old(self).regs(), src.regs()),
            !old(self).same_keys(src) ==> r == Result::<(), MergeError>::Err(
                MergeError::KeyMismatch,
            ) && final(self).regs() == old(self).regs(),
    {
        if self.key0 != src.key0 || self.key1 != src.key1 {
            return Err(MergeError::KeyMismatch);
        }
        let m = self.registers.len();
        let mut i: usize = 0;
        while i < m
            invariant
                i <= m,
                self.registers@.len() == m,
                src.inv(),
                src.regs().len() == m,
                old(self).regs().len() == m,
                self.precision == old(self).precision,
                self.register_count == old(self).register_count,
                self.key0 == old(self).key0,
                self.key1 == old(self).key1,
                forall|k: int|
                    0 <= k < i ==> self.registers@[k] == merge_regs(
                        old(self).regs(),
                        src.regs(),
                    )[k],
                forall|k: int| i <= k < m ==> self.registers@[k] == old(self).regs()[k],
            decreases m - i,
        {
            let s = src.registers[i];
            if s > self.registers[i] {
                self.registers[i] = s;
            }
            i = i + 1;
        }
        proof {
            assert(self.regs() =~= merge_regs(old(self).regs(), src.regs()));
        }
        Ok(())
    }

    /// Rebuild a counter from previously captured parts (for example a
    /// deserialized snapshot).  Returns a counter exactly when the parts
    /// are consistent: the precision is in range, the register array has
    /// exactly `pow2(precision)` entries, and every register is within
    /// the largest rank the hash can produce.
    pub fn from_parts(precision: u8, key0: u64, key1: u64, registers: Vec<u8>) -> (r: Option<
        Self,
    >)
        ensures
            r is Some <==> (4 <= precision <= 18 && registers@.len() == pow2(precision as nat)
                && forall|i: int|
                0 <= i < registers@.len() ==> registers@[i] <= max_rank(precision as nat)),
            r is Some ==> {
                let c = r->0;
                &&& c.inv()
                &&& c.precision_spec() == precision as nat
                &&& c.key0_spec() == key0
                &&& c.key1_spec() == key1
                &&& c.regs() == registers@
            },
    {
        if precision < 4 || precision > 18 {
            return None;
        }
        let m = Self::compute_register_count(precision);
        if registers.len() != m {
            return None;
        }
        let bound: u8 = 65 - precision;
        let mut i: usize = 0;
        while i < m
            invariant
                i <= m,
                registers@.len() == m,
                bound as int == max_rank(precision as nat),
                forall|k: int| 0 <= k < i ==> registers@[k] <= max_rank(precision as nat),
            decreases m - i,
        {
            if registers[i] > bound {
                return None;
            }
            i = i + 1;
        }
        Some(HyperLogLog { precision, register_count: m, registers, key0, key1 })
    }
}

} // verus!
