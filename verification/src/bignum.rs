//! Wide unsigned integers for the entropy pool.
//!
//! A `Uint576` holds nine 64-bit limbs, little-endian, so it can carry any
//! value below `2^576`; the pool only ever needs values up to `2^512`.
//! The operations are exactly those the pool consumes: build a value from a
//! big-endian byte string, divide in place by a small divisor keeping the
//! remainder, and compare against a machine word.

use vstd::prelude::*;

verus! {

use vstd::arithmetic::power2::{
    pow2,
    lemma_pow2_adds,
    lemma_pow2_pos,
    lemma_pow2_strictly_increases,
    lemma2_to64,
    lemma2_to64_rest,
};
use vstd::arithmetic::div_mod::{
    lemma_fundamental_div_mod,
    lemma_fundamental_div_mod_converse,
    lemma_multiply_divide_lt,
    lemma_mod_division_less_than_divisor,
};

/// Number of limbs in a `Uint576`.
pub const NUM_LIMBS: usize = 9;

/// Value of a little-endian sequence of 64-bit limbs.
pub open spec fn limbs_val(s: Seq<u64>) -> nat
    decreases s.len(),
{
    if s.len() == 0 {
        0
    } else {
        s[0] as nat + pow2(64) * limbs_val(s.drop_first())
    }
}

/// Value of a big-endian byte string.
pub open spec fn bytes_be_val(s: Seq<u8>) -> nat
    decreases s.len(),
{
    if s.len() == 0 {
        0
    } else {
        256 * bytes_be_val(s.drop_last()) + s.last() as nat
    }
}

/// Equal factors give equal products.
proof fn lemma_mul_congruence(a: nat, b: nat, c: nat, d: nat)
    by (nonlinear_arith)
    requires
        a == c,
        b == d,
    ensures
        a * b == c * d,
{
}

/// A product with a factor of at least one is at least the other factor.
proof fn lemma_weight_times_pos(w: nat, c: nat)
    by (nonlinear_arith)
    requires
        c >= 1,
    ensures
        w * c >= w,
{
}

/// A product with a zero factor is zero.
proof fn lemma_mul_zero(w: nat, c: nat)
    by (nonlinear_arith)
    requires
        c == 0,
    ensures
        w * c == 0,
{
}

/// Unfolding `limbs_val` at an inner position.
proof fn lemma_val_skip_unfold(s: Seq<u64>, i: int)
    requires
        0 <= i < s.len(),
    ensures
        limbs_val(s.skip(i)) == s[i] as nat + pow2(64) * limbs_val(s.skip(i + 1)),
{
    assert(s.skip(i)[0] == s[i]);
    assert(s.skip(i).drop_first() =~= s.skip(i + 1));
}

/// Appending a limb adds its value at the next power-of-two weight.
proof fn lemma_val_snoc(s: Seq<u64>, x: u64)
    ensures
        limbs_val(s.push(x)) == limbs_val(s) + (x as nat) * pow2(64 * s.len()),
    decreases s.len(),
{
    if s.len() == 0 {
        assert(s.push(x).drop_first() =~= Seq::<u64>::empty());
        assert(s.push(x)[0] == x);
        assert(pow2(0) == 1) by {
            lemma2_to64();
        }
        lemma_mul_zero(pow2(64), limbs_val(Seq::<u64>::empty()));
        assert((x as nat) * pow2(0) == x as nat) by (nonlinear_arith)
            requires
                pow2(0) == 1,
        ;
    } else {
        let t = s.drop_first();
        lemma_val_snoc(t, x);
        assert(s.push(x).drop_first() =~= t.push(x));
        assert(s.push(x)[0] == s[0]);
        lemma_pow2_adds(64, 64 * t.len());
        let w = pow2(64 * t.len());
        assert(pow2(64) * limbs_val(t.push(x)) == pow2(64) * limbs_val(t) + (x as nat) * (pow2(64)
            * w)) by (nonlinear_arith)
            requires
                limbs_val(t.push(x)) == limbs_val(t) + (x as nat) * w,
        ;
        assert(64 * s.len() == 64 + 64 * t.len());
        lemma_mul_congruence(x as nat, pow2(64) * w, x as nat, pow2(64 * s.len()));
    }
}

/// A limb sequence of zeroes has value zero.
proof fn lemma_val_zero(s: Seq<u64>)
    requires
        forall|i: int| 0 <= i < s.len() ==> s[i] == 0,
    ensures
        limbs_val(s) == 0,
    decreases s.len(),
{
    if s.len() > 0 {
        let t = s.drop_first();
        lemma_val_zero(t);
        lemma_mul_zero(pow2(64), limbs_val(t));
    }
}

/// A limb sequence with some nonzero limb has a nonzero value.
proof fn lemma_val_pos(s: Seq<u64>, j: int)
    requires
        0 <= j < s.len(),
        s[j] >= 1,
    ensures
        limbs_val(s) >= 1,
    decreases s.len(),
{
    if j == 0 {
    } else {
        let t = s.drop_first();
        lemma_val_pos(t, j - 1);
        lemma_pow2_pos(64);
        lemma_weight_times_pos(pow2(64), limbs_val(t));
    }
}

/// Ring identity behind one step of short division.
proof fn lemma_div_word_step(d: nat, rem: nat, q: nat, r2: nat, v: nat, x: nat, cur: nat, qv: nat)
    by (nonlinear_arith)
    requires
        cur == rem * 0x10000000000000000 + x,
        cur == d * q + r2,
        qv == q + 0x10000000000000000 * v,
    ensures
        x + 0x10000000000000000 * (d * v + rem) == d * qv + r2,
{
}

/// Ring identity behind one step of multiplication by a word.
proof fn lemma_mul_word_step(
    vi: nat,
    w: nat,
    carry: nat,
    a: nat,
    m: nat,
    x: nat,
    p: nat,
    lo: nat,
    hi: nat,
    vi1: nat,
    a1: nat,
    w1: nat,
)
    by (nonlinear_arith)
    requires
        vi + w * carry == a * m,
        p == x * m + carry,
        p == 0x10000000000000000 * hi + lo,
        vi1 == vi + lo * w,
        a1 == a + x * w,
        w1 == w * 0x10000000000000000,
    ensures
        vi1 + w1 * hi == a1 * m,
{
}

/// Ring identity behind one step of adding a word.
proof fn lemma_add_word_step(
    vi: nat,
    w: nat,
    carry: nat,
    ax: nat,
    x: nat,
    p: nat,
    lo: nat,
    hi: nat,
    vi1: nat,
    ax1: nat,
    w1: nat,
)
    by (nonlinear_arith)
    requires
        vi + w * carry == ax,
        p == x + carry,
        p == 0x10000000000000000 * hi + lo,
        vi1 == vi + lo * w,
        ax1 == ax + x * w,
        w1 == w * 0x10000000000000000,
    ensures
        vi1 + w1 * hi == ax1,
{
}

/// An unsigned integer of nine 64-bit limbs, little-endian.
pub struct Uint576 {
    limbs: Vec<u64>,
}

impl Uint576 {
    /// Structural invariant: exactly `NUM_LIMBS` limbs.
    pub closed spec fn wf(&self) -> bool {
        self.limbs@.len() == NUM_LIMBS
    }

    /// The mathematical value carried.
    pub closed spec fn val(&self) -> nat {
        limbs_val(self.limbs@)
    }

    /// The constant `2^512`.
    pub fn power_of_two_512() -> (res: Uint576)
        ensures
            res.wf(),
            res.val() == pow2(512),
    {
        let mut limbs: Vec<u64> = Vec::new();
        let mut i: usize = 0;
        while i < NUM_LIMBS - 1
            invariant
                i <= NUM_LIMBS - 1,
                limbs@.len() == i,
                forall|j: int| 0 <= j < i ==> limbs@[j] == 0,
            decreases NUM_LIMBS - i,
        {
            limbs.push(0);
            i += 1;
        }
        proof {
            lemma_val_zero(limbs@);
            lemma_val_snoc(limbs@, 1);
            assert((1u64 as nat) * pow2(64 * limbs@.len()) == pow2(512)) by (nonlinear_arith)
                requires
                    64 * limbs@.len() == 512,
            ;
        }
        limbs.push(1);
        Uint576 { limbs }
    }

    /// The zero value.
    fn zero() -> (res: Uint576)
        ensures
            res.wf(),
            res.val() == 0,
    {
        let mut limbs: Vec<u64> = Vec::new();
        let mut i: usize = 0;
        while i < NUM_LIMBS
            invariant
                i <= NUM_LIMBS,
                limbs@.len() == i,
                forall|j: int| 0 <= j < i ==> limbs@[j] == 0,
            decreases NUM_LIMBS - i,
        {
            limbs.push(0);
            i += 1;
        }
        proof {
            lemma_val_zero(limbs@);
        }
        Uint576 { limbs }
    }

    /// The value of a big-endian byte string, which must be at most 64 bytes
    /// so that the result stays below `2^512`.
    pub fn from_be_bytes(bytes: &Vec<u8>) -> (res: Uint576)
        requires
            bytes@.len() <= 64,
        ensures
            res.wf(),
            res.val() == bytes_be_val(bytes@),
            res.val() < pow2(512),
    {
        let mut n = Uint576::zero();
        let mut i: usize = 0;
        proof {
            assert(bytes@.take(0) =~= Seq::<u8>::empty());
            assert(pow2(0) == 1) by {
                lemma2_to64();
            }
        }
        while i < bytes.len()
            invariant
                i <= bytes@.len(),
                bytes@.len() <= 64,
                n.wf(),
                n.val() == bytes_be_val(bytes@.take(i as int)),
                n.val() < pow2(8 * i as nat),
            decreases bytes@.len() - i,
        {
            let ghost prev: nat = n.val();
            proof {
                lemma_pow2_adds(8, 8 * i as nat);
                assert(pow2(8) == 256) by {
                    lemma2_to64();
                }
                lemma_pow2_strictly_increases(8 * (i + 1) as nat, 576);
                assert(prev * 256 <= (pow2(8 * i as nat) - 1) * 256) by (nonlinear_arith)
                    requires
                        prev <= pow2(8 * i as nat) - 1,
                ;
                assert((pow2(8 * i as nat) - 1) * 256 == 256 * pow2(8 * i as nat) - 256)
                    by (nonlinear_arith);
            }
            n.mul_word(256);
            n.add_word(bytes[i] as u64);
            proof {
                assert(bytes@.take(i + 1).drop_last() =~= bytes@.take(i as int));
                assert(bytes@.take(i + 1).last() == bytes@[i as int]);
                assert(prev * 256 == 256 * prev) by (nonlinear_arith);
            }
            i += 1;
        }
        proof {
            assert(bytes@.take(bytes@.len() as int) =~= bytes@);
            if 8 * bytes@.len() < 512 {
                lemma_pow2_strictly_increases(8 * bytes@.len(), 512);
            }
        }
        n
    }

    /// Multiply in place by a word; the result must fit.
    fn mul_word(&mut self, m: u64)
        requires
            old(self).wf(),
            old(self).val() * m < pow2(576),
        ensures
            final(self).wf(),
            final(self).val() == old(self).val() * m,
    {
        let ghost orig: Seq<u64> = self.limbs@;
        let mut carry: u64 = 0;
        let mut i: usize = 0;
        proof {
            assert(self.limbs@.take(0) =~= Seq::<u64>::empty());
            assert(orig.take(0) =~= Seq::<u64>::empty());
            lemma_mul_zero(pow2(64 * i as nat), carry as nat);
            assert(limbs_val(orig.take(0)) * (m as nat) == 0) by (nonlinear_arith)
                requires
                    limbs_val(orig.take(0)) == 0,
            ;
        }
        while i < NUM_LIMBS
            invariant
                i <= NUM_LIMBS,
                self.limbs@.len() == NUM_LIMBS,
                orig.len() == NUM_LIMBS,
                forall|k: int| i <= k < NUM_LIMBS ==> self.limbs@[k] == orig[k],
                limbs_val(self.limbs@.take(i as int)) + pow2(64 * i as nat) * carry == limbs_val(
                    orig.take(i as int),
                ) * m,
            decreases NUM_LIMBS - i,
        {
            let ghost w: nat = pow2(64 * i as nat);
            let ghost vi: nat = limbs_val(self.limbs@.take(i as int));
            let ghost a: nat = limbs_val(orig.take(i as int));
            proof {
                assert((self.limbs@[i as int] as nat) * (m as nat) + (carry as nat)
                    < 0x100000000000000000000000000000000nat) by (nonlinear_arith)
                    requires
                        self.limbs@[i as int] <= 0xffffffffffffffffu64,
                        m <= 0xffffffffffffffffu64,
                        carry <= 0xffffffffffffffffu64,
                ;
            }
            let p: u128 = (self.limbs[i] as u128) * (m as u128) + (carry as u128);
            let lo: u64 = (p % 0x10000000000000000u128) as u64;
            let hi: u64 = (p / 0x10000000000000000u128) as u64;
            let ghost before: Seq<u64> = self.limbs@;
            self.limbs.set(i, lo);
            proof {
                lemma_fundamental_div_mod(p as int, 0x10000000000000000);
                assert(self.limbs@.take(i as int) =~= before.take(i as int));
                assert(self.limbs@.take(i + 1) =~= before.take(i as int).push(lo));
                lemma_val_snoc(before.take(i as int), lo);
                assert(orig.take(i + 1) =~= orig.take(i as int).push(orig[i as int]));
                lemma_val_snoc(orig.take(i as int), orig[i as int]);
                lemma_pow2_adds(64 * i as nat, 64);
                assert(pow2(64) == 0x10000000000000000) by {
                    lemma2_to64_rest();
                }
                assert(64 * (i + 1) as nat == 64 * i as nat + 64);
                lemma_mul_congruence(w, pow2(64), w, 0x10000000000000000nat);
                lemma_mul_word_step(
                    vi,
                    w,
                    carry as nat,
                    a,
                    m as nat,
                    before[i as int] as nat,
                    p as nat,
                    lo as nat,
                    hi as nat,
                    limbs_val(self.limbs@.take(i + 1)),
                    limbs_val(orig.take(i + 1)),
                    pow2(64 * (i + 1) as nat),
                );
            }
            carry = hi;
            i += 1;
        }
        proof {
            assert(self.limbs@.take(NUM_LIMBS as int) =~= self.limbs@);
            assert(orig.take(NUM_LIMBS as int) =~= orig);
            if carry >= 1 {
                lemma_weight_times_pos(pow2(576), carry as nat);
                assert(false);
            }
            lemma_mul_zero(pow2(576), carry as nat);
        }
    }

    /// Add a word in place; the result must fit.
    fn add_word(&mut self, x: u64)
        requires
            old(self).wf(),
            old(self).val() + x < pow2(576),
        ensures
            final(self).wf(),
            final(self).val() == old(self).val() + x,
    {
        let ghost orig: Seq<u64> = self.limbs@;
        let mut carry: u64 = x;
        let mut i: usize = 0;
        proof {
            assert(self.limbs@.take(0) =~= Seq::<u64>::empty());
            assert(orig.take(0) =~= Seq::<u64>::empty());
            assert(pow2(0) == 1) by {
                lemma2_to64();
            }
            assert(pow2(64 * i as nat) * (carry as nat) == carry as nat) by (nonlinear_arith)
                requires
                    pow2(64 * i as nat) == 1,
            ;
        }
        while i < NUM_LIMBS
            invariant
                i <= NUM_LIMBS,
                self.limbs@.len() == NUM_LIMBS,
                orig.len() == NUM_LIMBS,
                forall|k: int| i <= k < NUM_LIMBS ==> self.limbs@[k] == orig[k],
                limbs_val(self.limbs@.take(i as int)) + pow2(64 * i as nat) * carry == limbs_val(
                    orig.take(i as int),
                ) + x,
            decreases NUM_LIMBS - i,
        {
            let ghost w: nat = pow2(64 * i as nat);
            let ghost vi: nat = limbs_val(self.limbs@.take(i as int));
            let ghost a: nat = limbs_val(orig.take(i as int));
            let p: u128 = (self.limbs[i] as u128) + (carry as u128);
            let lo: u64 = (p % 0x10000000000000000u128) as u64;
            let hi: u64 = (p / 0x10000000000000000u128) as u64;
            let ghost before: Seq<u64> = self.limbs@;
            self.limbs.set(i, lo);
            proof {
                lemma_fundamental_div_mod(p as int, 0x10000000000000000);
                assert(self.limbs@.take(i as int) =~= before.take(i as int));
                assert(self.limbs@.take(i + 1) =~= before.take(i as int).push(lo));
                lemma_val_snoc(before.take(i as int), lo);
                assert(orig.take(i + 1) =~= orig.take(i as int).push(orig[i as int]));
                lemma_val_snoc(orig.take(i as int), orig[i as int]);
                lemma_pow2_adds(64 * i as nat, 64);
                assert(pow2(64) == 0x10000000000000000) by {
                    lemma2_to64_rest();
                }
                assert(64 * (i + 1) as nat == 64 * i as nat + 64);
                lemma_mul_congruence(w, pow2(64), w, 0x10000000000000000nat);
                lemma_add_word_step(
                    vi,
                    w,
                    carry as nat,
                    (a + x) as nat,
                    before[i as int] as nat,
                    p as nat,
                    lo as nat,
                    hi as nat,
                    limbs_val(self.limbs@.take(i + 1)),
                    (limbs_val(orig.take(i + 1)) + x) as nat,
                    pow2(64 * (i + 1) as nat),
                );
            }
            carry = hi;
            i += 1;
        }
        proof {
            assert(self.limbs@.take(NUM_LIMBS as int) =~= self.limbs@);
            assert(orig.take(NUM_LIMBS as int) =~= orig);
            if carry >= 1 {
                lemma_weight_times_pos(pow2(576), carry as nat);
                assert(false);
            }
            lemma_mul_zero(pow2(576), carry as nat);
        }
    }

    /// Divide in place by a nonzero word, returning the remainder.
    pub fn div_rem(&mut self, d: u64) -> (rem: u64)
        requires
            old(self).wf(),
            d >= 1,
        ensures
            final(self).wf(),
            final(self).val() == old(self).val() / d as nat,
            rem as nat == old(self).val() % d as nat,
            rem < d,
    {
        let ghost orig: Seq<u64> = self.limbs@;
        let mut rem: u64 = 0;
        let mut i: usize = NUM_LIMBS;
        proof {
            assert(orig.skip(NUM_LIMBS as int) =~= Seq::<u64>::empty());
            lemma_mul_zero(d as nat, limbs_val(orig.skip(NUM_LIMBS as int)));
        }
        while i > 0
            invariant
                i <= NUM_LIMBS,
                d >= 1,
                rem < d,
                self.limbs@.len() == NUM_LIMBS,
                orig.len() == NUM_LIMBS,
                forall|k: int| 0 <= k < i ==> self.limbs@[k] == orig[k],
                limbs_val(orig.skip(i as int)) == (d as nat) * limbs_val(
                    self.limbs@.skip(i as int),
                ) + rem,
            decreases i,
        {
            i -= 1;
            let ghost rem0: nat = rem as nat;
            let cur: u128 = (rem as u128) * 0x10000000000000000u128 + (self.limbs[i] as u128);
            proof {
                lemma_multiply_divide_lt(cur as int, d as int, 0x10000000000000000);
                lemma_mod_division_less_than_divisor(cur as int, d as int);
            }
            let q: u64 = (cur / (d as u128)) as u64;
            let r2: u64 = (cur % (d as u128)) as u64;
            let ghost before: Seq<u64> = self.limbs@;
            self.limbs.set(i, q);
            rem = r2;
            proof {
                lemma_fundamental_div_mod(cur as int, d as int);
                assert(self.limbs@.skip(i + 1) =~= before.skip(i + 1));
                let v: nat = limbs_val(before.skip(i + 1));
                lemma_val_skip_unfold(orig, i as int);
                lemma_val_skip_unfold(self.limbs@, i as int);
                assert(self.limbs@.skip(i as int)[0] == q);
                assert(pow2(64) == 0x10000000000000000) by {
                    lemma2_to64_rest();
                }
                lemma_div_word_step(
                    d as nat,
                    rem0,
                    q as nat,
                    r2 as nat,
                    v,
                    before[i as int] as nat,
                    cur as nat,
                    limbs_val(self.limbs@.skip(i as int)),
                );
            }
        }
        proof {
            assert(orig.skip(0) =~= orig);
            assert(self.limbs@.skip(0) =~= self.limbs@);
            assert((d as nat) * limbs_val(self.limbs@) == limbs_val(self.limbs@) * (
            d as nat)) by (nonlinear_arith);
            lemma_fundamental_div_mod_converse(
                limbs_val(orig) as int,
                d as int,
                limbs_val(self.limbs@) as int,
                rem as int,
            );
        }
        rem
    }

    /// Is the value at least `x`?
    pub fn ge_word(&self, x: u64) -> (res: bool)
        requires
            self.wf(),
        ensures
            res == (self.val() >= x),
    {
        let mut j: usize = 1;
        while j < NUM_LIMBS
            invariant
                1 <= j <= NUM_LIMBS,
                self.wf(),
                forall|k: int| 1 <= k < j ==> self.limbs@[k] == 0,
            decreases NUM_LIMBS - j,
        {
            if self.limbs[j] != 0 {
                proof {
                    let t = self.limbs@.drop_first();
                    lemma_val_pos(t, j - 1);
                    lemma_pow2_pos(64);
                    lemma_weight_times_pos(pow2(64), limbs_val(t));
                    assert(pow2(64) == 0x10000000000000000) by {
                        lemma2_to64_rest();
                    }
                }
                return true;
            }
            j += 1;
        }
        proof {
            let t = self.limbs@.drop_first();
            lemma_val_zero(t);
            lemma_mul_zero(pow2(64), limbs_val(t));
        }
        self.limbs[0] >= x
    }
}

} // verus!
