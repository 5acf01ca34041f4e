//! The entropy pool: deterministic uniform draws out of one 512-bit digest.
//!
//! A pool carries `remaining`, the digest value not yet consumed, and
//! `current_max`, the tightest known bound on it (`2^512` at birth).  Each
//! `take(size)` peels one digit of a mixed-radix decomposition off the
//! digest: it returns `remaining % size` and divides both fields by `size`.
//! Draws are therefore a pure function of the seed string, which is what
//! makes icons reproducible.

use vstd::prelude::*;

verus! {

use vstd::arithmetic::power2::pow2;
use vstd::arithmetic::div_mod::{lemma_div_is_ordered, lemma_div_nonincreasing};
use crate::bignum::{Uint576, bytes_be_val};
use crate::error::IconError;

/// The digest that a 64-byte SHA-512 output carries.
///
/// What SHA-512 maps each byte string to takes pages to state; this names the
/// result, a function of the input bytes alone.
pub uninterp spec fn sha512_of(data: Seq<u8>) -> Seq<u8>;

/// The 512-bit seed value a string is hashed to: its SHA-512 digest, taken as
/// one big-endian unsigned integer.
pub open spec fn seed_val(s: Seq<char>) -> nat {
    bytes_be_val(sha512_of(vstd::utf8::encode_utf8(s)))
}

/// Relies on sha2::Sha512::digest: the digest is 64 bytes and depends on the
/// input bytes alone.
#[verifier::external_body]
fn sha512_digest(data: &[u8]) -> (res: Vec<u8>)
    ensures
        res@ == sha512_of(data@),
        res@.len() == 64,
{
    <sha2::Sha512 as sha2::Digest>::digest(data).to_vec()
}

/// Total weight of a weighted-choice table.
pub open spec fn sum_weights<T>(s: Seq<(T, u64)>) -> nat
    decreases s.len(),
{
    if s.len() == 0 {
        0
    } else {
        s[0].1 as nat + sum_weights(s.drop_first())
    }
}

/// The index owning position `r` when each entry owns the interval of width
/// equal to its weight, in table order.
pub open spec fn weighted_index<T>(s: Seq<(T, u64)>, r: nat) -> int
    decreases s.len(),
{
    if s.len() == 0 {
        0
    } else if r < s[0].1 {
        0
    } else {
        1 + weighted_index(s.drop_first(), (r - s[0].1) as nat)
    }
}

/// Unfolding `sum_weights` at an inner position.
proof fn lemma_sum_skip_unfold<T>(s: Seq<(T, u64)>, i: int)
    requires
        0 <= i < s.len(),
    ensures
        sum_weights(s.skip(i)) == s[i].1 as nat + sum_weights(s.skip(i + 1)),
{
    assert(s.skip(i)[0] == s[i]);
    assert(s.skip(i).drop_first() =~= s.skip(i + 1));
}

/// A position below the total weight is owned by some entry of the table.
proof fn lemma_weighted_index_in_range<T>(s: Seq<(T, u64)>, r: nat)
    requires
        r < sum_weights(s),
    ensures
        0 <= weighted_index(s, r) < s.len(),
    decreases s.len(),
{
    if s.len() > 0 && r >= s[0].1 {
        lemma_weighted_index_in_range(s.drop_first(), (r - s[0].1) as nat);
    }
}

/// A shrinking pool of uniform randomness drawn from a 512-bit digest.
pub struct EntropyPool {
    remaining: Uint576,
    current_max: Uint576,
}

impl EntropyPool {
    /// Structural invariant: what remains never exceeds its bound.
    pub closed spec fn wf(&self) -> bool {
        &&& self.remaining.wf()
        &&& self.current_max.wf()
        &&& self.remaining.val() <= self.current_max.val()
    }

    /// The digest value not yet consumed.
    pub closed spec fn rem_val(&self) -> nat {
        self.remaining.val()
    }

    /// The tightest known upper bound on `rem_val`.
    pub closed spec fn max_val(&self) -> nat {
        self.current_max.val()
    }

    /// Hash a seed string into a fresh pool: `remaining` is the digest value,
    /// `current_max` is `2^512`.
    pub fn via_sha512(input: &str) -> (pool: EntropyPool)
        ensures
            pool.wf(),
            pool.rem_val() == seed_val(input@),
            pool.max_val() == pow2(512),
            pool.rem_val() < pool.max_val(),
    {
        let digest = sha512_digest(input.as_bytes());
        let remaining = Uint576::from_be_bytes(&digest);
        let current_max = Uint576::power_of_two_512();
        EntropyPool { remaining, current_max }
    }

    /// Draw a uniform value in `[0, size)`, consuming the entropy that the
    /// draw uses: both `remaining` and `current_max` shrink by a factor of
    /// `size`.  Fails with `EntropyExhausted` unless `1 <= size <= current_max`.
    pub fn take(&mut self, size: u64) -> (res: Result<u64, IconError>)
        requires
            old(self).wf(),
        ensures
            final(self).wf(),
            final(self).max_val() <= old(self).max_val(),
            1 <= size && size as nat <= old(self).max_val() ==> {
                &&& res is Ok
                &&& res->Ok_0 < size
                &&& res->Ok_0 as nat == old(self).rem_val() % size as nat
                &&& final(self).rem_val() == old(self).rem_val() / size as nat
                &&& final(self).max_val() == old(self).max_val() / size as nat
            },
            !(1 <= size && size as nat <= old(self).max_val()) ==> {
                &&& res == Err::<u64, IconError>(IconError::EntropyExhausted)
                &&& *final(self) == *old(self)
            },
    {
        if size == 0 || !self.current_max.ge_word(size) {
            return Err(IconError::EntropyExhausted);
        }
        let res = self.remaining.div_rem(size);
        let _ = self.current_max.div_rem(size);
        proof {
            lemma_div_is_ordered(
                old(self).rem_val() as int,
                old(self).max_val() as int,
                size as int,
            );
            lemma_div_nonincreasing(old(self).max_val() as int, size as int);
        }
        Ok(res)
    }

    /// Draw a uniform value in `[low, high)`.  Fails with `InvalidRange`
    /// unless `high > low`, and with `EntropyExhausted` when the width
    /// exceeds `current_max`.
    pub fn range(&mut self, low: u64, high: u64) -> (res: Result<u64, IconError>)
        requires
            old(self).wf(),
        ensures
            final(self).wf(),
            final(self).max_val() <= old(self).max_val(),
            high <= low ==> {
                &&& res == Err::<u64, IconError>(IconError::InvalidRange)
                &&& *final(self) == *old(self)
            },
            high > low && (high - low) as nat <= old(self).max_val() ==> {
                &&& res is Ok
                &&& low <= res->Ok_0 < high
                &&& res->Ok_0 as nat == low + old(self).rem_val() % ((high - low) as nat)
                &&& final(self).rem_val() == old(self).rem_val() / ((high - low) as nat)
                &&& final(self).max_val() == old(self).max_val() / ((high - low) as nat)
            },
            high > low && (high - low) as nat > old(self).max_val() ==> {
                &&& res == Err::<u64, IconError>(IconError::EntropyExhausted)
                &&& *final(self) == *old(self)
            },
    {
        if high <= low {
            return Err(IconError::InvalidRange);
        }
        match self.take(high - low) {
            Ok(t) => Ok(low + t),
            Err(e) => Err(e),
        }
    }

    /// Draw one element of a non-empty sequence, uniformly.  Fails with
    /// `InvalidRange` on an empty sequence, and with `EntropyExhausted` when
    /// the sequence is longer than `current_max`.
    pub fn pick<T: Copy>(&mut self, choices: &Vec<T>) -> (res: Result<T, IconError>)
        requires
            old(self).wf(),
        ensures
            final(self).wf(),
            final(self).max_val() <= old(self).max_val(),
            choices@.len() == 0 ==> {
                &&& res == Err::<T, IconError>(IconError::InvalidRange)
                &&& *final(self) == *old(self)
            },
            1 <= choices@.len() <= old(self).max_val() ==> {
                &&& res is Ok
                &&& res->Ok_0 == choices@[(old(self).rem_val() % choices@.len()) as int]
                &&& final(self).rem_val() == old(self).rem_val() / choices@.len()
                &&& final(self).max_val() == old(self).max_val() / choices@.len()
            },
            choices@.len() > old(self).max_val() ==> {
                &&& res == Err::<T, IconError>(IconError::EntropyExhausted)
                &&& *final(self) == *old(self)
            },
    {
        let n = choices.len();
        match self.range(0, n as u64) {
            Ok(idx) => Ok(choices[idx as usize]),
            Err(e) => Err(e),
        }
    }

    /// Draw one element of a weighted table: entry `i` owns an interval of
    /// width `weight_i` laid out in table order, and a uniform draw over the
    /// total weight selects the owner.  Fails with `WeightSumZero` when the
    /// total is zero, and with `EntropyExhausted` when it exceeds
    /// `current_max`.
    #[verifier::loop_isolation(false)]
    pub fn choose_weighted<T: Copy>(&mut self, choices: &Vec<(T, u64)>) -> (res: Result<
        T,
        IconError,
    >)
        requires
            old(self).wf(),
            sum_weights(choices@) <= u64::MAX,
        ensures
            final(self).wf(),
            final(self).max_val() <= old(self).max_val(),
            sum_weights(choices@) == 0 ==> {
                &&& res == Err::<T, IconError>(IconError::WeightSumZero)
                &&& *final(self) == *old(self)
            },
            1 <= sum_weights(choices@) <= old(self).max_val() ==> {
                &&& res is Ok
                &&& res->Ok_0 == choices@[weighted_index(
                    choices@,
                    old(self).rem_val() % sum_weights(choices@),
                )].0
                &&& final(self).rem_val() == old(self).rem_val() / sum_weights(choices@)
                &&& final(self).max_val() == old(self).max_val() / sum_weights(choices@)
            },
            sum_weights(choices@) > old(self).max_val() ==> {
                &&& res == Err::<T, IconError>(IconError::EntropyExhausted)
                &&& *final(self) == *old(self)
            },
    {
        let ghost s: Seq<(T, u64)> = choices@;
        let mut total: u64 = 0;
        let mut i: usize = 0;
        proof {
            assert(s.skip(0) =~= s);
        }
        while i < choices.len()
            invariant
                i <= s.len(),
                s == choices@,
                sum_weights(s) <= u64::MAX,
                total + sum_weights(s.skip(i as int)) == sum_weights(s),
            decreases s.len() - i,
        {
            proof {
                lemma_sum_skip_unfold(s, i as int);
            }
            total = total + choices[i].1;
            i += 1;
        }
        proof {
            assert(s.skip(s.len() as int) =~= Seq::<(T, u64)>::empty());
        }
        if total == 0 {
            return Err(IconError::WeightSumZero);
        }
        let r = match self.range(0, total) {
            Ok(r) => r,
            Err(e) => {
                return Err(e);
            },
        };
        proof {
            lemma_weighted_index_in_range(s, r as nat);
        }
        let ghost target: int = weighted_index(s, r as nat);
        let mut cur: u64 = r;
        let mut j: usize = 0;
        proof {
            assert(s.skip(0) =~= s);
        }
        while j < choices.len()
            invariant
                j <= s.len(),
                s == choices@,
                cur < sum_weights(s.skip(j as int)),
                target == j + weighted_index(s.skip(j as int), cur as nat),
                0 <= target < s.len(),
            decreases s.len() - j,
        {
            proof {
                lemma_sum_skip_unfold(s, j as int);
                assert(s.skip(j as int)[0] == s[j as int]);
            }
            if cur < choices[j].1 {
                return Ok(choices[j].0);
            }
            proof {
                assert(s.skip(j as int).drop_first() =~= s.skip(j + 1));
            }
            cur = cur - choices[j].1;
            j += 1;
        }
        proof {
            assert(s.skip(s.len() as int) =~= Seq::<(T, u64)>::empty());
            assert(false);
        }
        Err(IconError::WeightSumZero)
    }
}

} // verus!
