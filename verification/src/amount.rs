//! Unsigned 512-bit and 256-bit payment amounts.
//!
//! An [`Amount`] holds the eight little-endian 64-bit limbs of a
//! 512-bit integer; a [`Percent`] holds the four limbs of a 256-bit
//! integer.  The mathematical value of either is given by [`limbs_val`].
//! The arithmetic itself is delegated to the `U512` type of
//! `casper-types` through trusted wrappers, whose contracts state the
//! exact value of each result.

use vstd::prelude::*;
use vstd::arithmetic::power2::{pow2, lemma_pow2_adds};

verus! {

/// Value of a little-endian sequence of 64-bit limbs.
pub open spec fn limbs_val(s: Seq<u64>) -> nat
    decreases s.len(),
{
    if s.len() == 0 {
        0
    } else {
        s[0] as nat + limbs_val(s.drop_first()) * pow2(64)
    }
}

/// An unsigned 512-bit amount: eight 64-bit limbs, least significant first.
#[derive(Clone, Copy, Debug)]
pub struct Amount {
    pub limbs: [u64; 8],
}

impl View for Amount {
    type V = nat;

    open spec fn view(&self) -> nat {
        limbs_val(self.limbs@)
    }
}

/// An unsigned 256-bit quantity: four 64-bit limbs, least significant first.
#[derive(Clone, Copy, Debug)]
pub struct Percent {
    pub limbs: [u64; 4],
}

impl View for Percent {
    type V = nat;

    open spec fn view(&self) -> nat {
        limbs_val(self.limbs@)
    }
}

/// Exclusive upper bound of a 512-bit amount.
pub open spec fn amount_limit() -> nat {
    pow2(512)
}

/// Exclusive upper bound of a 256-bit quantity.
pub open spec fn percent_limit() -> nat {
    pow2(256)
}

/// A sequence of zero limbs has value zero.
pub proof fn lemma_limbs_val_zeros(s: Seq<u64>)
    requires
        forall|i: int| 0 <= i < s.len() ==> s[i] == 0,
    ensures
        limbs_val(s) == 0,
    decreases s.len(),
{
    if s.len() > 0 {
        assert(s[0] == 0);
        assert(forall|i: int| 0 <= i < s.drop_first().len() ==> s.drop_first()[i] == s[i + 1]);
        lemma_limbs_val_zeros(s.drop_first());
        assert(limbs_val(s) == 0 + 0 * pow2(64));
    }
}

/// Appending zero limbs does not change the value.
pub proof fn lemma_limbs_val_zero_extend(s: Seq<u64>, t: Seq<u64>)
    requires
        forall|i: int| 0 <= i < t.len() ==> t[i] == 0,
    ensures
        limbs_val(s + t) == limbs_val(s),
    decreases s.len(),
{
    if s.len() == 0 {
        assert(s + t =~= t);
        lemma_limbs_val_zeros(t);
    } else {
        assert((s + t).drop_first() =~= s.drop_first() + t);
        lemma_limbs_val_zero_extend(s.drop_first(), t);
    }
}

/// The value of `len` limbs is below `pow2(64 * len)`.
pub proof fn lemma_limbs_val_bound(s: Seq<u64>)
    ensures
        limbs_val(s) < pow2(64 * s.len()),
    decreases s.len(),
{
    if s.len() == 0 {
        vstd::arithmetic::power2::lemma2_to64();
    } else {
        lemma_limbs_val_bound(s.drop_first());
        lemma_pow2_adds(64, 64 * (s.len() - 1) as nat);
        let rest = limbs_val(s.drop_first());
        assert(rest * pow2(64) <= (pow2(64 * (s.len() - 1) as nat) - 1) * pow2(64))
            by (nonlinear_arith)
            requires
                rest <= pow2(64 * (s.len() - 1) as nat) - 1,
        ;
        vstd::arithmetic::power2::lemma2_to64();
    }
}

/// An `Amount`'s value is below `amount_limit()`.
pub proof fn lemma_amount_in_range(a: Amount)
    ensures
        a@ < amount_limit(),
{
    lemma_limbs_val_bound(a.limbs@);
}

/// A `Percent`'s value is below `percent_limit()`.
pub proof fn lemma_percent_in_range(p: Percent)
    ensures
        p@ < percent_limit(),
{
    lemma_limbs_val_bound(p.limbs@);
}

impl Amount {
    /// The amount with value zero.
    pub fn zero() -> (r: Amount)
        ensures
            r@ == 0,
    {
        let r = Amount { limbs: [0, 0, 0, 0, 0, 0, 0, 0] };
        proof {
            lemma_limbs_val_zeros(r.limbs@);
        }
        r
    }

    /// The amount with the value of a 64-bit integer.
    pub fn from_u64(x: u64) -> (r: Amount)
        ensures
            r@ == x,
    {
        let r = Amount { limbs: [x, 0, 0, 0, 0, 0, 0, 0] };
        proof {
            assert(r.limbs@ =~= seq![x] + seq![0u64, 0, 0, 0, 0, 0, 0]);
            lemma_limbs_val_zero_extend(seq![x], seq![0u64, 0, 0, 0, 0, 0, 0]);
            reveal_with_fuel(limbs_val, 2);
        }
        r
    }

    /// Relies on `casper_types::U512::checked_add` (`uint` crate):
    /// returns `None` exactly when the sum overflows 512 bits.
    #[verifier::external_body]
    pub fn checked_add(&self, other: &Amount) -> (r: Option<Amount>)
        ensures
            match r {
                Some(c) => c@ == self@ + other@,
                None => self@ + other@ >= amount_limit(),
            },
    {
        casper_types::U512(self.limbs)
            .checked_add(casper_types::U512(other.limbs))
            .map(|c| Amount { limbs: c.0 })
    }

    /// Relies on `casper_types::U512::checked_sub` (`uint` crate):
    /// returns `None` exactly when the subtraction underflows.
    #[verifier::external_body]
    pub fn checked_sub(&self, other: &Amount) -> (r: Option<Amount>)
        ensures
            match r {
                Some(c) => other@ <= self@ && c@ == self@ - other@,
                None => self@ < other@,
            },
    {
        casper_types::U512(self.limbs)
            .checked_sub(casper_types::U512(other.limbs))
            .map(|c| Amount { limbs: c.0 })
    }

    /// Relies on `casper_types::U512::checked_mul` (`uint` crate):
    /// returns `None` exactly when the product overflows 512 bits.
    #[verifier::external_body]
    pub fn checked_mul(&self, other: &Amount) -> (r: Option<Amount>)
        ensures
            match r {
                Some(c) => c@ == self@ * other@,
                None => self@ * other@ >= amount_limit(),
            },
    {
        casper_types::U512(self.limbs)
            .checked_mul(casper_types::U512(other.limbs))
            .map(|c| Amount { limbs: c.0 })
    }

    /// Relies on `casper_types::U512::checked_div` (`uint` crate):
    /// returns `None` exactly on division by zero, else the euclidean
    /// quotient.
    #[verifier::external_body]
    pub fn checked_div(&self, other: &Amount) -> (r: Option<Amount>)
        ensures
            match r {
                Some(c) => other@ != 0 && c@ == self@ / other@,
                None => other@ == 0,
            },
    {
        casper_types::U512(self.limbs)
            .checked_div(casper_types::U512(other.limbs))
            .map(|c| Amount { limbs: c.0 })
    }

    /// Relies on the `Ord` implementation of `casper_types::U512`
    /// (`uint` crate), which orders by numeric value.
    #[verifier::external_body]
    pub fn lt(&self, other: &Amount) -> (r: bool)
        ensures
            r == (self@ < other@),
    {
        casper_types::U512(self.limbs) < casper_types::U512(other.limbs)
    }

    /// Value equality, derived from two ordering queries.
    pub fn eq_value(&self, other: &Amount) -> (r: bool)
        ensures
            r == (self@ == other@),
    {
        !self.lt(other) && !other.lt(self)
    }
}

impl Percent {
    /// The quantity with the value of a 64-bit integer.
    pub fn from_u64(x: u64) -> (r: Percent)
        ensures
            r@ == x,
    {
        let r = Percent { limbs: [x, 0, 0, 0] };
        proof {
            assert(r.limbs@ =~= seq![x] + seq![0u64, 0, 0]);
            lemma_limbs_val_zero_extend(seq![x], seq![0u64, 0, 0]);
            reveal_with_fuel(limbs_val, 2);
        }
        r
    }

    /// Widen to a 512-bit amount of the same value.
    pub fn widen(&self) -> (r: Amount)
        ensures
            r@ == self@,
    {
        let r = Amount {
            limbs: [
                self.limbs[0],
                self.limbs[1],
                self.limbs[2],
                self.limbs[3],
                0,
                0,
                0,
                0,
            ],
        };
        proof {
            assert(r.limbs@ =~= self.limbs@ + seq![0u64, 0, 0, 0]);
            lemma_limbs_val_zero_extend(self.limbs@, seq![0u64, 0, 0, 0]);
        }
        r
    }
}

} // verus!
