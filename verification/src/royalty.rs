//! Royalty structures: an ordered sequence of fee-computation steps,
//! evaluated left-to-right over a payment amount.

use vstd::prelude::*;
use vstd::arithmetic::div_mod::lemma_div_is_ordered;
use vstd::arithmetic::mul::lemma_mul_inequality;
use crate::amount::{amount_limit, Amount, Percent};
use crate::error::CustodialError;

verus! {

/// One step of a royalty structure.
#[derive(Clone, Copy, Debug)]
pub enum RoyaltyStep {
    /// Raises the running payment to at least `amount`; adds nothing
    /// to the royalty itself.
    Minimum { amount: Amount },
    /// Adds a constant `amount` to the royalty.
    Flat { amount: Amount },
    /// Adds `percent` basis points of the original payment to the
    /// royalty.
    Percentage { percent: Percent },
}

/// The mathematical shape of a [`RoyaltyStep`].
#[derive(PartialEq, Eq, Structural)]
pub enum RoyaltyStepView {
    Minimum(nat),
    Flat(nat),
    Percentage(nat),
}

impl View for RoyaltyStep {
    type V = RoyaltyStepView;

    open spec fn view(&self) -> RoyaltyStepView {
        match self {
            RoyaltyStep::Minimum { amount } => RoyaltyStepView::Minimum(amount@),
            RoyaltyStep::Flat { amount } => RoyaltyStepView::Flat(amount@),
            RoyaltyStep::Percentage { percent } => RoyaltyStepView::Percentage(percent@),
        }
    }
}

/// An ordered sequence of royalty steps; immutable after installation.
#[derive(Clone, Debug)]
pub struct RoyaltyStructure {
    pub steps: Vec<RoyaltyStep>,
}

impl View for RoyaltyStructure {
    type V = Seq<RoyaltyStepView>;

    open spec fn view(&self) -> Seq<RoyaltyStepView> {
        self.steps@.map(|i: int, s: RoyaltyStep| s@)
    }
}

/// Denominator of a basis-point percentage.
pub open spec fn basis_point_denominator() -> nat {
    10000
}

/// Left fold of the royalty steps.  `original` is the payment the call
/// was made with (percentage steps read it), `payment` the running
/// payment (minimum steps raise it), `acc` the royalty collected so
/// far.  `None` means an intermediate value overflowed 512 bits, which
/// aborts the whole computation.
pub open spec fn royalty_fold(
    steps: Seq<RoyaltyStepView>,
    original: nat,
    payment: nat,
    acc: nat,
) -> Option<nat>
    decreases steps.len(),
{
    if steps.len() == 0 {
        Some(acc)
    } else {
        match steps[0] {
            RoyaltyStepView::Minimum(m) => royalty_fold(
                steps.drop_first(),
                original,
                if payment < m {
                    m
                } else {
                    payment
                },
                acc,
            ),
            RoyaltyStepView::Flat(f) => if acc + f < amount_limit() {
                royalty_fold(steps.drop_first(), original, payment, (acc + f) as nat)
            } else {
                None
            },
            RoyaltyStepView::Percentage(p) => if original * p >= amount_limit() {
                None
            } else {
                let share = (original * p) / basis_point_denominator();
                if acc + share < amount_limit() {
                    royalty_fold(steps.drop_first(), original, payment, (acc + share) as nat)
                } else {
                    None
                }
            },
        }
    }
}

/// The total royalty a structure charges on a payment, or `None` on
/// arithmetic overflow.
pub open spec fn total_royalty_spec(steps: Seq<RoyaltyStepView>, payment: nat) -> Option<nat> {
    royalty_fold(steps, payment, payment, 0)
}

impl RoyaltyStructure {
    /// A structure with the given steps.
    pub fn new(steps: Vec<RoyaltyStep>) -> (r: RoyaltyStructure)
        ensures
            r@ == steps@.map(|i: int, s: RoyaltyStep| s@),
    {
        RoyaltyStructure { steps }
    }

    /// The total royalty charged on `total_payment`: each step is
    /// applied left to right, and any overflowing intermediate value
    /// aborts the whole computation.  The result is a function of the
    /// structure and the payment alone.
    pub fn calculate_total_royalty(&self, total_payment: Amount) -> (r: Result<
        Amount,
        CustodialError,
    >)
        ensures
            match r {
                Ok(t) => total_royalty_spec(self@, total_payment@) == Some(t@),
                Err(e) => e == CustodialError::Overflow && total_royalty_spec(
                    self@,
                    total_payment@,
                ) is None,
            },
    {
        let mut payment = total_payment;
        let mut total_royalty = Amount::zero();
        let denominator = Amount::from_u64(10000);
        let ghost orig: nat = total_payment@;
        proof {
            assert(self@.skip(0) =~= self@);
        }

        let mut i: usize = 0;
        while i < self.steps.len()
            invariant
                i <= self.steps.len(),
                denominator@ == basis_point_denominator(),
                orig == total_payment@,
                total_royalty_spec(self@, orig) == royalty_fold(
                    self@.skip(i as int),
                    orig,
                    payment@,
                    total_royalty@,
                ),
            decreases self.steps.len() - i,
        {
            let ghost pre = self@.skip(i as int);
            proof {
                assert(pre[0] == self@[i as int]);
                assert(pre.drop_first() =~= self@.skip(i as int + 1));
            }
            match &self.steps[i] {
                RoyaltyStep::Minimum { amount } => {
                    if payment.lt(amount) {
                        payment = *amount;
                    }
                },
                RoyaltyStep::Flat { amount } => {
                    match total_royalty.checked_add(amount) {
                        Some(t) => {
                            proof {
                                crate::amount::lemma_amount_in_range(t);
                            }
                            total_royalty = t;
                        },
                        None => {
                            return Err(CustodialError::Overflow);
                        },
                    }
                },
                RoyaltyStep::Percentage { percent } => {
                    let wide = percent.widen();
                    let product = match total_payment.checked_mul(&wide) {
                        Some(p) => p,
                        None => {
                            return Err(CustodialError::Overflow);
                        },
                    };
                    proof {
                        crate::amount::lemma_amount_in_range(product);
                    }
                    let share = product.checked_div(&denominator).unwrap();
                    match total_royalty.checked_add(&share) {
                        Some(t) => {
                            proof {
                                crate::amount::lemma_amount_in_range(t);
                            }
                            total_royalty = t;
                        },
                        None => {
                            return Err(CustodialError::Overflow);
                        },
                    }
                },
            }
            i = i + 1;
        }
        proof {
            assert(self@.skip(i as int) =~= Seq::<RoyaltyStepView>::empty());
        }
        Ok(total_royalty)
    }
}

/// The fold is monotone in the original payment and the accumulator,
/// and its success on larger inputs implies success on smaller ones.
/// The running payment never feeds the royalty, so no relation between
/// the two running payments is needed.
proof fn lemma_royalty_fold_monotone(
    steps: Seq<RoyaltyStepView>,
    original1: nat,
    payment1: nat,
    acc1: nat,
    original2: nat,
    payment2: nat,
    acc2: nat,
)
    requires
        original1 <= original2,
        acc1 <= acc2,
        royalty_fold(steps, original2, payment2, acc2) is Some,
    ensures
        royalty_fold(steps, original1, payment1, acc1) is Some,
        royalty_fold(steps, original1, payment1, acc1)->Some_0 <= royalty_fold(
            steps,
            original2,
            payment2,
            acc2,
        )->Some_0,
    decreases steps.len(),
{
    if steps.len() > 0 {
        match steps[0] {
            RoyaltyStepView::Minimum(m) => {
                lemma_royalty_fold_monotone(
                    steps.drop_first(),
                    original1,
                    if payment1 < m {
                        m
                    } else {
                        payment1
                    },
                    acc1,
                    original2,
                    if payment2 < m {
                        m
                    } else {
                        payment2
                    },
                    acc2,
                );
            },
            RoyaltyStepView::Flat(f) => {
                lemma_royalty_fold_monotone(
                    steps.drop_first(),
                    original1,
                    payment1,
                    (acc1 + f) as nat,
                    original2,
                    payment2,
                    (acc2 + f) as nat,
                );
            },
            RoyaltyStepView::Percentage(p) => {
                lemma_mul_inequality(original1 as int, original2 as int, p as int);
                let share1 = (original1 * p) / basis_point_denominator();
                let share2 = (original2 * p) / basis_point_denominator();
                lemma_div_is_ordered(
                    (original1 * p) as int,
                    (original2 * p) as int,
                    basis_point_denominator() as int,
                );
                lemma_royalty_fold_monotone(
                    steps.drop_first(),
                    original1,
                    payment1,
                    (acc1 + share1) as nat,
                    original2,
                    payment2,
                    (acc2 + share2) as nat,
                );
            },
        }
    }
}

/// For a fixed structure the total royalty is monotonically
/// non-decreasing in the payment amount: if the royalty on the larger
/// payment is defined, so is the royalty on the smaller, and it is no
/// greater.  (The royalty is a function of structure and payment
/// alone, so repeated evaluation on the same inputs yields the same
/// result.)
pub proof fn lemma_total_royalty_monotone(steps: Seq<RoyaltyStepView>, payment1: nat, payment2: nat)
    requires
        payment1 <= payment2,
        total_royalty_spec(steps, payment2) is Some,
    ensures
        total_royalty_spec(steps, payment1) is Some,
        total_royalty_spec(steps, payment1)->Some_0 <= total_royalty_spec(steps, payment2)->Some_0,
{
    lemma_royalty_fold_monotone(steps, payment1, payment1, 0, payment2, payment2, 0);
}

} // verus!
