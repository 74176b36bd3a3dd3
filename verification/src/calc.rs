//! The arithmetic of a settlement: what a link pays out, what is kept as
//! commission, and what a payer has to send.

use crate::amount::{amount_limit, lemma_pow256_grows, Amount, MAX_AMOUNT_BYTES};
use crate::link::{IndividualPayment, PaymentView, Payments};
use vstd::pervasive::unreached;
use vstd::prelude::*;

verus! {

/// The commission, in percent, that goes into the amount quoted to a payer.
/// What is kept at settlement goes by the contract's own rate instead.
pub const COMMISSION_RATE_PERCENT: u64 = 1;

/// The sum of the amounts of a list of payments.
pub open spec fn sum_amounts(payments: Seq<PaymentView>) -> nat
    decreases payments.len(),
{
    if payments.len() == 0 {
        0
    } else {
        sum_amounts(payments.drop_last()) + payments.last().amount
    }
}

/// `rate` percent of `used_amount`, rounded down.
pub open spec fn commission_of(used_amount: nat, rate: nat) -> nat {
    used_amount * rate / 100
}

/// What a payer has to send for a list of payments: their sum and the quoted
/// commission on it.
pub open spec fn total_amount(payments: Seq<PaymentView>) -> nat {
    sum_amounts(payments) + commission_of(sum_amounts(payments), COMMISSION_RATE_PERCENT as nat)
}

/// The first payments of a list sum to no more than the whole list.
proof fn lemma_sum_of_prefix(payments: Seq<PaymentView>, n: int)
    requires
        0 <= n <= payments.len(),
    ensures
        sum_amounts(payments.take(n)) <= sum_amounts(payments),
    decreases payments.len() - n,
{
    if n == payments.len() {
        assert(payments.take(n) =~= payments);
    } else {
        lemma_sum_of_prefix(payments, n + 1);
        assert(payments.take(n + 1).drop_last() =~= payments.take(n));
    }
}

/// A commission of at most 100 percent is at most the amount it is taken from.
pub proof fn lemma_commission_at_most_used(used_amount: nat, rate: nat)
    requires
        rate <= 100,
    ensures
        commission_of(used_amount, rate) <= used_amount,
{
    assert(used_amount * rate <= used_amount * 100) by (nonlinear_arith)
        requires
            rate <= 100,
    ;
}

/// The sum of the amounts of the payments, unless it passes the limit of an
/// amount.
pub fn checked_sum(payments: &Vec<IndividualPayment>) -> (r: Option<Amount>)
    ensures
        r is Some <==> sum_amounts(payments.deep_view()) < amount_limit(),
        r matches Some(sum) ==> sum@ == sum_amounts(payments.deep_view()),
{
    let ghost all = payments.deep_view();
    let mut sum = Amount::zero();
    let mut i: usize = 0;
    proof {
        assert(all.take(0) =~= Seq::<PaymentView>::empty());
        lemma_pow256_grows(0, MAX_AMOUNT_BYTES as nat);
    }
    while i < payments.len()
        invariant
            0 <= i <= payments.len(),
            all == payments.deep_view(),
            sum@ == sum_amounts(all.take(i as int)),
            sum@ < amount_limit(),
        decreases payments.len() - i,
    {
        proof {
            assert(all.take(i + 1).drop_last() =~= all.take(i as int));
            assert(all.take(i + 1).last() == payments[i as int]@);
            lemma_sum_of_prefix(all, i + 1);
        }
        match sum.checked_add(&payments[i].amount) {
            Some(next) => {
                sum = next;
            },
            None => {
                return None;
            },
        }
        i += 1;
    }
    assert(all.take(payments.len() as int) =~= all);
    Some(sum)
}

/// `rate` percent of `used_amount`, rounded down, unless it passes the limit
/// of an amount.
pub fn checked_commission(used_amount: &Amount, rate: &Amount) -> (r: Option<Amount>)
    ensures
        r is Some <==> commission_of(used_amount@, rate@) < amount_limit(),
        r matches Some(commission) ==> commission@ == commission_of(used_amount@, rate@),
{
    let hundred = Amount::from_u64(100);
    used_amount.checked_mul_div(rate, &hundred)
}

/// `rate` percent of `used_amount`, rounded down, for a rate of at most 100.
pub fn compute_commission(used_amount: &Amount, rate: &Amount) -> (commission: Amount)
    requires
        rate@ <= 100,
    ensures
        commission@ == commission_of(used_amount@, rate@),
        commission@ <= used_amount@,
{
    proof {
        use_type_invariant(used_amount);
        used_amount.lemma_below_limit();
        lemma_commission_at_most_used(used_amount@, rate@);
    }
    match checked_commission(used_amount, rate) {
        Some(commission) => commission,
        None => unreached(),
    }
}

/// What a payer has to send for the payments, unless it passes the limit of
/// an amount.
pub fn checked_total_amount(payments: &Vec<IndividualPayment>) -> (r: Option<Amount>)
    ensures
        r is Some <==> total_amount(payments.deep_view()) < amount_limit(),
        r matches Some(total) ==> total@ == total_amount(payments.deep_view()),
{
    match checked_sum(payments) {
        Some(sum) => {
            proof {
                lemma_commission_at_most_used(sum@, COMMISSION_RATE_PERCENT as nat);
            }
            let commission = compute_commission(&sum, &Amount::from_u64(COMMISSION_RATE_PERCENT));
            sum.checked_add(&commission)
        },
        None => None,
    }
}

/// What a payer has to send for the payments: their sum and one percent of
/// it, rounded down.
pub fn compute_total_amount(payments: &Payments) -> (total: Amount)
    ensures
        total@ == total_amount(payments@),
        total@ == sum_amounts(payments@) + sum_amounts(payments@) / 100,
        total@ >= sum_amounts(payments@),
{
    proof {
        use_type_invariant(payments);
        payments.lemma_fits();
    }
    match checked_total_amount(payments.items()) {
        Some(total) => total,
        None => unreached(),
    }
}

} // verus!
