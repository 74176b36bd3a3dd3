//! Payment links: who is paid how much, who made the link, and how far it is.

use crate::address::Address;
use crate::amount::{amount_limit, Amount};
use crate::calc::{checked_total_amount, total_amount};
use vstd::prelude::*;

verus! {

/// How far a payment link is. A link starts as `Pending`; `Completed` and
/// `Cancelled` are final.
#[derive(Clone, Copy, Debug, PartialEq, Eq, Structural)]
pub enum Status {
    Pending,
    Completed,
    Cancelled,
}

/// One payout of a link: an amount and the account that gets it.
#[derive(Debug, PartialEq)]
pub struct IndividualPayment {
    pub amount: Amount,
    pub destination: Address,
}

/// What an [`IndividualPayment`] stands for.
#[verifier::ext_equal]
pub struct PaymentView {
    pub amount: nat,
    pub destination: Seq<u8>,
}

impl View for IndividualPayment {
    type V = PaymentView;

    open spec fn view(&self) -> PaymentView {
        PaymentView { amount: self.amount@, destination: self.destination@ }
    }
}

impl DeepView for IndividualPayment {
    type V = PaymentView;

    open spec fn deep_view(&self) -> PaymentView {
        self@
    }
}

impl Clone for IndividualPayment {
    fn clone(&self) -> (r: Self)
        ensures
            r@ == self@,
    {
        IndividualPayment { amount: self.amount.clone(), destination: self.destination }
    }
}

/// A copy of a list of payments, item by item.
pub fn clone_payments(payments: &Vec<IndividualPayment>) -> (r: Vec<IndividualPayment>)
    ensures
        r.deep_view() == payments.deep_view(),
{
    let mut r: Vec<IndividualPayment> = Vec::new();
    let mut i: usize = 0;
    while i < payments.len()
        invariant
            0 <= i <= payments.len(),
            r.len() == i,
            forall|j: int| 0 <= j < i ==> r[j]@ == payments[j]@,
        decreases payments.len() - i,
    {
        r.push(payments[i].clone());
        i += 1;
    }
    assert(r.deep_view() =~= payments.deep_view());
    r
}

/// The payouts of a link, in their order. Together with the quoted
/// commission they come to less than the limit of an amount, so that what the
/// link asks of its payer is an amount.
#[derive(Debug, PartialEq)]
pub struct Payments {
    items: Vec<IndividualPayment>,
}

impl View for Payments {
    type V = Seq<PaymentView>;

    closed spec fn view(&self) -> Seq<PaymentView> {
        self.items.deep_view()
    }
}

impl Clone for Payments {
    fn clone(&self) -> (r: Self)
        ensures
            r@ == self@,
    {
        proof {
            use_type_invariant(self);
        }
        Payments { items: clone_payments(&self.items) }
    }
}

impl Payments {
    /// What holds of every list of payments that a program holds.
    #[verifier::type_invariant]
    pub(crate) closed spec fn fits(&self) -> bool {
        total_amount(self.items.deep_view()) < amount_limit()
    }

    /// What a list that fits asks of its payer is below the limit.
    pub(crate) proof fn lemma_fits(&self)
        requires
            self.fits(),
        ensures
            total_amount(self@) < amount_limit(),
    {
    }

    /// The payments as a list, unless they ask their payer for the limit of
    /// an amount or more.
    pub fn new(items: Vec<IndividualPayment>) -> (r: Option<Payments>)
        ensures
            r is Some <==> total_amount(items.deep_view()) < amount_limit(),
            r matches Some(payments) ==> payments@ == items.deep_view(),
    {
        if checked_total_amount(&items).is_some() {
            Some(Payments { items })
        } else {
            None
        }
    }

    /// The payments, first to last.
    pub fn items(&self) -> (r: &Vec<IndividualPayment>)
        ensures
            r.deep_view() == self@,
    {
        &self.items
    }
}

/// A named list of payouts that waits for its payer.
#[derive(Debug, PartialEq)]
pub struct PaymentLink {
    pub payment_id: String,
    pub payments: Payments,
    pub status: Status,
    pub creator: Address,
}

/// What a [`PaymentLink`] stands for.
#[verifier::ext_equal]
pub struct LinkView {
    pub payment_id: Seq<char>,
    pub payments: Seq<PaymentView>,
    pub status: Status,
    pub creator: Seq<u8>,
}

impl View for PaymentLink {
    type V = LinkView;

    open spec fn view(&self) -> LinkView {
        LinkView {
            payment_id: self.payment_id@,
            payments: self.payments@,
            status: self.status,
            creator: self.creator@,
        }
    }
}

impl DeepView for PaymentLink {
    type V = LinkView;

    open spec fn deep_view(&self) -> LinkView {
        self@
    }
}

impl Clone for PaymentLink {
    fn clone(&self) -> (r: Self)
        ensures
            r@ == self@,
    {
        PaymentLink {
            payment_id: self.payment_id.clone(),
            payments: self.payments.clone(),
            status: self.status,
            creator: self.creator,
        }
    }
}

} // verus!
