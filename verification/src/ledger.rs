//! The contract kept in memory: the settings and a list of payment links in
//! which no id occurs twice.

use crate::address::Address;
use crate::amount::{amount_limit, Amount};
use crate::calc::{compute_total_amount, total_amount, COMMISSION_RATE_PERCENT};
use crate::contract::SplitPaymentsContract;
use crate::effect::{Event, Settlement};
use crate::error::ContractError;
use crate::link::{LinkView, PaymentLink, Payments, Status};
use crate::model::{blank_state, valid_state, with_status, ContractState};
use crate::settlement::settle;
use vstd::pervasive::unreached;
use vstd::prelude::*;

verus! {

/// Whether one of the links has the id.
pub open spec fn has_link(links: Seq<PaymentLink>, id: Seq<char>) -> bool {
    exists|i: int| 0 <= i < links.len() && (#[trigger] links[i]).payment_id@ == id
}

/// The place of a link with the id, if there is one.
pub open spec fn index_of(links: Seq<PaymentLink>, id: Seq<char>) -> int {
    choose|i: int| 0 <= i < links.len() && (#[trigger] links[i]).payment_id@ == id
}

/// No id occurs twice among the links.
pub open spec fn distinct_ids(links: Seq<PaymentLink>) -> bool {
    forall|i: int, j: int|
        0 <= i < j < links.len() ==> (#[trigger] links[i]).payment_id@ != (
        #[trigger] links[j]).payment_id@
}

/// The links by their ids.
pub open spec fn links_by_id(links: Seq<PaymentLink>) -> Map<Seq<char>, LinkView> {
    Map::new(|id: Seq<char>| has_link(links, id), |id: Seq<char>| links[index_of(links, id)]@)
}

/// A link of a list without double ids is found under its id.
proof fn lemma_link_found(links: Seq<PaymentLink>, i: int)
    requires
        distinct_ids(links),
        0 <= i < links.len(),
    ensures
        has_link(links, links[i].payment_id@),
        index_of(links, links[i].payment_id@) == i,
        links_by_id(links).dom().contains(links[i].payment_id@),
        links_by_id(links)[links[i].payment_id@] == links[i]@,
{
    let id = links[i].payment_id@;
    assert(has_link(links, id));
    let j = index_of(links, id);
    assert(0 <= j < links.len() && links[j].payment_id@ == id);
    if j < i {
        assert(links[j].payment_id@ != links[i].payment_id@);
    } else if i < j {
        assert(links[i].payment_id@ != links[j].payment_id@);
    }
}

/// Putting a link in the place of one with the same id changes the entry
/// under that id and no other.
proof fn lemma_link_replaced(links: Seq<PaymentLink>, i: int, link: PaymentLink)
    requires
        distinct_ids(links),
        0 <= i < links.len(),
        link.payment_id@ == links[i].payment_id@,
    ensures
        distinct_ids(links.update(i, link)),
        links_by_id(links.update(i, link)) == links_by_id(links).insert(link.payment_id@, link@),
{
    let after = links.update(i, link);
    assert forall|a: int, b: int| 0 <= a < b < after.len() implies (#[trigger] after[a]).payment_id@
        != (#[trigger] after[b]).payment_id@ by {
        assert(after[a].payment_id@ == links[a].payment_id@);
        assert(after[b].payment_id@ == links[b].payment_id@);
    }
    let m1 = links_by_id(after);
    let m2 = links_by_id(links).insert(link.payment_id@, link@);
    assert forall|id: Seq<char>| m1.dom().contains(id) <==> m2.dom().contains(id) by {
        if has_link(after, id) {
            let k = index_of(after, id);
            assert(links[k].payment_id@ == id);
        }
        if has_link(links, id) {
            let k = index_of(links, id);
            assert(after[k].payment_id@ == id);
        }
        if id == link.payment_id@ {
            assert(after[i].payment_id@ == id);
        }
    }
    assert forall|id: Seq<char>| m1.dom().contains(id) implies m1[id] == m2[id] by {
        let k = index_of(after, id);
        assert(0 <= k < after.len() && after[k].payment_id@ == id);
        lemma_link_found(after, k);
        if k == i {
        } else {
            assert(links[k].payment_id@ == id);
            lemma_link_found(links, k);
            lemma_link_found(links, i);
        }
    }
    assert(m1 =~= m2);
}

/// Adding a link under an id that no link has adds the entry under that id
/// and changes no other.
proof fn lemma_link_added(links: Seq<PaymentLink>, link: PaymentLink)
    requires
        distinct_ids(links),
        !has_link(links, link.payment_id@),
    ensures
        distinct_ids(links.push(link)),
        links_by_id(links.push(link)) == links_by_id(links).insert(link.payment_id@, link@),
{
    let after = links.push(link);
    let n = links.len() as int;
    assert forall|a: int, b: int| 0 <= a < b < after.len() implies (#[trigger] after[a]).payment_id@
        != (#[trigger] after[b]).payment_id@ by {
        assert(after[a] == links[a]);
        if b < n {
            assert(after[b] == links[b]);
        } else {
            assert(after[b] == link);
        }
    }
    let m1 = links_by_id(after);
    let m2 = links_by_id(links).insert(link.payment_id@, link@);
    assert forall|id: Seq<char>| m1.dom().contains(id) <==> m2.dom().contains(id) by {
        if has_link(after, id) {
            let k = index_of(after, id);
            if k < n {
                assert(links[k].payment_id@ == id);
            }
        }
        if has_link(links, id) {
            let k = index_of(links, id);
            assert(after[k].payment_id@ == id);
        }
        if id == link.payment_id@ {
            assert(after[n].payment_id@ == id);
        }
    }
    assert forall|id: Seq<char>| m1.dom().contains(id) implies m1[id] == m2[id] by {
        let k = index_of(after, id);
        assert(0 <= k < after.len() && after[k].payment_id@ == id);
        lemma_link_found(after, k);
        if k == n {
        } else {
            assert(links[k].payment_id@ == id);
            lemma_link_found(links, k);
        }
    }
    assert(m1 =~= m2);
}

/// Each link asks its payer for less than the limit of an amount.
pub open spec fn links_fit(links: Seq<PaymentLink>) -> bool {
    forall|i: int|
        0 <= i < links.len() ==> total_amount((#[trigger] links[i])@.payments) < amount_limit()
}

/// The contract kept in memory.
#[derive(Debug)]
pub struct Ledger {
    enabled: bool,
    owner: Address,
    commission_rate: Amount,
    links: Vec<PaymentLink>,
}

/// A state made of a rate that is a percentage and of links that fit is
/// valid.
proof fn lemma_valid_state(s: ContractState, links: Seq<PaymentLink>)
    requires
        s.commission_rate <= 100,
        s.links == links_by_id(links),
        links_fit(links),
    ensures
        valid_state(s),
{
    assert forall|id: Seq<char>| #[trigger] s.links.dom().contains(id) implies {
        &&& s.links[id].payment_id == id
        &&& total_amount(s.links[id].payments) < amount_limit()
    } by {
        let k = index_of(links, id);
        assert(0 <= k < links.len() && links[k].payment_id@ == id);
    }
}

impl Ledger {
    /// What holds of every ledger: the rate is a percentage, no id occurs
    /// twice, and every link asks its payer for less than the limit of an
    /// amount.
    #[verifier::type_invariant]
    spec fn in_order(&self) -> bool {
        &&& self.commission_rate@ <= 100
        &&& distinct_ids(self.links@)
        &&& links_fit(self.links@)
    }

    /// A contract that was not set up yet.
    pub fn new() -> (r: Ledger)
        ensures
            r.state() == blank_state(),
    {
        let r = Ledger {
            enabled: false,
            owner: Address::zero(),
            commission_rate: Amount::zero(),
            links: Vec::new(),
        };
        assert(r.state().links =~= Map::<Seq<char>, LinkView>::empty());
        assert(r.state() =~= blank_state());
        r
    }

    /// The contract with these settings and links, unless they are not in
    /// order: a rate above 100, or an id that occurs twice.
    pub fn restore(
        enabled: bool,
        owner: Address,
        commission_rate: Amount,
        links: Vec<PaymentLink>,
    ) -> (r: Option<Ledger>)
        ensures
            r is Some <==> commission_rate@ <= 100 && distinct_ids(links@),
            r matches Some(ledger) ==> valid_state(ledger.state()) && ledger.state() == (
            ContractState {
                enabled,
                owner: owner@,
                commission_rate: commission_rate@,
                links: links_by_id(links@),
            }),
    {
        if !Amount::from_u64(100).ge(&commission_rate) {
            return None;
        }
        let mut i: usize = 0;
        while i < links.len()
            invariant
                0 <= i <= links@.len(),
                distinct_ids(links@.take(i as int)),
                links_fit(links@.take(i as int)),
            decreases links@.len() - i,
        {
            let payments = &links[i].payments;
            proof {
                use_type_invariant(payments);
                payments.lemma_fits();
            }
            let mut j: usize = 0;
            while j < i
                invariant
                    0 <= j <= i < links@.len(),
                    forall|k: int|
                        0 <= k < j ==> (#[trigger] links@[k]).payment_id@
                            != links@[i as int].payment_id@,
                decreases i - j,
            {
                if links[j].payment_id == links[i].payment_id {
                    assert(!distinct_ids(links@));
                    return None;
                }
                j += 1;
            }
            proof {
                let before = links@.take(i as int);
                let upto = links@.take(i + 1);
                assert forall|a: int, b: int| 0 <= a < b < upto.len() implies (
                #[trigger] upto[a]).payment_id@ != (#[trigger] upto[b]).payment_id@ by {
                    if b < i {
                        assert(before[a].payment_id@ != before[b].payment_id@);
                    }
                }
                assert forall|k: int| 0 <= k < upto.len() implies total_amount(
                    (#[trigger] upto[k])@.payments,
                ) < amount_limit() by {
                    if k < i {
                        assert(total_amount(before[k]@.payments) < amount_limit());
                    }
                }
            }
            i += 1;
        }
        assert(links@.take(links@.len() as int) =~= links@);
        let ledger = Ledger { enabled, owner, commission_rate, links };
        proof {
            lemma_valid_state(ledger.state(), ledger.links@);
        }
        Some(ledger)
    }

    /// Where the link with the id is kept, if there is one.
    fn find(&self, payment_id: &String) -> (r: Option<usize>)
        ensures
            match r {
                Some(i) => {
                    &&& i < self.links@.len()
                    &&& self.links@[i as int].payment_id@ == payment_id@
                    &&& self.state().links.dom().contains(payment_id@)
                    &&& self.state().links[payment_id@] == self.links@[i as int]@
                },
                None => !self.state().links.dom().contains(payment_id@),
            },
    {
        proof {
            use_type_invariant(self);
        }
        let mut i: usize = 0;
        while i < self.links.len()
            invariant
                distinct_ids(self.links@),
                0 <= i <= self.links@.len(),
                forall|j: int|
                    0 <= j < i ==> (#[trigger] self.links@[j]).payment_id@ != payment_id@,
            decreases self.links@.len() - i,
        {
            if self.links[i].payment_id == *payment_id {
                proof {
                    lemma_link_found(self.links@, i as int);
                }
                return Some(i);
            }
            i += 1;
        }
        None
    }

    /// The link that is stored under the id, if there is one.
    pub fn payment_link(&self, payment_id: &String) -> (r: Option<PaymentLink>)
        ensures
            r is Some <==> self.state().links.dom().contains(payment_id@),
            r matches Some(link) ==> link@ == self.state().links[payment_id@],
    {
        match self.find(payment_id) {
            Some(i) => Some(self.links[i].clone()),
            None => None,
        }
    }
}

impl SplitPaymentsContract for Ledger {
    closed spec fn state(&self) -> ContractState {
        ContractState {
            enabled: self.enabled,
            owner: self.owner@,
            commission_rate: self.commission_rate@,
            links: links_by_id(self.links@),
        }
    }

    fn enabled(&self) -> (r: bool) {
        self.enabled
    }

    fn owner(&self) -> (r: Address) {
        self.owner
    }

    fn commission_rate(&self) -> (r: Amount) {
        proof {
            use_type_invariant(self);
        }
        self.commission_rate.clone()
    }

    fn guard_payment_link_exists(&self, payment_id: String) -> (r: Result<(), ContractError>) {
        match self.find(&payment_id) {
            Some(_) => Ok(()),
            None => Err(ContractError::LinkNotFound),
        }
    }

    fn guard_payment_has_status(&self, payment_id: String, status: Status) -> (r: Result<
        (),
        ContractError,
    >) {
        match self.find(&payment_id) {
            Some(i) => {
                if self.links[i].status == status {
                    Ok(())
                } else {
                    Err(ContractError::InvalidStatus)
                }
            },
            None => Err(ContractError::LinkNotFound),
        }
    }

    fn guard_sent_enough_egld(&self, payment_id: String, call_value: &Amount) -> (r: Result<
        (),
        ContractError,
    >) {
        match self.find(&payment_id) {
            Some(i) => {
                let total_amount = self._compute_total_amount(&self.links[i].payments);
                if call_value.ge(&total_amount) {
                    Ok(())
                } else {
                    Err(ContractError::InsufficientFunds)
                }
            },
            None => Err(ContractError::LinkNotFound),
        }
    }

    fn guard_only_owner(&self, caller: &Address) -> (r: Result<(), ContractError>) {
        if caller.same(&self.owner) {
            Ok(())
        } else {
            Err(ContractError::Unauthorized)
        }
    }

    fn guard_only_payment_creator(&self, payment_id: String, caller: &Address) -> (r: Result<
        (),
        ContractError,
    >) {
        match self.find(&payment_id) {
            Some(i) => {
                if caller.same(&self.links[i].creator) {
                    Ok(())
                } else {
                    Err(ContractError::Unauthorized)
                }
            },
            None => Err(ContractError::LinkNotFound),
        }
    }

    fn guard_if_enabled(&self) -> (r: Result<(), ContractError>) {
        if self.enabled {
            Ok(())
        } else {
            Err(ContractError::ContractDisabled)
        }
    }

    fn init(&mut self, caller: Address) {
        proof {
            use_type_invariant(&*self);
        }
        self.commission_rate = Amount::from_u64(COMMISSION_RATE_PERCENT);
        self.owner = caller;
        self.enabled = true;
        proof {
            lemma_valid_state(self.state(), self.links@);
        }
    }

    fn create_payment_link(
        &mut self,
        payment_id: String,
        payments: &Payments,
        caller: Address,
    ) -> (r: Result<Event, ContractError>) {
        proof {
            use_type_invariant(&*self);
            lemma_valid_state(self.state(), self.links@);
        }
        if let Err(e) = self.guard_if_enabled() {
            return Err(e);
        }
        proof {
            use_type_invariant(payments);
            payments.lemma_fits();
        }
        let payment_link = PaymentLink {
            payment_id: payment_id.clone(),
            payments: payments.clone(),
            status: Status::Pending,
            creator: caller,
        };
        let place = self.find(&payment_id);
        let mut links = self.take_links();
        match place {
            Some(i) => {
                proof {
                    lemma_link_replaced(links@, i as int, payment_link);
                }
                links.set(i, payment_link);
            },
            None => {
                proof {
                    lemma_link_added(links@, payment_link);
                }
                links.push(payment_link);
            },
        }
        self.put_links(links);
        proof {
            lemma_valid_state(self.state(), self.links@);
        }
        Ok(Event::CreatedPaymentLink { payment_id, creator: caller })
    }

    fn complete_payment(&mut self, payment_id: String, caller: Address, call_value: Amount) -> (r:
        Result<Settlement, ContractError>) {
        proof {
            use_type_invariant(&*self);
            lemma_valid_state(self.state(), self.links@);
        }
        if let Err(e) = self.guard_if_enabled() {
            return Err(e);
        }
        if let Err(e) = self.guard_payment_link_exists(payment_id.clone()) {
            return Err(e);
        }
        if let Err(e) = self.guard_payment_has_status(payment_id.clone(), Status::Pending) {
            return Err(e);
        }
        if let Err(e) = self.guard_sent_enough_egld(payment_id.clone(), &call_value) {
            return Err(e);
        }
        let i = match self.find(&payment_id) {
            Some(i) => i,
            None => unreached(),
        };
        let settlement = match settle(
            &payment_id,
            self.links[i].payments.items(),
            &caller,
            &call_value,
            &self.commission_rate,
        ) {
            Some(settlement) => settlement,
            None => {
                return Err(ContractError::InsufficientFunds);
            },
        };
        self.set_status(i, Status::Completed);
        Ok(settlement)
    }

    fn cancel_payment(&mut self, payment_id: String, caller: Address) -> (r: Result<
        Event,
        ContractError,
    >) {
        proof {
            use_type_invariant(&*self);
            lemma_valid_state(self.state(), self.links@);
        }
        if let Err(e) = self.guard_if_enabled() {
            return Err(e);
        }
        if let Err(e) = self.guard_only_payment_creator(payment_id.clone(), &caller) {
            return Err(e);
        }
        if let Err(e) = self.guard_payment_link_exists(payment_id.clone()) {
            return Err(e);
        }
        if let Err(e) = self.guard_payment_has_status(payment_id.clone(), Status::Pending) {
            return Err(e);
        }
        let i = match self.find(&payment_id) {
            Some(i) => i,
            None => unreached(),
        };
        self.set_status(i, Status::Cancelled);
        Ok(Event::CancelledPayment { payment_id })
    }

    fn set_commission_rate(&mut self, commission_rate: Amount, caller: Address) -> (r: Result<
        (),
        ContractError,
    >) {
        proof {
            use_type_invariant(&*self);
            lemma_valid_state(self.state(), self.links@);
        }
        if let Err(e) = self.guard_if_enabled() {
            return Err(e);
        }
        if let Err(e) = self.guard_only_owner(&caller) {
            return Err(e);
        }
        if !Amount::from_u64(100).ge(&commission_rate) {
            return Err(ContractError::InvalidCommissionRate);
        }
        self.commission_rate = commission_rate;
        proof {
            lemma_valid_state(self.state(), self.links@);
        }
        Ok(())
    }

    fn disable_contract(&mut self, caller: Address) -> (r: Result<(), ContractError>) {
        proof {
            use_type_invariant(&*self);
            lemma_valid_state(self.state(), self.links@);
        }
        if let Err(e) = self.guard_if_enabled() {
            return Err(e);
        }
        if let Err(e) = self.guard_only_owner(&caller) {
            return Err(e);
        }
        self.enabled = false;
        proof {
            lemma_valid_state(self.state(), self.links@);
        }
        Ok(())
    }

    fn enable_contract(&mut self, caller: Address) -> (r: Result<(), ContractError>) {
        proof {
            use_type_invariant(&*self);
            lemma_valid_state(self.state(), self.links@);
        }
        if self.enabled {
            return Err(ContractError::AlreadyEnabled);
        }
        if let Err(e) = self.guard_only_owner(&caller) {
            return Err(e);
        }
        self.enabled = true;
        proof {
            lemma_valid_state(self.state(), self.links@);
        }
        Ok(())
    }

    fn get_required_amount(&self, payment_id: String) -> (r: Result<Amount, ContractError>) {
        if let Err(e) = self.guard_payment_link_exists(payment_id.clone()) {
            return Err(e);
        }
        if let Err(e) = self.guard_payment_has_status(payment_id.clone(), Status::Pending) {
            return Err(e);
        }
        let i = match self.find(&payment_id) {
            Some(i) => i,
            None => unreached(),
        };
        Ok(self._compute_total_amount(&self.links[i].payments))
    }

    fn get_payment_status(&self, payment_id: String) -> (r: Result<Status, ContractError>) {
        if let Err(e) = self.guard_payment_link_exists(payment_id.clone()) {
            return Err(e);
        }
        let i = match self.find(&payment_id) {
            Some(i) => i,
            None => unreached(),
        };
        Ok(self.links[i].status)
    }

    fn _compute_total_amount(&self, payments: &Payments) -> (total: Amount) {
        compute_total_amount(payments)
    }
}

impl Ledger {
    /// Takes the links out for a change. The ledger holds none until they
    /// are put back.
    fn take_links(&mut self) -> (links: Vec<PaymentLink>)
        ensures
            links@ == old(self).links@,
            distinct_ids(links@),
            links_fit(links@),
            final(self).links@ == Seq::<PaymentLink>::empty(),
            final(self).enabled == old(self).enabled,
            final(self).owner == old(self).owner,
            final(self).commission_rate == old(self).commission_rate,
    {
        proof {
            use_type_invariant(&*self);
        }
        let mut links: Vec<PaymentLink> = Vec::new();
        core::mem::swap(&mut self.links, &mut links);
        links
    }

    /// Puts links in the place of those that the ledger holds.
    fn put_links(&mut self, links: Vec<PaymentLink>)
        requires
            distinct_ids(links@),
            links_fit(links@),
        ensures
            final(self).links@ == links@,
            final(self).enabled == old(self).enabled,
            final(self).owner == old(self).owner,
            final(self).commission_rate == old(self).commission_rate,
    {
        proof {
            use_type_invariant(&*self);
        }
        let mut links = links;
        core::mem::swap(&mut self.links, &mut links);
    }

    /// Moves the link at place `i` to `status`.
    fn set_status(&mut self, i: usize, status: Status)
        requires
            i < old(self).links@.len(),
        ensures
            valid_state(final(self).state()),
            final(self).state() == with_status(
                old(self).state(),
                old(self).links@[i as int].payment_id@,
                status,
            ),
    {
        let mut links = self.take_links();
        proof {
            let moved = PaymentLink { status, ..links@[i as int] };
            lemma_link_replaced(links@, i as int, moved);
            lemma_link_found(links@, i as int);
        }
        links[i].status = status;
        self.put_links(links);
        proof {
            use_type_invariant(&*self);
            lemma_valid_state(self.state(), self.links@);
            assert(self.state() =~= with_status(
                old(self).state(),
                old(self).links@[i as int].payment_id@,
                status,
            ));
        }
    }
}

} // verus!
