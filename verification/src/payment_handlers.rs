//! How a channel carries payments: the updates of both sides and the calls of the user.

use crate::channel::{APIError, Quiescence};
use crate::entry::{ChannelEntry, ChannelEntryView, Effects, Step};
use crate::htlcs::{
    added_total, affordable, find_htlc, htlc_total, position_of_htlc, sum_added, sum_htlcs, Htlc,
    HtlcBookView, InboundStage,
};
use crate::msgs::{ErrorAction, PaymentHash, Update};
use crate::teleport_handlers::{call_outcome, result_view};
use vstd::prelude::*;

verus! {

broadcast use crate::entry::group_steps;

/// Whether one of the updates resolves the HTLC.
pub open spec fn resolves(updates: Seq<Update>, htlc_id: u64) -> bool {
    exists|i: int|
        0 <= i < updates.len() && (#[trigger] updates[i] == Update::FulfillHtlc { htlc_id }
            || updates[i] == Update::FailHtlc { htlc_id })
}

/// The position of the first received HTLC with this payment hash, or -1.
pub open spec fn find_received(htlcs: Seq<Htlc>, payment_hash: PaymentHash) -> int
    decreases htlcs.len(),
{
    if htlcs.len() == 0 {
        -1
    } else {
        let earlier = find_received(htlcs.drop_last(), payment_hash);
        if earlier >= 0 {
            earlier
        } else if htlcs.last().payment_hash == payment_hash && !htlcs.last().offered {
            htlcs.len() - 1
        } else {
            -1
        }
    }
}

impl ChannelEntryView {
    /// Whether the counterparty may make this update.
    pub open spec fn accepts(self, update: Update) -> bool {
        match update {
            Update::AddHtlc { htlc_id, amount_msat, .. } => {
                &&& find_htlc(self.book.htlcs, htlc_id, false) < 0
                &&& htlc_total(self.book.htlcs, false) + added_total(self.book.inbound)
                    + amount_msat <= self.channel.funding.value_to_counterparty_msat()
            },
            Update::FulfillHtlc { htlc_id } => find_htlc(self.book.htlcs, htlc_id, true) >= 0,
            Update::FailHtlc { htlc_id } => find_htlc(self.book.htlcs, htlc_id, true) >= 0,
            Update::Fee { .. } => !self.channel.is_outbound,
        }
    }

    /// An update of the counterparty arrives. A new HTLC or the end of one also proves that the
    /// counterparty is done with a lingering teleport; a new feerate does not.
    #[verifier::opaque]
    pub open spec fn update_received(self, update: Update) -> Step {
        if self.channel.is_disconnected || self.channel.quiescence is Quiescent || !(
        self.book.inbound_stage is Idle || self.book.inbound_stage is Received) {
            self.start().failed(ErrorAction::DisconnectPeerWithWarning)
        } else if !self.accepts(update) {
            self.start().failed(ErrorAction::SendErrorMessage)
        } else {
            self.start().book(
                HtlcBookView {
                    inbound: self.book.inbound.push(update),
                    inbound_stage: InboundStage::Received,
                    ..self.book
                },
            ).channel(
                if update is Fee {
                    self.channel
                } else {
                    self.channel.spec_note_counterparty_activity()
                },
            )
        }
    }

    /// The user sends a payment. It must be covered by what neither another payment nor a teleport
    /// holds back.
    #[verifier::opaque]
    pub open spec fn send_payment(
        self,
        payment_hash: PaymentHash,
        amount_msat: u64,
        cltv_expiry: u32,
    ) -> Result<Step, APIError> {
        if self.channel.is_disconnected {
            Err(APIError::ChannelUnavailable)
        } else if amount_msat == 0 || self.book.next_htlc_id == u64::MAX || htlc_total(
            self.book.htlcs,
            true,
        ) + added_total(self.book.outbound) + added_total(self.book.holding_cell)
            + self.channel.promised_removal_msat() + amount_msat
            > self.channel.funding.value_to_self_msat {
            Err(APIError::PaymentUnavailable)
        } else {
            Ok(
                self.start().book(
                    HtlcBookView {
                        next_htlc_id: (self.book.next_htlc_id + 1) as u64,
                        ..self.book
                    },
                ).offered(
                    Update::AddHtlc {
                        htlc_id: self.book.next_htlc_id,
                        payment_hash,
                        amount_msat,
                        cltv_expiry,
                    },
                ),
            )
        }
    }

    /// The user resolves a received payment that is not being resolved yet: claims it, or fails it.
    #[verifier::opaque]
    pub open spec fn resolve_payment(self, payment_hash: PaymentHash, claim: bool) -> Result<
        Step,
        APIError,
    > {
        let pos = find_received(self.book.htlcs, payment_hash);
        let htlc_id = self.book.htlcs[pos].htlc_id;
        if pos < 0 || resolves(self.book.outbound, htlc_id) || resolves(
            self.book.holding_cell,
            htlc_id,
        ) {
            Err(APIError::PaymentUnavailable)
        } else if claim {
            Ok(self.start().claimed(self.book.htlcs[pos]))
        } else {
            Ok(self.start().offered(Update::FailHtlc { htlc_id }))
        }
    }
}

fn has_resolution(updates: &Vec<Update>, htlc_id: u64) -> (r: bool)
    ensures
        r == resolves(updates@, htlc_id),
{
    let mut i: usize = 0;
    while i < updates.len()
        invariant
            i <= updates.len(),
            forall|j: int|
                0 <= j < i ==> #[trigger] updates@[j] != (Update::FulfillHtlc { htlc_id })
                    && updates@[j] != (Update::FailHtlc { htlc_id }),
        decreases updates.len() - i,
    {
        let same: bool = match updates[i] {
            Update::FulfillHtlc { htlc_id: id } => id == htlc_id,
            Update::FailHtlc { htlc_id: id } => id == htlc_id,
            _ => false,
        };
        if same {
            assert(updates@[i as int] == (Update::FulfillHtlc { htlc_id }) || updates@[i as int]
                == (Update::FailHtlc { htlc_id }));
            return true;
        }
        i = i + 1;
    }
    false
}

/// What is found is a received HTLC with that payment hash.
pub proof fn lemma_find_received(htlcs: Seq<Htlc>, payment_hash: PaymentHash)
    ensures
        ({
            let pos = find_received(htlcs, payment_hash);
            &&& -1 <= pos < htlcs.len()
            &&& pos >= 0 ==> htlcs[pos].payment_hash == payment_hash && !htlcs[pos].offered
        }),
    decreases htlcs.len(),
{
    if htlcs.len() > 0 {
        lemma_find_received(htlcs.drop_last(), payment_hash);
    }
}

proof fn lemma_find_received_prefix(htlcs: Seq<Htlc>, n: int, payment_hash: PaymentHash)
    requires
        0 <= n <= htlcs.len(),
        find_received(htlcs.take(n), payment_hash) >= 0,
    ensures
        find_received(htlcs, payment_hash) == find_received(htlcs.take(n), payment_hash),
    decreases htlcs.len() - n,
{
    if n == htlcs.len() {
        assert(htlcs.take(n) =~= htlcs);
    } else {
        assert(htlcs.take(n + 1).drop_last() =~= htlcs.take(n));
        lemma_find_received_prefix(htlcs, n + 1, payment_hash);
    }
}

fn position_of_received(htlcs: &Vec<Htlc>, payment_hash: PaymentHash) -> (pos: Option<usize>)
    ensures
        match pos {
            Some(i) => i < htlcs.len() && i == find_received(htlcs@, payment_hash),
            None => find_received(htlcs@, payment_hash) == -1,
        },
{
    let mut i: usize = 0;
    while i < htlcs.len()
        invariant
            i <= htlcs.len(),
            find_received(htlcs@.take(i as int), payment_hash) == -1,
        decreases htlcs.len() - i,
    {
        assert(htlcs@.take(i + 1).drop_last() =~= htlcs@.take(i as int));
        if htlcs[i].payment_hash == payment_hash && !htlcs[i].offered {
            proof {
                lemma_find_received_prefix(htlcs@, i + 1, payment_hash);
            }
            return Some(i);
        }
        i = i + 1;
    }
    assert(htlcs@.take(htlcs.len() as int) =~= htlcs@);
    None
}

impl ChannelEntry {
    fn accepts(&self, update: &Update) -> (r: bool)
        requires
            self.inv(),
        ensures
            r == self@.accepts(*update),
    {
        match *update {
            Update::AddHtlc { htlc_id, amount_msat, .. } => {
                let balance: u128 = (self.channel.funding.value_sat as u128) * 1000 - (
                self.channel.funding.value_to_self_msat as u128);
                position_of_htlc(&self.book.htlcs, htlc_id, false).is_none() && affordable(
                    balance,
                    sum_htlcs(&self.book.htlcs, false),
                    sum_added(&self.book.inbound),
                    0,
                    0,
                    amount_msat,
                )
            },
            Update::FulfillHtlc { htlc_id } => position_of_htlc(
                &self.book.htlcs,
                htlc_id,
                true,
            ).is_some(),
            Update::FailHtlc { htlc_id } => position_of_htlc(
                &self.book.htlcs,
                htlc_id,
                true,
            ).is_some(),
            Update::Fee { .. } => !self.channel.is_outbound,
        }
    }

    /// Handles an update of the counterparty.
    pub fn handle_update(&mut self, update: &Update) -> (fx: Effects)
        requires
            old(self).inv(),
        ensures
            final(self).inv(),
            final(self).same_place(old(self)),
            final(self).step(&fx) == old(self)@.update_received(*update),
    {
        reveal(ChannelEntryView::update_received);
        let mut fx = Effects::new();
        if self.channel.is_disconnected || self.channel.quiescence == Quiescence::Quiescent || !(
        self.book.inbound_stage == InboundStage::Idle || self.book.inbound_stage
            == InboundStage::Received) {
            self.fail(&mut fx, ErrorAction::DisconnectPeerWithWarning);
            return fx;
        }
        if !self.accepts(update) {
            self.fail(&mut fx, ErrorAction::SendErrorMessage);
            return fx;
        }
        self.book.inbound.push(*update);
        assert(self.book.inbound@.drop_last() =~= old(self).book.inbound@);
        self.book.inbound_stage = InboundStage::Received;
        match *update {
            Update::Fee { .. } => {},
            _ => {
                self.channel.note_counterparty_post_teleport_complete_ack_activity();
            },
        }
        fx
    }

    /// Sends a payment, or holds it until the channel can carry it.
    pub fn send_payment(
        &mut self,
        payment_hash: PaymentHash,
        amount_msat: u64,
        cltv_expiry: u32,
    ) -> (res: Result<Effects, APIError>)
        requires
            old(self).inv(),
        ensures
            final(self).inv(),
            final(self).same_place(old(self)),
            call_outcome(
                old(self)@.send_payment(payment_hash, amount_msat, cltv_expiry),
                old(self)@,
                final(self)@,
                result_view(res),
            ),
    {
        reveal(ChannelEntryView::send_payment);
        if self.channel.is_disconnected {
            return Err(APIError::ChannelUnavailable);
        }
        let htlc_id: u64 = self.book.next_htlc_id;
        if amount_msat == 0 || htlc_id == u64::MAX || !affordable(
            self.channel.funding.value_to_self_msat as u128,
            sum_htlcs(&self.book.htlcs, true),
            sum_added(&self.book.outbound),
            sum_added(&self.book.holding_cell),
            self.channel.sum_promised_removal(),
            amount_msat,
        ) {
            return Err(APIError::PaymentUnavailable);
        }
        let mut fx = Effects::new();
        self.book.next_htlc_id = htlc_id + 1;
        self.offer(&mut fx, Update::AddHtlc { htlc_id, payment_hash, amount_msat, cltv_expiry });
        Ok(fx)
    }

    /// Claims a received payment, or fails it.
    pub fn resolve_payment(&mut self, payment_hash: PaymentHash, claim: bool) -> (res: Result<
        Effects,
        APIError,
    >)
        requires
            old(self).inv(),
        ensures
            final(self).inv(),
            final(self).same_place(old(self)),
            call_outcome(
                old(self)@.resolve_payment(payment_hash, claim),
                old(self)@,
                final(self)@,
                result_view(res),
            ),
    {
        reveal(ChannelEntryView::resolve_payment);
        match position_of_received(&self.book.htlcs, payment_hash) {
            None => Err(APIError::PaymentUnavailable),
            Some(pos) => {
                let htlc_id: u64 = self.book.htlcs[pos].htlc_id;
                if has_resolution(&self.book.outbound, htlc_id) || has_resolution(
                    &self.book.holding_cell,
                    htlc_id,
                ) {
                    return Err(APIError::PaymentUnavailable);
                }
                let mut fx = Effects::new();
                if claim {
                    let htlc = self.book.htlcs[pos];
                    self.claim(&mut fx, htlc);
                } else {
                    self.offer(&mut fx, Update::FailHtlc { htlc_id });
                }
                Ok(fx)
            },
        }
    }
}

} // verus!
