//! How a channel takes the signatures and the revocations that bring updates into both commitments.

use crate::channel::{Channel, CommitmentClass, PendingTeleport, Quiescence};
use crate::entry::{copy_updates, ChannelEntry, ChannelEntryView, Effects, EffectsView, Step};
use crate::events::Event;
use crate::htlcs::{
    apply_updates, copy_htlcs, lemma_apply_all_slack, HtlcBookView, InboundStage, OutboundStage,
};
use crate::monitor::MonitorUpdate;
use crate::msgs::{
    ChannelId, CommitmentSigned, ErrorAction, Message, MessageView, RevokeAndACK,
    TeleportCompleteAck, Update,
};
use vstd::prelude::*;

verus! {

broadcast use crate::entry::group_steps;

/// The payments that can be claimed once the counterparty's updates are in both commitments.
pub open spec fn claimable(channel_id: ChannelId, updates: Seq<Update>) -> Seq<Event>
    decreases updates.len(),
{
    if updates.len() == 0 {
        seq![]
    } else {
        let earlier = claimable(channel_id, updates.drop_last());
        match updates.last() {
            Update::AddHtlc { payment_hash, amount_msat, .. } => earlier.push(
                Event::PaymentClaimable { channel_id, payment_hash, amount_msat },
            ),
            _ => earlier,
        }
    }
}

impl Channel {
    /// Whether the signature is for this side's next commitment of the current scope.
    pub open spec fn expects(self, msg: CommitmentSigned) -> bool {
        &&& self.holder_commitment_number > 0
        &&& msg.commitment_number == self.holder_commitment_number - 1
        &&& msg.funding_txid is None || msg.funding_txid == Some(self.funding.funding_txo.txid)
    }

    /// Whether the teleport lingers.
    pub open spec fn is_lingering(self) -> bool {
        self.pending_teleport is Some && self.pending_teleport->Some_0 is
            AwaitingRemoteActivityAfterTeleportCompleteAckSend
    }
}

impl ChannelEntryView {
    /// This entry once its own updates are in both commitments, if they are about to be.
    pub open spec fn outbound_settled(self) -> Option<ChannelEntryView> {
        if self.book.outbound_stage !is RemoteCommitted {
            Some(self)
        } else {
            match self.ledger().apply_all(
                self.book.outbound,
                true,
                self.channel.funding.value_sat * 1000,
            ) {
                Some(l) => {
                    let e = self.with_ledger(l);
                    Some(
                        ChannelEntryView {
                            book: HtlcBookView {
                                outbound: seq![],
                                outbound_stage: OutboundStage::Idle,
                                ..e.book
                            },
                            ..e
                        },
                    )
                },
                None => None,
            }
        }
    }

    /// This entry once the counterparty's updates are in both commitments, if they are about to be.
    pub open spec fn inbound_settled(self) -> Option<ChannelEntryView> {
        if self.book.inbound_stage !is Acked {
            Some(self)
        } else {
            match self.ledger().apply_all(
                self.book.inbound,
                false,
                self.channel.funding.value_sat * 1000,
            ) {
                Some(l) => {
                    let e = self.with_ledger(l);
                    Some(
                        ChannelEntryView {
                            book: HtlcBookView {
                                inbound: seq![],
                                inbound_stage: InboundStage::Idle,
                                ..e.book
                            },
                            ..e
                        },
                    )
                },
                None => None,
            }
        }
    }

    /// A signature on the current scope arrives. It must be for the next commitment, which this
    /// side then revokes its current one for; the counterparty's updates are signed for in turn. A
    /// lingering teleport repeats its acknowledgement and is over.
    #[verifier::opaque]
    pub open spec fn ordinary_commitment(self, msg: CommitmentSigned) -> Step {
        let c = self.channel;
        if c.is_disconnected {
            self.start().failed(ErrorAction::DisconnectPeerWithWarning)
        } else if !c.expects(msg) || self.outbound_settled() is None {
            self.start().failed(ErrorAction::SendErrorMessage)
        } else {
            self.outbound_settled()->Some_0.start().advanced().acked().retired().freed()
        }
    }

    /// A signature arrives: on the new scope of the teleport, once more on that scope, or on the
    /// current one. A repetition changes nothing, and a paused channel takes none on its own scope.
    #[verifier::opaque]
    pub open spec fn commitment_signed(self, msg: CommitmentSigned) -> Step {
        match self.channel.spec_classify(msg) {
            CommitmentClass::NewScope => self.new_scope_commitment(msg),
            CommitmentClass::Duplicate => self.start(),
            CommitmentClass::WhileQuiescent => self.start().failed(
                ErrorAction::DisconnectPeerWithWarning,
            ),
            CommitmentClass::Ordinary => self.ordinary_commitment(msg),
        }
    }

    /// A revocation arrives. It must answer a signature of this side and name the counterparty's
    /// current commitment. It ends a lingering teleport.
    #[verifier::opaque]
    pub open spec fn revoke_and_ack(self, msg: RevokeAndACK) -> Step {
        let c = self.channel;
        if c.is_disconnected || c.quiescence is Quiescent {
            self.start().failed(ErrorAction::DisconnectPeerWithWarning)
        } else if !self.book.awaits_revocation || c.counterparty_commitment_number == 0
            || msg.commitment_number != c.counterparty_commitment_number
            || self.inbound_settled() is None {
            self.start().failed(ErrorAction::SendErrorMessage)
        } else {
            let step = self.inbound_settled()->Some_0.start().revoked();
            let told = if self.book.inbound_stage is Acked {
                step.told(claimable(c.channel_id, self.book.inbound))
            } else {
                step
            };
            told.acked().freed()
        }
    }
}

impl Step {
    /// Then this side moves on to its next commitment and revokes the one before.
    pub open spec fn advanced(self) -> Step {
        let c = self.entry.channel;
        let book = self.entry.book;
        self.channel(
            Channel {
                holder_commitment_number: (c.holder_commitment_number - 1) as u64,
                ..c
            },
        ).book(
            HtlcBookView {
                inbound_stage: if book.inbound_stage is Received {
                    InboundStage::LocalCommitted
                } else {
                    book.inbound_stage
                },
                ..book
            },
        ).monitor(MonitorUpdate::LatestHolderCommitment).msg(
            MessageView::SendRevokeAndACK(
                RevokeAndACK {
                    channel_id: c.channel_id,
                    commitment_number: c.holder_commitment_number,
                },
            ),
        )
    }

    /// Then a lingering teleport repeats its acknowledgement and is over.
    pub open spec fn retired(self) -> Step {
        let c = self.entry.channel;
        if c.is_lingering() {
            self.msg(
                MessageView::SendTeleportCompleteAck(
                    TeleportCompleteAck { channel_id: c.channel_id },
                ),
            ).channel(c.spec_note_counterparty_activity())
        } else {
            self
        }
    }

    /// Then the counterparty has moved on to its next commitment.
    pub open spec fn revoked(self) -> Step {
        let c = self.entry.channel;
        let book = self.entry.book;
        self.channel(
            Channel {
                counterparty_commitment_number: (c.counterparty_commitment_number - 1) as u64,
                response_ticks: 0,
                ..c.spec_note_counterparty_activity()
            },
        ).book(
            HtlcBookView {
                awaits_revocation: false,
                outbound_stage: if book.outbound_stage is Sent {
                    OutboundStage::RemoteCommitted
                } else {
                    book.outbound_stage
                },
                ..book
            },
        ).monitor(MonitorUpdate::CommitmentSecret)
    }
}

impl ChannelEntry {
    /// Brings this side's own updates into its ledger. Changes nothing if that cannot be done.
    fn settle_outbound(&mut self) -> (done: bool)
        requires
            old(self).inv(),
            old(self).channel.quiescence !is Quiescent,
        ensures
            final(self).inv(),
            done == (old(self)@.outbound_settled() is Some),
            done ==> Some(final(self)@) == old(self)@.outbound_settled(),
            !done ==> final(self)@ == old(self)@,
    {
        if self.book.outbound_stage != OutboundStage::RemoteCommitted {
            return true;
        }
        let mut value: u64 = self.channel.funding.value_to_self_msat;
        let mut feerate: u32 = self.channel.feerate_per_kw;
        let mut htlcs = copy_htlcs(&self.book.htlcs);
        if !apply_updates(
            &mut value,
            &mut feerate,
            &mut htlcs,
            &self.book.outbound,
            true,
            self.channel.funding.value_sat,
        ) {
            return false;
        }
        proof {
            lemma_apply_all_slack(
                self@.ledger(),
                self.book.outbound@,
                true,
                self.channel.funding.value_sat * 1000,
            );
        }
        self.channel.funding.value_to_self_msat = value;
        self.channel.feerate_per_kw = feerate;
        self.book.htlcs = htlcs;
        self.book.outbound = Vec::new();
        self.book.outbound_stage = OutboundStage::Idle;
        assert(self.book.outbound@ =~= seq![]);
        true
    }

    /// Brings the counterparty's updates into this side's ledger. Changes nothing if that cannot be
    /// done.
    fn settle_inbound(&mut self) -> (done: bool)
        requires
            old(self).inv(),
            old(self).channel.quiescence !is Quiescent,
        ensures
            final(self).inv(),
            done == (old(self)@.inbound_settled() is Some),
            done ==> Some(final(self)@) == old(self)@.inbound_settled(),
            !done ==> final(self)@ == old(self)@,
    {
        if self.book.inbound_stage != InboundStage::Acked {
            return true;
        }
        let mut value: u64 = self.channel.funding.value_to_self_msat;
        let mut feerate: u32 = self.channel.feerate_per_kw;
        let mut htlcs = copy_htlcs(&self.book.htlcs);
        if !apply_updates(
            &mut value,
            &mut feerate,
            &mut htlcs,
            &self.book.inbound,
            false,
            self.channel.funding.value_sat,
        ) {
            return false;
        }
        proof {
            lemma_apply_all_slack(
                self@.ledger(),
                self.book.inbound@,
                false,
                self.channel.funding.value_sat * 1000,
            );
        }
        self.channel.funding.value_to_self_msat = value;
        self.channel.feerate_per_kw = feerate;
        self.book.htlcs = htlcs;
        self.book.inbound = Vec::new();
        self.book.inbound_stage = InboundStage::Idle;
        assert(self.book.inbound@ =~= seq![]);
        true
    }

    fn expects(&self, msg: &CommitmentSigned) -> (r: bool)
        ensures
            r == self.channel.expects(*msg),
    {
        if self.channel.holder_commitment_number == 0 {
            return false;
        }
        if msg.commitment_number != self.channel.holder_commitment_number - 1 {
            return false;
        }
        match msg.funding_txid {
            None => true,
            Some(txid) => txid == self.channel.funding.funding_txo.txid,
        }
    }

    /// Moves on to the next commitment.
    fn advance(&mut self, fx: &mut Effects)
        requires
            old(self).inv(),
            old(self).channel.holder_commitment_number > 0,
        ensures
            final(self).inv(),
            final(self).step(&*final(fx)) == old(self).step(&*old(fx)).advanced(),
    {
        let channel_id = self.channel.channel_id;
        let number: u64 = self.channel.holder_commitment_number;
        self.channel.holder_commitment_number = number - 1;
        if self.book.inbound_stage == InboundStage::Received {
            self.book.inbound_stage = InboundStage::LocalCommitted;
        }
        self.report(fx, MonitorUpdate::LatestHolderCommitment);
        fx.msg(
            Message::SendRevokeAndACK(RevokeAndACK { channel_id, commitment_number: number }),
        );
    }

    /// Ends a lingering teleport.
    fn retire(&mut self, fx: &mut Effects)
        requires
            old(self).inv(),
        ensures
            final(self).inv(),
            final(self).step(&*final(fx)) == old(self).step(&*old(fx)).retired(),
    {
        if let Some(PendingTeleport::AwaitingRemoteActivityAfterTeleportCompleteAckSend { .. }) =
            self.channel.pending_teleport {
            fx.msg(
                Message::SendTeleportCompleteAck(
                    TeleportCompleteAck { channel_id: self.channel.channel_id },
                ),
            );
            self.channel.note_counterparty_post_teleport_complete_ack_activity();
        }
    }

    /// Notes that the counterparty has moved on to its next commitment.
    fn note_revocation(&mut self, fx: &mut Effects)
        requires
            old(self).inv(),
            old(self).channel.counterparty_commitment_number > 0,
        ensures
            final(self).inv(),
            final(self).step(&*final(fx)) == old(self).step(&*old(fx)).revoked(),
    {
        self.channel.note_counterparty_post_teleport_complete_ack_activity();
        self.channel.counterparty_commitment_number =
        self.channel.counterparty_commitment_number - 1;
        self.channel.response_ticks = 0;
        self.book.awaits_revocation = false;
        if self.book.outbound_stage == OutboundStage::Sent {
            self.book.outbound_stage = OutboundStage::RemoteCommitted;
        }
        self.report(fx, MonitorUpdate::CommitmentSecret);
    }

    fn handle_ordinary_commitment(&mut self, msg: &CommitmentSigned) -> (fx: Effects)
        requires
            old(self).inv(),
            old(self).channel.quiescence !is Quiescent,
        ensures
            final(self).inv(),
            final(self).same_place(old(self)),
            final(self).step(&fx) == old(self)@.ordinary_commitment(*msg),
    {
        reveal(ChannelEntryView::ordinary_commitment);
        let mut fx = Effects::new();
        if self.channel.is_disconnected {
            self.fail(&mut fx, ErrorAction::DisconnectPeerWithWarning);
            return fx;
        }
        if !self.expects(msg) {
            self.fail(&mut fx, ErrorAction::SendErrorMessage);
            return fx;
        }
        if !self.settle_outbound() {
            self.fail(&mut fx, ErrorAction::SendErrorMessage);
            return fx;
        }
        self.advance(&mut fx);
        self.ack_inbound(&mut fx);
        self.retire(&mut fx);
        self.free_holding_cell(&mut fx);
        fx
    }

    /// Handles `commitment_signed`.
    pub fn handle_commitment_signed(&mut self, msg: &CommitmentSigned) -> (fx: Effects)
        requires
            old(self).inv(),
        ensures
            final(self).inv(),
            final(self).same_place(old(self)),
            final(self).step(&fx) == old(self)@.commitment_signed(*msg),
    {
        reveal(ChannelEntryView::commitment_signed);
        match self.channel.classify(msg) {
            CommitmentClass::NewScope => self.handle_new_scope_commitment(msg),
            CommitmentClass::Duplicate => Effects::new(),
            CommitmentClass::WhileQuiescent => {
                let mut fx = Effects::new();
                self.fail(&mut fx, ErrorAction::DisconnectPeerWithWarning);
                fx
            },
            CommitmentClass::Ordinary => self.handle_ordinary_commitment(msg),
        }
    }

    /// Handles `revoke_and_ack`.
    pub fn handle_revoke_and_ack(&mut self, msg: &RevokeAndACK) -> (fx: Effects)
        requires
            old(self).inv(),
        ensures
            final(self).inv(),
            final(self).same_place(old(self)),
            final(self).step(&fx) == old(self)@.revoke_and_ack(*msg),
    {
        reveal(ChannelEntryView::revoke_and_ack);
        let mut fx = Effects::new();
        if self.channel.is_disconnected || self.channel.quiescence == Quiescence::Quiescent {
            self.fail(&mut fx, ErrorAction::DisconnectPeerWithWarning);
            return fx;
        }
        if !self.book.awaits_revocation || self.channel.counterparty_commitment_number == 0
            || msg.commitment_number != self.channel.counterparty_commitment_number {
            self.fail(&mut fx, ErrorAction::SendErrorMessage);
            return fx;
        }
        let was_acked: bool = self.book.inbound_stage == InboundStage::Acked;
        let updates = copy_updates(&self.book.inbound);
        if !self.settle_inbound() {
            self.fail(&mut fx, ErrorAction::SendErrorMessage);
            return fx;
        }
        self.note_revocation(&mut fx);
        if was_acked {
            tell_claimable(&mut fx, self.channel.channel_id, &updates);
        }
        self.ack_inbound(&mut fx);
        self.free_holding_cell(&mut fx);
        fx
    }
}

fn tell_claimable(fx: &mut Effects, channel_id: ChannelId, updates: &Vec<Update>)
    ensures
        final(fx)@ == (EffectsView {
            events: old(fx)@.events + claimable(channel_id, updates@),
            ..old(fx)@
        }),
{
    let ghost before = fx@;
    assert(fx@.events =~= before.events + claimable(channel_id, updates@.take(0)));
    let mut i: usize = 0;
    while i < updates.len()
        invariant
            i <= updates.len(),
            before == old(fx)@,
            fx@ == (EffectsView {
                events: before.events + claimable(channel_id, updates@.take(i as int)),
                ..before
            }),
        decreases updates.len() - i,
    {
        assert(updates@.take(i + 1).drop_last() =~= updates@.take(i as int));
        assert(updates@.take(i + 1).last() == updates@[i as int]);
        if let Update::AddHtlc { payment_hash, amount_msat, .. } = updates[i] {
            fx.event(Event::PaymentClaimable { channel_id, payment_hash, amount_msat });
        }
        assert(fx@.events =~= before.events + claimable(channel_id, updates@.take(i + 1)));
        i = i + 1;
    }
    assert(updates@.take(updates.len() as int) =~= updates@);
}

} // verus!
