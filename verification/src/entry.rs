//! A channel together with its payments and its monitor.
//!
//! Handling a message changes the three and has effects: messages for the peer, events for the
//! user and updates that the monitor took in. Both are stated at once, as a [`Step`].

use crate::channel::{Channel, Quiescence};
use crate::events::{ClosureReason, Event};
use crate::funding::ChannelTerms;
use crate::htlcs::{
    added_amount, added_total, carried, htlc_total, lemma_added_one, lemma_carried_fits,
    passed_over, split_carried, sum_htlcs, Htlc, HtlcBook, HtlcBookView, InboundStage, Ledger,
    OutboundStage,
};
use crate::monitor::{ChannelMonitor, ChannelMonitorView, MonitorUpdate};
use crate::msgs::{
    CommitmentSigned, CommitmentUpdate, CommitmentUpdateView, ErrorAction, Message, MessageView,
    Update,
};
use vstd::prelude::*;

verus! {

/// A channel as a node keeps it.
#[derive(Debug)]
pub struct ChannelEntry {
    pub channel: Channel,
    pub terms: ChannelTerms,
    pub book: HtlcBook,
    pub monitor: ChannelMonitor,
    /// A closed channel is no longer listed; its monitor stays.
    pub is_closed: bool,
}

/// The contents of a [`ChannelEntry`].
#[verifier::ext_equal]
pub struct ChannelEntryView {
    pub channel: Channel,
    pub terms: ChannelTerms,
    pub book: HtlcBookView,
    pub monitor: ChannelMonitorView,
    pub is_closed: bool,
}

impl View for ChannelEntry {
    type V = ChannelEntryView;

    open spec fn view(&self) -> ChannelEntryView {
        ChannelEntryView {
            channel: self.channel,
            terms: self.terms,
            book: self.book@,
            monitor: self.monitor@,
            is_closed: self.is_closed,
        }
    }
}

/// What handling a message leads to, in the order in which it happened.
#[derive(Debug)]
pub struct Effects {
    pub msgs: Vec<Message>,
    pub events: Vec<Event>,
    pub monitor_updates: Vec<MonitorUpdate>,
}

/// The contents of [`Effects`].
#[verifier::ext_equal]
pub struct EffectsView {
    pub msgs: Seq<MessageView>,
    pub events: Seq<Event>,
    pub monitor_updates: Seq<MonitorUpdate>,
}

/// The contents of messages.
pub open spec fn messages_view(msgs: Seq<Message>) -> Seq<MessageView> {
    msgs.map_values(|m: Message| m@)
}

impl View for Effects {
    type V = EffectsView;

    open spec fn view(&self) -> EffectsView {
        EffectsView {
            msgs: messages_view(self.msgs@),
            events: self.events@,
            monitor_updates: self.monitor_updates@,
        }
    }
}

/// A channel and the effects that led to its present state.
#[verifier::ext_equal]
pub struct Step {
    pub entry: ChannelEntryView,
    pub effects: EffectsView,
}

impl Channel {
    /// The signature on the counterparty's next commitment of the current scope.
    pub open spec fn next_commitment(self) -> CommitmentSigned {
        CommitmentSigned {
            channel_id: self.channel_id,
            funding_txid: Some(self.funding.funding_txo.txid),
            commitment_number: (self.counterparty_commitment_number - 1) as u64,
        }
    }

    /// This channel with the balance and the feerate of a ledger.
    pub open spec fn with_ledger(self, ledger: Ledger) -> Channel {
        Channel {
            funding: crate::channel::FundingScope {
                value_to_self_msat: ledger.value_to_self_msat,
                ..self.funding
            },
            feerate_per_kw: ledger.feerate_per_kw,
            ..self
        }
    }
}

impl ChannelEntryView {
    /// What holds of every entry between two calls. A paused channel has no update in flight. Each
    /// balance covers the HTLCs of its side, those that are on their way included, and what the
    /// side gives up in an accepted teleport. The monitor is of this channel and guards the funding
    /// output that the channel is on.
    pub open spec fn inv(self) -> bool {
        &&& self.channel.inv()
        &&& self.book.inv()
        &&& self.channel.quiescence is Quiescent ==> self.book.is_idle()
        &&& htlc_total(self.book.htlcs, true) + added_total(self.book.outbound)
            + self.channel.accepted_removal_msat(true) <= self.channel.funding.value_to_self_msat
        &&& htlc_total(self.book.htlcs, false) + added_total(self.book.inbound)
            + self.channel.accepted_removal_msat(false)
            <= self.channel.funding.value_to_counterparty_msat()
        &&& self.monitor.channel_id == self.channel.channel_id
        &&& self.monitor.funding_txo == self.channel.funding.funding_txo
    }

    /// What this side has left for new HTLCs.
    pub open spec fn room_msat(self) -> int {
        self.channel.funding.value_to_self_msat - htlc_total(self.book.htlcs, true)
    }

    /// The start of a step.
    pub open spec fn start(self) -> Step {
        Step {
            entry: self,
            effects: EffectsView { msgs: seq![], events: seq![], monitor_updates: seq![] },
        }
    }

    /// The channel is closed for a reason of this side, and the peer is told.
    pub open spec fn closed_by(self, reason: ClosureReason) -> Step {
        self.start().closed(reason).msg(MessageView::HandleError(ErrorAction::SendErrorMessage))
    }

    /// Whether this side may sign for updates of its own.
    pub open spec fn can_send(self) -> bool {
        &&& self.book.is_idle()
        &&& !self.channel.is_disconnected
        &&& self.channel.quiescence is Active
        &&& self.channel.counterparty_commitment_number > 0
    }

    /// What the updates of this channel change.
    pub open spec fn ledger(self) -> Ledger {
        Ledger {
            value_to_self_msat: self.channel.funding.value_to_self_msat,
            feerate_per_kw: self.channel.feerate_per_kw,
            htlcs: self.book.htlcs,
        }
    }

    /// This entry with what a ledger says.
    pub open spec fn with_ledger(self, ledger: Ledger) -> ChannelEntryView {
        ChannelEntryView {
            channel: self.channel.with_ledger(ledger),
            book: HtlcBookView { htlcs: ledger.htlcs, ..self.book },
            ..self
        }
    }
}

impl EffectsView {
    /// Then a message is queued for the peer.
    pub open spec fn msg(self, msg: MessageView) -> EffectsView {
        EffectsView { msgs: self.msgs.push(msg), ..self }
    }

    /// Then signatures go out, together with the updates that they cover.
    pub open spec fn signed(self, updates: Seq<Update>, cs: CommitmentSigned) -> EffectsView {
        self.msg(
            MessageView::UpdateHTLCs(
                CommitmentUpdateView { updates, commitment_signed: seq![cs] },
            ),
        )
    }
}

impl Step {
    /// Then the channel is as given.
    pub open spec fn channel(self, channel: Channel) -> Step {
        Step { entry: ChannelEntryView { channel, ..self.entry }, ..self }
    }

    /// Then the payments are as given.
    pub open spec fn book(self, book: HtlcBookView) -> Step {
        Step { entry: ChannelEntryView { book, ..self.entry }, ..self }
    }

    /// Then a message is queued for the peer.
    pub open spec fn msg(self, msg: MessageView) -> Step {
        Step { effects: self.effects.msg(msg), ..self }
    }

    /// Then the user learns of something.
    pub open spec fn event(self, event: Event) -> Step {
        Step {
            effects: EffectsView { events: self.effects.events.push(event), ..self.effects },
            ..self
        }
    }

    /// Then the monitor takes an update in.
    pub open spec fn monitor(self, update: MonitorUpdate) -> Step {
        Step {
            entry: ChannelEntryView { monitor: self.entry.monitor.apply(update), ..self.entry },
            effects: EffectsView {
                monitor_updates: self.effects.monitor_updates.push(update),
                ..self.effects
            },
        }
    }

    /// Then the channel is closed: the monitor and the user learn of it.
    pub open spec fn closed(self, reason: ClosureReason) -> Step {
        let step = Step {
            entry: ChannelEntryView { is_closed: true, ..self.entry },
            ..self
        };
        step.monitor(MonitorUpdate::ChannelForceClosed).event(
            Event::ChannelClosed {
                channel_id: self.entry.channel.channel_id,
                reason,
                counterparty_node_id: self.entry.channel.counterparty,
                channel_capacity_sats: self.entry.channel.funding.value_sat,
            },
        )
    }

    /// Then a message of the peer could not be handled.
    #[verifier::opaque]
    pub open spec fn failed(self, action: ErrorAction) -> Step {
        match action {
            ErrorAction::DisconnectPeerWithWarning => self.msg(MessageView::HandleError(action)),
            ErrorAction::SendErrorMessage => self.closed(ClosureReason::ProcessingError).msg(
                MessageView::HandleError(action),
            ),
        }
    }

    /// Then signatures go out, together with the updates that they cover.
    pub open spec fn signed(self, updates: Seq<Update>, cs: CommitmentSigned) -> Step {
        Step { effects: self.effects.signed(updates, cs), ..self }
    }

    /// Then this side signs for updates of its own.
    pub open spec fn sent(self, updates: Seq<Update>) -> Step {
        self.sent_with(updates, MonitorUpdate::LatestCounterpartyCommitment)
    }

    /// Then this side signs for updates of its own, and the monitor takes this update in.
    pub open spec fn sent_with(self, updates: Seq<Update>, report: MonitorUpdate) -> Step {
        self.book(
            HtlcBookView {
                outbound: updates,
                outbound_stage: OutboundStage::Sent,
                awaits_revocation: true,
                ..self.entry.book
            },
        ).monitor(report).signed(
            updates,
            self.entry.channel.next_commitment(),
        )
    }

    /// Then the user learns of these things.
    pub open spec fn told(self, events: Seq<Event>) -> Step {
        Step {
            effects: EffectsView { events: self.effects.events + events, ..self.effects },
            ..self
        }
    }

    /// Then held updates are sent, if the channel can carry updates. Payments that the balance no
    /// longer covers have failed.
    #[verifier::opaque]
    pub open spec fn freed(self) -> Step {
        if self.entry.can_send() && self.entry.book.holding_cell.len() > 0 {
            let held = self.entry.book.holding_cell;
            let room = self.entry.room_msat();
            let step = self.book(HtlcBookView { holding_cell: seq![], ..self.entry.book }).told(
                passed_over(self.entry.channel.channel_id, held, room),
            );
            if carried(held, room).len() > 0 {
                step.sent(carried(held, room))
            } else {
                step
            }
        } else {
            self
        }
    }

    /// Then an update of this side is sent, or held if the channel cannot carry it now.
    pub open spec fn offered(self, update: Update) -> Step {
        if self.entry.can_send() {
            self.sent(seq![update])
        } else {
            self.book(
                HtlcBookView {
                    holding_cell: self.entry.book.holding_cell.push(update),
                    ..self.entry.book
                },
            )
        }
    }

    /// Then a received HTLC is claimed. The monitor learns the preimage in one update, together
    /// with the commitment if the claim can be signed for at once; else the claim is held. The user
    /// learns that the payment is claimed.
    pub open spec fn claimed(self, htlc: Htlc) -> Step {
        let update = Update::FulfillHtlc { htlc_id: htlc.htlc_id };
        let payment_hash = htlc.payment_hash;
        let step = if self.entry.can_send() {
            self.sent_with(
                seq![update],
                MonitorUpdate::PaymentPreimage { payment_hash, with_commitment: true },
            )
        } else {
            self.offered(update).monitor(
                MonitorUpdate::PaymentPreimage { payment_hash, with_commitment: false },
            )
        };
        step.event(
            Event::PaymentClaimed {
                channel_id: self.entry.channel.channel_id,
                payment_hash,
                amount_msat: htlc.amount_msat,
            },
        )
    }

    /// Then updates of the counterparty that only this side's commitment carries are signed for.
    #[verifier::opaque]
    pub open spec fn acked(self) -> Step {
        if self.entry.book.inbound_stage is LocalCommitted && !self.entry.book.awaits_revocation
            && self.entry.channel.counterparty_commitment_number > 0 {
            self.book(
                HtlcBookView {
                    inbound_stage: InboundStage::Acked,
                    awaits_revocation: true,
                    ..self.entry.book
                },
            ).signed(seq![], self.entry.channel.next_commitment())
        } else {
            self
        }
    }
}

impl ChannelEntryView {
    /// Whether this is the other entry but for its payments and what its monitor knows of them.
    pub open spec fn same_but_payments(self, other: ChannelEntryView) -> bool {
        &&& self.channel == other.channel
        &&& self.terms == other.terms
        &&& self.is_closed == other.is_closed
        &&& self.monitor == other.monitor
    }
}

impl EffectsView {
    /// Whether these effects are the earlier ones and then at most updates to payments, with the
    /// signatures for them.
    pub open spec fn continues(self, earlier: EffectsView) -> bool {
        &&& earlier.msgs.len() <= self.msgs.len()
        &&& forall|i: int|
            0 <= i < earlier.msgs.len() ==> #[trigger] self.msgs[i] == earlier.msgs[i]
        &&& forall|i: int|
            earlier.msgs.len() <= i < self.msgs.len() ==> (#[trigger] self.msgs[i]) is UpdateHTLCs
        &&& earlier.monitor_updates.len() <= self.monitor_updates.len()
        &&& forall|i: int|
            0 <= i < earlier.monitor_updates.len() ==> #[trigger] self.monitor_updates[i]
                == earlier.monitor_updates[i]
    }
}

/// To send held updates changes the payments alone, and nothing if none can be sent.
pub broadcast proof fn lemma_freed(step: Step)
    ensures
        ({
            let freed = #[trigger] step.freed();
            &&& freed.entry.same_but_payments(step.entry)
            &&& freed.effects.continues(step.effects)
            &&& step.entry.book.holding_cell.len() == 0 || !step.entry.can_send() ==> freed == step
        }),
{
    reveal(Step::freed);
}

/// A message that could not be handled changes nothing of the channel but whether it is closed, and
/// the peer is told.
pub broadcast proof fn lemma_failed(step: Step, action: ErrorAction)
    ensures
        ({
            let failed = #[trigger] step.failed(action);
            &&& failed.entry == (ChannelEntryView {
                is_closed: step.entry.is_closed || action is SendErrorMessage,
                ..step.entry
            })
            &&& failed.effects.msgs == step.effects.msgs.push(MessageView::HandleError(action))
        }),
{
    reveal(Step::failed);
}

/// To sign for updates of the counterparty changes the payments alone.
pub broadcast proof fn lemma_acked(step: Step)
    ensures
        ({
            let acked = #[trigger] step.acked();
            &&& acked.entry.same_but_payments(step.entry)
            &&& acked.entry.book.holding_cell == step.entry.book.holding_cell
            &&& acked.effects.continues(step.effects)
            &&& acked.effects.monitor_updates == step.effects.monitor_updates
            &&& acked.effects.events == step.effects.events
        }),
{
    reveal(Step::acked);
}

/// What all that works with steps relies on.
pub broadcast group group_steps {
    lemma_acked,
    lemma_freed,
    lemma_failed,
}

impl Effects {
    pub(crate) fn new() -> (fx: Effects)
        ensures
            fx@ == (EffectsView { msgs: seq![], events: seq![], monitor_updates: seq![] }),
    {
        let fx = Effects { msgs: Vec::new(), events: Vec::new(), monitor_updates: Vec::new() };
        assert(fx@.msgs =~= seq![]);
        fx
    }

    pub(crate) fn msg(&mut self, msg: Message)
        ensures
            final(self)@ == old(self)@.msg(msg@),
    {
        self.msgs.push(msg);
        assert(self@.msgs =~= old(self)@.msgs.push(msg@));
    }

    pub(crate) fn event(&mut self, event: Event)
        ensures
            final(self)@ == (EffectsView { events: old(self)@.events.push(event), ..old(self)@ }),
    {
        self.events.push(event);
    }

    pub(crate) fn signed(&mut self, updates: Vec<Update>, cs: CommitmentSigned)
        ensures
            final(self)@ == old(self)@.signed(updates@, cs),
    {
        let mut commitment_signed: Vec<CommitmentSigned> = Vec::new();
        commitment_signed.push(cs);
        let update = CommitmentUpdate { updates, commitment_signed };
        assert(update@ =~= CommitmentUpdateView {
            updates: updates@,
            commitment_signed: seq![cs],
        });
        self.msg(Message::UpdateHTLCs(update));
    }

    /// Sends a signature that covers no updates.
    pub(crate) fn signed_only(&mut self, cs: CommitmentSigned)
        ensures
            final(self)@ == old(self)@.signed(seq![], cs),
    {
        let none: Vec<Update> = Vec::new();
        assert(none@ =~= seq![]);
        self.signed(none, cs);
    }
}

impl ChannelEntry {
    /// What holds of every entry between two calls.
    pub open spec fn inv(&self) -> bool {
        self@.inv()
    }

    /// Whether this is the same channel with the same peer.
    pub open spec fn same_place(&self, other: &ChannelEntry) -> bool {
        &&& self.channel.channel_id == other.channel.channel_id
        &&& self.channel.counterparty == other.channel.counterparty
    }

    /// The present state, with the effects that led to it.
    pub open spec fn step(&self, fx: &Effects) -> Step {
        Step { entry: self@, effects: fx@ }
    }

    pub(crate) fn can_send(&self) -> (r: bool)
        ensures
            r == self@.can_send(),
    {
        self.book.is_idle() && !self.channel.is_disconnected && self.channel.quiescence
            == Quiescence::Active && self.channel.counterparty_commitment_number > 0
    }

    /// The monitor takes an update in.
    pub(crate) fn report(&mut self, fx: &mut Effects, update: MonitorUpdate)
        ensures
            final(self).step(&*final(fx)) == old(self).step(&*old(fx)).monitor(update),
    {
        self.monitor.update(update);
        fx.monitor_updates.push(update);
        assert(fx@.msgs =~= old(fx)@.msgs);
    }

    /// Closes the channel.
    pub(crate) fn close(&mut self, fx: &mut Effects, reason: ClosureReason)
        requires
            old(self).inv(),
        ensures
            final(self).inv(),
            final(self).step(&*final(fx)) == old(self).step(&*old(fx)).closed(reason),
    {
        self.is_closed = true;
        self.report(fx, MonitorUpdate::ChannelForceClosed);
        fx.event(
            Event::ChannelClosed {
                channel_id: self.channel.channel_id,
                reason,
                counterparty_node_id: self.channel.counterparty,
                channel_capacity_sats: self.channel.funding.value_sat,
            },
        );
    }

    /// Closes the channel for a reason of this side, and tells the peer.
    pub fn close_by(&mut self, reason: ClosureReason) -> (fx: Effects)
        requires
            old(self).inv(),
        ensures
            final(self).inv(),
            final(self).step(&fx) == old(self)@.closed_by(reason),
    {
        let mut fx = Effects::new();
        self.close(&mut fx, reason);
        fx.msg(Message::HandleError(ErrorAction::SendErrorMessage));
        fx
    }

    /// A message of the peer cannot be handled.
    pub(crate) fn fail(&mut self, fx: &mut Effects, action: ErrorAction)
        requires
            old(self).inv(),
        ensures
            final(self).inv(),
            final(self).step(&*final(fx)) == old(self).step(&*old(fx)).failed(action),
    {
        reveal(Step::failed);
        if action == ErrorAction::SendErrorMessage {
            self.close(fx, ClosureReason::ProcessingError);
        }
        fx.msg(Message::HandleError(action));
    }

    pub(crate) fn next_commitment_signed(&self) -> (cs: CommitmentSigned)
        requires
            self.channel.counterparty_commitment_number > 0,
        ensures
            cs == self.channel.next_commitment(),
    {
        CommitmentSigned {
            channel_id: self.channel.channel_id,
            funding_txid: Some(self.channel.funding.funding_txo.txid),
            commitment_number: self.channel.counterparty_commitment_number - 1,
        }
    }

    /// Signs for updates of this side.
    pub(crate) fn send(&mut self, fx: &mut Effects, updates: Vec<Update>)
        requires
            old(self).inv(),
            old(self)@.can_send(),
            added_total(updates@) <= old(self)@.room_msat(),
        ensures
            final(self).inv(),
            final(self).step(&*final(fx)) == old(self).step(&*old(fx)).sent(updates@),
    {
        self.send_with(fx, updates, MonitorUpdate::LatestCounterpartyCommitment);
    }

    /// Signs for updates of this side and hands the monitor this update.
    pub(crate) fn send_with(
        &mut self,
        fx: &mut Effects,
        updates: Vec<Update>,
        report: MonitorUpdate,
    )
        requires
            old(self).inv(),
            old(self)@.can_send(),
            added_total(updates@) <= old(self)@.room_msat(),
        ensures
            report !is RenegotiatedFundingLocked ==> final(self).inv(),
            final(self).step(&*final(fx)) == old(self).step(&*old(fx)).sent_with(updates@, report),
    {
        let cs = self.next_commitment_signed();
        let copy = copy_updates(&updates);
        self.book.outbound = copy;
        self.book.outbound_stage = OutboundStage::Sent;
        self.book.awaits_revocation = true;
        self.report(fx, report);
        fx.signed(updates, cs);
    }

    /// Sends held updates, if the channel can carry them.
    pub(crate) fn free_holding_cell(&mut self, fx: &mut Effects)
        requires
            old(self).inv(),
        ensures
            final(self).inv(),
            final(self).step(&*final(fx)) == old(self).step(&*old(fx)).freed(),
    {
        reveal(Step::freed);
        if self.can_send() && self.book.holding_cell.len() > 0 {
            let room: u128 = self.channel.funding.value_to_self_msat as u128 - sum_htlcs(
                &self.book.htlcs,
                true,
            );
            let (updates, failed): (Vec<Update>, Vec<Event>) = split_carried(
                self.channel.channel_id,
                &self.book.holding_cell,
                room,
            );
            proof {
                lemma_carried_fits(self.book.holding_cell@, room as int);
            }
            let mut failed = failed;
            self.book.holding_cell = Vec::new();
            assert(self.book.holding_cell@ =~= seq![]);
            fx.events.append(&mut failed);
            assert(fx@.msgs =~= old(fx)@.msgs);
            if updates.len() > 0 {
                self.send(fx, updates);
            }
        }
    }

    /// Sends an update of this side, or holds it.
    pub(crate) fn offer(&mut self, fx: &mut Effects, update: Update)
        requires
            old(self).inv(),
            old(self)@.can_send() ==> added_amount(update) <= old(self)@.room_msat(),
        ensures
            final(self).inv(),
            final(self).step(&*final(fx)) == old(self).step(&*old(fx)).offered(update),
    {
        if self.can_send() {
            let mut updates: Vec<Update> = Vec::new();
            updates.push(update);
            assert(updates@ =~= seq![update]);
            proof {
                lemma_added_one(update);
            }
            self.send(fx, updates);
        } else {
            self.book.holding_cell.push(update);
        }
    }

    /// Claims a received HTLC, at once or once the channel can carry the claim.
    pub(crate) fn claim(&mut self, fx: &mut Effects, htlc: Htlc)
        requires
            old(self).inv(),
        ensures
            final(self).inv(),
            final(self).step(&*final(fx)) == old(self).step(&*old(fx)).claimed(htlc),
    {
        let update = Update::FulfillHtlc { htlc_id: htlc.htlc_id };
        let payment_hash = htlc.payment_hash;
        proof {
            lemma_added_one(update);
        }
        if self.can_send() {
            let mut updates: Vec<Update> = Vec::new();
            updates.push(update);
            assert(updates@ =~= seq![update]);
            self.send_with(
                fx,
                updates,
                MonitorUpdate::PaymentPreimage { payment_hash, with_commitment: true },
            );
        } else {
            self.offer(fx, update);
            self.report(
                fx,
                MonitorUpdate::PaymentPreimage { payment_hash, with_commitment: false },
            );
        }
        fx.event(
            Event::PaymentClaimed {
                channel_id: self.channel.channel_id,
                payment_hash,
                amount_msat: htlc.amount_msat,
            },
        );
    }

    /// Signs for updates of the counterparty that only this side's commitment carries.
    pub(crate) fn ack_inbound(&mut self, fx: &mut Effects)
        requires
            old(self).inv(),
        ensures
            final(self).inv(),
            final(self).step(&*final(fx)) == old(self).step(&*old(fx)).acked(),
    {
        reveal(Step::acked);
        if self.book.inbound_stage == InboundStage::LocalCommitted && !self.book.awaits_revocation
            && self.channel.counterparty_commitment_number > 0 {
            self.book.inbound_stage = InboundStage::Acked;
            self.book.awaits_revocation = true;
            fx.signed_only(self.next_commitment_signed());
        }
    }
}

pub(crate) fn copy_updates(updates: &Vec<Update>) -> (copy: Vec<Update>)
    ensures
        copy@ == updates@,
{
    let copy = updates.clone();
    assert(copy@ =~= updates@);
    copy
}

} // verus!
