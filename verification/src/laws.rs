//! What holds of a channel across several steps of a teleport, payments included.

use crate::channel::{Channel, FundingScope, ValueRemovals, INITIAL_COMMITMENT_NUMBER};
use crate::entry::{ChannelEntryView, EffectsView, Step};
use crate::events::{ClosureReason, Event};
use crate::htlcs::{added_total, htlc_total, lemma_all_carried};
use crate::monitor::MonitorUpdate;
use crate::msgs::{
    ChannelReestablish, CommitmentSigned, ErrorAction, MessageView, PaymentHash, RevokeAndACK, Stfu,
    TeleportCompleteAck, TeleportInit, Update,
};
use crate::node::NodeView;
use crate::outpoint::FundingOutPoint;
use crate::payment_handlers::{find_received, lemma_find_received};
use vstd::prelude::*;

verus! {

broadcast use crate::entry::group_steps;

/// A teleport takes from each side what that side gives up and nothing else, and from the channel
/// the sum.
pub proof fn law_removals_reduce_each_side(
    scope: FundingScope,
    new_funding_txo: FundingOutPoint,
    removals: ValueRemovals,
    is_initiator: bool,
)
    requires
        scope.value_to_self_msat <= scope.value_sat * 1000,
        scope.covers(removals, is_initiator),
    ensures
        ({
            let after = scope.teleported(new_funding_txo, removals, is_initiator);
            &&& after.funding_txo == new_funding_txo
            &&& after.value_to_self_msat == scope.value_to_self_msat - removals.own(is_initiator)
                * 1000
            &&& after.value_to_counterparty_msat() == scope.value_to_counterparty_msat()
                - removals.own(!is_initiator) * 1000
            &&& after.value_sat == scope.value_sat - removals.responder_value_removal_sat
                - removals.initiator_value_removal_sat
        }),
{
}

/// The commitments of a channel are counted on across a teleport. None of its messages, none of the
/// user's calls and no reconnection touches either number.
pub proof fn law_teleport_keeps_commitment_numbers(
    e: ChannelEntryView,
    stfu: Stfu,
    init: TeleportInit,
    cs: CommitmentSigned,
    reestablish: ChannelReestablish,
    new_funding_txo: FundingOutPoint,
    removals: ValueRemovals,
)
    ensures
        e.stfu(stfu).entry.same_commitment_numbers(e),
        e.teleport_init(init).entry.same_commitment_numbers(e),
        e.teleport_ack().entry.same_commitment_numbers(e),
        e.new_scope_commitment(cs).entry.same_commitment_numbers(e),
        e.teleport_complete().entry.same_commitment_numbers(e),
        e.teleport_complete_ack().entry.same_commitment_numbers(e),
        e.teleport_abort().entry.same_commitment_numbers(e),
        e.teleport_channel(new_funding_txo, removals) is Ok ==> e.teleport_channel(
            new_funding_txo,
            removals,
        )->Ok_0.entry.same_commitment_numbers(e),
        e.ack_teleport() is Ok ==> e.ack_teleport()->Ok_0.entry.same_commitment_numbers(e),
        e.cancel_teleport() is Ok ==> e.cancel_teleport()->Ok_0.entry.same_commitment_numbers(e),
        e.complete_teleport() is Ok ==> e.complete_teleport()->Ok_0.entry.same_commitment_numbers(
            e,
        ),
        e.messages_sent(true, true).same_commitment_numbers(e),
        e.peer_disconnected().same_commitment_numbers(e),
        e.channel_reestablish(reestablish).entry.same_commitment_numbers(e),
{
    assert(e.stfu(stfu).entry.same_commitment_numbers(e)) by {
        reveal(ChannelEntryView::stfu);
    }
    assert(e.teleport_init(init).entry.same_commitment_numbers(e)) by {
        reveal(ChannelEntryView::teleport_init);
    }
    assert(e.teleport_ack().entry.same_commitment_numbers(e)) by {
        reveal(ChannelEntryView::teleport_ack);
    }
    assert(e.new_scope_commitment(cs).entry.same_commitment_numbers(e)) by {
        reveal(ChannelEntryView::new_scope_commitment);
    }
    assert(e.teleport_complete().entry.same_commitment_numbers(e)) by {
        reveal(ChannelEntryView::teleport_complete);
    }
    assert(e.teleport_complete_ack().entry.same_commitment_numbers(e)) by {
        reveal(ChannelEntryView::teleport_complete_ack);
    }
    assert(e.teleport_abort().entry.same_commitment_numbers(e)) by {
        reveal(ChannelEntryView::teleport_abort);
    }
    assert(e.teleport_channel(new_funding_txo, removals) is Ok ==> e.teleport_channel(
        new_funding_txo,
        removals,
    )->Ok_0.entry.same_commitment_numbers(e)) by {
        reveal(ChannelEntryView::teleport_channel);
    }
    assert(e.ack_teleport() is Ok ==> e.ack_teleport()->Ok_0.entry.same_commitment_numbers(e)) by {
        reveal(ChannelEntryView::ack_teleport);
    }
    assert(e.cancel_teleport() is Ok ==> e.cancel_teleport()->Ok_0.entry.same_commitment_numbers(
        e,
    )) by {
        reveal(ChannelEntryView::cancel_teleport);
    }
    assert(e.complete_teleport() is Ok
        ==> e.complete_teleport()->Ok_0.entry.same_commitment_numbers(e)) by {
        reveal(ChannelEntryView::complete_teleport);
    }
    assert(e.channel_reestablish(reestablish).entry.same_commitment_numbers(e)) by {
        reveal(ChannelEntryView::channel_reestablish);
    }
}

impl ChannelEntryView {
    /// Whether this is the channel of the other entry, and both sides' commitments have the numbers
    /// that they have there.
    pub open spec fn same_commitment_numbers(self, other: ChannelEntryView) -> bool {
        &&& self.channel.channel_id == other.channel.channel_id
        &&& self.channel.holder_commitment_number == other.channel.holder_commitment_number
        &&& self.channel.counterparty_commitment_number
            == other.channel.counterparty_commitment_number
    }
}

/// Whether nothing in these effects says that the channel became ready.
pub open spec fn no_channel_ready(effects: EffectsView) -> bool {
    forall|i: int|
        0 <= i < effects.msgs.len() ==> (#[trigger] effects.msgs[i]) !is SendChannelReady
}

/// The channel stays open throughout a teleport: no step of it, the promotion included, announces
/// the channel as ready.
pub proof fn law_teleport_sends_no_channel_ready(
    e: ChannelEntryView,
    stfu: Stfu,
    init: TeleportInit,
    cs: CommitmentSigned,
)
    ensures
        no_channel_ready(e.stfu(stfu).effects),
        no_channel_ready(e.teleport_init(init).effects),
        no_channel_ready(e.teleport_ack().effects),
        no_channel_ready(e.new_scope_commitment(cs).effects),
        no_channel_ready(e.teleport_complete().effects),
        no_channel_ready(e.teleport_complete_ack().effects),
        no_channel_ready(e.teleport_abort().effects),
        e.ack_teleport() is Ok ==> no_channel_ready(e.ack_teleport()->Ok_0.effects),
        e.complete_teleport() is Ok ==> no_channel_ready(e.complete_teleport()->Ok_0.effects),
{
    assert(no_channel_ready(e.stfu(stfu).effects)) by {
        reveal(ChannelEntryView::stfu);
    }
    assert(no_channel_ready(e.teleport_init(init).effects)) by {
        reveal(ChannelEntryView::teleport_init);
    }
    assert(no_channel_ready(e.teleport_ack().effects)) by {
        reveal(ChannelEntryView::teleport_ack);
    }
    assert(no_channel_ready(e.new_scope_commitment(cs).effects)) by {
        reveal(ChannelEntryView::new_scope_commitment);
    }
    assert(no_channel_ready(e.teleport_complete().effects)) by {
        reveal(ChannelEntryView::teleport_complete);
    }
    assert(no_channel_ready(e.teleport_complete_ack().effects)) by {
        reveal(ChannelEntryView::teleport_complete_ack);
    }
    assert(no_channel_ready(e.teleport_abort().effects)) by {
        reveal(ChannelEntryView::teleport_abort);
    }
    assert(e.ack_teleport() is Ok ==> no_channel_ready(e.ack_teleport()->Ok_0.effects)) by {
        reveal(ChannelEntryView::ack_teleport);
    }
    assert(e.complete_teleport() is Ok ==> no_channel_ready(
        e.complete_teleport()->Ok_0.effects,
    )) by {
        reveal(ChannelEntryView::complete_teleport);
    }
}

/// A restart does to every channel what the loss of its connection does.
pub proof fn law_restart_is_a_disconnection(node: NodeView, i: int)
    requires
        0 <= i < node.entries.len(),
    ensures
        node.restarted().entries[i] == node.disconnected(
            node.entries[i].channel.counterparty,
        ).entries[i],
{
}

/// A refused teleport leaves the channel as it was, open to updates, on both sides.
pub proof fn law_refusal_restores_the_channel(initiator: Channel, responder: Channel)
    requires
        responder.pending_teleport is Some,
        responder.pending_teleport->Some_0 is AwaitingUserDecision,
        !responder.is_disconnected,
        initiator.pending_teleport is Some,
        initiator.pending_teleport->Some_0 is AwaitingTeleportAck,
        !initiator.is_disconnected,
    ensures
        responder.spec_cancel_teleport().1 is Ok,
        responder.spec_cancel_teleport().0 == responder.resumed(),
        initiator.spec_teleport_abort().1 is Ok,
        initiator.spec_teleport_abort().0 == initiator.resumed(),
        responder.resumed().funding == responder.funding,
        initiator.resumed().funding == initiator.funding,
{
}

/// A teleport survives a lost connection exactly from the stage on at which the other side may hold
/// it to it. A channel that keeps its teleport stays paused unless it has promoted and
/// acknowledged; one that drops it is open to updates, on the scope it had.
pub proof fn law_only_persistent_teleports_survive(e: ChannelEntryView)
    requires
        e.channel.inv(),
    ensures
        ({
            let after = e.peer_disconnected();
            let kept = e.channel.pending_teleport is Some
                && e.channel.pending_teleport->Some_0.spec_is_persistent();
            &&& kept ==> after.channel.pending_teleport == e.channel.pending_teleport
                && after.channel.quiescence == e.channel.quiescence
            &&& !kept ==> after.channel.pending_teleport is None
                && after.channel.quiescence is Active
            &&& after.channel.funding == e.channel.funding
            &&& after.channel.holder_commitment_number == e.channel.holder_commitment_number
            &&& after.channel.counterparty_commitment_number
                == e.channel.counterparty_commitment_number
            &&& after.monitor == e.monitor
        }),
{
}

/// While a channel is paused nothing of a new payment leaves: it is held.
pub proof fn law_paused_channel_holds_payments(
    e: ChannelEntryView,
    payment_hash: PaymentHash,
    amount_msat: u64,
    cltv_expiry: u32,
)
    requires
        e.channel.quiescence is Quiescent,
        e.send_payment(payment_hash, amount_msat, cltv_expiry) is Ok,
    ensures
        ({
            let step = e.send_payment(payment_hash, amount_msat, cltv_expiry)->Ok_0;
            &&& step.effects == e.start().effects
            &&& step.entry.channel == e.channel
            &&& step.entry.book.holding_cell == e.book.holding_cell.push(
                Update::AddHtlc {
                    htlc_id: e.book.next_htlc_id,
                    payment_hash,
                    amount_msat,
                    cltv_expiry,
                },
            )
        }),
{
    reveal(ChannelEntryView::send_payment);
}

/// The promotion of the initiator sends what was held, on the new scope, if its balance there
/// covers it.
pub proof fn law_promotion_releases_held_payments(e: ChannelEntryView)
    requires
        e.channel.inv(),
        !e.channel.is_disconnected,
        e.channel.pending_teleport is Some,
        e.channel.pending_teleport->Some_0 is AwaitingTeleportCompleteAck,
        e.book.is_idle(),
        e.book.holding_cell.len() > 0,
        added_total(e.book.holding_cell) + htlc_total(e.book.htlcs, true)
            + e.channel.promised_removal_msat() <= e.channel.funding.value_to_self_msat,
        e.channel.counterparty_commitment_number > 0,
    ensures
        ({
            let step = e.teleport_complete_ack();
            let txo = e.channel.pending_teleport->Some_0.spec_new_funding_txo();
            &&& step.entry.channel.funding.funding_txo == txo
            &&& step.entry.monitor.funding_txo == txo
            &&& step.entry.book.holding_cell.len() == 0
            &&& step.effects == (EffectsView {
                monitor_updates: seq![
                    MonitorUpdate::RenegotiatedFundingLocked { funding_txo: txo },
                    MonitorUpdate::LatestCounterpartyCommitment,
                ],
                ..e.start().effects
            }).signed(
                e.book.holding_cell,
                CommitmentSigned {
                    channel_id: e.channel.channel_id,
                    funding_txid: Some(txo.txid),
                    commitment_number: (e.channel.counterparty_commitment_number - 1) as u64,
                },
            )
        }),
{
    reveal(ChannelEntryView::teleport_complete_ack);
    let step = e.teleport_complete_ack();
    let txo = e.channel.pending_teleport->Some_0.spec_new_funding_txo();
    let room = e.room_msat() - e.channel.promised_removal_msat();
    reveal(Step::freed);
    lemma_all_carried(e.channel.channel_id, e.book.holding_cell, room);
    assert(step.effects.monitor_updates =~= seq![
        MonitorUpdate::RenegotiatedFundingLocked { funding_txo: txo },
        MonitorUpdate::LatestCounterpartyCommitment,
    ]);
}

/// A signature on the new scope that comes again is ignored: it changes nothing and leads to
/// nothing, as long as this side has not promoted that scope.
pub proof fn law_repeated_signature_is_ignored(e: ChannelEntryView, cs: CommitmentSigned)
    requires
        e.channel.inv(),
        e.channel.pending_teleport is Some,
        e.channel.pending_teleport->Some_0 is AwaitingRemoteCommitmentSigned,
        !e.channel.is_disconnected,
        cs.funding_txid == Some(e.channel.pending_teleport->Some_0.spec_new_funding_txo().txid),
        cs.commitment_number == e.channel.holder_commitment_number,
        e.channel.pending_teleport->Some_0.spec_new_funding_txo().txid
            != e.channel.funding.funding_txo.txid,
    ensures
        e.commitment_signed(cs).effects.monitor_updates.len() == 1,
        e.commitment_signed(cs).effects.msgs.len() == 0,
        e.commitment_signed(cs).entry.commitment_signed(cs) == e.commitment_signed(
            cs,
        ).entry.start(),
{
    reveal(ChannelEntryView::commitment_signed);
    reveal(ChannelEntryView::new_scope_commitment);
}

/// Once this side has promoted, a signature on the new scope is an ordinary one and is answered.
/// The teleport that lingered repeats its acknowledgement and is over.
pub proof fn law_signature_after_promotion_is_answered(e: ChannelEntryView, cs: CommitmentSigned)
    requires
        e.channel.inv(),
        e.channel.is_lingering(),
        !e.channel.is_disconnected,
        e.channel.holder_commitment_number > 0,
        e.outbound_settled() is Some,
        cs.funding_txid == Some(e.channel.funding.funding_txo.txid),
        cs.commitment_number == e.channel.holder_commitment_number - 1,
    ensures
        ({
            let step = e.commitment_signed(cs);
            &&& step.entry.channel.holder_commitment_number == e.channel.holder_commitment_number
                - 1
            &&& step.entry.channel.pending_teleport is None
            &&& !step.entry.is_closed || e.is_closed
            &&& step.effects.monitor_updates.len() > 0
            &&& step.effects.monitor_updates[0] is LatestHolderCommitment
            &&& step.effects.msgs.len() >= 2
            &&& step.effects.msgs[0] == MessageView::SendRevokeAndACK(
                RevokeAndACK {
                    channel_id: e.channel.channel_id,
                    commitment_number: e.channel.holder_commitment_number,
                },
            )
            &&& step.effects.msgs.contains(
                MessageView::SendTeleportCompleteAck(
                    TeleportCompleteAck { channel_id: e.channel.channel_id },
                ),
            )
        }),
{
    reveal(ChannelEntryView::commitment_signed);
    reveal(ChannelEntryView::ordinary_commitment);
    let ack = MessageView::SendTeleportCompleteAck(
        TeleportCompleteAck { channel_id: e.channel.channel_id },
    );
    assert(e.channel.spec_classify(cs) is Ordinary);
    let settled = e.outbound_settled()->Some_0;
    assert(settled.channel.is_lingering());
    assert(settled.channel.channel_id == e.channel.channel_id);
    let advanced = settled.start().advanced();
    assert(advanced.effects.msgs.len() == 1);
    let acked = advanced.acked();
    assert(acked.effects.msgs[0] == advanced.effects.msgs[0]);
    assert(acked.effects.monitor_updates == advanced.effects.monitor_updates);
    assert(acked.entry.channel == advanced.entry.channel);
    let retired = acked.retired();
    let n = acked.effects.msgs.len() as int;
    assert(retired.effects.msgs[n] == ack);
    assert(retired.entry.channel.pending_teleport is None);
    let step = retired.freed();
    assert(step == e.commitment_signed(cs));
    assert(step.effects.msgs[n] == ack);
    assert(step.effects.msgs[0] == advanced.effects.msgs[0]);
    assert(step.effects.monitor_updates[0] == advanced.effects.monitor_updates[0]);
}

/// A lingering responder whose update got lost with its acknowledgement repeats the acknowledgement
/// first: nothing but the opening messages of a fresh channel comes before it.
pub proof fn law_acknowledgement_precedes_repeated_updates(
    e: ChannelEntryView,
    msg: ChannelReestablish,
)
    requires
        e.channel.inv(),
        e.channel.is_disconnected,
        e.channel.is_lingering(),
        e.in_sync(msg),
    ensures
        ({
            let msgs = e.channel_reestablish(msg).effects.msgs;
            exists|n: int|
                0 <= n < msgs.len() && #[trigger] msgs[n] == MessageView::SendTeleportCompleteAck(
                    TeleportCompleteAck { channel_id: e.channel.channel_id },
                ) && forall|k: int|
                    0 <= k < n ==> (#[trigger] msgs[k]) is SendChannelReady || msgs[k] is
                        SendAnnouncementSignatures
        }),
{
    reveal(ChannelEntryView::channel_reestablish);
    let msgs = e.channel_reestablish(msg).effects.msgs;
    let n: int = if e.channel.holder_commitment_number == INITIAL_COMMITMENT_NUMBER
        && e.channel.counterparty_commitment_number == INITIAL_COMMITMENT_NUMBER {
        2
    } else {
        0
    };
    assert(msgs[n] == MessageView::SendTeleportCompleteAck(
        TeleportCompleteAck { channel_id: e.channel.channel_id },
    ));
}

/// An HTLC update of the initiator ends a lingering teleport; a new feerate does not.
pub proof fn law_htlc_update_ends_lingering(e: ChannelEntryView, update: Update)
    requires
        e.channel.inv(),
        e.channel.is_lingering(),
        !e.channel.is_disconnected,
        e.book.inbound_stage is Idle || e.book.inbound_stage is Received,
        e.accepts(update),
    ensures
        update !is Fee ==> e.update_received(update).entry.channel.pending_teleport is None,
        update is Fee ==> e.update_received(update).entry.channel.is_lingering(),
{
    reveal(ChannelEntryView::update_received);
}

/// A revocation of the initiator on the new scope ends a lingering teleport.
pub proof fn law_revocation_ends_lingering(e: ChannelEntryView, msg: RevokeAndACK)
    requires
        e.channel.inv(),
        e.channel.is_lingering(),
        !e.channel.is_disconnected,
        e.book.awaits_revocation,
        e.channel.counterparty_commitment_number > 0,
        msg.commitment_number == e.channel.counterparty_commitment_number,
        e.inbound_settled() is Some,
    ensures
        e.revoke_and_ack(msg).entry.channel.pending_teleport is None,
{
    reveal(ChannelEntryView::revoke_and_ack);
}

/// A claim that is taken up reaches the monitor in exactly one update, which carries the preimage,
/// and the user in exactly one event, whether the claim is signed for at once or held. The monitor
/// knows the preimage from then on.
pub proof fn law_claim_is_reported_once(e: ChannelEntryView, payment_hash: PaymentHash)
    requires
        e.resolve_payment(payment_hash, true) is Ok,
    ensures
        ({
            let step = e.resolve_payment(payment_hash, true)->Ok_0;
            let htlc = e.book.htlcs[find_received(e.book.htlcs, payment_hash)];
            &&& htlc.payment_hash == payment_hash
            &&& step.effects.monitor_updates == seq![
                MonitorUpdate::PaymentPreimage { payment_hash, with_commitment: e.can_send() },
            ]
            &&& step.effects.events == seq![
                Event::PaymentClaimed {
                    channel_id: e.channel.channel_id,
                    payment_hash,
                    amount_msat: htlc.amount_msat,
                },
            ]
            &&& step.effects.msgs.len() == (if e.can_send() {
                1int
            } else {
                0
            })
            &&& step.entry.monitor.preimages == e.monitor.preimages.push(payment_hash)
        }),
{
    reveal(ChannelEntryView::resolve_payment);
    lemma_find_received(e.book.htlcs, payment_hash);
    let step = e.resolve_payment(payment_hash, true)->Ok_0;
    assert(step.effects.monitor_updates =~= seq![
        MonitorUpdate::PaymentPreimage { payment_hash, with_commitment: e.can_send() },
    ]);
    assert(step.effects.events.len() == 1);
    assert(step.effects.events =~= seq![step.effects.events[0]]);
}

/// A teleport that survives a lost connection waits for its user as long as it takes: a timer tick
/// does not disconnect the peer.
pub proof fn law_timer_spares_persistent_teleports(e: ChannelEntryView, feerate_per_kw: u32)
    requires
        e.channel.inv(),
        e.channel.quiescence is Quiescent,
        e.channel.pending_teleport is Some,
        e.channel.pending_teleport->Some_0.spec_is_persistent(),
        !e.book.awaits_revocation,
    ensures
        e.timer_tick(feerate_per_kw).effects == e.start().effects,
        e.timer_tick(feerate_per_kw).entry.channel == (Channel { response_ticks: 0, ..e.channel }),
{
    reveal(ChannelEntryView::timer_tick);
}

/// A responder that holds the initiator's signature repeats its own when the channel is resumed,
/// and stays paused.
pub proof fn law_responder_repeats_its_signature(e: ChannelEntryView, msg: ChannelReestablish)
    requires
        e.channel.inv(),
        e.channel.is_disconnected,
        e.channel.pending_teleport is Some,
        e.channel.pending_teleport->Some_0 is AwaitingRemoteComplete,
        e.book.is_idle(),
        e.in_sync(msg),
    ensures
        ({
            let step = e.channel_reestablish(msg);
            let cs = e.channel.new_scope_commitment(
                e.channel.pending_teleport->Some_0.spec_new_funding_txo(),
            );
            &&& step.effects.msgs.contains(e.start().effects.signed(seq![], cs).msgs[0])
            &&& step.entry.channel.pending_teleport == e.channel.pending_teleport
            &&& step.entry.channel.quiescence is Quiescent
            &&& !step.entry.channel.is_disconnected
        }),
{
    reveal(ChannelEntryView::channel_reestablish);
    let step = e.channel_reestablish(msg);
    let cs = e.channel.new_scope_commitment(
        e.channel.pending_teleport->Some_0.spec_new_funding_txo(),
    );
    let repeated = e.start().effects.signed(seq![], cs).msgs[0];
    let n: int = if e.channel.holder_commitment_number == INITIAL_COMMITMENT_NUMBER
        && e.channel.counterparty_commitment_number == INITIAL_COMMITMENT_NUMBER {
        2
    } else {
        0
    };
    assert(step.effects.msgs[n] == repeated);
}

/// An initiator whose peer no longer names the new scope drops the teleport when the channel is
/// resumed, and keeps the scope that it has.
pub proof fn law_initiator_drops_what_the_peer_dropped(e: ChannelEntryView, msg: ChannelReestablish)
    requires
        e.channel.is_disconnected,
        e.channel.pending_teleport is Some,
        e.channel.pending_teleport->Some_0.spec_is_initiator(),
        e.in_sync(msg),
        msg.teleport_funding_txid != Some(
            e.channel.pending_teleport->Some_0.spec_new_funding_txo().txid,
        ),
    ensures
        ({
            let step = e.channel_reestablish(msg);
            &&& step.entry.channel.pending_teleport is None
            &&& step.entry.channel.quiescence is Active
            &&& step.entry.channel.funding == e.channel.funding
            &&& step.entry.is_closed == e.is_closed
        }),
{
    reveal(ChannelEntryView::channel_reestablish);
}

/// A proposal that would take more than a side can give up closes the channel, and the user is not
/// asked.
pub proof fn law_excessive_proposal_closes(e: ChannelEntryView, msg: TeleportInit)
    requires
        !e.channel.is_disconnected,
        e.channel.quiescence is Quiescent,
        e.channel.pending_teleport is None,
        !e.channel.removals_fit(
            ValueRemovals {
                responder_value_removal_sat: msg.responder_value_removal_sat,
                initiator_value_removal_sat: msg.initiator_value_removal_sat,
            },
            false,
            e.book.locked(),
        ),
    ensures
        e.teleport_init(msg).entry.is_closed,
        e.teleport_init(msg).effects.monitor_updates =~= seq![MonitorUpdate::ChannelForceClosed],
        e.teleport_init(msg).effects.msgs =~= seq![
            MessageView::HandleError(ErrorAction::SendErrorMessage),
        ],
        e.teleport_init(msg).effects.events =~= seq![
            Event::ChannelClosed {
                channel_id: e.channel.channel_id,
                reason: ClosureReason::ProcessingError,
                counterparty_node_id: e.channel.counterparty,
                channel_capacity_sats: e.channel.funding.value_sat,
            },
        ],
{
    reveal(ChannelEntryView::teleport_init);
    reveal(Step::failed);
}

} // verus!
