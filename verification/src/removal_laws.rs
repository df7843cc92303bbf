//! What a side may take out of a channel, said in the fields of the channel and its HTLCs.

use crate::channel::{APIError, Channel, PendingTeleport, ValueRemovals};
use crate::entry::{ChannelEntryView, Step};
use crate::events::Event;
use crate::htlcs::{added_total, htlc_total, Htlc, InboundStage, OutboundStage};
use crate::monitor::MonitorUpdate;
use crate::msgs::{ErrorAction, MessageView, PaymentHash, Stfu, TeleportInit, Update};
use crate::outpoint::FundingOutPoint;
use crate::stage_laws::signature;
use vstd::prelude::*;

verus! {

broadcast use crate::entry::group_steps;

/// The HTLCs of one direction are worth what each of them is worth, added up.
pub proof fn law_htlc_total_adds_up(a: Seq<Htlc>, h: Htlc, b: Seq<Htlc>, offered: bool)
    ensures
        htlc_total(a + seq![h] + b, offered) == htlc_total(a, offered) + htlc_total(b, offered)
            + if h.offered == offered {
            h.amount_msat as int
        } else {
            0
        },
        htlc_total(Seq::<Htlc>::empty(), offered) == 0,
    decreases b.len(),
{
    if b.len() == 0 {
        assert(a + seq![h] + b =~= a.push(h));
        assert(a.push(h).drop_last() =~= a);
    } else {
        assert((a + seq![h] + b).drop_last() =~= a + seq![h] + b.drop_last());
        law_htlc_total_adds_up(a, h, b.drop_last(), offered);
    }
}

/// Updates add the HTLCs that they add, each with its own value, and nothing else.
pub proof fn law_added_total_adds_up(a: Seq<Update>, u: Update, b: Seq<Update>)
    ensures
        added_total(a + seq![u] + b) == added_total(a) + added_total(b) + match u {
            Update::AddHtlc { amount_msat, .. } => amount_msat as int,
            Update::FulfillHtlc { .. } => 0,
            Update::FailHtlc { .. } => 0,
            Update::Fee { .. } => 0,
        },
        added_total(Seq::<Update>::empty()) == 0,
    decreases b.len(),
{
    if b.len() == 0 {
        assert(a + seq![u] + b =~= a.push(u));
        assert(a.push(u).drop_last() =~= a);
    } else {
        assert((a + seq![u] + b).drop_last() =~= a + seq![u] + b.drop_last());
        law_added_total_adds_up(a, u, b.drop_last());
    }
}

/// A proposal is taken up exactly if each side that takes something out keeps its reserve and what
/// its pending HTLCs hold back; else the channel is closed and the user is not asked. What is taken
/// up is what was proposed, and the user is asked about exactly that.
pub proof fn law_proposal_must_leave_the_reserves(e: ChannelEntryView, msg: TeleportInit)
    requires
        e.inv(),
        !e.channel.is_disconnected,
        e.channel.quiescence is Quiescent,
        e.channel.pending_teleport is None,
    ensures
        ({
            let step = e.teleport_init(msg);
            let own_msat = e.channel.funding.value_to_self_msat as int;
            let other_msat = e.channel.funding.value_sat * 1000 - own_msat;
            let responder_sat = msg.responder_value_removal_sat;
            let initiator_sat = msg.initiator_value_removal_sat;
            let fits = {
                &&& responder_sat != 0 ==> own_msat - 1000 * responder_sat >= 1000
                    * e.channel.holder_reserve_sat + htlc_total(e.book.htlcs, true)
                &&& initiator_sat != 0 ==> other_msat - 1000 * initiator_sat >= 1000
                    * e.channel.counterparty_reserve_sat + htlc_total(e.book.htlcs, false)
            };
            &&& step.entry.channel.pending_teleport is Some <==> fits
            &&& fits ==> {
                &&& step.entry == (ChannelEntryView {
                    channel: Channel {
                        pending_teleport: Some(
                            PendingTeleport::AwaitingUserDecision {
                                new_funding_txo: msg.new_funding_txo,
                                removals: ValueRemovals {
                                    responder_value_removal_sat: responder_sat,
                                    initiator_value_removal_sat: initiator_sat,
                                },
                            },
                        ),
                        response_ticks: 0,
                        ..e.channel
                    },
                    ..e
                })
                &&& step.effects.msgs.len() == 0
                &&& step.effects.monitor_updates.len() == 0
                &&& step.effects.events =~= seq![
                    Event::ChannelTeleport {
                        channel_id: e.channel.channel_id,
                        user_channel_id: e.channel.user_channel_id,
                        counterparty_node_id: e.channel.counterparty,
                        new_funding_txo: crate::outpoint::BitcoinOutPoint {
                            txid: msg.new_funding_txo.txid,
                            vout: msg.new_funding_txo.index as u32,
                        },
                        responder_value_removal_sat: responder_sat,
                        initiator_value_removal_sat: initiator_sat,
                    },
                ]
            }
            &&& !fits ==> {
                &&& step.entry.is_closed
                &&& step.entry.channel == e.channel
                &&& step.effects.monitor_updates.len() == 1
                &&& step.effects.events.len() == 1
                &&& step.effects.events[0] is ChannelClosed
                &&& step.effects.msgs =~= seq![
                    MessageView::HandleError(ErrorAction::SendErrorMessage),
                ]
            }
        }),
{
    reveal(ChannelEntryView::teleport_init);
    reveal(Step::failed);
}

/// An initiator can start a teleport exactly if the channel is connected, open to updates, without
/// an update on its way and without another teleport, and if what it takes out leaves it its
/// reserve and what its HTLCs hold back. Each reason to refuse has its own error.
pub proof fn law_initiator_keeps_its_reserve(
    e: ChannelEntryView,
    new_funding_txo: FundingOutPoint,
    removals: ValueRemovals,
)
    requires
        e.inv(),
    ensures
        ({
            let res = e.teleport_channel(new_funding_txo, removals);
            let busy = {
                ||| e.channel.pending_teleport is Some
                ||| e.channel.quiescence !is Active
                ||| e.book.outbound_stage != OutboundStage::Idle
                ||| e.book.inbound_stage != InboundStage::Idle
                ||| e.book.awaits_revocation
            };
            let fits = removals.initiator_value_removal_sat != 0
                ==> e.channel.funding.value_to_self_msat - 1000
                * removals.initiator_value_removal_sat >= 1000 * e.channel.holder_reserve_sat
                + htlc_total(e.book.htlcs, true);
            if e.channel.is_disconnected {
                res == Err::<Step, APIError>(APIError::ChannelUnavailable)
            } else if busy {
                res == Err::<Step, APIError>(APIError::ChannelBusy)
            } else if !fits {
                res == Err::<Step, APIError>(
                    APIError::ExcessiveRemoval {
                        initiator_value_removal_sat: removals.initiator_value_removal_sat,
                    },
                )
            } else {
                &&& res is Ok
                &&& res->Ok_0.entry == (ChannelEntryView {
                    channel: Channel {
                        pending_teleport: Some(
                            PendingTeleport::AwaitingQuiescence { new_funding_txo, removals },
                        ),
                        quiescence: crate::channel::Quiescence::StfuSent,
                        response_ticks: 0,
                        ..e.channel
                    },
                    ..e
                })
                &&& res->Ok_0.effects.msgs =~= seq![
                    MessageView::SendStfu(
                        Stfu { channel_id: e.channel.channel_id, initiator: true },
                    ),
                ]
                &&& res->Ok_0.effects.events.len() == 0
                &&& res->Ok_0.effects.monitor_updates.len() == 0
            }
        }),
{
    reveal(ChannelEntryView::teleport_channel);
}

/// An initiator signs on the new scope exactly if both removals still leave each side its reserve
/// and what its HTLCs hold back; else the channel is closed.
pub proof fn law_acceptance_must_leave_the_reserves(e: ChannelEntryView)
    requires
        e.inv(),
        !e.channel.is_disconnected,
        e.channel.pending_teleport is Some,
        e.channel.pending_teleport->Some_0 is AwaitingTeleportAck,
    ensures
        ({
            let step = e.teleport_ack();
            let p = e.channel.pending_teleport->Some_0;
            let removals = p->AwaitingTeleportAck_removals;
            let own_msat = e.channel.funding.value_to_self_msat as int;
            let other_msat = e.channel.funding.value_sat * 1000 - own_msat;
            let fits = {
                &&& removals.initiator_value_removal_sat != 0 ==> own_msat - 1000
                    * removals.initiator_value_removal_sat >= 1000 * e.channel.holder_reserve_sat
                    + htlc_total(e.book.htlcs, true)
                &&& removals.responder_value_removal_sat != 0 ==> other_msat - 1000
                    * removals.responder_value_removal_sat >= 1000
                    * e.channel.counterparty_reserve_sat + htlc_total(e.book.htlcs, false)
            };
            &&& fits <==> !(step.entry.channel.pending_teleport->Some_0 is AwaitingTeleportAck)
            &&& fits ==> step.entry.channel == (Channel {
                pending_teleport: Some(
                    PendingTeleport::AwaitingRemoteCommitmentSigned {
                        new_funding_txo: p->AwaitingTeleportAck_new_funding_txo,
                        removals,
                        is_initiator: true,
                    },
                ),
                response_ticks: 0,
                ..e.channel
            })
            &&& fits ==> step.entry.is_closed == e.is_closed && step.effects.msgs.len() == 1
            &&& !fits ==> step.entry.is_closed && step.entry.channel == e.channel
        }),
{
    reveal(ChannelEntryView::teleport_ack);
}

/// Whoever has promoted keeps its reserve, and so does the other side: a scope that a teleport
/// leads to leaves each side that took something out at least what it had to keep. A scope that is
/// left with less was not reached by a removal.
pub proof fn law_promotion_leaves_the_reserves(
    e: ChannelEntryView,
    msg: TeleportInit,
)
    requires
        e.inv(),
        !e.channel.is_disconnected,
        e.channel.quiescence is Quiescent,
        e.channel.pending_teleport is None,
        e.teleport_init(msg).entry.channel.pending_teleport is Some,
    ensures
        ({
            let p = e.teleport_init(msg).entry.channel.pending_teleport->Some_0;
            let after = e.channel.promoted(p).funding;
            &&& after.funding_txo == msg.new_funding_txo
            &&& msg.responder_value_removal_sat != 0 ==> after.value_to_self_msat >= 1000
                * e.channel.holder_reserve_sat + htlc_total(e.book.htlcs, true)
            &&& msg.initiator_value_removal_sat != 0 ==> after.value_sat * 1000
                - after.value_to_self_msat >= 1000 * e.channel.counterparty_reserve_sat
                + htlc_total(e.book.htlcs, false)
        }),
{
    law_proposal_must_leave_the_reserves(e, msg);
}

/// What a side has promised to take out: its own removal, as long as the teleport is not promoted.
/// Both roles are told apart by the stage.
pub proof fn law_promised_removal_is_the_own_one(
    c: Channel,
    new_funding_txo: FundingOutPoint,
    removals: ValueRemovals,
)
    ensures
        ({
            let own = |p: PendingTeleport|
                Channel { pending_teleport: Some(p), ..c }.promised_removal_msat();
            let initiator_msat = 1000 * removals.initiator_value_removal_sat;
            let responder_msat = 1000 * removals.responder_value_removal_sat;
            &&& Channel { pending_teleport: None, ..c }.promised_removal_msat() == 0
            &&& own(PendingTeleport::AwaitingQuiescence { new_funding_txo, removals })
                == initiator_msat
            &&& own(PendingTeleport::AwaitingTeleportAck { new_funding_txo, removals })
                == initiator_msat
            &&& own(PendingTeleport::AwaitingLocalComplete { new_funding_txo, removals })
                == initiator_msat
            &&& own(PendingTeleport::AwaitingTeleportCompleteAck { new_funding_txo, removals })
                == initiator_msat
            &&& own(
                PendingTeleport::AwaitingRemoteCommitmentSigned {
                    new_funding_txo,
                    removals,
                    is_initiator: true,
                },
            ) == initiator_msat
            &&& own(
                PendingTeleport::AwaitingRemoteCommitmentSigned {
                    new_funding_txo,
                    removals,
                    is_initiator: false,
                },
            ) == responder_msat
            &&& own(PendingTeleport::AwaitingUserDecision { new_funding_txo, removals })
                == responder_msat
            &&& own(PendingTeleport::AwaitingTeleportAckSend { new_funding_txo, removals })
                == responder_msat
            &&& own(PendingTeleport::AwaitingRemoteComplete { new_funding_txo, removals })
                == responder_msat
            &&& own(PendingTeleport::AwaitingTeleportCompleteAckSend { new_funding_txo, removals })
                == 0
            &&& own(
                PendingTeleport::AwaitingRemoteActivityAfterTeleportCompleteAckSend {
                    new_funding_txo,
                    removals,
                },
            ) == 0
        }),
{
}

/// A payment can be sent exactly over a live connection, with an amount, while ids last, and if the
/// balance covers it together with every HTLC of this side, on its way or held, and with what this
/// side is about to take out.
pub proof fn law_payment_must_be_covered(
    e: ChannelEntryView,
    payment_hash: PaymentHash,
    amount_msat: u64,
    cltv_expiry: u32,
)
    ensures
        ({
            let res = e.send_payment(payment_hash, amount_msat, cltv_expiry);
            let spoken_for = htlc_total(e.book.htlcs, true) + added_total(e.book.outbound)
                + added_total(e.book.holding_cell) + e.channel.promised_removal_msat();
            let covered = spoken_for + amount_msat <= e.channel.funding.value_to_self_msat;
            let update = Update::AddHtlc {
                htlc_id: e.book.next_htlc_id,
                payment_hash,
                amount_msat,
                cltv_expiry,
            };
            let at_rest = {
                &&& e.book.outbound_stage is Idle
                &&& e.book.inbound_stage is Idle
                &&& !e.book.awaits_revocation
                &&& !e.channel.is_disconnected
                &&& e.channel.quiescence is Active
                &&& e.channel.counterparty_commitment_number > 0
            };
            if e.channel.is_disconnected {
                res == Err::<Step, APIError>(APIError::ChannelUnavailable)
            } else if amount_msat == 0 || e.book.next_htlc_id == u64::MAX || !covered {
                res == Err::<Step, APIError>(APIError::PaymentUnavailable)
            } else {
                &&& res is Ok
                &&& res->Ok_0.entry.channel == e.channel
                &&& res->Ok_0.entry.book.next_htlc_id == e.book.next_htlc_id + 1
                &&& res->Ok_0.entry.book.htlcs == e.book.htlcs
                &&& res->Ok_0.effects.events.len() == 0
                &&& at_rest ==> {
                    &&& res->Ok_0.entry.book.outbound =~= seq![update]
                    &&& res->Ok_0.entry.book.outbound_stage is Sent
                    &&& res->Ok_0.entry.book.awaits_revocation
                    &&& res->Ok_0.entry.book.holding_cell == e.book.holding_cell
                    &&& res->Ok_0.effects.msgs =~= seq![
                        signature(
                            e.channel.channel_id,
                            e.channel.funding.funding_txo.txid,
                            (e.channel.counterparty_commitment_number - 1) as u64,
                            seq![update],
                        ),
                    ]
                    &&& res->Ok_0.effects.monitor_updates =~= seq![
                        MonitorUpdate::LatestCounterpartyCommitment,
                    ]
                }
                &&& !at_rest ==> {
                    &&& res->Ok_0.entry.book.outbound == e.book.outbound
                    &&& res->Ok_0.entry.book.holding_cell =~= e.book.holding_cell.push(update)
                    &&& res->Ok_0.effects.msgs.len() == 0
                    &&& res->Ok_0.effects.monitor_updates.len() == 0
                }
            }
        }),
{
    reveal(ChannelEntryView::send_payment);
}

} // verus!
