//! How updates get into both commitments and what the users learn of it, said of whole sequences of
//! updates.

use crate::channel::APIError;
use crate::commitment_handlers::claimable;
use crate::entry::{ChannelEntryView, EffectsView, Step};
use crate::events::{ClosureReason, Event};
use crate::htlcs::{
    added_total, carried, find_htlc, passed_over, Htlc, InboundStage, Ledger, OutboundStage,
};
use crate::monitor::MonitorUpdate;
use crate::msgs::{
    ChannelId, ChannelReestablish, CommitmentSigned, ErrorAction, MessageView, PaymentHash,
    RevokeAndACK, TeleportCompleteAck, Update,
};
use crate::payment_handlers::{find_received, resolves};
use crate::stage_laws::signature;
use vstd::prelude::*;

verus! {

broadcast use crate::entry::group_steps;

/// Every HTLC that the updates add becomes claimable, once and in order, with its own payment hash
/// and amount, and nothing else does.
pub proof fn law_every_added_htlc_becomes_claimable(channel_id: ChannelId, updates: Seq<Update>)
    ensures
        claimable(channel_id, updates) == updates.filter(|u: Update| u is AddHtlc).map_values(
            |u: Update|
                Event::PaymentClaimable {
                    channel_id,
                    payment_hash: u->AddHtlc_payment_hash,
                    amount_msat: u->AddHtlc_amount_msat,
                },
        ),
        claimable(channel_id, updates).len() == updates.filter(|u: Update| u is AddHtlc).len(),
    decreases updates.len(),
{
    reveal(Seq::filter);
    let adds = |u: Update| u is AddHtlc;
    let tell = |u: Update|
        Event::PaymentClaimable {
            channel_id,
            payment_hash: u->AddHtlc_payment_hash,
            amount_msat: u->AddHtlc_amount_msat,
        };
    if updates.len() == 0 {
        assert(claimable(channel_id, updates) =~= updates.filter(adds).map_values(tell));
    } else {
        let before = updates.drop_last();
        law_every_added_htlc_becomes_claimable(channel_id, before);
        if updates.last() is AddHtlc {
            assert(updates.filter(adds) =~= before.filter(adds).push(updates.last()));
            assert(updates.filter(adds).map_values(tell) =~= before.filter(adds).map_values(
                tell,
            ).push(tell(updates.last())));
        } else {
            assert(updates.filter(adds) =~= before.filter(adds));
        }
    }
}

/// Whether these events are the first ones, followed by nothing but payments that failed.
pub open spec fn then_failures(events: Seq<Event>, first: Seq<Event>) -> bool {
    &&& first.len() <= events.len()
    &&& events.take(first.len() as int) == first
    &&& forall|i: int| first.len() <= i < events.len() ==> (#[trigger] events[i]) is PaymentFailed
}

proof fn lemma_passed_over_fail(channel_id: ChannelId, updates: Seq<Update>, room_msat: int)
    ensures
        forall|i: int|
            0 <= i < passed_over(channel_id, updates, room_msat).len() ==> (#[trigger] passed_over(
                channel_id,
                updates,
                room_msat,
            )[i]) is PaymentFailed,
    decreases updates.len(),
{
    if updates.len() > 0 {
        lemma_passed_over_fail(channel_id, updates.drop_last(), room_msat);
    }
}

proof fn lemma_freed_events(step: Step)
    ensures
        then_failures(step.freed().effects.events, step.effects.events),
{
    reveal(Step::freed);
    lemma_passed_over_fail(
        step.entry.channel.channel_id,
        step.entry.book.holding_cell,
        step.entry.room_msat(),
    );
    assert(step.freed().effects.events.take(step.effects.events.len() as int)
        =~= step.effects.events);
}

/// A revocation that answers the last signature settles the counterparty's updates, if they were
/// signed for: the ledger takes them all in, and the user learns of every payment among them, in
/// order and before anything else. If they were not signed for, the user learns of none. Any other
/// revocation closes the channel.
pub proof fn law_revocation_settles_all_updates(e: ChannelEntryView, msg: RevokeAndACK)
    requires
        !e.channel.is_disconnected,
        e.channel.quiescence !is Quiescent,
    ensures
        ({
            let step = e.revoke_and_ack(msg);
            let ledger = Ledger {
                value_to_self_msat: e.channel.funding.value_to_self_msat,
                feerate_per_kw: e.channel.feerate_per_kw,
                htlcs: e.book.htlcs,
            };
            let taken = if e.book.inbound_stage == InboundStage::Acked {
                ledger.apply_all(e.book.inbound, false, e.channel.funding.value_sat * 1000)
            } else {
                Some(ledger)
            };
            let answers = {
                &&& e.book.awaits_revocation
                &&& e.channel.counterparty_commitment_number > 0
                &&& msg.commitment_number == e.channel.counterparty_commitment_number
                &&& taken is Some
            };
            &&& answers ==> {
                &&& step.entry.channel.counterparty_commitment_number
                    == e.channel.counterparty_commitment_number - 1
                &&& step.entry.channel.holder_commitment_number
                    == e.channel.holder_commitment_number
                &&& step.entry.book.htlcs == taken->Some_0.htlcs
                &&& step.entry.channel.funding.value_to_self_msat
                    == taken->Some_0.value_to_self_msat
                &&& step.entry.channel.feerate_per_kw == taken->Some_0.feerate_per_kw
                &&& step.entry.is_closed == e.is_closed
                &&& step.entry.channel.pending_teleport == (if e.channel.is_lingering() {
                    None
                } else {
                    e.channel.pending_teleport
                })
                &&& step.effects.monitor_updates.len() > 0
                &&& step.effects.monitor_updates[0] == MonitorUpdate::CommitmentSecret
                &&& e.book.outbound_stage == OutboundStage::Sent ==> {
                    &&& step.entry.book.outbound_stage == OutboundStage::RemoteCommitted
                    &&& step.entry.book.outbound == e.book.outbound
                }
                &&& e.book.inbound_stage == InboundStage::Acked ==> {
                    &&& step.entry.book.inbound_stage == InboundStage::Idle
                    &&& step.entry.book.inbound.len() == 0
                }
                &&& e.book.inbound_stage == InboundStage::LocalCommitted
                    && e.channel.counterparty_commitment_number > 1 ==> {
                    &&& step.entry.book.inbound_stage == InboundStage::Acked
                    &&& step.entry.book.inbound == e.book.inbound
                    &&& step.entry.book.awaits_revocation
                    &&& step.effects.msgs =~= seq![
                        MessageView::UpdateHTLCs(
                            crate::msgs::CommitmentUpdateView {
                                updates: seq![],
                                commitment_signed: seq![
                                    CommitmentSigned {
                                        channel_id: e.channel.channel_id,
                                        funding_txid: Some(e.channel.funding.funding_txo.txid),
                                        commitment_number: (e.channel.counterparty_commitment_number
                                            - 2) as u64,
                                    },
                                ],
                            },
                        ),
                    ]
                }
                &&& e.book.inbound_stage == InboundStage::Acked ==> then_failures(
                    step.effects.events,
                    e.book.inbound.filter(|u: Update| u is AddHtlc).map_values(
                        |u: Update|
                            Event::PaymentClaimable {
                                channel_id: e.channel.channel_id,
                                payment_hash: u->AddHtlc_payment_hash,
                                amount_msat: u->AddHtlc_amount_msat,
                            },
                    ),
                )
                &&& e.book.inbound_stage != InboundStage::Acked ==> then_failures(
                    step.effects.events,
                    seq![],
                )
            }
            &&& !answers ==> {
                &&& step.entry.is_closed
                &&& step.entry.channel == e.channel
                &&& step.entry.book == e.book
            }
        }),
{
    reveal(ChannelEntryView::revoke_and_ack);
    law_every_added_htlc_becomes_claimable(e.channel.channel_id, e.book.inbound);
    if e.book.awaits_revocation && e.channel.counterparty_commitment_number > 0
        && msg.commitment_number == e.channel.counterparty_commitment_number
        && e.inbound_settled() is Some {
        let step = e.inbound_settled()->Some_0.start().revoked();
        let told = if e.book.inbound_stage is Acked {
            step.told(claimable(e.channel.channel_id, e.book.inbound))
        } else {
            step
        };
        assert(told.effects.events =~= if e.book.inbound_stage is Acked {
            claimable(e.channel.channel_id, e.book.inbound)
        } else {
            seq![]
        });
        lemma_freed_events(told.acked());
        assert(told.acked().effects.events == told.effects.events);
        let acked = told.acked();
        assert(acked.entry.book.outbound == told.entry.book.outbound
            && acked.entry.book.outbound_stage == told.entry.book.outbound_stage) by {
            reveal(Step::acked);
        }
        if e.book.outbound_stage is Sent {
            assert(!acked.entry.can_send());
        }
        if e.book.inbound_stage is Acked {
            assert(acked.entry.book.inbound_stage is Idle && acked.entry.book.inbound.len() == 0)
                by {
                reveal(Step::acked);
            }
            assert(acked.freed().entry.book.inbound == acked.entry.book.inbound
                && acked.freed().entry.book.inbound_stage == acked.entry.book.inbound_stage) by {
                reveal(Step::freed);
            }
        }
        if e.book.inbound_stage is LocalCommitted && e.channel.counterparty_commitment_number > 1 {
            reveal(Step::acked);
            assert(!acked.entry.can_send());
        }
        assert(e.revoke_and_ack(msg) == told.acked().freed());
        assert(told.acked().entry.book.htlcs == told.entry.book.htlcs) by {
            reveal(Step::acked);
        }
        assert(told.acked().freed().entry.book.htlcs == told.acked().entry.book.htlcs) by {
            reveal(Step::freed);
        }
    }
}

/// What a side expects is its next commitment on the output that the channel is on. The signature
/// for it moves the side on and revokes the commitment before, with its number; updates of the
/// counterparty that it covers are signed for in turn, unless a revocation is still owed; and this
/// side's own updates are settled if the counterparty had them already. A lingering teleport
/// repeats its acknowledgement and is over. Any other signature closes the channel.
pub proof fn law_signature_moves_updates_on(e: ChannelEntryView, msg: CommitmentSigned)
    requires
        !e.channel.is_disconnected,
        e.channel.spec_classify(msg) is Ordinary,
    ensures
        ({
            let step = e.commitment_signed(msg);
            let c = e.channel;
            let ledger = Ledger {
                value_to_self_msat: e.channel.funding.value_to_self_msat,
                feerate_per_kw: e.channel.feerate_per_kw,
                htlcs: e.book.htlcs,
            };
            let taken = if e.book.outbound_stage == OutboundStage::RemoteCommitted {
                ledger.apply_all(e.book.outbound, true, c.funding.value_sat * 1000)
            } else {
                Some(ledger)
            };
            let expected = {
                &&& c.holder_commitment_number > 0
                &&& msg.commitment_number == c.holder_commitment_number - 1
                &&& msg.funding_txid matches Some(txid) ==> txid == c.funding.funding_txo.txid
                &&& taken is Some
            };
            let covers = e.book.inbound_stage == InboundStage::Received || e.book.inbound_stage
                == InboundStage::LocalCommitted;
            let answers = covers && !e.book.awaits_revocation && c.counterparty_commitment_number
                > 0;
            &&& expected ==> {
                &&& step.entry.channel.holder_commitment_number == c.holder_commitment_number - 1
                &&& step.entry.channel.counterparty_commitment_number
                    == c.counterparty_commitment_number
                &&& step.entry.is_closed == e.is_closed
                &&& step.entry.book.htlcs == taken->Some_0.htlcs
                &&& step.entry.channel.funding.value_to_self_msat
                    == taken->Some_0.value_to_self_msat
                &&& step.entry.channel.feerate_per_kw == taken->Some_0.feerate_per_kw
                &&& step.entry.book.inbound == e.book.inbound
                &&& step.entry.channel.pending_teleport == (if c.is_lingering() {
                    None
                } else {
                    c.pending_teleport
                })
                &&& step.entry.channel.quiescence == c.quiescence
                &&& c.is_lingering() ==> {
                    let n: int = if answers {
                        2
                    } else {
                        1
                    };
                    &&& step.effects.msgs.len() > n
                    &&& step.effects.msgs[n] == MessageView::SendTeleportCompleteAck(
                        TeleportCompleteAck { channel_id: c.channel_id },
                    )
                }
                &&& step.effects.monitor_updates.len() > 0
                &&& step.effects.monitor_updates[0] == MonitorUpdate::LatestHolderCommitment
                &&& e.book.outbound_stage == OutboundStage::Sent ==> {
                    &&& step.entry.book.outbound_stage == OutboundStage::Sent
                    &&& step.entry.book.outbound == e.book.outbound
                }
                &&& e.book.outbound_stage == OutboundStage::RemoteCommitted && answers ==> {
                    &&& step.entry.book.outbound_stage == OutboundStage::Idle
                    &&& step.entry.book.outbound.len() == 0
                }
                &&& answers ==> step.entry.book.inbound_stage == InboundStage::Acked
                    && step.entry.book.awaits_revocation
                &&& covers && !answers ==> step.entry.book.inbound_stage
                    == InboundStage::LocalCommitted
                &&& step.effects.msgs.len() > 0
                &&& step.effects.msgs[0] == MessageView::SendRevokeAndACK(
                    RevokeAndACK {
                        channel_id: c.channel_id,
                        commitment_number: c.holder_commitment_number,
                    },
                )
                &&& answers ==> step.effects.msgs.len() == (if c.is_lingering() {
                    3int
                } else {
                    2
                }) && step.effects.msgs[1]
                    == MessageView::UpdateHTLCs(
                    crate::msgs::CommitmentUpdateView {
                        updates: seq![],
                        commitment_signed: seq![
                            CommitmentSigned {
                                channel_id: c.channel_id,
                                funding_txid: Some(c.funding.funding_txo.txid),
                                commitment_number: (c.counterparty_commitment_number - 1) as u64,
                            },
                        ],
                    },
                )
            }
            &&& !expected ==> {
                &&& step.entry.is_closed
                &&& step.entry.channel == e.channel
                &&& step.entry.book == e.book
            }
        }),
{
    reveal(ChannelEntryView::commitment_signed);
    reveal(ChannelEntryView::ordinary_commitment);
    reveal(Step::acked);
    reveal(Step::freed);
}

/// An update of the counterparty is noted behind those that came before it, until a signature
/// covers them. A new HTLC must have an id that is not in use and be covered by the counterparty's
/// balance together with its other HTLCs; a resolution must name an HTLC of this side; only the
/// funder sets the feerate.
pub proof fn law_updates_are_noted_in_order(e: ChannelEntryView, update: Update)
    requires
        !e.channel.is_disconnected,
        e.channel.quiescence !is Quiescent,
        e.book.inbound_stage is Idle || e.book.inbound_stage is Received,
    ensures
        ({
            let step = e.update_received(update);
            let named = |htlc_id: u64, offered: bool|
                exists|i: int|
                    0 <= i < e.book.htlcs.len() && (#[trigger] e.book.htlcs[i]).htlc_id == htlc_id
                        && e.book.htlcs[i].offered == offered;
            let accepted = match update {
                Update::AddHtlc { htlc_id, amount_msat, .. } => {
                    &&& !named(htlc_id, false)
                    &&& crate::htlcs::htlc_total(e.book.htlcs, false) + added_total(e.book.inbound)
                        + amount_msat <= e.channel.funding.value_sat * 1000
                        - e.channel.funding.value_to_self_msat
                },
                Update::FulfillHtlc { htlc_id } => named(htlc_id, true),
                Update::FailHtlc { htlc_id } => named(htlc_id, true),
                Update::Fee { .. } => !e.channel.is_outbound,
            };
            &&& accepted ==> {
                &&& step.entry.book.inbound =~= e.book.inbound.push(update)
                &&& step.entry.book.inbound_stage is Received
                &&& step.entry.book.htlcs == e.book.htlcs
                &&& step.entry.channel.funding == e.channel.funding
                &&& step.entry.is_closed == e.is_closed
                &&& step.effects.msgs.len() == 0
            }
            &&& !accepted ==> step.entry.is_closed && step.entry.book == e.book
        }),
{
    reveal(ChannelEntryView::update_received);
    match update {
        Update::AddHtlc { htlc_id, .. } => {
            law_htlc_is_found(e.book.htlcs, htlc_id, false);
        },
        Update::FulfillHtlc { htlc_id } => {
            law_htlc_is_found(e.book.htlcs, htlc_id, true);
        },
        Update::FailHtlc { htlc_id } => {
            law_htlc_is_found(e.book.htlcs, htlc_id, true);
        },
        Update::Fee { .. } => {},
    }
}

/// What is found is the first HTLC with that id and direction, if there is one.
pub proof fn law_htlc_is_found(htlcs: Seq<Htlc>, htlc_id: u64, offered: bool)
    ensures
        ({
            let pos = find_htlc(htlcs, htlc_id, offered);
            let is_it = |i: int| htlcs[i].htlc_id == htlc_id && htlcs[i].offered == offered;
            &&& pos >= 0 ==> pos < htlcs.len() && is_it(pos)
            &&& forall|i: int|
                0 <= i < htlcs.len() && (#[trigger] htlcs[i]).htlc_id == htlc_id && htlcs[i].offered
                    == offered ==> 0 <= pos <= i
        }),
    decreases htlcs.len(),
{
    if htlcs.len() > 0 {
        let before = htlcs.drop_last();
        law_htlc_is_found(before, htlc_id, offered);
        let pos = find_htlc(htlcs, htlc_id, offered);
        assert forall|i: int|
            0 <= i < htlcs.len() && (#[trigger] htlcs[i]).htlc_id == htlc_id && htlcs[i].offered
                == offered implies 0 <= pos <= i by {
            if i < before.len() {
                assert(before[i] == htlcs[i]);
            }
        }
    }
}

/// What is found is the first received HTLC with that payment hash, if there is one.
pub proof fn law_received_is_found(htlcs: Seq<Htlc>, payment_hash: PaymentHash)
    ensures
        ({
            let pos = find_received(htlcs, payment_hash);
            &&& pos >= 0 ==> pos < htlcs.len() && htlcs[pos].payment_hash == payment_hash
                && !htlcs[pos].offered
            &&& forall|i: int|
                0 <= i < htlcs.len() && (#[trigger] htlcs[i]).payment_hash == payment_hash
                    && !htlcs[i].offered ==> 0 <= pos <= i
        }),
    decreases htlcs.len(),
{
    if htlcs.len() > 0 {
        let before = htlcs.drop_last();
        law_received_is_found(before, payment_hash);
        let pos = find_received(htlcs, payment_hash);
        assert forall|i: int|
            0 <= i < htlcs.len() && (#[trigger] htlcs[i]).payment_hash == payment_hash
                && !htlcs[i].offered implies 0 <= pos <= i by {
            if i < before.len() {
                assert(before[i] == htlcs[i]);
            }
        }
    }
}

/// The HTLC that an update adds, as one side sees it.
pub open spec fn htlc_of(update: Update, offered: bool) -> Htlc {
    Htlc {
        htlc_id: update->AddHtlc_htlc_id,
        payment_hash: update->AddHtlc_payment_hash,
        amount_msat: update->AddHtlc_amount_msat,
        cltv_expiry: update->AddHtlc_cltv_expiry,
        offered,
    }
}

/// However many HTLCs are added, each is there afterwards as it was offered, behind those that were
/// there before, and the balance and the feerate are as before.
pub proof fn law_added_htlcs_are_all_there(
    l: Ledger,
    updates: Seq<Update>,
    by_holder: bool,
    limit_msat: int,
)
    requires
        forall|i: int| 0 <= i < updates.len() ==> (#[trigger] updates[i]) is AddHtlc,
    ensures
        ({
            let after = l.apply_all(updates, by_holder, limit_msat);
            &&& after is Some
            &&& after->Some_0.htlcs == l.htlcs + updates.map_values(
                |u: Update| htlc_of(u, by_holder),
            )
            &&& after->Some_0.value_to_self_msat == l.value_to_self_msat
            &&& after->Some_0.feerate_per_kw == l.feerate_per_kw
        }),
    decreases updates.len(),
{
    let seen = |u: Update| htlc_of(u, by_holder);
    if updates.len() == 0 {
        assert(l.htlcs + updates.map_values(seen) =~= l.htlcs);
    } else {
        let before = updates.drop_last();
        assert forall|i: int| 0 <= i < before.len() implies (#[trigger] before[i]) is AddHtlc by {
            assert(before[i] == updates[i]);
        }
        law_added_htlcs_are_all_there(l, before, by_holder, limit_msat);
        assert(updates.last() == updates[updates.len() - 1]);
        assert(l.htlcs + updates.map_values(seen) =~= (l.htlcs + before.map_values(seen)).push(
            seen(updates.last()),
        ));
    }
}

/// Updates are taken in one after the other.
pub proof fn law_updates_are_taken_in_order(
    l: Ledger,
    first: Seq<Update>,
    then: Seq<Update>,
    by_holder: bool,
    limit_msat: int,
)
    ensures
        l.apply_all(first + then, by_holder, limit_msat) == match l.apply_all(
            first,
            by_holder,
            limit_msat,
        ) {
            Some(m) => m.apply_all(then, by_holder, limit_msat),
            None => None,
        },
    decreases then.len(),
{
    if then.len() == 0 {
        assert(first + then =~= first);
    } else {
        assert((first + then).drop_last() =~= first + then.drop_last());
        law_updates_are_taken_in_order(l, first, then.drop_last(), by_holder, limit_msat);
    }
}

/// One update does to a ledger what it says. A new HTLC is added. A resolved one, the first of the
/// other side with that id, is gone; if it was claimed, its value goes to the side that claimed it,
/// if it was failed, the balance stays. A feerate is taken over. What names no HTLC, or would take
/// a balance out of its bounds, is refused.
pub proof fn law_update_does_what_it_says(
    l: Ledger,
    update: Update,
    by_holder: bool,
    limit_msat: int,
)
    ensures
        ({
            let after = l.apply(update, by_holder, limit_msat);
            match update {
                Update::AddHtlc { htlc_id, payment_hash, amount_msat, cltv_expiry } => after == Some(
                    Ledger {
                        htlcs: l.htlcs.push(
                            Htlc {
                                htlc_id,
                                payment_hash,
                                amount_msat,
                                cltv_expiry,
                                offered: by_holder,
                            },
                        ),
                        value_to_self_msat: l.value_to_self_msat,
                        feerate_per_kw: l.feerate_per_kw,
                    },
                ),
                Update::FulfillHtlc { htlc_id } => forall|k: int|
                    #[trigger]
                    is_first_of_other(l.htlcs, k, htlc_id, by_holder) ==> ({
                        let value = if by_holder {
                            l.value_to_self_msat + l.htlcs[k].amount_msat
                        } else {
                            l.value_to_self_msat - l.htlcs[k].amount_msat
                        };
                        &&& after is Some <==> 0 <= value <= limit_msat && value <= u64::MAX
                        &&& after is Some ==> {
                            &&& after->Some_0.value_to_self_msat == value
                            &&& after->Some_0.htlcs == l.htlcs.remove(k)
                            &&& after->Some_0.feerate_per_kw == l.feerate_per_kw
                        }
                    }),
                Update::FailHtlc { htlc_id } => forall|k: int|
                    #[trigger]
                    is_first_of_other(l.htlcs, k, htlc_id, by_holder) ==> after == Some(
                        Ledger {
                            htlcs: l.htlcs.remove(k),
                            value_to_self_msat: l.value_to_self_msat,
                            feerate_per_kw: l.feerate_per_kw,
                        },
                    ),
                Update::Fee { feerate_per_kw } => after == Some(
                    Ledger {
                        htlcs: l.htlcs,
                        value_to_self_msat: l.value_to_self_msat,
                        feerate_per_kw,
                    },
                ),
            }
        }),
        ({
            let id = match update {
                Update::FulfillHtlc { htlc_id } => Some(htlc_id),
                Update::FailHtlc { htlc_id } => Some(htlc_id),
                _ => None,
            };
            id is Some && (forall|k: int|
                0 <= k < l.htlcs.len() ==> !((#[trigger] l.htlcs[k]).htlc_id == id->Some_0
                    && l.htlcs[k].offered != by_holder)) ==> l.apply(update, by_holder, limit_msat)
                is None
        }),
{
    match update {
        Update::FulfillHtlc { htlc_id } => {
            law_htlc_is_found(l.htlcs, htlc_id, !by_holder);
        },
        Update::FailHtlc { htlc_id } => {
            law_htlc_is_found(l.htlcs, htlc_id, !by_holder);
        },
        _ => {},
    }
}

/// Whether the HTLC at `k` is the first with that id that the other side offered.
pub open spec fn is_first_of_other(
    htlcs: Seq<Htlc>,
    k: int,
    htlc_id: u64,
    by_holder: bool,
) -> bool {
    &&& 0 <= k < htlcs.len()
    &&& htlcs[k].htlc_id == htlc_id
    &&& htlcs[k].offered != by_holder
    &&& forall|i: int|
        0 <= i < k ==> !((#[trigger] htlcs[i]).htlc_id == htlc_id && htlcs[i].offered != by_holder)
}

/// A payment can be claimed or failed exactly if an HTLC with its hash was received and is not
/// being resolved. Of several the first is. The resolution goes out at once if the channel is at
/// rest, and is held if not. A claim tells the monitor the preimage and the user of the claim, once
/// each; a failure tells the user nothing and the monitor no preimage.
pub proof fn law_payment_is_resolved_once(
    e: ChannelEntryView,
    payment_hash: PaymentHash,
    claim: bool,
    k: int,
)
    requires
        0 <= k < e.book.htlcs.len(),
        e.book.htlcs[k].payment_hash == payment_hash,
        !e.book.htlcs[k].offered,
        forall|i: int|
            0 <= i < k ==> !((#[trigger] e.book.htlcs[i]).payment_hash == payment_hash
                && !e.book.htlcs[i].offered),
    ensures
        ({
            let res = e.resolve_payment(payment_hash, claim);
            let htlc_id = e.book.htlcs[k].htlc_id;
            let claimed = Update::FulfillHtlc { htlc_id };
            let failed = Update::FailHtlc { htlc_id };
            let busy = e.book.outbound.contains(claimed) || e.book.outbound.contains(failed)
                || e.book.holding_cell.contains(claimed) || e.book.holding_cell.contains(failed);
            let update = if claim {
                claimed
            } else {
                failed
            };
            let at_rest = {
                &&& e.book.outbound_stage is Idle
                &&& e.book.inbound_stage is Idle
                &&& !e.book.awaits_revocation
                &&& !e.channel.is_disconnected
                &&& e.channel.quiescence is Active
                &&& e.channel.counterparty_commitment_number > 0
            };
            &&& busy ==> res == Err::<Step, APIError>(APIError::PaymentUnavailable)
            &&& !busy ==> {
                let step = res->Ok_0;
                &&& res is Ok
                &&& step.entry.channel == e.channel
                &&& step.entry.book.htlcs == e.book.htlcs
                &&& at_rest ==> {
                    &&& step.entry.book.outbound =~= seq![update]
                    &&& step.entry.book.outbound_stage is Sent
                    &&& step.entry.book.awaits_revocation
                    &&& step.entry.book.holding_cell == e.book.holding_cell
                    &&& step.effects.msgs =~= seq![
                        signature(
                            e.channel.channel_id,
                            e.channel.funding.funding_txo.txid,
                            (e.channel.counterparty_commitment_number - 1) as u64,
                            seq![update],
                        ),
                    ]
                }
                &&& !at_rest ==> {
                    &&& step.entry.book.outbound == e.book.outbound
                    &&& step.entry.book.holding_cell =~= e.book.holding_cell.push(update)
                    &&& step.effects.msgs.len() == 0
                }
                &&& step.effects.events =~= if claim {
                    seq![
                        Event::PaymentClaimed {
                            channel_id: e.channel.channel_id,
                            payment_hash,
                            amount_msat: e.book.htlcs[k].amount_msat,
                        },
                    ]
                } else {
                    seq![]
                }
                &&& step.effects.monitor_updates =~= if claim {
                    seq![
                        MonitorUpdate::PaymentPreimage { payment_hash, with_commitment: at_rest },
                    ]
                } else if at_rest {
                    seq![MonitorUpdate::LatestCounterpartyCommitment]
                } else {
                    seq![]
                }
            }
        }),
{
    reveal(ChannelEntryView::resolve_payment);
    law_received_is_found(e.book.htlcs, payment_hash);
    let pos = find_received(e.book.htlcs, payment_hash);
    assert(0 <= pos <= k);
    assert(pos == k);
    let htlc_id = e.book.htlcs[k].htlc_id;
    lemma_resolves(e.book.outbound, htlc_id);
    lemma_resolves(e.book.holding_cell, htlc_id);
}

/// A payment of which no HTLC was received can be neither claimed nor failed.
pub proof fn law_unknown_payment_is_not_resolved(
    e: ChannelEntryView,
    payment_hash: PaymentHash,
    claim: bool,
)
    requires
        forall|i: int|
            0 <= i < e.book.htlcs.len() ==> !((#[trigger] e.book.htlcs[i]).payment_hash
                == payment_hash && !e.book.htlcs[i].offered),
    ensures
        e.resolve_payment(payment_hash, claim) == Err::<Step, APIError>(
            APIError::PaymentUnavailable,
        ),
{
    reveal(ChannelEntryView::resolve_payment);
    law_received_is_found(e.book.htlcs, payment_hash);
}

proof fn lemma_resolves(updates: Seq<Update>, htlc_id: u64)
    ensures
        resolves(updates, htlc_id) == (updates.contains(Update::FulfillHtlc { htlc_id })
            || updates.contains(Update::FailHtlc { htlc_id })),
{
    if resolves(updates, htlc_id) {
        let i = choose|i: int|
            0 <= i < updates.len() && (#[trigger] updates[i] == Update::FulfillHtlc { htlc_id }
                || updates[i] == Update::FailHtlc { htlc_id });
        assert(updates.contains(updates[i]));
    }
}

/// Held updates leave once the channel is at rest: all that fit go out together, under one
/// signature on the scope that the channel is on, for the counterparty's next commitment. The
/// payments that no longer fit fail, and nothing is held any more. Otherwise all stays as it is.
pub proof fn law_held_updates_leave_together(step: Step)
    ensures
        ({
            let e = step.entry;
            let after = step.freed();
            let held = e.book.holding_cell;
            let room = e.channel.funding.value_to_self_msat - crate::htlcs::htlc_total(
                e.book.htlcs,
                true,
            );
            let at_rest = {
                &&& e.book.outbound_stage is Idle
                &&& e.book.inbound_stage is Idle
                &&& !e.book.awaits_revocation
                &&& !e.channel.is_disconnected
                &&& e.channel.quiescence is Active
                &&& e.channel.counterparty_commitment_number > 0
            };
            let sent = carried(held, room);
            &&& !at_rest || held.len() == 0 ==> after == step
            &&& at_rest && held.len() > 0 ==> {
                &&& after.entry.book.holding_cell.len() == 0
                &&& after.entry.book.htlcs == e.book.htlcs
                &&& after.entry.channel == e.channel
                &&& after.effects.events == step.effects.events + passed_over(
                    e.channel.channel_id,
                    held,
                    room,
                )
                &&& sent.len() > 0 ==> {
                    &&& after.entry.book.outbound == sent
                    &&& after.entry.book.outbound_stage is Sent
                    &&& after.entry.book.awaits_revocation
                    &&& after.effects.monitor_updates =~= step.effects.monitor_updates.push(
                        MonitorUpdate::LatestCounterpartyCommitment,
                    )
                    &&& after.effects.msgs =~= step.effects.msgs.push(
                        MessageView::UpdateHTLCs(
                            crate::msgs::CommitmentUpdateView {
                                updates: sent,
                                commitment_signed: seq![
                                    CommitmentSigned {
                                        channel_id: e.channel.channel_id,
                                        funding_txid: Some(e.channel.funding.funding_txo.txid),
                                        commitment_number: (e.channel.counterparty_commitment_number
                                            - 1) as u64,
                                    },
                                ],
                            },
                        ),
                    )
                }
                &&& sent.len() == 0 ==> {
                    &&& after.entry.book.outbound == e.book.outbound
                    &&& after.effects.msgs == step.effects.msgs
                    &&& after.effects.monitor_updates == step.effects.monitor_updates
                }
            }
        }),
{
    reveal(Step::freed);
}

/// Whether the entry could send updates and holds some all the same.
pub open spec fn holds_in_vain(e: ChannelEntryView) -> bool {
    &&& e.book.holding_cell.len() > 0
    &&& e.book.outbound_stage is Idle
    &&& e.book.inbound_stage is Idle
    &&& !e.book.awaits_revocation
    &&& !e.channel.is_disconnected
    &&& e.channel.quiescence is Active
    &&& e.channel.counterparty_commitment_number > 0
}

broadcast proof fn lemma_freed_holds_nothing_in_vain(step: Step)
    ensures
        !holds_in_vain((#[trigger] step.freed()).entry),
{
    reveal(Step::freed);
}

/// Nothing is held in vain: whenever something happens that can end a pause or settle updates, what
/// is held goes out, or the channel is not at rest.
pub proof fn law_nothing_is_held_in_vain(
    e: ChannelEntryView,
    reestablish: ChannelReestablish,
    cs: CommitmentSigned,
    raa: RevokeAndACK,
    feerate_per_kw: u32,
)
    ensures
        e.cancel_teleport() is Ok ==> !holds_in_vain(e.cancel_teleport()->Ok_0.entry),
        !e.teleport_abort().entry.is_closed && e.teleport_abort().entry.channel != e.channel
            ==> !holds_in_vain(e.teleport_abort().entry),
        e.teleport_complete_ack().entry.channel != e.channel ==> !holds_in_vain(
            e.teleport_complete_ack().entry,
        ),
        e.channel_reestablish(reestablish).entry.channel != e.channel ==> !holds_in_vain(
            e.channel_reestablish(reestablish).entry,
        ),
        e.revoke_and_ack(raa).entry.channel != e.channel ==> !holds_in_vain(
            e.revoke_and_ack(raa).entry,
        ),
        e.ordinary_commitment(cs).entry.channel != e.channel ==> !holds_in_vain(
            e.ordinary_commitment(cs).entry,
        ),
        !holds_in_vain(e.timer_tick(feerate_per_kw).entry),
{
    broadcast use lemma_freed_holds_nothing_in_vain;

    assert(e.cancel_teleport() is Ok ==> !holds_in_vain(e.cancel_teleport()->Ok_0.entry)) by {
        reveal(ChannelEntryView::cancel_teleport);
    }
    assert(e.teleport_abort().entry.channel != e.channel ==> !holds_in_vain(
        e.teleport_abort().entry,
    )) by {
        reveal(ChannelEntryView::teleport_abort);
    }
    assert(e.teleport_complete_ack().entry.channel != e.channel ==> !holds_in_vain(
        e.teleport_complete_ack().entry,
    )) by {
        reveal(ChannelEntryView::teleport_complete_ack);
    }
    assert(e.channel_reestablish(reestablish).entry.channel != e.channel ==> !holds_in_vain(
        e.channel_reestablish(reestablish).entry,
    )) by {
        reveal(ChannelEntryView::channel_reestablish);
    }
    assert(e.revoke_and_ack(raa).entry.channel != e.channel ==> !holds_in_vain(
        e.revoke_and_ack(raa).entry,
    )) by {
        reveal(ChannelEntryView::revoke_and_ack);
    }
    assert(e.ordinary_commitment(cs).entry.channel != e.channel ==> !holds_in_vain(
        e.ordinary_commitment(cs).entry,
    )) by {
        reveal(ChannelEntryView::ordinary_commitment);
    }
    assert(!holds_in_vain(e.timer_tick(feerate_per_kw).entry)) by {
        reveal(ChannelEntryView::timer_tick);
    }
}

/// A tick of the timer warns the peer exactly if the peer has been silent for too long, and closes
/// nothing.
pub proof fn law_tick_warns_a_silent_peer(e: ChannelEntryView, feerate_per_kw: u32)
    ensures
        ({
            let step = e.timer_tick(feerate_per_kw);
            let warning = MessageView::HandleError(ErrorAction::DisconnectPeerWithWarning);
            let is_silent = e.channel.spec_timer_tick(e.book.awaits_revocation).1;
            &&& is_silent ==> step.effects.msgs.len() > 0 && step.effects.msgs[0] == warning
            &&& !is_silent ==> forall|i: int|
                0 <= i < step.effects.msgs.len() ==> #[trigger] step.effects.msgs[i] is UpdateHTLCs
            &&& step.entry.is_closed == e.is_closed
            &&& step.entry.channel.funding == e.channel.funding
            &&& step.entry.channel.pending_teleport == e.channel.pending_teleport
        }),
{
    reveal(ChannelEntryView::timer_tick);
}

/// A channel that is closed from this side stays as it is but for that, its monitor is told once,
/// the user learns the reason, the peer and the value, and the peer gets an error. So does one that
/// is closed because of the peer, with the reason that a message could not be handled; a warning
/// closes nothing and tells the user nothing.
pub proof fn law_closing_is_told_once(e: ChannelEntryView, reason: ClosureReason)
    ensures
        ({
            let told = |reason: ClosureReason|
                Step {
                    entry: ChannelEntryView { is_closed: true, ..e },
                    effects: EffectsView {
                        msgs: seq![MessageView::HandleError(ErrorAction::SendErrorMessage)],
                        events: seq![
                            Event::ChannelClosed {
                                channel_id: e.channel.channel_id,
                                reason,
                                counterparty_node_id: e.channel.counterparty,
                                channel_capacity_sats: e.channel.funding.value_sat,
                            },
                        ],
                        monitor_updates: seq![MonitorUpdate::ChannelForceClosed],
                    },
                };
            &&& e.closed_by(reason) =~= told(reason)
            &&& e.start().failed(ErrorAction::SendErrorMessage) =~= told(
                ClosureReason::ProcessingError,
            )
            &&& e.start().failed(ErrorAction::DisconnectPeerWithWarning) =~= (Step {
                entry: e,
                effects: EffectsView {
                    msgs: seq![MessageView::HandleError(ErrorAction::DisconnectPeerWithWarning)],
                    events: seq![],
                    monitor_updates: seq![],
                },
            })
        }),
{
    reveal(Step::failed);
    assert(e.closed_by(reason).effects =~= EffectsView {
        msgs: seq![MessageView::HandleError(ErrorAction::SendErrorMessage)],
        events: seq![
            Event::ChannelClosed {
                channel_id: e.channel.channel_id,
                reason,
                counterparty_node_id: e.channel.counterparty,
                channel_capacity_sats: e.channel.funding.value_sat,
            },
        ],
        monitor_updates: seq![MonitorUpdate::ChannelForceClosed],
    });
}

/// Nothing that is held gets lost. Every update but a new HTLC is sent. Every new HTLC is sent or
/// its payment fails, and is not both. What is sent keeps its order and fits into the room that
/// there is, and where all fits nothing fails.
pub proof fn law_held_updates_are_sent_or_fail(
    channel_id: ChannelId,
    updates: Seq<Update>,
    room_msat: int,
)
    requires
        room_msat >= 0,
    ensures
        ({
            let sent = carried(updates, room_msat);
            let failed = passed_over(channel_id, updates, room_msat);
            &&& sent.len() + failed.len() == updates.len()
            &&& sent.filter(|u: Update| u !is AddHtlc) == updates.filter(
                |u: Update| u !is AddHtlc,
            )
            &&& added_total(sent) <= room_msat
            &&& added_total(updates) <= room_msat ==> sent == updates && failed.len() == 0
        }),
    decreases updates.len(),
{
    reveal(Seq::filter);
    crate::htlcs::lemma_carried_fits(updates, room_msat);
    if added_total(updates) <= room_msat {
        crate::htlcs::lemma_all_carried(channel_id, updates, room_msat);
    }
    if updates.len() > 0 {
        let before = updates.drop_last();
        let rest = |u: Update| u !is AddHtlc;
        law_held_updates_are_sent_or_fail(channel_id, before, room_msat);
        let sent = carried(before, room_msat);
        assert(sent.push(updates.last()).drop_last() =~= sent);
        assert(updates.filter(rest) =~= if rest(updates.last()) {
            before.filter(rest).push(updates.last())
        } else {
            before.filter(rest)
        });
    } else {
        assert(carried(updates, room_msat).filter(|u: Update| u !is AddHtlc) =~= updates.filter(
            |u: Update| u !is AddHtlc,
        ));
    }
}

/// Each held update in turn is sent exactly if it fits behind those that are sent before it. If
/// not, its payment fails, under its own hash and amount, behind those that failed before it.
pub proof fn law_held_update_is_sent_if_it_fits(
    channel_id: ChannelId,
    updates: Seq<Update>,
    update: Update,
    room_msat: int,
)
    ensures
        ({
            let sent = carried(updates, room_msat);
            let failed = passed_over(channel_id, updates, room_msat);
            let sent_then = carried(updates.push(update), room_msat);
            let failed_then = passed_over(channel_id, updates.push(update), room_msat);
            match update {
                Update::AddHtlc { payment_hash, amount_msat, .. } => if added_total(sent)
                    + amount_msat <= room_msat {
                    sent_then == sent.push(update) && failed_then == failed
                } else {
                    sent_then == sent && failed_then == failed.push(
                        Event::PaymentFailed { channel_id, payment_hash, amount_msat },
                    )
                },
                _ => added_total(sent) <= room_msat ==> sent_then == sent.push(update)
                    && failed_then == failed,
            }
        }),
{
    assert(updates.push(update).drop_last() =~= updates);
}

} // verus!
