//! What holds of a payment on its way between the two sides of a channel.

use crate::channel::Channel;
use crate::commitment_handlers::claimable;
use crate::entry::{ChannelEntryView, EffectsView, Step};
use crate::events::Event;
use crate::htlcs::{
    added_amount, added_total, find_htlc, htlc_total, lemma_added_one, lemma_apply_all_slack, Htlc,
    HtlcBookView, InboundStage, Ledger, OutboundStage,
};
use crate::monitor::MonitorUpdate;
use crate::msgs::{CommitmentSigned, MessageView, PaymentHash, RevokeAndACK, Update};
use crate::payment_handlers::{find_received, lemma_find_received};
use crate::settlement_laws::{
    htlc_of, law_added_htlcs_are_all_there, law_every_added_htlc_becomes_claimable,
};
use vstd::prelude::*;

verus! {

broadcast use crate::entry::group_steps;

/// Whether the two books hold the same HTLCs, each seen from its side.
pub open spec fn htlcs_mirror(a: Seq<Htlc>, b: Seq<Htlc>) -> bool {
    &&& a.len() == b.len()
    &&& forall|i: int|
        0 <= i < a.len() ==> #[trigger] b[i] == (Htlc { offered: !a[i].offered, ..a[i] })
}

impl ChannelEntryView {
    /// Whether the other entry is the counterparty's side of this channel, and the two agree.
    pub open spec fn mirrors(self, other: ChannelEntryView) -> bool {
        &&& self.channel.channel_id == other.channel.channel_id
        &&& self.channel.funding.mirrors(other.channel.funding)
        &&& self.channel.holder_commitment_number == other.channel.counterparty_commitment_number
        &&& self.channel.counterparty_commitment_number == other.channel.holder_commitment_number
        &&& self.channel.feerate_per_kw == other.channel.feerate_per_kw
        &&& htlcs_mirror(self.book.htlcs, other.book.htlcs)
    }

    /// Whether the channel is sound, connected, open to updates, without one in flight and without
    /// one held back.
    pub open spec fn is_settled(self) -> bool {
        &&& self.inv()
        &&& self.is_at_rest()
        &&& self.book.holding_cell.len() == 0
    }
}

/// An update of one side with the signature that covers it.
pub open spec fn covered(update: Update, cs: CommitmentSigned) -> MessageView {
    EffectsView { msgs: seq![], events: seq![], monitor_updates: seq![] }.signed(
        seq![update],
        cs,
    ).msgs[0]
}

/// The two sides after an update has gone all the way: the sender signed for it, the receiver
/// revoked and signed, and the sender revoked. With them come the effects that the last revocation
/// had on the receiver.
#[verifier::opaque]
pub open spec fn committed(
    sender: ChannelEntryView,
    receiver: ChannelEntryView,
    update: Update,
) -> (ChannelEntryView, Step) {
    let c = sender.channel;
    let r1 = receiver.update_received(update).entry;
    let r2 = r1.commitment_signed(c.next_commitment()).entry;
    let s1 = sender.revoke_and_ack(
        RevokeAndACK {
            channel_id: c.channel_id,
            commitment_number: receiver.channel.holder_commitment_number,
        },
    ).entry;
    let s2 = s1.commitment_signed(r2.channel.next_commitment()).entry;
    let r3 = r2.revoke_and_ack(
        RevokeAndACK { channel_id: c.channel_id, commitment_number: c.holder_commitment_number },
    );
    (s2, r3)
}

proof fn lemma_mirrored_find(a: Seq<Htlc>, b: Seq<Htlc>, htlc_id: u64, offered: bool)
    requires
        htlcs_mirror(a, b),
    ensures
        find_htlc(a, htlc_id, offered) == find_htlc(b, htlc_id, !offered),
    decreases a.len(),
{
    if a.len() > 0 {
        let n = a.len() - 1;
        assert(b[n] == (Htlc { offered: !a[n].offered, ..a[n] }));
        lemma_mirrored_find(a.drop_last(), b.drop_last(), htlc_id, offered);
    }
}

proof fn lemma_mirrored_total(a: Seq<Htlc>, b: Seq<Htlc>, offered: bool)
    requires
        htlcs_mirror(a, b),
    ensures
        htlc_total(a, offered) == htlc_total(b, !offered),
    decreases a.len(),
{
    if a.len() > 0 {
        let n = a.len() - 1;
        assert(b[n] == (Htlc { offered: !a[n].offered, ..a[n] }));
        lemma_mirrored_total(a.drop_last(), b.drop_last(), offered);
    }
}

/// One update alone is applied as it is.
proof fn lemma_apply_one(l: Ledger, update: Update, by_holder: bool, limit_msat: int)
    ensures
        l.apply_all(seq![update], by_holder, limit_msat) == l.apply(update, by_holder, limit_msat),
{
    reveal_with_fuel(Ledger::apply_all, 2);
    assert(seq![update].drop_last() =~= seq![]);
}

/// Whether the monitors of two entries are of one channel and guard one output.
spec fn same_guard(a: ChannelEntryView, b: ChannelEntryView) -> bool {
    &&& a.monitor.channel_id == b.monitor.channel_id
    &&& a.monitor.funding_txo == b.monitor.funding_txo
}

/// The receiver takes an update and the signature for it.
proof fn lemma_receiver_signs(receiver: ChannelEntryView, update: Update, cs: CommitmentSigned)
    requires
        receiver.is_settled(),
        receiver.accepts(update),
        receiver.channel.expects(cs),
        cs.funding_txid == Some(receiver.channel.funding.funding_txo.txid),
        receiver.channel.counterparty_commitment_number > 0,
    ensures
        ({
            let r = receiver.update_received(update).entry.commitment_signed(cs).entry;
            &&& r.channel == (Channel {
                holder_commitment_number: (receiver.channel.holder_commitment_number - 1) as u64,
                pending_teleport: None,
                ..receiver.channel
            })
            &&& r.book == (HtlcBookView {
                inbound: seq![update],
                inbound_stage: InboundStage::Acked,
                awaits_revocation: true,
                ..receiver.book
            })
            &&& same_guard(r, receiver)
        }),
{
    reveal(Step::acked);
    reveal(ChannelEntryView::commitment_signed);
    reveal(ChannelEntryView::update_received);
    reveal(ChannelEntryView::ordinary_commitment);
    let r1 = receiver.update_received(update).entry;
    assert(r1.book.inbound =~= seq![update]);
    assert(r1.channel.spec_classify(cs) is Ordinary);
    let r2 = r1.commitment_signed(cs).entry;
    assert(r2.book.inbound_stage is Acked);
}

/// The sender of updates takes the receiver's revocation.
proof fn lemma_sender_is_revoked(
    sender: ChannelEntryView,
    updates: Seq<Update>,
    report: MonitorUpdate,
    raa: RevokeAndACK,
)
    requires
        sender.is_settled(),
        report !is RenegotiatedFundingLocked,
        raa.commitment_number == sender.channel.counterparty_commitment_number,
        sender.channel.counterparty_commitment_number > 0,
    ensures
        ({
            let s = sender.start().sent_with(updates, report).entry.revoke_and_ack(raa).entry;
            &&& s.channel == (Channel {
                counterparty_commitment_number: (sender.channel.counterparty_commitment_number - 1)
                    as u64,
                response_ticks: 0,
                pending_teleport: None,
                ..sender.channel
            })
            &&& same_guard(s, sender)
            &&& s.book == (HtlcBookView {
                outbound: updates,
                outbound_stage: OutboundStage::RemoteCommitted,
                ..sender.book
            })
        }),
{
    reveal(Step::acked);
    reveal(ChannelEntryView::revoke_and_ack);
}

/// The sender of updates takes the receiver's signature, and the updates are settled for it.
proof fn lemma_sender_settles(
    s: ChannelEntryView,
    updates: Seq<Update>,
    cs: CommitmentSigned,
    settled: Ledger,
)
    requires
        s.channel.inv(),
        !s.channel.is_disconnected,
        s.channel.quiescence is Active,
        s.book.outbound == updates,
        s.book.outbound_stage is RemoteCommitted,
        s.book.inbound_stage is Idle,
        !s.book.awaits_revocation,
        s.book.holding_cell.len() == 0,
        s.channel.expects(cs),
        cs.funding_txid == Some(s.channel.funding.funding_txo.txid),
        s.ledger().apply_all(updates, true, s.channel.funding.value_sat * 1000) == Some(settled),
    ensures
        ({
            let after = s.commitment_signed(cs).entry;
            &&& after.channel == (Channel {
                holder_commitment_number: (s.channel.holder_commitment_number - 1) as u64,
                pending_teleport: None,
                ..s.channel.with_ledger(settled)
            })
            &&& after.book == (HtlcBookView {
                htlcs: settled.htlcs,
                outbound: seq![],
                outbound_stage: OutboundStage::Idle,
                ..s.book
            })
            &&& same_guard(after, s)
        }),
{
    reveal(Step::acked);
    reveal(ChannelEntryView::commitment_signed);
    reveal(ChannelEntryView::ordinary_commitment);
    assert(s.channel.spec_classify(cs) is Ordinary);
}

/// The receiver of updates takes the sender's revocation, and the updates are settled for it.
proof fn lemma_receiver_settles(
    r: ChannelEntryView,
    updates: Seq<Update>,
    raa: RevokeAndACK,
    settled: Ledger,
)
    requires
        !r.channel.is_disconnected,
        r.channel.quiescence is Active,
        r.channel.pending_teleport is None,
        r.book.inbound == updates,
        r.book.inbound_stage is Acked,
        r.book.outbound_stage is Idle,
        r.book.awaits_revocation,
        r.book.holding_cell.len() == 0,
        raa.commitment_number == r.channel.counterparty_commitment_number,
        r.channel.counterparty_commitment_number > 0,
        r.ledger().apply_all(updates, false, r.channel.funding.value_sat * 1000) == Some(settled),
    ensures
        ({
            let after = r.revoke_and_ack(raa);
            &&& after.entry.channel == (Channel {
                counterparty_commitment_number: (r.channel.counterparty_commitment_number - 1)
                    as u64,
                response_ticks: 0,
                ..r.channel.with_ledger(settled)
            })
            &&& after.entry.book == (HtlcBookView {
                htlcs: settled.htlcs,
                inbound: seq![],
                inbound_stage: InboundStage::Idle,
                awaits_revocation: false,
                ..r.book
            })
            &&& same_guard(after.entry, r)
            &&& after.effects.events == claimable(r.channel.channel_id, updates)
        }),
{
    reveal(Step::acked);
    reveal(ChannelEntryView::revoke_and_ack);
}

/// An update that the receiver accepts and that both ledgers take goes all the way.
proof fn lemma_update_is_committed(
    sender: ChannelEntryView,
    receiver: ChannelEntryView,
    update: Update,
    report: MonitorUpdate,
    s_ledger: Ledger,
    r_ledger: Ledger,
)
    requires
        report !is RenegotiatedFundingLocked,
        sender.mirrors(receiver),
        sender.is_settled(),
        receiver.is_settled(),
        sender.channel.holder_commitment_number > 0,
        sender.channel.counterparty_commitment_number > 0,
        added_amount(update) <= sender.room_msat(),
        receiver.accepts(update),
        sender.ledger().apply(update, true, sender.channel.funding.value_sat * 1000) == Some(
            s_ledger,
        ),
        receiver.ledger().apply(update, false, receiver.channel.funding.value_sat * 1000) == Some(
            r_ledger,
        ),
    ensures
        ({
            let sent = sender.start().sent_with(seq![update], report);
            let (s, r) = committed(sent.entry, receiver, update);
            &&& s.is_settled()
            &&& r.entry.is_settled()
            &&& s.ledger() == s_ledger
            &&& r.entry.ledger() == r_ledger
            &&& s.channel.channel_id == sender.channel.channel_id
            &&& r.entry.channel.channel_id == sender.channel.channel_id
            &&& s.channel.funding.value_sat == sender.channel.funding.value_sat
            &&& s.channel.funding.funding_txo == sender.channel.funding.funding_txo
            &&& r.entry.channel.funding.value_sat == receiver.channel.funding.value_sat
            &&& r.entry.channel.funding.funding_txo == receiver.channel.funding.funding_txo
            &&& s.channel.holder_commitment_number == sender.channel.holder_commitment_number - 1
            &&& s.channel.counterparty_commitment_number
                == sender.channel.counterparty_commitment_number - 1
            &&& r.entry.channel.holder_commitment_number
                == receiver.channel.holder_commitment_number - 1
            &&& r.entry.channel.counterparty_commitment_number
                == receiver.channel.counterparty_commitment_number - 1
            &&& r.effects.events == claimable(receiver.channel.channel_id, seq![update])
        }),
{
    reveal(committed);
    let limit = sender.channel.funding.value_sat * 1000;
    lemma_apply_one(sender.ledger(), update, true, limit);
    lemma_apply_one(receiver.ledger(), update, false, limit);
    lemma_apply_all_slack(sender.ledger(), seq![update], true, limit);
    lemma_apply_all_slack(receiver.ledger(), seq![update], false, limit);
    lemma_added_one(update);
    let c = sender.channel;
    let s0 = sender.start().sent_with(seq![update], report).entry;
    assert(s0.channel == c);
    lemma_receiver_signs(receiver, update, c.next_commitment());
    let r2 = receiver.update_received(update).entry.commitment_signed(c.next_commitment()).entry;
    let raa = RevokeAndACK {
        channel_id: c.channel_id,
        commitment_number: receiver.channel.holder_commitment_number,
    };
    lemma_sender_is_revoked(sender, seq![update], report, raa);
    let s1 = s0.revoke_and_ack(raa).entry;
    assert(s1.ledger() == sender.ledger());
    lemma_sender_settles(s1, seq![update], r2.channel.next_commitment(), s_ledger);
    let raa2 = RevokeAndACK {
        channel_id: c.channel_id,
        commitment_number: c.holder_commitment_number,
    };
    assert(r2.ledger() == receiver.ledger());
    lemma_receiver_settles(r2, seq![update], raa2, r_ledger);
}

/// A payment that the sender can send is delivered: the receiver's user learns of it, and the two
/// sides agree and are settled again. That holds on the scope that a teleport led to as on any
/// other.
pub proof fn law_payment_is_delivered(
    sender: ChannelEntryView,
    receiver: ChannelEntryView,
    payment_hash: PaymentHash,
    amount_msat: u64,
    cltv_expiry: u32,
)
    requires
        sender.mirrors(receiver),
        sender.is_settled(),
        receiver.is_settled(),
        sender.channel.holder_commitment_number > 0,
        sender.channel.counterparty_commitment_number > 0,
        find_htlc(sender.book.htlcs, sender.book.next_htlc_id, true) < 0,
        sender.send_payment(payment_hash, amount_msat, cltv_expiry) is Ok,
    ensures
        ({
            let update = Update::AddHtlc {
                htlc_id: sender.book.next_htlc_id,
                payment_hash,
                amount_msat,
                cltv_expiry,
            };
            let sent = sender.send_payment(payment_hash, amount_msat, cltv_expiry)->Ok_0;
            let (s, r) = committed(sent.entry, receiver, update);
            &&& sent.effects.msgs == seq![covered(update, sender.channel.next_commitment())]
            &&& r.effects.events == seq![
                Event::PaymentClaimable {
                    channel_id: receiver.channel.channel_id,
                    payment_hash,
                    amount_msat,
                },
            ]
            &&& s.is_settled()
            &&& r.entry.is_settled()
            &&& s.mirrors(r.entry)
            &&& s.book.htlcs == sender.book.htlcs.push(
                Htlc {
                    htlc_id: sender.book.next_htlc_id,
                    payment_hash,
                    amount_msat,
                    cltv_expiry,
                    offered: true,
                },
            )
            &&& s.channel.funding == sender.channel.funding
            &&& s.channel.holder_commitment_number == sender.channel.holder_commitment_number - 1
            &&& r.entry.channel.holder_commitment_number
                == receiver.channel.holder_commitment_number - 1
        }),
{
    reveal(ChannelEntryView::send_payment);
    let update = Update::AddHtlc {
        htlc_id: sender.book.next_htlc_id,
        payment_hash,
        amount_msat,
        cltv_expiry,
    };
    let sent = sender.send_payment(payment_hash, amount_msat, cltv_expiry)->Ok_0;
    let s_htlc = Htlc {
        htlc_id: sender.book.next_htlc_id,
        payment_hash,
        amount_msat,
        cltv_expiry,
        offered: true,
    };
    let r_htlc = Htlc { offered: false, ..s_htlc };
    lemma_mirrored_find(sender.book.htlcs, receiver.book.htlcs, sender.book.next_htlc_id, true);
    lemma_mirrored_total(sender.book.htlcs, receiver.book.htlcs, true);
    assert(added_total(receiver.book.inbound) == 0);
    assert(receiver.accepts(update));
    let counted = ChannelEntryView {
        book: HtlcBookView {
            next_htlc_id: (sender.book.next_htlc_id + 1) as u64,
            ..sender.book
        },
        ..sender
    };
    let report = MonitorUpdate::LatestCounterpartyCommitment;
    assert(sent == counted.start().sent_with(seq![update], report));
    let s_ledger = Ledger {
        htlcs: sender.book.htlcs.push(s_htlc),
        ..sender.ledger()
    };
    let r_ledger = Ledger {
        htlcs: receiver.book.htlcs.push(r_htlc),
        ..receiver.ledger()
    };
    lemma_update_is_committed(counted, receiver, update, report, s_ledger, r_ledger);
    reveal_with_fuel(claimable, 2);
    assert(seq![update].drop_last() =~= seq![]);
    assert(claimable(receiver.channel.channel_id, seq![update]) =~= seq![
        Event::PaymentClaimable {
            channel_id: receiver.channel.channel_id,
            payment_hash,
            amount_msat,
        },
    ]);
    let (s, r) = committed(sent.entry, receiver, update);
    assert(htlcs_mirror(s.book.htlcs, r.entry.book.htlcs));
    assert(s.channel.funding.value_to_self_msat == s.ledger().value_to_self_msat);
    assert(r.entry.channel.funding.value_to_self_msat == r.entry.ledger().value_to_self_msat);
    assert(s.channel.feerate_per_kw == s.ledger().feerate_per_kw);
    assert(r.entry.channel.feerate_per_kw == r.entry.ledger().feerate_per_kw);
}

/// The receiver after it took several updates, one after the other.
pub open spec fn all_received(receiver: ChannelEntryView, updates: Seq<Update>) -> ChannelEntryView
    decreases updates.len(),
{
    if updates.len() == 0 {
        receiver
    } else {
        all_received(receiver, updates.drop_last()).update_received(updates.last()).entry
    }
}

/// The two sides after several updates have gone all the way together: the sender signed for them,
/// the receiver revoked and signed, and the sender revoked. With them come the effects that the
/// last revocation had on the receiver.
#[verifier::opaque]
pub open spec fn committed_all(
    sender: ChannelEntryView,
    receiver: ChannelEntryView,
    updates: Seq<Update>,
) -> (ChannelEntryView, Step) {
    let c = sender.channel;
    let r1 = all_received(receiver, updates);
    let r2 = r1.commitment_signed(c.next_commitment()).entry;
    let s1 = sender.revoke_and_ack(
        RevokeAndACK {
            channel_id: c.channel_id,
            commitment_number: receiver.channel.holder_commitment_number,
        },
    ).entry;
    let s2 = s1.commitment_signed(r2.channel.next_commitment()).entry;
    let r3 = r2.revoke_and_ack(
        RevokeAndACK { channel_id: c.channel_id, commitment_number: c.holder_commitment_number },
    );
    (s2, r3)
}

/// Whether all of the updates add HTLCs, under ids that none of these HTLCs of that direction has.
pub open spec fn are_fresh_adds(updates: Seq<Update>, htlcs: Seq<Htlc>, offered: bool) -> bool {
    forall|i: int|
        0 <= i < updates.len() ==> (#[trigger] updates[i]) is AddHtlc && find_htlc(
            htlcs,
            updates[i]->AddHtlc_htlc_id,
            offered,
        ) < 0
}

proof fn lemma_fresh_adds_prefix(updates: Seq<Update>, htlcs: Seq<Htlc>, offered: bool)
    requires
        updates.len() > 0,
        are_fresh_adds(updates, htlcs, offered),
    ensures
        are_fresh_adds(updates.drop_last(), htlcs, offered),
        updates.last() is AddHtlc,
        find_htlc(htlcs, updates.last()->AddHtlc_htlc_id, offered) < 0,
{
    assert(updates.last() == updates[updates.len() - 1]);
    assert forall|i: int| 0 <= i < updates.drop_last().len() implies (
    #[trigger] updates.drop_last()[i]) is AddHtlc && find_htlc(
        htlcs,
        updates.drop_last()[i]->AddHtlc_htlc_id,
        offered,
    ) < 0 by {
        assert(updates.drop_last()[i] == updates[i]);
    }
}

/// Every HTLC that the counterparty's balance covers is noted.
proof fn lemma_all_received(receiver: ChannelEntryView, updates: Seq<Update>)
    requires
        receiver.is_settled(),
        are_fresh_adds(updates, receiver.book.htlcs, false),
        htlc_total(receiver.book.htlcs, false) + added_total(updates)
            <= receiver.channel.funding.value_to_counterparty_msat(),
    ensures
        updates.len() > 0 ==> all_received(receiver, updates) == (ChannelEntryView {
            channel: Channel { pending_teleport: None, ..receiver.channel },
            book: HtlcBookView {
                inbound: updates,
                inbound_stage: InboundStage::Received,
                ..receiver.book
            },
            ..receiver
        }),
    decreases updates.len(),
{
    if updates.len() > 0 {
        lemma_fresh_adds_prefix(updates, receiver.book.htlcs, false);
        lemma_all_received(receiver, updates.drop_last());
        reveal(ChannelEntryView::update_received);
        assert(updates.drop_last().push(updates.last()) =~= updates);
        assert(receiver.book.inbound.push(updates.last()) =~= seq![updates.last()]);
        if updates.len() == 1 {
            assert(seq![updates.last()] =~= updates);
        }
    }
}

/// The receiver of several updates takes the signature for them.
proof fn lemma_receiver_signs_all(
    receiver: ChannelEntryView,
    updates: Seq<Update>,
    cs: CommitmentSigned,
)
    requires
        receiver.is_settled(),
        updates.len() > 0,
        are_fresh_adds(updates, receiver.book.htlcs, false),
        htlc_total(receiver.book.htlcs, false) + added_total(updates)
            <= receiver.channel.funding.value_to_counterparty_msat(),
        receiver.channel.expects(cs),
        cs.funding_txid == Some(receiver.channel.funding.funding_txo.txid),
        receiver.channel.counterparty_commitment_number > 0,
    ensures
        ({
            let r = all_received(receiver, updates).commitment_signed(cs).entry;
            &&& r.channel == (Channel {
                holder_commitment_number: (receiver.channel.holder_commitment_number - 1) as u64,
                pending_teleport: None,
                ..receiver.channel
            })
            &&& r.book == (HtlcBookView {
                inbound: updates,
                inbound_stage: InboundStage::Acked,
                awaits_revocation: true,
                ..receiver.book
            })
            &&& same_guard(r, receiver)
        }),
{
    reveal(ChannelEntryView::commitment_signed);
    reveal(ChannelEntryView::ordinary_commitment);
    reveal(Step::acked);
    lemma_all_received(receiver, updates);
    let r1 = all_received(receiver, updates);
    assert(r1.channel.spec_classify(cs) is Ordinary);
    assert(r1.commitment_signed(cs).entry.book.inbound_stage is Acked);
}

/// However many payments go out under one signature, all of them are delivered: the receiver's user
/// learns of each, once and in order, with its hash and amount; both sides carry each, as it was
/// offered; no balance moves; and the two sides agree and are settled again.
pub proof fn law_all_payments_are_delivered(
    sender: ChannelEntryView,
    receiver: ChannelEntryView,
    updates: Seq<Update>,
)
    requires
        sender.mirrors(receiver),
        sender.is_settled(),
        receiver.is_settled(),
        sender.channel.holder_commitment_number > 0,
        sender.channel.counterparty_commitment_number > 0,
        updates.len() > 0,
        are_fresh_adds(updates, sender.book.htlcs, true),
        htlc_total(sender.book.htlcs, true) + added_total(updates)
            <= sender.channel.funding.value_to_self_msat,
    ensures
        ({
            let sent = sender.start().sent(updates);
            let (s, r) = committed_all(sent.entry, receiver, updates);
            &&& r.effects.events =~= updates.map_values(
                |u: Update|
                    Event::PaymentClaimable {
                        channel_id: receiver.channel.channel_id,
                        payment_hash: u->AddHtlc_payment_hash,
                        amount_msat: u->AddHtlc_amount_msat,
                    },
            )
            &&& s.book.htlcs == sender.book.htlcs + updates.map_values(
                |u: Update| htlc_of(u, true),
            )
            &&& r.entry.book.htlcs == receiver.book.htlcs + updates.map_values(
                |u: Update| htlc_of(u, false),
            )
            &&& s.channel.funding == sender.channel.funding
            &&& r.entry.channel.funding == receiver.channel.funding
            &&& s.is_settled()
            &&& r.entry.is_settled()
            &&& s.mirrors(r.entry)
        }),
{
    reveal(committed_all);
    let limit = sender.channel.funding.value_sat * 1000;
    assert forall|i: int| 0 <= i < updates.len() implies (#[trigger] updates[i]) is AddHtlc
        && find_htlc(receiver.book.htlcs, updates[i]->AddHtlc_htlc_id, false) < 0 by {
        lemma_mirrored_find(
            sender.book.htlcs,
            receiver.book.htlcs,
            updates[i]->AddHtlc_htlc_id,
            true,
        );
    }
    lemma_mirrored_total(sender.book.htlcs, receiver.book.htlcs, true);
    law_added_htlcs_are_all_there(sender.ledger(), updates, true, limit);
    law_added_htlcs_are_all_there(receiver.ledger(), updates, false, limit);
    lemma_apply_all_slack(sender.ledger(), updates, true, limit);
    lemma_apply_all_slack(receiver.ledger(), updates, false, limit);
    let s_ledger = sender.ledger().apply_all(updates, true, limit)->Some_0;
    let r_ledger = receiver.ledger().apply_all(updates, false, limit)->Some_0;
    let c = sender.channel;
    let report = MonitorUpdate::LatestCounterpartyCommitment;
    let s0 = sender.start().sent(updates).entry;
    lemma_receiver_signs_all(receiver, updates, c.next_commitment());
    let r2 = all_received(receiver, updates).commitment_signed(c.next_commitment()).entry;
    let raa = RevokeAndACK {
        channel_id: c.channel_id,
        commitment_number: receiver.channel.holder_commitment_number,
    };
    lemma_sender_is_revoked(sender, updates, report, raa);
    let s1 = s0.revoke_and_ack(raa).entry;
    assert(s1.ledger() == sender.ledger());
    lemma_sender_settles(s1, updates, r2.channel.next_commitment(), s_ledger);
    let raa2 = RevokeAndACK {
        channel_id: c.channel_id,
        commitment_number: c.holder_commitment_number,
    };
    assert(r2.ledger() == receiver.ledger());
    lemma_receiver_settles(r2, updates, raa2, r_ledger);
    law_every_added_htlc_becomes_claimable(receiver.channel.channel_id, updates);
    lemma_all_kept(updates);
    let (s, r) = committed_all(s0, receiver, updates);
    assert(htlcs_mirror(s.book.htlcs, r.entry.book.htlcs)) by {
        let n = sender.book.htlcs.len() as int;
        assert forall|i: int| 0 <= i < s.book.htlcs.len() implies #[trigger] r.entry.book.htlcs[i]
            == (Htlc { offered: !s.book.htlcs[i].offered, ..s.book.htlcs[i] }) by {
            if i < n {
                assert(receiver.book.htlcs[i] == (Htlc {
                    offered: !sender.book.htlcs[i].offered,
                    ..sender.book.htlcs[i]
                }));
            } else {
                assert(updates[i - n] is AddHtlc);
            }
        }
    }
}

proof fn lemma_all_kept(updates: Seq<Update>)
    requires
        forall|i: int| 0 <= i < updates.len() ==> (#[trigger] updates[i]) is AddHtlc,
    ensures
        updates.filter(|u: Update| u is AddHtlc) == updates,
    decreases updates.len(),
{
    reveal(Seq::filter);
    if updates.len() == 0 {
        assert(updates.filter(|u: Update| u is AddHtlc) =~= updates);
    } else {
        let before = updates.drop_last();
        assert forall|i: int| 0 <= i < before.len() implies (#[trigger] before[i]) is AddHtlc by {
            assert(before[i] == updates[i]);
        }
        lemma_all_kept(before);
        assert(updates.last() == updates[updates.len() - 1]);
        assert(before.push(updates.last()) =~= updates);
    }
}

/// Payments that are held while a teleport pauses the channel are delivered after the promotion,
/// all of them: the acknowledgement sends them on the new scope, and the receiver's user learns of
/// each, once and in order.
pub proof fn law_held_payments_are_delivered_after_the_promotion(
    initiator: ChannelEntryView,
    receiver: ChannelEntryView,
)
    requires
        initiator.inv(),
        !initiator.channel.is_disconnected,
        initiator.channel.pending_teleport is Some,
        initiator.channel.pending_teleport->Some_0 is AwaitingTeleportCompleteAck,
        initiator.book.holding_cell.len() > 0,
        are_fresh_adds(initiator.book.holding_cell, initiator.book.htlcs, true),
        htlc_total(initiator.book.htlcs, true) + added_total(initiator.book.holding_cell)
            + initiator.channel.promised_removal_msat()
            <= initiator.channel.funding.value_to_self_msat,
        initiator.channel.holder_commitment_number > 0,
        initiator.channel.counterparty_commitment_number > 0,
        receiver.is_settled(),
        promoted_without_held(initiator).mirrors(receiver),
    ensures
        ({
            let held = initiator.book.holding_cell;
            let promoted = initiator.teleport_complete_ack();
            let (s, r) = committed_all(promoted.entry, receiver, held);
            &&& promoted.effects.msgs.len() == 1
            &&& promoted.effects.msgs[0] == MessageView::UpdateHTLCs(
                crate::msgs::CommitmentUpdateView {
                    updates: held,
                    commitment_signed: seq![promoted.entry.channel.next_commitment()],
                },
            )
            &&& r.effects.events =~= held.map_values(
                |u: Update|
                    Event::PaymentClaimable {
                        channel_id: receiver.channel.channel_id,
                        payment_hash: u->AddHtlc_payment_hash,
                        amount_msat: u->AddHtlc_amount_msat,
                    },
            )
            &&& s.book.htlcs == initiator.book.htlcs + held.map_values(
                |u: Update| htlc_of(u, true),
            )
            &&& s.mirrors(r.entry)
        }),
{
    let held = initiator.book.holding_cell;
    let sender = promoted_without_held(initiator);
    crate::laws::law_promotion_releases_held_payments(initiator);
    reveal(ChannelEntryView::teleport_complete_ack);
    reveal(Step::freed);
    crate::htlcs::lemma_all_carried(
        initiator.channel.channel_id,
        held,
        initiator.room_msat() - initiator.channel.promised_removal_msat(),
    );
    assert(sender.is_settled());
    assert(initiator.teleport_complete_ack().entry == sender.start().sent(held).entry);
    law_all_payments_are_delivered(sender, receiver, held);
}

/// The initiator on the new scope, with what it holds set aside.
pub open spec fn promoted_without_held(initiator: ChannelEntryView) -> ChannelEntryView {
    let p = initiator.channel.pending_teleport->Some_0;
    ChannelEntryView {
        channel: initiator.channel.promoted(p).resumed(),
        book: HtlcBookView { holding_cell: seq![], ..initiator.book },
        monitor: initiator.monitor.apply(
            MonitorUpdate::RenegotiatedFundingLocked { funding_txo: p.spec_new_funding_txo() },
        ),
        ..initiator
    }
}

proof fn lemma_found_htlc(htlcs: Seq<Htlc>, htlc_id: u64, offered: bool)
    requires
        find_htlc(htlcs, htlc_id, offered) >= 0,
    ensures
        find_htlc(htlcs, htlc_id, offered) < htlcs.len(),
        htlcs[find_htlc(htlcs, htlc_id, offered)].amount_msat <= htlc_total(htlcs, offered),
        htlcs[find_htlc(htlcs, htlc_id, offered)].offered == offered,
    decreases htlcs.len(),
{
    if htlcs.len() > 0 && find_htlc(htlcs.drop_last(), htlc_id, offered) >= 0 {
        lemma_found_htlc(htlcs.drop_last(), htlc_id, offered);
    }
}

proof fn lemma_found_received(htlcs: Seq<Htlc>, payment_hash: PaymentHash)
    requires
        find_received(htlcs, payment_hash) >= 0,
    ensures
        find_received(htlcs, payment_hash) < htlcs.len(),
        !htlcs[find_received(htlcs, payment_hash)].offered,
        find_htlc(htlcs, htlcs[find_received(htlcs, payment_hash)].htlc_id, false) >= 0,
    decreases htlcs.len(),
{
    if htlcs.len() > 0 && find_received(htlcs.drop_last(), payment_hash) >= 0 {
        lemma_found_received(htlcs.drop_last(), payment_hash);
    }
}

/// The HTLC that a resolution of the payment concerns, as the receiver of the payment sees it.
pub open spec fn resolved_htlc(receiver: ChannelEntryView, payment_hash: PaymentHash) -> Htlc {
    let htlc_id = receiver.book.htlcs[find_received(receiver.book.htlcs, payment_hash)].htlc_id;
    receiver.book.htlcs[find_htlc(receiver.book.htlcs, htlc_id, false)]
}

/// A claimed payment changes hands: its value moves from the sender to the receiver and its HTLC is
/// gone, on both sides. A failed one leaves both balances alone. Either way the two sides agree and
/// are settled again.
pub proof fn law_resolved_payment_is_settled(
    sender: ChannelEntryView,
    receiver: ChannelEntryView,
    payment_hash: PaymentHash,
    claim: bool,
)
    requires
        receiver.mirrors(sender),
        sender.is_settled(),
        receiver.is_settled(),
        receiver.channel.holder_commitment_number > 0,
        receiver.channel.counterparty_commitment_number > 0,
        claim ==> receiver.channel.funding.value_to_self_msat + resolved_htlc(
            receiver,
            payment_hash,
        ).amount_msat <= u64::MAX,
        receiver.resolve_payment(payment_hash, claim) is Ok,
    ensures
        ({
            let htlc = resolved_htlc(receiver, payment_hash);
            let htlc_id = receiver.book.htlcs[find_received(
                receiver.book.htlcs,
                payment_hash,
            )].htlc_id;
            let update = if claim {
                Update::FulfillHtlc { htlc_id }
            } else {
                Update::FailHtlc { htlc_id }
            };
            let resolved = receiver.resolve_payment(payment_hash, claim)->Ok_0;
            let (r, s) = committed(resolved.entry, sender, update);
            let moved = if claim {
                htlc.amount_msat as int
            } else {
                0
            };
            &&& resolved.effects.msgs == seq![covered(update, receiver.channel.next_commitment())]
            &&& r.is_settled()
            &&& s.entry.is_settled()
            &&& r.mirrors(s.entry)
            &&& r.channel.funding.value_to_self_msat == receiver.channel.funding.value_to_self_msat
                + moved
            &&& s.entry.channel.funding.value_to_self_msat
                == sender.channel.funding.value_to_self_msat - moved
            &&& r.book.htlcs.len() == receiver.book.htlcs.len() - 1
        }),
{
    reveal(ChannelEntryView::resolve_payment);
    let received = find_received(receiver.book.htlcs, payment_hash);
    lemma_found_received(receiver.book.htlcs, payment_hash);
    let htlc_id = receiver.book.htlcs[received].htlc_id;
    let pos = find_htlc(receiver.book.htlcs, htlc_id, false);
    lemma_mirrored_find(receiver.book.htlcs, sender.book.htlcs, htlc_id, false);
    lemma_found_htlc(receiver.book.htlcs, htlc_id, false);
    lemma_found_htlc(sender.book.htlcs, htlc_id, true);
    let amount = receiver.book.htlcs[pos].amount_msat;
    assert(sender.book.htlcs[pos].amount_msat == amount);
    let update = if claim {
        Update::FulfillHtlc { htlc_id }
    } else {
        Update::FailHtlc { htlc_id }
    };
    let moved = if claim {
        amount as int
    } else {
        0
    };
    let resolved = receiver.resolve_payment(payment_hash, claim)->Ok_0;
    let report = if claim {
        MonitorUpdate::PaymentPreimage { payment_hash, with_commitment: true }
    } else {
        MonitorUpdate::LatestCounterpartyCommitment
    };
    lemma_find_received(receiver.book.htlcs, payment_hash);
    assert(resolved.entry == receiver.start().sent_with(seq![update], report).entry);
    assert(resolved.effects.msgs == receiver.start().sent_with(seq![update], report).effects.msgs);
    let r_ledger = Ledger {
        value_to_self_msat: (receiver.channel.funding.value_to_self_msat + moved) as u64,
        htlcs: receiver.book.htlcs.remove(pos),
        ..receiver.ledger()
    };
    let s_ledger = Ledger {
        value_to_self_msat: (sender.channel.funding.value_to_self_msat - moved) as u64,
        htlcs: sender.book.htlcs.remove(pos),
        ..sender.ledger()
    };
    lemma_update_is_committed(receiver, sender, update, report, r_ledger, s_ledger);
    let (r, s) = committed(resolved.entry, sender, update);
    assert(htlcs_mirror(r_ledger.htlcs, s_ledger.htlcs)) by {
        assert forall|i: int| 0 <= i < r_ledger.htlcs.len() implies #[trigger] s_ledger.htlcs[i]
            == (Htlc { offered: !r_ledger.htlcs[i].offered, ..r_ledger.htlcs[i] }) by {
            let j = if i < pos {
                i
            } else {
                i + 1
            };
            assert(sender.book.htlcs[j] == (Htlc {
                offered: !receiver.book.htlcs[j].offered,
                ..receiver.book.htlcs[j]
            }));
        }
    }
    assert(r.channel.funding.value_to_self_msat == r.ledger().value_to_self_msat);
    assert(s.entry.channel.funding.value_to_self_msat == s.entry.ledger().value_to_self_msat);
    assert(r.channel.feerate_per_kw == r.ledger().feerate_per_kw);
    assert(s.entry.channel.feerate_per_kw == s.entry.ledger().feerate_per_kw);
}

} // verus!
