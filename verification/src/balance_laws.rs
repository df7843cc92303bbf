//! What a whole teleport does to the balances, whatever happens to the two nodes on the way.

use crate::channel::{Channel, FundingScope, PendingTeleport, ValueRemovals};
use crate::entry::ChannelEntryView;
use crate::flows::find_open;
use crate::htlcs::Ledger;
use crate::msgs::{ChannelId, Update};
use crate::node::NodeView;
use crate::node_laws::{lemma_entry_after, lemma_open_stays, NodeStep};
use crate::outpoint::FundingOutPoint;
use vstd::prelude::*;

verus! {

broadcast use crate::entry::group_steps;

/// A teleport, as one side takes part in it.
pub struct Teleport {
    pub new_funding_txo: FundingOutPoint,
    pub removals: ValueRemovals,
    pub is_initiator: bool,
}

impl PendingTeleport {
    /// Whether this is a stage of the teleport.
    pub open spec fn is_of(self, t: Teleport) -> bool {
        &&& self.spec_new_funding_txo() == t.new_funding_txo
        &&& self.spec_removals() == t.removals
        &&& self.spec_is_initiator() == t.is_initiator
    }
}

impl Channel {
    /// Whether the channel has no teleport on its way to a promotion.
    pub open spec fn is_between_teleports(self) -> bool {
        match self.pending_teleport {
            None => true,
            Some(p) => p.is_promoted(),
        }
    }

    /// Whether the channel is on the scope that it started from, with no other teleport than this
    /// one on its way, or has been promoted to the scope that this one leads to.
    pub open spec fn is_within(self, before: FundingScope, t: Teleport) -> bool {
        ||| {
            &&& self.funding == before
            &&& self.is_between_teleports() || {
                let p = self.pending_teleport->Some_0;
                &&& p.is_of(t)
                &&& p is AwaitingQuiescence || p is AwaitingTeleportAck || before.covers(
                    t.removals,
                    t.is_initiator,
                )
            }
        }
        ||| {
            &&& before.covers(t.removals, t.is_initiator)
            &&& self.funding == before.teleported(t.new_funding_txo, t.removals, t.is_initiator)
            &&& self.is_between_teleports()
        }
    }
}

impl Teleport {
    /// Whether the step proposes a teleport of the channel: the user does, or the peer.
    pub open spec fn is_proposed(step: NodeStep, channel_id: ChannelId) -> bool {
        match step {
            NodeStep::TeleportChannel { channel_id: id, .. } => id == channel_id,
            NodeStep::TeleportInit { msg, .. } => msg.channel_id == channel_id,
            _ => false,
        }
    }

    /// Whether the step proposes this teleport: by the user of the initiator, or to the responder.
    pub open spec fn is_proposed_by(self, step: NodeStep) -> bool {
        match step {
            NodeStep::TeleportChannel { new_funding_txo, removals, .. } => {
                &&& self.is_initiator
                &&& new_funding_txo == self.new_funding_txo
                &&& removals == self.removals
            },
            NodeStep::TeleportInit { msg, .. } => {
                &&& !self.is_initiator
                &&& msg.new_funding_txo == self.new_funding_txo
                &&& msg.responder_value_removal_sat == self.removals.responder_value_removal_sat
                &&& msg.initiator_value_removal_sat == self.removals.initiator_value_removal_sat
            },
            _ => false,
        }
    }
}

/// Whether none of the updates claims an HTLC.
pub open spec fn claims_none(updates: Seq<Update>) -> bool {
    forall|i: int| 0 <= i < updates.len() ==> (#[trigger] updates[i]) !is FulfillHtlc
}

impl ChannelEntryView {
    /// Whether the step settles no claim of an HTLC of this channel: a signature or a revocation
    /// finds none among the updates on their way.
    pub open spec fn settles_no_claim(self, step: NodeStep) -> bool {
        let settles = match step {
            NodeStep::CommitmentSigned { msg, .. } => self.channel.channel_id == msg.channel_id,
            NodeStep::RevokeAndAck { msg, .. } => self.channel.channel_id == msg.channel_id,
            _ => false,
        };
        settles ==> claims_none(self.book.outbound) && claims_none(self.book.inbound)
    }
}

impl NodeView {
    /// Whether the step settles no claim of an HTLC of the channel at `k`, and proposes no teleport
    /// of it but the given one, and that only while the channel is not there yet.
    pub open spec fn keeps_to(self, step: NodeStep, k: int, t: Teleport) -> bool {
        &&& self.entries[k].settles_no_claim(step)
        &&& Teleport::is_proposed(step, self.entries[k].channel.channel_id) ==> {
            &&& t.is_proposed_by(step)
            &&& self.entries[k].channel.funding.funding_txo != t.new_funding_txo
        }
    }

    /// Whether all of the steps do.
    pub open spec fn run_keeps_to(self, steps: Seq<NodeStep>, k: int, t: Teleport) -> bool
        decreases steps.len(),
    {
        steps.len() > 0 ==> self.run_keeps_to(steps.drop_last(), k, t) && self.run(
            steps.drop_last(),
        ).keeps_to(steps.last(), k, t)
    }
}

impl ChannelEntryView {
    /// Whether the step finds the channel within the teleport, settles no claim, and proposes no
    /// other teleport.
    spec fn may_move(self, step: NodeStep, before: FundingScope, t: Teleport) -> bool {
        &&& before.value_to_self_msat <= before.value_sat * 1000
        &&& self.channel.is_within(before, t)
        &&& self.settles_no_claim(step)
        &&& Teleport::is_proposed(step, self.channel.channel_id) ==> {
            &&& t.is_proposed_by(step)
            &&& self.channel.funding.funding_txo != t.new_funding_txo
        }
    }
}

/// Updates that claim nothing leave the balance alone.
proof fn lemma_no_claim_keeps_value(
    l: Ledger,
    updates: Seq<Update>,
    by_holder: bool,
    limit_msat: int,
)
    requires
        claims_none(updates),
        l.apply_all(updates, by_holder, limit_msat) is Some,
    ensures
        l.apply_all(updates, by_holder, limit_msat)->Some_0.value_to_self_msat
            == l.value_to_self_msat,
    decreases updates.len(),
{
    if updates.len() > 0 {
        assert(updates.last() == updates[updates.len() - 1]);
        assert forall|i: int| 0 <= i < updates.len() - 1 implies (
        #[trigger] updates.drop_last()[i]) !is FulfillHtlc by {
            assert(updates.drop_last()[i] == updates[i]);
        }
        lemma_no_claim_keeps_value(l, updates.drop_last(), by_holder, limit_msat);
    }
}

/// A message that leads up to the signatures on the new scope.
#[verifier::spinoff_prover]
proof fn lemma_offer_is_within(
    e: ChannelEntryView,
    step: NodeStep,
    feerate_per_kw: u32,
    after: ChannelEntryView,
    before: FundingScope,
    t: Teleport,
)
    requires
        e.may_move(step, before, t),
        e.moves_to(step, feerate_per_kw, after),
        step is Stfu || step is TeleportInit || step is TeleportAck,
    ensures
        after.channel.is_within(before, t),
{
    match step {
        NodeStep::Stfu { .. } => {
            assert(after.channel.is_within(before, t)) by {
                reveal(ChannelEntryView::stfu);
            }
        },
        NodeStep::TeleportInit { .. } => {
            assert(after.channel.is_within(before, t)) by {
                reveal(ChannelEntryView::teleport_init);
            }
        },
        NodeStep::TeleportAck { .. } => {
            assert(after.channel.is_within(before, t)) by {
                reveal(ChannelEntryView::teleport_ack);
            }
        },
        _ => {},
    }
}

/// A signature or a revocation.
#[verifier::spinoff_prover]
proof fn lemma_settling_is_within(
    e: ChannelEntryView,
    step: NodeStep,
    feerate_per_kw: u32,
    after: ChannelEntryView,
    before: FundingScope,
    t: Teleport,
)
    requires
        e.may_move(step, before, t),
        e.moves_to(step, feerate_per_kw, after),
        step is CommitmentSigned || step is RevokeAndAck,
    ensures
        after.channel.is_within(before, t),
{
    let limit = e.channel.funding.value_sat * 1000;
    if e.ledger().apply_all(e.book.outbound, true, limit) is Some {
        lemma_no_claim_keeps_value(e.ledger(), e.book.outbound, true, limit);
    }
    if e.ledger().apply_all(e.book.inbound, false, limit) is Some {
        lemma_no_claim_keeps_value(e.ledger(), e.book.inbound, false, limit);
    }
    match step {
        NodeStep::CommitmentSigned { msg, .. } => {
            assert(after.channel.is_within(before, t)) by {
                reveal(ChannelEntryView::commitment_signed);
                reveal(ChannelEntryView::new_scope_commitment);
                reveal(ChannelEntryView::ordinary_commitment);
            }
        },
        NodeStep::RevokeAndAck { .. } => {
            assert(after.channel.is_within(before, t)) by {
                reveal(ChannelEntryView::revoke_and_ack);
            }
        },
        _ => {},
    }
}

/// A message that ends a teleport, or an update.
#[verifier::spinoff_prover]
proof fn lemma_closing_is_within(
    e: ChannelEntryView,
    step: NodeStep,
    feerate_per_kw: u32,
    after: ChannelEntryView,
    before: FundingScope,
    t: Teleport,
)
    requires
        e.may_move(step, before, t),
        e.moves_to(step, feerate_per_kw, after),
        step is TeleportComplete || step is TeleportCompleteAck || step is TeleportAbort
            || step is Received,
    ensures
        after.channel.is_within(before, t),
{
    match step {
        NodeStep::TeleportComplete { .. } => {
            assert(after.channel.is_within(before, t)) by {
                reveal(ChannelEntryView::teleport_complete);
            }
        },
        NodeStep::TeleportCompleteAck { .. } => {
            assert(after.channel.is_within(before, t)) by {
                reveal(ChannelEntryView::teleport_complete_ack);
            }
        },
        NodeStep::TeleportAbort { .. } => {
            assert(after.channel.is_within(before, t)) by {
                reveal(ChannelEntryView::teleport_abort);
            }
        },
        NodeStep::Received { .. } => {
            assert(after.channel.is_within(before, t)) by {
                reveal(ChannelEntryView::update_received);
            }
        },
        _ => {},
    }
}

/// A call of the user.
#[verifier::spinoff_prover]
proof fn lemma_call_is_within(
    e: ChannelEntryView,
    step: NodeStep,
    feerate_per_kw: u32,
    after: ChannelEntryView,
    before: FundingScope,
    t: Teleport,
)
    requires
        e.may_move(step, before, t),
        e.moves_to(step, feerate_per_kw, after),
        step is TeleportChannel || step is AckTeleport || step is CancelTeleport
            || step is CompleteTeleport || step is SendPayment || step is ResolvePayment,
    ensures
        after.channel.is_within(before, t),
{
    match step {
        NodeStep::TeleportChannel { .. } => {
            assert(after.channel.is_within(before, t)) by {
                reveal(ChannelEntryView::teleport_channel);
            }
        },
        NodeStep::AckTeleport { .. } => {
            assert(after.channel.is_within(before, t)) by {
                reveal(ChannelEntryView::ack_teleport);
            }
        },
        NodeStep::CancelTeleport { .. } => {
            assert(after.channel.is_within(before, t)) by {
                reveal(ChannelEntryView::cancel_teleport);
            }
        },
        NodeStep::CompleteTeleport { .. } => {
            assert(after.channel.is_within(before, t)) by {
                reveal(ChannelEntryView::complete_teleport);
            }
        },
        NodeStep::SendPayment { .. } => {
            assert(after.channel.is_within(before, t)) by {
                reveal(ChannelEntryView::send_payment);
            }
        },
        NodeStep::ResolvePayment { .. } => {
            assert(after.channel.is_within(before, t)) by {
                reveal(ChannelEntryView::resolve_payment);
            }
        },
        _ => {},
    }
}

/// What happens to the connection, or passes by itself.
#[verifier::spinoff_prover]
proof fn lemma_link_is_within(
    e: ChannelEntryView,
    step: NodeStep,
    feerate_per_kw: u32,
    after: ChannelEntryView,
    before: FundingScope,
    t: Teleport,
)
    requires
        e.may_move(step, before, t),
        e.moves_to(step, feerate_per_kw, after),
        step is Reestablish || step is Ticked,
    ensures
        after.channel.is_within(before, t),
{
    match step {
        NodeStep::Reestablish { .. } => {
            assert(after.channel.is_within(before, t)) by {
                reveal(ChannelEntryView::channel_reestablish);
            }
        },
        NodeStep::Ticked => {
            assert(after.channel.is_within(before, t)) by {
                reveal(ChannelEntryView::timer_tick);
            }
        },
        _ => {},
    }
}

proof fn lemma_moved_entry_is_within(
    e: ChannelEntryView,
    step: NodeStep,
    feerate_per_kw: u32,
    after: ChannelEntryView,
    before: FundingScope,
    t: Teleport,
)
    requires
        e.may_move(step, before, t),
        e.moves_to(step, feerate_per_kw, after),
    ensures
        after.channel.is_within(before, t),
{
    match step {
        NodeStep::Stfu { .. } => {
            lemma_offer_is_within(e, step, feerate_per_kw, after, before, t);
        },
        NodeStep::TeleportInit { .. } => {
            lemma_offer_is_within(e, step, feerate_per_kw, after, before, t);
        },
        NodeStep::TeleportAck { .. } => {
            lemma_offer_is_within(e, step, feerate_per_kw, after, before, t);
        },
        NodeStep::CommitmentSigned { .. } => {
            lemma_settling_is_within(e, step, feerate_per_kw, after, before, t);
        },
        NodeStep::RevokeAndAck { .. } => {
            lemma_settling_is_within(e, step, feerate_per_kw, after, before, t);
        },
        NodeStep::TeleportComplete { .. } => {
            lemma_closing_is_within(e, step, feerate_per_kw, after, before, t);
        },
        NodeStep::TeleportCompleteAck { .. } => {
            lemma_closing_is_within(e, step, feerate_per_kw, after, before, t);
        },
        NodeStep::TeleportAbort { .. } => {
            lemma_closing_is_within(e, step, feerate_per_kw, after, before, t);
        },
        NodeStep::Received { .. } => {
            lemma_closing_is_within(e, step, feerate_per_kw, after, before, t);
        },
        NodeStep::TeleportChannel { .. } => {
            lemma_call_is_within(e, step, feerate_per_kw, after, before, t);
        },
        NodeStep::AckTeleport { .. } => {
            lemma_call_is_within(e, step, feerate_per_kw, after, before, t);
        },
        NodeStep::CancelTeleport { .. } => {
            lemma_call_is_within(e, step, feerate_per_kw, after, before, t);
        },
        NodeStep::CompleteTeleport { .. } => {
            lemma_call_is_within(e, step, feerate_per_kw, after, before, t);
        },
        NodeStep::SendPayment { .. } => {
            lemma_call_is_within(e, step, feerate_per_kw, after, before, t);
        },
        NodeStep::ResolvePayment { .. } => {
            lemma_call_is_within(e, step, feerate_per_kw, after, before, t);
        },
        NodeStep::Reestablish { .. } => {
            lemma_link_is_within(e, step, feerate_per_kw, after, before, t);
        },
        NodeStep::Ticked => {
            lemma_link_is_within(e, step, feerate_per_kw, after, before, t);
        },
        _ => {},
    }
}

proof fn lemma_run_is_within(
    node: NodeView,
    steps: Seq<NodeStep>,
    k: int,
    before: FundingScope,
    t: Teleport,
)
    requires
        0 <= k < node.entries.len(),
        before.value_to_self_msat <= before.value_sat * 1000,
        node.entries[k].channel.is_within(before, t),
        node.run_keeps_to(steps, k, t),
    ensures
        node.run(steps).entries.len() == node.entries.len(),
        node.run(steps).entries[k].channel.is_within(before, t),
    decreases steps.len(),
{
    if steps.len() > 0 {
        lemma_run_is_within(node, steps.drop_last(), k, before, t);
        let last = node.run(steps.drop_last());
        lemma_entry_after(last, steps.last(), k);
        let e = last.entries[k];
        let after = last.after(steps.last()).entries[k];
        if after != e {
            lemma_moved_entry_is_within(
                e,
                steps.last(),
                last.feerate_per_kw,
                after,
                before,
                t,
            );
        }
    }
}

impl FundingScope {
    /// Whether this scope is what a side is left with after it took its removal, and the other side
    /// its own, out of the scope before.
    pub open spec fn is_reduced(
        self,
        before: FundingScope,
        removals: ValueRemovals,
        is_initiator: bool,
    ) -> bool {
        &&& self.value_to_self_msat == before.value_to_self_msat - 1000 * removals.own(is_initiator)
        &&& self.value_to_counterparty_msat() == before.value_to_counterparty_msat() - 1000
            * removals.own(!is_initiator)
        &&& self.value_sat == before.value_sat - removals.responder_value_removal_sat
            - removals.initiator_value_removal_sat
    }
}

/// Whatever a node goes through in a teleport, as long as no claim of an HTLC of the channel is
/// settled and no other teleport of it is proposed: the channel is on the scope that it started
/// from, or on the one that the teleport leads to, and then its balances and its value fell by the
/// removals and by nothing else.
pub proof fn law_teleport_takes_the_removals(
    node: NodeView,
    steps: Seq<NodeStep>,
    channel_id: ChannelId,
    t: Teleport,
)
    requires
        node.inv(),
        node.has_channel(channel_id),
        node.channel(channel_id).is_between_teleports(),
        node.run_keeps_to(steps, find_open(node.entries, channel_id), t),
        node.run(steps).has_channel(channel_id),
    ensures
        ({
            let before = node.channel(channel_id).funding;
            let after = node.run(steps).channel(channel_id).funding;
            after == before || {
                &&& after.funding_txo == t.new_funding_txo
                &&& after.is_reduced(before, t.removals, t.is_initiator)
            }
        }),
{
    let k = find_open(node.entries, channel_id);
    lemma_open_stays(node, steps, channel_id);
    lemma_run_is_within(node, steps, k, node.entries[k].channel.funding, t);
}

/// A teleport with removals reduces each side by its own: once both nodes have promoted, the
/// initiator has lost what it took out, the responder what it took out, and the channel the sum.
/// The two balances made up the value before, and do so after. Without removals nothing changes.
pub proof fn law_whole_teleport_reduces_each_side(
    initiator: NodeView,
    responder: NodeView,
    initiator_steps: Seq<NodeStep>,
    responder_steps: Seq<NodeStep>,
    channel_id: ChannelId,
    new_funding_txo: FundingOutPoint,
    removals: ValueRemovals,
)
    requires
        initiator.inv(),
        responder.inv(),
        initiator.has_channel(channel_id),
        responder.has_channel(channel_id),
        initiator.channel(channel_id).is_between_teleports(),
        responder.channel(channel_id).is_between_teleports(),
        initiator.channel(channel_id).funding.mirrors(responder.channel(channel_id).funding),
        initiator.channel(channel_id).funding.funding_txo != new_funding_txo,
        initiator.run_keeps_to(
            initiator_steps,
            find_open(initiator.entries, channel_id),
            Teleport { new_funding_txo, removals, is_initiator: true },
        ),
        responder.run_keeps_to(
            responder_steps,
            find_open(responder.entries, channel_id),
            Teleport { new_funding_txo, removals, is_initiator: false },
        ),
        initiator.run(initiator_steps).has_channel(channel_id),
        responder.run(responder_steps).has_channel(channel_id),
        initiator.run(initiator_steps).channel(channel_id).funding.funding_txo == new_funding_txo,
        responder.run(responder_steps).channel(channel_id).funding.funding_txo == new_funding_txo,
    ensures
        ({
            let i0 = initiator.channel(channel_id).funding;
            let r0 = responder.channel(channel_id).funding;
            let i = initiator.run(initiator_steps).channel(channel_id).funding;
            let r = responder.run(responder_steps).channel(channel_id).funding;
            &&& i.value_to_self_msat == i0.value_to_self_msat - 1000
                * removals.initiator_value_removal_sat
            &&& r.value_to_self_msat == r0.value_to_self_msat - 1000
                * removals.responder_value_removal_sat
            &&& i.value_sat == i0.value_sat - removals.responder_value_removal_sat
                - removals.initiator_value_removal_sat
            &&& i.mirrors(r)
        }),
{
    law_teleport_takes_the_removals(
        initiator,
        initiator_steps,
        channel_id,
        Teleport { new_funding_txo, removals, is_initiator: true },
    );
    law_teleport_takes_the_removals(
        responder,
        responder_steps,
        channel_id,
        Teleport { new_funding_txo, removals, is_initiator: false },
    );
}

} // verus!
