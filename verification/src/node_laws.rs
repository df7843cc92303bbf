//! What holds of whole nodes, over any number of steps.

use crate::channel::ValueRemovals;
use crate::entry::ChannelEntryView;
use crate::events::ClosureReason;
use crate::flows::{find_monitor, find_open, lemma_find_open, lemma_find_with_entry, lemma_found};
use crate::monitor::{script_at, watched_script, MonitorUpdate};
use crate::msgs::{
    ChannelId, ChannelReestablish, CommitmentSigned, Init, NodeId, PaymentHash, RevokeAndACK, Stfu,
    TeleportInit, Update,
};
use crate::node::{Node, NodeView};
use crate::outpoint::{FundingOutPoint, Txid};
use vstd::prelude::*;

verus! {

broadcast use crate::entry::group_steps;

/// One thing that happens to a node.
#[allow(inconsistent_fields)]
pub enum NodeStep {
    Connected { peer: NodeId, init: Init, is_inbound: bool },
    Disconnected { peer: NodeId },
    Restarted,
    /// The queued messages leave.
    Drained,
    /// A timer tick passes.
    Ticked,
    Reestablish { peer: NodeId, msg: ChannelReestablish },
    Stfu { peer: NodeId, msg: Stfu },
    TeleportInit { peer: NodeId, msg: TeleportInit },
    TeleportAck { peer: NodeId, channel_id: ChannelId },
    TeleportComplete { peer: NodeId, channel_id: ChannelId },
    TeleportCompleteAck { peer: NodeId, channel_id: ChannelId },
    TeleportAbort { peer: NodeId, channel_id: ChannelId },
    Received { peer: NodeId, channel_id: ChannelId, update: Update },
    CommitmentSigned { peer: NodeId, msg: CommitmentSigned },
    RevokeAndAck { peer: NodeId, msg: RevokeAndACK },
    /// The user starts a teleport.
    TeleportChannel {
        peer: NodeId,
        channel_id: ChannelId,
        new_funding_txo: FundingOutPoint,
        removals: ValueRemovals,
    },
    /// The user accepts a teleport.
    AckTeleport { peer: NodeId, channel_id: ChannelId },
    /// The user refuses a teleport.
    CancelTeleport { peer: NodeId, channel_id: ChannelId },
    /// The user completes a teleport.
    CompleteTeleport { peer: NodeId, channel_id: ChannelId },
    /// The user sends a payment.
    SendPayment {
        peer: NodeId,
        channel_id: ChannelId,
        payment_hash: PaymentHash,
        amount_msat: u64,
        cltv_expiry: u32,
    },
    /// The user claims or fails a payment.
    ResolvePayment { peer: NodeId, channel_id: ChannelId, payment_hash: PaymentHash, claim: bool },
    /// The channel is closed from this side.
    Closed { peer: NodeId, channel_id: ChannelId, reason: ClosureReason },
}

impl NodeView {
    /// This node after a step.
    pub open spec fn after(self, step: NodeStep) -> NodeView {
        match step {
            NodeStep::Connected { peer, init, is_inbound } => self.connected(
                peer,
                init,
                is_inbound,
            ),
            NodeStep::Disconnected { peer } => self.disconnected(peer),
            NodeStep::Restarted => self.restarted(),
            NodeStep::Drained => self.drained(),
            NodeStep::Ticked => self.ticked(self.entries.len()),
            NodeStep::Reestablish { peer, msg } => self.handled(
                peer,
                msg.channel_id,
                self.entry(peer, msg.channel_id).channel_reestablish(msg),
            ),
            NodeStep::Stfu { peer, msg } => self.handled(
                peer,
                msg.channel_id,
                self.entry(peer, msg.channel_id).stfu(msg),
            ),
            NodeStep::TeleportInit { peer, msg } => self.handled(
                peer,
                msg.channel_id,
                self.entry(peer, msg.channel_id).teleport_init(msg),
            ),
            NodeStep::TeleportAck { peer, channel_id } => self.handled(
                peer,
                channel_id,
                self.entry(peer, channel_id).teleport_ack(),
            ),
            NodeStep::TeleportComplete { peer, channel_id } => self.handled(
                peer,
                channel_id,
                self.entry(peer, channel_id).teleport_complete(),
            ),
            NodeStep::TeleportCompleteAck { peer, channel_id } => self.handled(
                peer,
                channel_id,
                self.entry(peer, channel_id).teleport_complete_ack(),
            ),
            NodeStep::TeleportAbort { peer, channel_id } => self.handled(
                peer,
                channel_id,
                self.entry(peer, channel_id).teleport_abort(),
            ),
            NodeStep::Received { peer, channel_id, update } => self.handled(
                peer,
                channel_id,
                self.entry(peer, channel_id).update_received(update),
            ),
            NodeStep::CommitmentSigned { peer, msg } => self.handled(
                peer,
                msg.channel_id,
                self.entry(peer, msg.channel_id).commitment_signed(msg),
            ),
            NodeStep::RevokeAndAck { peer, msg } => self.handled(
                peer,
                msg.channel_id,
                self.entry(peer, msg.channel_id).revoke_and_ack(msg),
            ),
            NodeStep::TeleportChannel { peer, channel_id, new_funding_txo, removals } =>
                self.call_made(
                peer,
                channel_id,
                self.entry(peer, channel_id).teleport_channel(new_funding_txo, removals),
            ),
            NodeStep::AckTeleport { peer, channel_id } => self.call_made(
                peer,
                channel_id,
                self.entry(peer, channel_id).ack_teleport(),
            ),
            NodeStep::CancelTeleport { peer, channel_id } => self.call_made(
                peer,
                channel_id,
                self.entry(peer, channel_id).cancel_teleport(),
            ),
            NodeStep::CompleteTeleport { peer, channel_id } => self.call_made(
                peer,
                channel_id,
                self.entry(peer, channel_id).complete_teleport(),
            ),
            NodeStep::SendPayment { peer, channel_id, payment_hash, amount_msat, cltv_expiry } =>
                self.call_made(
                peer,
                channel_id,
                self.entry(peer, channel_id).send_payment(payment_hash, amount_msat, cltv_expiry),
            ),
            NodeStep::ResolvePayment { peer, channel_id, payment_hash, claim } => self.call_made(
                peer,
                channel_id,
                self.entry(peer, channel_id).resolve_payment(payment_hash, claim),
            ),
            NodeStep::Closed { peer, channel_id, reason } => self.call_made(
                peer,
                channel_id,
                Ok(self.entry(peer, channel_id).closed_by(reason)),
            ),
        }
    }

    /// This node after several steps.
    pub open spec fn run(self, steps: Seq<NodeStep>) -> NodeView
        decreases steps.len(),
    {
        if steps.len() == 0 {
            self
        } else {
            self.run(steps.drop_last()).after(steps.last())
        }
    }

    /// Whether the step brings a signature on the scope in use, or a revocation.
    pub open spec fn moves_on(self, step: NodeStep) -> bool {
        match step {
            NodeStep::CommitmentSigned { peer, msg } => self.entry(
                peer,
                msg.channel_id,
            ).channel.spec_classify(msg) is Ordinary,
            NodeStep::RevokeAndAck { .. } => true,
            _ => false,
        }
    }

    /// Whether none of the steps brings such a signature or a revocation.
    pub open spec fn never_moves_on(self, steps: Seq<NodeStep>) -> bool
        decreases steps.len(),
    {
        steps.len() > 0 ==> self.never_moves_on(steps.drop_last()) && !self.run(
            steps.drop_last(),
        ).moves_on(steps.last())
    }

    /// Whether both nodes have as many channels, and the commitments of each the same numbers.
    pub open spec fn same_commitment_numbers(self, other: NodeView) -> bool {
        &&& self.entries.len() == other.entries.len()
        &&& forall|i: int|
            0 <= i < self.entries.len() ==> (
            #[trigger] self.entries[i]).same_commitment_numbers(other.entries[i])
    }
}

impl ChannelEntryView {
    /// Whether a step can take this entry to the other, at a node that wants this feerate.
    pub open spec fn moves_to(
        self,
        step: NodeStep,
        feerate_per_kw: u32,
        after: ChannelEntryView,
    ) -> bool {
        match step {
            NodeStep::Connected { .. } => false,
            NodeStep::Disconnected { .. } => after == self.peer_disconnected(),
            NodeStep::Restarted => after == self.peer_disconnected(),
            NodeStep::Drained => exists|ack: bool, complete_ack: bool|
                after == #[trigger] self.messages_sent(ack, complete_ack),
            NodeStep::Ticked => after == self.timer_tick(feerate_per_kw).entry,
            NodeStep::Reestablish { msg, .. } => {
                &&& self.channel.channel_id == msg.channel_id
                &&& after == self.channel_reestablish(msg).entry
            },
            NodeStep::Stfu { msg, .. } => {
                &&& self.channel.channel_id == msg.channel_id
                &&& after == self.stfu(msg).entry
            },
            NodeStep::TeleportInit { msg, .. } => {
                &&& self.channel.channel_id == msg.channel_id
                &&& after == self.teleport_init(msg).entry
            },
            NodeStep::TeleportAck { channel_id, .. } => {
                &&& self.channel.channel_id == channel_id
                &&& after == self.teleport_ack().entry
            },
            NodeStep::TeleportComplete { channel_id, .. } => {
                &&& self.channel.channel_id == channel_id
                &&& after == self.teleport_complete().entry
            },
            NodeStep::TeleportCompleteAck { channel_id, .. } => {
                &&& self.channel.channel_id == channel_id
                &&& after == self.teleport_complete_ack().entry
            },
            NodeStep::TeleportAbort { channel_id, .. } => {
                &&& self.channel.channel_id == channel_id
                &&& after == self.teleport_abort().entry
            },
            NodeStep::Received { channel_id, update, .. } => {
                &&& self.channel.channel_id == channel_id
                &&& after == self.update_received(update).entry
            },
            NodeStep::CommitmentSigned { msg, .. } => {
                &&& self.channel.channel_id == msg.channel_id
                &&& after == self.commitment_signed(msg).entry
            },
            NodeStep::RevokeAndAck { msg, .. } => {
                &&& self.channel.channel_id == msg.channel_id
                &&& after == self.revoke_and_ack(msg).entry
            },
            NodeStep::TeleportChannel { channel_id, new_funding_txo, removals, .. } => {
                &&& self.channel.channel_id == channel_id
                &&& self.teleport_channel(new_funding_txo, removals) is Ok
                &&& after == self.teleport_channel(new_funding_txo, removals)->Ok_0.entry
            },
            NodeStep::AckTeleport { channel_id, .. } => {
                &&& self.channel.channel_id == channel_id
                &&& self.ack_teleport() is Ok
                &&& after == self.ack_teleport()->Ok_0.entry
            },
            NodeStep::CancelTeleport { channel_id, .. } => {
                &&& self.channel.channel_id == channel_id
                &&& self.cancel_teleport() is Ok
                &&& after == self.cancel_teleport()->Ok_0.entry
            },
            NodeStep::CompleteTeleport { channel_id, .. } => {
                &&& self.channel.channel_id == channel_id
                &&& self.complete_teleport() is Ok
                &&& after == self.complete_teleport()->Ok_0.entry
            },
            NodeStep::SendPayment { channel_id, payment_hash, amount_msat, cltv_expiry, .. } => {
                &&& self.channel.channel_id == channel_id
                &&& self.send_payment(payment_hash, amount_msat, cltv_expiry) is Ok
                &&& after == self.send_payment(payment_hash, amount_msat, cltv_expiry)->Ok_0.entry
            },
            NodeStep::ResolvePayment { channel_id, payment_hash, claim, .. } => {
                &&& self.channel.channel_id == channel_id
                &&& self.resolve_payment(payment_hash, claim) is Ok
                &&& after == self.resolve_payment(payment_hash, claim)->Ok_0.entry
            },
            NodeStep::Closed { channel_id, reason, .. } => self.channel.channel_id == channel_id
                && after == self.closed_by(reason).entry,
        }
    }
}

proof fn lemma_ticked_entry(node: NodeView, n: nat, k: int)
    requires
        n <= node.entries.len(),
        0 <= k < node.entries.len(),
    ensures
        node.ticked(n).entries.len() == node.entries.len(),
        node.ticked(n).entries[k] == if k < n && !node.entries[k].is_closed {
            node.entries[k].timer_tick(node.feerate_per_kw).entry
        } else {
            node.entries[k]
        },
    decreases n,
{
    if n > 0 {
        lemma_ticked_entry(node, (n - 1) as nat, k);
        lemma_ticked_entry(node, (n - 1) as nat, n - 1);
    }
}

/// A step leaves an entry alone or moves it. A signature that moves one is for that one.
pub(crate) proof fn lemma_entry_after(node: NodeView, step: NodeStep, k: int)
    requires
        0 <= k < node.entries.len(),
    ensures
        ({
            let after = node.after(step);
            &&& after.entries.len() == node.entries.len()
            &&& after.entries[k] == node.entries[k] || {
                &&& node.entries[k].moves_to(step, node.feerate_per_kw, after.entries[k])
                &&& match step {
                    NodeStep::CommitmentSigned { peer, msg } => node.entry(peer, msg.channel_id)
                        == node.entries[k],
                    _ => true,
                }
            }
        }),
{
    match step {
        NodeStep::Ticked => {
            lemma_ticked_entry(node, node.entries.len(), k);
        },
        NodeStep::Reestablish { peer, msg } => {
            lemma_found(node.entries, peer, msg.channel_id);
        },
        NodeStep::Stfu { peer, msg } => {
            lemma_found(node.entries, peer, msg.channel_id);
        },
        NodeStep::TeleportInit { peer, msg } => {
            lemma_found(node.entries, peer, msg.channel_id);
        },
        NodeStep::TeleportAck { peer, channel_id, .. } => {
            lemma_found(node.entries, peer, channel_id);
        },
        NodeStep::TeleportComplete { peer, channel_id, .. } => {
            lemma_found(node.entries, peer, channel_id);
        },
        NodeStep::TeleportCompleteAck { peer, channel_id, .. } => {
            lemma_found(node.entries, peer, channel_id);
        },
        NodeStep::TeleportAbort { peer, channel_id, .. } => {
            lemma_found(node.entries, peer, channel_id);
        },
        NodeStep::Received { peer, channel_id, .. } => {
            lemma_found(node.entries, peer, channel_id);
        },
        NodeStep::CommitmentSigned { peer, msg } => {
            lemma_found(node.entries, peer, msg.channel_id);
        },
        NodeStep::RevokeAndAck { peer, msg } => {
            lemma_found(node.entries, peer, msg.channel_id);
        },
        NodeStep::TeleportChannel { peer, channel_id, .. } => {
            lemma_found(node.entries, peer, channel_id);
        },
        NodeStep::AckTeleport { peer, channel_id, .. } => {
            lemma_found(node.entries, peer, channel_id);
        },
        NodeStep::CancelTeleport { peer, channel_id, .. } => {
            lemma_found(node.entries, peer, channel_id);
        },
        NodeStep::CompleteTeleport { peer, channel_id, .. } => {
            lemma_found(node.entries, peer, channel_id);
        },
        NodeStep::SendPayment { peer, channel_id, .. } => {
            lemma_found(node.entries, peer, channel_id);
        },
        NodeStep::ResolvePayment { peer, channel_id, .. } => {
            lemma_found(node.entries, peer, channel_id);
        },
        NodeStep::Closed { peer, channel_id, .. } => {
            lemma_found(node.entries, peer, channel_id);
        },
        _ => {},
    }
}

proof fn lemma_step_keeps_numbers(node: NodeView, step: NodeStep)
    requires
        !node.moves_on(step),
    ensures
        node.after(step).same_commitment_numbers(node),
{
    if node.entries.len() > 0 {
        lemma_entry_after(node, step, 0);
    } else {
        lemma_empty_after(node, step);
    }
    assert forall|k: int| 0 <= k < node.entries.len() implies (
    #[trigger] node.after(step).entries[k]).same_commitment_numbers(node.entries[k]) by {
        lemma_entry_after(node, step, k);
        let e = node.entries[k];
        let after = node.after(step).entries[k];
        if after != e {
            lemma_moved_entry_keeps_numbers(e, step, node.feerate_per_kw, after);
        }
    }
}

proof fn lemma_empty_after(node: NodeView, step: NodeStep)
    requires
        node.entries.len() == 0,
    ensures
        node.after(step).entries.len() == 0,
{
}

#[verifier::spinoff_prover]
pub(crate) proof fn lemma_moved_entry_keeps_numbers(
    e: ChannelEntryView,
    step: NodeStep,
    feerate_per_kw: u32,
    after: ChannelEntryView,
)
    requires
        e.moves_to(step, feerate_per_kw, after),
        step !is RevokeAndAck,
        step matches NodeStep::CommitmentSigned { msg, .. } ==> e.channel.spec_classify(msg) !is
            Ordinary,
    ensures
        after.same_commitment_numbers(e),
{
    match step {
        NodeStep::Ticked => {
            assert(after.same_commitment_numbers(e)) by {
                reveal(ChannelEntryView::timer_tick);
            }
        },
        NodeStep::Reestablish { .. } => {
            assert(after.same_commitment_numbers(e)) by {
                reveal(ChannelEntryView::channel_reestablish);
            }
        },
        NodeStep::Stfu { .. } => {
            assert(after.same_commitment_numbers(e)) by {
                reveal(ChannelEntryView::stfu);
            }
        },
        NodeStep::TeleportInit { .. } => {
            assert(after.same_commitment_numbers(e)) by {
                reveal(ChannelEntryView::teleport_init);
            }
        },
        NodeStep::TeleportAck { .. } => {
            assert(after.same_commitment_numbers(e)) by {
                reveal(ChannelEntryView::teleport_ack);
            }
        },
        NodeStep::TeleportComplete { .. } => {
            assert(after.same_commitment_numbers(e)) by {
                reveal(ChannelEntryView::teleport_complete);
            }
        },
        NodeStep::TeleportCompleteAck { .. } => {
            assert(after.same_commitment_numbers(e)) by {
                reveal(ChannelEntryView::teleport_complete_ack);
            }
        },
        NodeStep::TeleportAbort { .. } => {
            assert(after.same_commitment_numbers(e)) by {
                reveal(ChannelEntryView::teleport_abort);
            }
        },
        NodeStep::Received { .. } => {
            assert(after.same_commitment_numbers(e)) by {
                reveal(ChannelEntryView::update_received);
            }
        },
        NodeStep::CommitmentSigned { .. } => {
            assert(after.same_commitment_numbers(e)) by {
                reveal(ChannelEntryView::commitment_signed);
                reveal(ChannelEntryView::new_scope_commitment);
            }
        },
        NodeStep::TeleportChannel { .. } => {
            assert(after.same_commitment_numbers(e)) by {
                reveal(ChannelEntryView::teleport_channel);
            }
        },
        NodeStep::AckTeleport { .. } => {
            assert(after.same_commitment_numbers(e)) by {
                reveal(ChannelEntryView::ack_teleport);
            }
        },
        NodeStep::CancelTeleport { .. } => {
            assert(after.same_commitment_numbers(e)) by {
                reveal(ChannelEntryView::cancel_teleport);
            }
        },
        NodeStep::CompleteTeleport { .. } => {
            assert(after.same_commitment_numbers(e)) by {
                reveal(ChannelEntryView::complete_teleport);
            }
        },
        NodeStep::SendPayment { .. } => {
            assert(after.same_commitment_numbers(e)) by {
                reveal(ChannelEntryView::send_payment);
            }
        },
        NodeStep::ResolvePayment { .. } => {
            assert(after.same_commitment_numbers(e)) by {
                reveal(ChannelEntryView::resolve_payment);
            }
        },
        _ => {},
    }
}

/// Only a signature on the scope in use and a revocation move the numbers of the commitments. All
/// else that a node can go through, teleports, lost connections, restarts and payments that wait
/// among it, leaves the numbers of every channel alone, in whatever order it happens.
pub proof fn law_only_commitments_move_the_numbers(node: NodeView, steps: Seq<NodeStep>)
    requires
        node.never_moves_on(steps),
    ensures
        node.run(steps).same_commitment_numbers(node),
    decreases steps.len(),
{
    if steps.len() > 0 {
        law_only_commitments_move_the_numbers(node, steps.drop_last());
        lemma_step_keeps_numbers(node.run(steps.drop_last()), steps.last());
    }
}

impl NodeView {
    /// Whether the step brings the channel at `k` a signature on the scope in use, or a revocation.
    pub open spec fn moves_channel_on(self, step: NodeStep, k: int) -> bool {
        let c = self.entries[k].channel;
        match step {
            NodeStep::CommitmentSigned { msg, .. } => {
                &&& c.channel_id == msg.channel_id
                &&& c.spec_classify(msg) is Ordinary
            },
            NodeStep::RevokeAndAck { msg, .. } => c.channel_id == msg.channel_id,
            _ => false,
        }
    }

    /// Whether none of the steps does.
    pub open spec fn never_moves_channel_on(self, steps: Seq<NodeStep>, k: int) -> bool
        decreases steps.len(),
    {
        steps.len() > 0 ==> self.never_moves_channel_on(steps.drop_last(), k) && !self.run(
            steps.drop_last(),
        ).moves_channel_on(steps.last(), k)
    }
}

#[verifier::spinoff_prover]
pub(crate) proof fn lemma_moved_entry_keeps_id(
    e: ChannelEntryView,
    step: NodeStep,
    feerate_per_kw: u32,
    after: ChannelEntryView,
)
    requires
        e.moves_to(step, feerate_per_kw, after),
    ensures
        after.channel.channel_id == e.channel.channel_id,
{
    match step {
        NodeStep::CommitmentSigned { msg, .. } => {
            if e.channel.spec_classify(msg) is Ordinary {
                reveal(ChannelEntryView::commitment_signed);
                reveal(ChannelEntryView::ordinary_commitment);
            } else {
                lemma_moved_entry_keeps_numbers(e, step, feerate_per_kw, after);
            }
        },
        NodeStep::RevokeAndAck { .. } => {
            reveal(ChannelEntryView::revoke_and_ack);
        },
        _ => {
            lemma_moved_entry_keeps_numbers(e, step, feerate_per_kw, after);
        },
    }
}

/// Nothing that happens to a node adds, drops or renames a channel.
pub(crate) proof fn lemma_ids_stay(node: NodeView, steps: Seq<NodeStep>, k: int)
    requires
        0 <= k < node.entries.len(),
    ensures
        node.run(steps).entries.len() == node.entries.len(),
        node.run(steps).entries[k].channel.channel_id == node.entries[k].channel.channel_id,
    decreases steps.len(),
{
    if steps.len() > 0 {
        lemma_ids_stay(node, steps.drop_last(), k);
        let last = node.run(steps.drop_last());
        lemma_entry_after(last, steps.last(), k);
        let after = last.after(steps.last()).entries[k];
        if after != last.entries[k] {
            lemma_moved_entry_keeps_id(last.entries[k], steps.last(), last.feerate_per_kw, after);
        }
    }
}

/// A channel that is open before and after is found where it was.
pub(crate) proof fn lemma_open_stays(node: NodeView, steps: Seq<NodeStep>, channel_id: ChannelId)
    requires
        node.inv(),
        node.has_channel(channel_id),
        node.run(steps).has_channel(channel_id),
    ensures
        find_open(node.run(steps).entries, channel_id) == find_open(node.entries, channel_id),
        find_open(node.entries, channel_id) < node.entries.len(),
        node.entries[find_open(node.entries, channel_id)].inv(),
{
    let after = node.run(steps);
    let k = find_open(node.entries, channel_id);
    let j = find_open(after.entries, channel_id);
    lemma_open_is_found(node.entries, channel_id);
    lemma_open_is_found(after.entries, channel_id);
    lemma_ids_stay(node, steps, k);
    lemma_ids_stay(node, steps, j);
    if j < k {
        assert(node.entries[j].channel.channel_id != node.entries[k].channel.channel_id);
    } else if k < j {
        assert(node.entries[k].channel.channel_id != node.entries[j].channel.channel_id);
    }
}

proof fn lemma_run_keeps_numbers(node: NodeView, steps: Seq<NodeStep>, k: int)
    requires
        0 <= k < node.entries.len(),
        node.never_moves_channel_on(steps, k),
    ensures
        node.run(steps).entries.len() == node.entries.len(),
        node.run(steps).entries[k].same_commitment_numbers(node.entries[k]),
    decreases steps.len(),
{
    if steps.len() > 0 {
        lemma_run_keeps_numbers(node, steps.drop_last(), k);
        let last = node.run(steps.drop_last());
        lemma_entry_after(last, steps.last(), k);
        let after = last.after(steps.last()).entries[k];
        if after != last.entries[k] {
            lemma_moved_entry_keeps_numbers(
                last.entries[k],
                steps.last(),
                last.feerate_per_kw,
                after,
            );
        }
    }
}

/// The same of one channel, found by its id: whatever a node went through without a signature on
/// the scope that this channel is on and without a revocation for it, the channel counts its
/// commitments as before. So it does across a teleport, be it with removals, reconnections or
/// restarts.
pub proof fn law_teleports_keep_the_numbers_of_a_channel(
    node: NodeView,
    steps: Seq<NodeStep>,
    channel_id: ChannelId,
)
    requires
        node.inv(),
        node.has_channel(channel_id),
        node.never_moves_channel_on(steps, find_open(node.entries, channel_id)),
        node.run(steps).has_channel(channel_id),
    ensures
        node.run(steps).channel(channel_id).holder_commitment_number == node.channel(
            channel_id,
        ).holder_commitment_number,
        node.run(steps).channel(channel_id).counterparty_commitment_number == node.channel(
            channel_id,
        ).counterparty_commitment_number,
{
    lemma_open_stays(node, steps, channel_id);
    lemma_run_keeps_numbers(node, steps, find_open(node.entries, channel_id));
}

/// What holds of a node holds of its contents.
pub proof fn law_contents_are_sound(node: &Node)
    requires
        node.inv(),
    ensures
        node@.inv(),
{
    assert forall|i: int| 0 <= i < node@.entries.len() implies (
    #[trigger] node@.entries[i]).inv() by {
        assert(node.entries[i].inv());
    }
    assert forall|i: int, j: int| 0 <= i < j < node@.entries.len() implies (
    #[trigger] node@.entries[i]).channel.channel_id != (
    #[trigger] node@.entries[j]).channel.channel_id by {
        assert(node.entries[i].channel.channel_id != node.entries[j].channel.channel_id);
    }
}

/// A monitor is found by its id alone, since no two channels share theirs.
proof fn lemma_find_monitor(entries: Seq<ChannelEntryView>, k: int, channel_id: ChannelId)
    requires
        0 <= k < entries.len(),
        entries[k].channel.channel_id == channel_id,
        forall|a: int|
            0 <= a < entries.len() ==> (#[trigger] entries[a]).monitor.channel_id
                == entries[a].channel.channel_id,
        forall|a: int, b: int|
            0 <= a < b < entries.len() ==> (#[trigger] entries[a]).channel.channel_id != (
            #[trigger] entries[b]).channel.channel_id,
    ensures
        find_monitor(entries, channel_id) == k,
    decreases entries.len(),
{
    if k == entries.len() - 1 {
        lemma_find_monitor_absent(entries.drop_last(), channel_id);
    } else {
        lemma_find_monitor(entries.drop_last(), k, channel_id);
    }
}

proof fn lemma_find_monitor_absent(entries: Seq<ChannelEntryView>, channel_id: ChannelId)
    requires
        forall|a: int| 0 <= a < entries.len() ==> (#[trigger] entries[a]).monitor.channel_id
            != channel_id,
    ensures
        find_monitor(entries, channel_id) == -1,
    decreases entries.len(),
{
    if entries.len() > 0 {
        assert(entries.last() == entries[entries.len() - 1]);
        lemma_find_monitor_absent(entries.drop_last(), channel_id);
    }
}

pub(crate) proof fn lemma_open_is_found(entries: Seq<ChannelEntryView>, channel_id: ChannelId)
    requires
        find_open(entries, channel_id) >= 0,
    ensures
        find_open(entries, channel_id) < entries.len(),
        entries[find_open(entries, channel_id)].is_open(channel_id),
    decreases entries.len(),
{
    if entries.len() > 0 && find_open(entries.drop_last(), channel_id) >= 0 {
        lemma_open_is_found(entries.drop_last(), channel_id);
    }
}

/// The monitor of an open channel guards the output that the channel is on, before, during and
/// after a teleport: that is part of what holds of a node between any two calls.
pub proof fn law_monitor_guards_the_funding_output(node: NodeView, channel_id: ChannelId)
    requires
        node.inv(),
        node.has_channel(channel_id),
    ensures
        node.has_monitor(channel_id),
        node.monitor(channel_id).channel_id == channel_id,
        node.monitor(channel_id).funding_txo == node.channel(channel_id).funding.funding_txo,
{
    let k = find_open(node.entries, channel_id);
    lemma_open_is_found(node.entries, channel_id);
    assert(node.entries[k].inv());
    assert forall|a: int| 0 <= a < node.entries.len() implies (
    #[trigger] node.entries[a]).monitor.channel_id == node.entries[a].channel.channel_id by {
        assert(node.entries[a].inv());
    }
    lemma_find_monitor(node.entries, k, channel_id);
}

proof fn lemma_pushed_is_watched(
    watched: Seq<(Txid, Seq<(u32, Seq<u8>)>)>,
    txo: FundingOutPoint,
    script: Seq<u8>,
)
    ensures
        watched_script(
            watched.push((txo.txid, seq![(txo.index as u32, script)])),
            txo,
        ) is Some,
    decreases watched.len(),
{
    let entry = (txo.txid, seq![(txo.index as u32, script)]);
    if watched.len() == 0 {
        reveal_with_fuel(script_at, 2);
        assert(watched.push(entry)[0] == entry);
    } else {
        assert(watched.push(entry).drop_first() =~= watched.drop_first().push(entry));
        lemma_pushed_is_watched(watched.drop_first(), txo, script);
    }
}

impl NodeView {
    /// Whether the channel is in the other node as in this one but for a teleport to `txo`, whose
    /// outpoint is watched and not yet moved to.
    pub open spec fn awaits_completion(
        self,
        before: NodeView,
        channel_id: ChannelId,
        txo: FundingOutPoint,
    ) -> bool {
        let c = self.channel(channel_id);
        let c0 = before.channel(channel_id);
        &&& self.has_channel(channel_id)
        &&& c.funding == c0.funding
        &&& c.holder_commitment_number == c0.holder_commitment_number
        &&& c.counterparty_commitment_number == c0.counterparty_commitment_number
        &&& c.quiescence is Quiescent
        &&& c.pending_teleport is Some
        &&& c.pending_teleport->Some_0.spec_new_funding_txo() == txo
        &&& self.monitor(channel_id).funding_txo == c0.funding.funding_txo
        &&& watched_script(self.monitor(channel_id).outputs_to_watch, txo) is Some
    }
}

/// One side of the exchange of signatures on the new scope.
proof fn lemma_exchange(
    node: NodeView,
    peer: NodeId,
    channel_id: ChannelId,
    is_initiator: bool,
    cs: CommitmentSigned,
)
    requires
        node.inv(),
        node.find(peer, channel_id) >= 0,
        ({
            let e = node.entry(peer, channel_id);
            &&& !e.channel.is_disconnected
            &&& e.channel.pending_teleport is Some
            &&& e.proposal() is AwaitingTeleportAck || e.proposal() is AwaitingUserDecision
            &&& cs.funding_txid == Some(e.proposal().spec_new_funding_txo().txid)
            &&& cs.commitment_number == e.channel.holder_commitment_number
        }),
    ensures
        ({
            let after = node.teleport_exchanged(peer, channel_id, is_initiator, cs);
            let e = node.entry(peer, channel_id);
            let txo = e.proposal().spec_new_funding_txo();
            &&& node.has_channel(channel_id)
            &&& after.awaits_completion(node, channel_id, txo)
            &&& is_initiator ==> after.channel(channel_id).pending_teleport->Some_0 is
                AwaitingLocalComplete
            &&& !is_initiator ==> after.channel(channel_id).pending_teleport->Some_0 is
                AwaitingRemoteComplete
            &&& after.find(peer, channel_id) == node.find(peer, channel_id)
            &&& after.entry(peer, channel_id).channel == after.channel(channel_id)
            &&& !after.channel(channel_id).is_disconnected
            &&& after.pending_msg_events == node.pending_msg_events
            &&& e.signed_on_new_scope(is_initiator).commitment_signed(cs) == e.signed_on_new_scope(
                is_initiator,
            ).new_scope_commitment(cs)
            &&& e.signed_on_new_scope(is_initiator).commitment_signed(cs).effects.monitor_updates
                == seq![MonitorUpdate::RenegotiatedFunding { funding_txo: txo }]
            &&& e.signed_on_new_scope(is_initiator).commitment_signed(cs).effects.msgs.len() == 0
        }),
{
    reveal(ChannelEntryView::commitment_signed);
    reveal(ChannelEntryView::new_scope_commitment);
    let k = node.find(peer, channel_id);
    let e = node.entries[k];
    let txo = e.proposal().spec_new_funding_txo();
    lemma_found(node.entries, peer, channel_id);
    assert(e.inv());
    lemma_find_open(node.entries, k, channel_id);
    let signed = e.signed_on_new_scope(is_initiator);
    assert(signed.channel.spec_classify(cs) is NewScope);
    let step = signed.new_scope_commitment(cs);
    assert(step.effects.monitor_updates =~= seq![
        MonitorUpdate::RenegotiatedFunding { funding_txo: txo },
    ]);
    let after = node.teleport_exchanged(peer, channel_id, is_initiator, cs);
    assert(after.entries =~= node.entries.update(k, step.entry));
    lemma_find_with_entry(node.entries, k, step.entry, peer, channel_id);
    assert forall|a: int, b: int| 0 <= a < b < after.entries.len() implies (
    #[trigger] after.entries[a]).channel.channel_id != (
    #[trigger] after.entries[b]).channel.channel_id by {
        assert(node.entries[a].channel.channel_id != node.entries[b].channel.channel_id);
    }
    lemma_find_open(after.entries, k, channel_id);
    assert forall|a: int| 0 <= a < after.entries.len() implies (
    #[trigger] after.entries[a]).monitor.channel_id == after.entries[a].channel.channel_id by {
        assert(node.entries[a].inv());
    }
    lemma_find_monitor(after.entries, k, channel_id);
    lemma_pushed_is_watched(e.monitor.outputs_to_watch, txo, e.monitor.funding_script);
    assert(after.pending_msg_events =~= node.pending_msg_events);
}

/// To accept a teleport moves nothing: both sides stay paused on the output that they are on, their
/// monitors guard it, and their commitments keep their numbers. Both monitors watch the new
/// outpoint beside it, the initiator's user can complete, and no message is left to send.
pub proof fn law_acceptance_promotes_nothing(
    initiator: NodeView,
    responder: NodeView,
    channel_id: ChannelId,
)
    requires
        initiator.inv(),
        responder.inv(),
        initiator.can_accept_teleport(responder, channel_id),
    ensures
        ({
            let ei = initiator.entry(responder.node_id, channel_id);
            let er = responder.entry(initiator.node_id, channel_id);
            let txo = ei.proposal().spec_new_funding_txo();
            let i = initiator.teleport_exchanged(
                responder.node_id,
                channel_id,
                true,
                er.own_new_scope_commitment(),
            );
            let r = responder.teleport_exchanged(
                initiator.node_id,
                channel_id,
                false,
                ei.own_new_scope_commitment(),
            );
            &&& i.awaits_completion(initiator, channel_id, txo)
            &&& r.awaits_completion(responder, channel_id, txo)
            &&& i.channel(channel_id).pending_teleport->Some_0 is AwaitingLocalComplete
            &&& r.channel(channel_id).pending_teleport->Some_0 is AwaitingRemoteComplete
            &&& i.entry(responder.node_id, channel_id).complete_teleport() is Ok
            &&& i.pending_msg_events.len() == 0
            &&& r.pending_msg_events.len() == 0
        }),
{
    reveal(ChannelEntryView::complete_teleport);
    let ei = initiator.entry(responder.node_id, channel_id);
    let er = responder.entry(initiator.node_id, channel_id);
    lemma_exchange(
        initiator,
        responder.node_id,
        channel_id,
        true,
        er.own_new_scope_commitment(),
    );
    lemma_exchange(
        responder,
        initiator.node_id,
        channel_id,
        false,
        ei.own_new_scope_commitment(),
    );
}

/// The gap closes without a trace: an initiator that still waits for the responder's signature, and
/// then gets it, is where it would be had nothing been held up. It has one monitor update more and
/// no message to send, has promoted nothing, and its user can complete.
pub proof fn law_held_signature_closes_the_gap(
    initiator: NodeView,
    responder: NodeView,
    channel_id: ChannelId,
)
    requires
        initiator.inv(),
        initiator.can_accept_teleport(responder, channel_id),
    ensures
        ({
            let peer = responder.node_id;
            let held = responder.entry(initiator.node_id, channel_id).own_new_scope_commitment();
            let txo = initiator.entry(peer, channel_id).proposal().spec_new_funding_txo();
            let waiting = initiator.teleport_signed(peer, channel_id, true);
            let after = waiting.handled(
                peer,
                channel_id,
                waiting.entry(peer, channel_id).commitment_signed(held),
            );
            &&& after.added_monitors == initiator.added_monitors.push(
                MonitorUpdate::RenegotiatedFunding { funding_txo: txo },
            )
            &&& after.pending_msg_events.len() == 0
            &&& (NodeView { added_monitors: seq![], ..after }) == initiator.teleport_exchanged(
                peer,
                channel_id,
                true,
                held,
            )
            &&& after.awaits_completion(initiator, channel_id, txo)
            &&& after.channel(channel_id).pending_teleport->Some_0 is AwaitingLocalComplete
            &&& after.entry(peer, channel_id).complete_teleport() is Ok
        }),
{
    reveal(ChannelEntryView::complete_teleport);
    let peer = responder.node_id;
    let held = responder.entry(initiator.node_id, channel_id).own_new_scope_commitment();
    let k = initiator.find(peer, channel_id);
    let e = initiator.entries[k];
    let txo = e.proposal().spec_new_funding_txo();
    lemma_found(initiator.entries, peer, channel_id);
    lemma_exchange(initiator, peer, channel_id, true, held);
    let waiting = initiator.teleport_signed(peer, channel_id, true);
    lemma_find_with_entry(
        initiator.entries,
        k,
        e.signed_on_new_scope(true),
        peer,
        channel_id,
    );
    assert(waiting.entry(peer, channel_id) == e.signed_on_new_scope(true));
    let after = waiting.handled(
        peer,
        channel_id,
        waiting.entry(peer, channel_id).commitment_signed(held),
    );
    assert(after.added_monitors =~= initiator.added_monitors.push(
        MonitorUpdate::RenegotiatedFunding { funding_txo: txo },
    ));
    let exchanged = initiator.teleport_exchanged(peer, channel_id, true, held);
    assert(after.entries =~= exchanged.entries);
    assert(after.pending_msg_events =~= exchanged.pending_msg_events);
    assert(after.pending_events =~= exchanged.pending_events);
}

} // verus!
