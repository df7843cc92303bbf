//! Where the passages of the protocol leave a node, said in the fields of its channels.

use crate::channel::{PendingTeleport, Quiescence, ValueRemovals};
use crate::entry::ChannelEntryView;
use crate::events::Event;
use crate::flows::no_removals;
use crate::monitor::{watched_script, MonitorUpdate};
use crate::msgs::{
    ChannelId, ChannelReestablish, CommitmentSigned, Init, MessageSendEventView, MessageView,
    NodeId,
};
use crate::node::{reestablish_msgs, NodeView};
use crate::outpoint::{BitcoinOutPoint, FundingOutPoint};
use crate::watch_laws::{law_monitor_takes_in_what_it_is_told, law_watched_outputs_stay_watched};
use vstd::prelude::*;

verus! {

/// Whether the two nodes differ in the channel at `k` alone, which is the given one in the second.
pub open spec fn only_channel_changed(
    before: NodeView,
    after: NodeView,
    k: int,
    entry: ChannelEntryView,
) -> bool {
    &&& after.entries.len() == before.entries.len()
    &&& after.entries[k] == entry
    &&& forall|j: int|
        0 <= j < before.entries.len() && j != k ==> #[trigger] after.entries[j]
            == before.entries[j]
    &&& after.pending_msg_events == before.pending_msg_events
    &&& after.added_monitors == before.added_monitors
    &&& after.peers == before.peers
    &&& after.features == before.features
    &&& after.feerate_per_kw == before.feerate_per_kw
    &&& after.node_id == before.node_id
}

/// A proposal leaves both sides paused: the initiator waits for the acceptance, the responder for
/// its user, who is asked about exactly this outpoint, without removals, by this peer. Nothing else
/// changes on either node.
pub proof fn law_proposal_pauses_both_sides(
    node: NodeView,
    peer: NodeId,
    channel_id: ChannelId,
    new_funding_txo: FundingOutPoint,
)
    requires
        0 <= node.find(peer, channel_id) < node.entries.len(),
    ensures
        ({
            let k = node.find(peer, channel_id);
            let e = node.entries[k];
            let removals = ValueRemovals {
                responder_value_removal_sat: 0,
                initiator_value_removal_sat: 0,
            };
            let initiator = node.teleport_proposed(peer, channel_id, new_funding_txo);
            let responder = node.teleport_asked(peer, channel_id, new_funding_txo);
            &&& only_channel_changed(
                node,
                initiator,
                k,
                e.with_stage(
                    Some(PendingTeleport::AwaitingTeleportAck { new_funding_txo, removals }),
                    Quiescence::Quiescent,
                ),
            )
            &&& initiator.pending_events == node.pending_events
            &&& only_channel_changed(
                node,
                responder,
                k,
                e.with_stage(
                    Some(PendingTeleport::AwaitingUserDecision { new_funding_txo, removals }),
                    Quiescence::Quiescent,
                ),
            )
            &&& responder.pending_events == node.pending_events.push(
                Event::ChannelTeleport {
                    channel_id,
                    user_channel_id: e.channel.user_channel_id,
                    counterparty_node_id: peer,
                    new_funding_txo: BitcoinOutPoint {
                        txid: new_funding_txo.txid,
                        vout: new_funding_txo.index as u32,
                    },
                    responder_value_removal_sat: 0,
                    initiator_value_removal_sat: 0,
                },
            )
            &&& no_removals() == removals
        }),
{
}

/// A side that signed on the new scope waits for the counterparty's signature, in its role, for the
/// teleport that was proposed. Its own signature is for the counterparty's commitment of the same
/// number and names the new transaction.
pub proof fn law_signing_waits_for_the_other_signature(
    node: NodeView,
    peer: NodeId,
    channel_id: ChannelId,
    is_initiator: bool,
)
    requires
        0 <= node.find(peer, channel_id) < node.entries.len(),
    ensures
        ({
            let k = node.find(peer, channel_id);
            let e = node.entries[k];
            let p = e.channel.pending_teleport->Some_0;
            let after = node.teleport_signed(peer, channel_id, is_initiator);
            &&& only_channel_changed(
                node,
                after,
                k,
                e.with_stage(
                    Some(
                        PendingTeleport::AwaitingRemoteCommitmentSigned {
                            new_funding_txo: p.spec_new_funding_txo(),
                            removals: p.spec_removals(),
                            is_initiator,
                        },
                    ),
                    e.channel.quiescence,
                ),
            )
            &&& after.pending_events == node.pending_events
            &&& e.own_new_scope_commitment() == (CommitmentSigned {
                channel_id: e.channel.channel_id,
                funding_txid: Some(p.spec_new_funding_txo().txid),
                commitment_number: e.channel.counterparty_commitment_number,
            })
        }),
{
}

/// A whole teleport without removals leaves a channel on the new output with the same value, the
/// same balance and the same commitments, open to updates, with its payments as they were. Its
/// monitor guards the new output, watches it, and still watches what it watched.
pub proof fn law_whole_teleport_changes_the_output_alone(
    e: ChannelEntryView,
    new_funding_txo: FundingOutPoint,
    stage: Option<PendingTeleport>,
    txo: FundingOutPoint,
)
    ensures
        ({
            let after = e.teleported(new_funding_txo, stage);
            &&& after.channel.funding.funding_txo == new_funding_txo
            &&& after.channel.funding.value_sat == e.channel.funding.value_sat
            &&& after.channel.funding.value_to_self_msat == e.channel.funding.value_to_self_msat
            &&& after.channel == (crate::channel::Channel {
                funding: after.channel.funding,
                quiescence: Quiescence::Active,
                pending_teleport: stage,
                response_ticks: 0,
                ..e.channel
            })
            &&& after.book == e.book
            &&& after.terms == e.terms
            &&& after.is_closed == e.is_closed
            &&& after.monitor.funding_txo == new_funding_txo
            &&& after.monitor.channel_id == e.monitor.channel_id
            &&& after.monitor.preimages == e.monitor.preimages
            &&& watched_script(after.monitor.outputs_to_watch, new_funding_txo) is Some
            &&& watched_script(e.monitor.outputs_to_watch, txo) is Some ==> watched_script(
                after.monitor.outputs_to_watch,
                txo,
            ) == watched_script(e.monitor.outputs_to_watch, txo)
        }),
{
    let watch = MonitorUpdate::RenegotiatedFunding { funding_txo: new_funding_txo };
    let lock = MonitorUpdate::RenegotiatedFundingLocked { funding_txo: new_funding_txo };
    let m = e.monitor.apply(watch);
    law_monitor_takes_in_what_it_is_told(e.monitor, watch);
    law_monitor_takes_in_what_it_is_told(m, lock);
    law_watched_outputs_stay_watched(e.monitor, watch, new_funding_txo);
    law_watched_outputs_stay_watched(m, lock, new_funding_txo);
    law_watched_outputs_stay_watched(e.monitor, watch, txo);
    law_watched_outputs_stay_watched(m, lock, txo);
}

/// A node that has nothing queued, and one open channel with the peer, resumes exactly that one. A
/// resumption connects, sends that message, and handles what the peer sent to resume it.
pub proof fn law_resumption_is_of_the_one_channel(
    node: NodeView,
    peer: NodeId,
    init: Init,
    is_inbound: bool,
    msg: ChannelReestablish,
)
    ensures
        ({
            let queued = node.pending_msg_events + reestablish_msgs(node.entries, peer);
            let sent = node.connected(peer, init, is_inbound).drained();
            &&& node.reestablish_msg(peer) is Some ==> queued =~= seq![
                MessageSendEventView {
                    node_id: peer,
                    msg: MessageView::SendChannelReestablish(node.reestablish_msg(peer)->Some_0),
                },
            ]
            &&& queued.len() == 1 && queued[0].node_id == peer && queued[0].msg is
                SendChannelReestablish ==> node.reestablish_msg(peer) is Some
            &&& node.resumed_with(peer, init, is_inbound, msg) == sent.handled(
                peer,
                msg.channel_id,
                sent.entry(peer, msg.channel_id).channel_reestablish(msg),
            )
        }),
{
}

} // verus!
