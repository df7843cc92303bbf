//! What a node keeps of its channels and what it queues, said of every channel and every message.

use crate::channel::{APIError, PendingTeleport};
use crate::entry::{ChannelEntryView, Step};
use crate::flows::{find_monitor, find_open, scoped_commitments};
use crate::msgs::{
    ChannelId, CommitmentSigned, ErrorAction, Init, MessageSendEventView, MessageView, NodeId,
    TeleportAck, TeleportCompleteAck,
};
use crate::node::{
    addressed, find_with, open_channels, reestablish_msgs, ChannelDetails, NodeView, Peer,
};
use crate::outpoint::FundingOutPoint;
use vstd::prelude::*;

verus! {

broadcast use crate::entry::group_steps;

/// What is found is the first open channel with that peer and id, if there is one.
pub proof fn law_channel_is_found(
    entries: Seq<ChannelEntryView>,
    peer: NodeId,
    channel_id: ChannelId,
)
    ensures
        ({
            let pos = find_with(entries, peer, channel_id);
            &&& pos >= 0 ==> {
                &&& pos < entries.len()
                &&& !entries[pos].is_closed
                &&& entries[pos].channel.channel_id == channel_id
                &&& entries[pos].channel.counterparty == peer
            }
            &&& forall|i: int|
                0 <= i < entries.len() && !(#[trigger] entries[i]).is_closed
                    && entries[i].channel.channel_id == channel_id
                    && entries[i].channel.counterparty == peer ==> 0 <= pos <= i
        }),
    decreases entries.len(),
{
    if entries.len() > 0 {
        let before = entries.drop_last();
        law_channel_is_found(before, peer, channel_id);
        let pos = find_with(entries, peer, channel_id);
        assert forall|i: int|
            0 <= i < entries.len() && !(#[trigger] entries[i]).is_closed
                && entries[i].channel.channel_id == channel_id && entries[i].channel.counterparty
                == peer implies 0 <= pos <= i by {
            if i < before.len() {
                assert(before[i] == entries[i]);
            }
        }
    }
}

/// What is found is the first open channel with that id, if there is one.
pub proof fn law_open_channel_is_found(entries: Seq<ChannelEntryView>, channel_id: ChannelId)
    ensures
        ({
            let pos = find_open(entries, channel_id);
            &&& pos >= 0 ==> pos < entries.len() && !entries[pos].is_closed
                && entries[pos].channel.channel_id == channel_id
            &&& forall|i: int|
                0 <= i < entries.len() && !(#[trigger] entries[i]).is_closed
                    && entries[i].channel.channel_id == channel_id ==> 0 <= pos <= i
        }),
    decreases entries.len(),
{
    if entries.len() > 0 {
        let before = entries.drop_last();
        law_open_channel_is_found(before, channel_id);
        let pos = find_open(entries, channel_id);
        assert forall|i: int|
            0 <= i < entries.len() && !(#[trigger] entries[i]).is_closed
                && entries[i].channel.channel_id == channel_id implies 0 <= pos <= i by {
            if i < before.len() {
                assert(before[i] == entries[i]);
            }
        }
    }
}

/// What is found is the first channel, open or closed, whose monitor has that id, if there is one.
pub proof fn law_monitor_is_found(entries: Seq<ChannelEntryView>, channel_id: ChannelId)
    ensures
        ({
            let pos = find_monitor(entries, channel_id);
            &&& pos >= 0 ==> pos < entries.len() && entries[pos].monitor.channel_id == channel_id
            &&& forall|i: int|
                0 <= i < entries.len() && (#[trigger] entries[i]).monitor.channel_id == channel_id
                    ==> 0 <= pos <= i
        }),
    decreases entries.len(),
{
    if entries.len() > 0 {
        let before = entries.drop_last();
        law_monitor_is_found(before, channel_id);
        let pos = find_monitor(entries, channel_id);
        assert forall|i: int|
            0 <= i < entries.len() && (#[trigger] entries[i]).monitor.channel_id
                == channel_id implies 0 <= pos <= i by {
            if i < before.len() {
                assert(before[i] == entries[i]);
            }
        }
    }
}

/// A channel lingers after a teleport exactly if it is open, has promoted to that outpoint and
/// acknowledged it, and is not paused.
pub proof fn law_lingering_is_recognised(
    node: NodeView,
    channel_id: ChannelId,
    new_funding_txo: FundingOutPoint,
)
    ensures
        ({
            let k = find_open(node.entries, channel_id);
            let c = node.entries[k].channel;
            node.lingers(channel_id, new_funding_txo) <==> {
                &&& k >= 0
                &&& c.funding.funding_txo == new_funding_txo
                &&& c.quiescence !is Quiescent
                &&& c.pending_teleport matches Some(
                    PendingTeleport::AwaitingRemoteActivityAfterTeleportCompleteAckSend {
                        new_funding_txo: txo,
                        ..
                    },
                ) && txo == new_funding_txo
            }
        }),
        node.has_channel(channel_id) <==> find_open(node.entries, channel_id) >= 0,
        node.has_monitor(channel_id) <==> find_monitor(node.entries, channel_id) >= 0,
        node.channel(channel_id) == node.entries[find_open(node.entries, channel_id)].channel,
        node.monitor(channel_id) == node.entries[find_monitor(node.entries, channel_id)].monitor,
{
}

/// Every message is addressed to the peer, in order, and none is added or lost.
pub proof fn law_messages_are_addressed(msgs: Seq<MessageView>, peer: NodeId)
    ensures
        addressed(msgs, peer).len() == msgs.len(),
        forall|i: int|
            0 <= i < msgs.len() ==> (#[trigger] addressed(msgs, peer)[i]) == (
            MessageSendEventView { node_id: peer, msg: msgs[i] }),
{
}

/// A step of one channel changes that channel alone. What it sends is queued behind what is queued,
/// for the peer of that channel; what its user learns, and what its monitor took in, behind what
/// was there.
pub proof fn law_step_is_queued_behind(node: NodeView, i: int, step: Step)
    requires
        0 <= i < node.entries.len(),
    ensures
        ({
            let after = node.stepped(i, step);
            let msgs = step.effects.msgs;
            let queued = node.pending_msg_events;
            let peer = step.entry.channel.counterparty;
            &&& after.entries.len() == node.entries.len()
            &&& after.entries[i] == step.entry
            &&& forall|j: int|
                0 <= j < node.entries.len() && j != i ==> #[trigger] after.entries[j]
                    == node.entries[j]
            &&& after.pending_msg_events.len() == queued.len() + msgs.len()
            &&& forall|j: int|
                0 <= j < queued.len() ==> #[trigger] after.pending_msg_events[j] == queued[j]
            &&& forall|j: int|
                0 <= j < msgs.len() ==> after.pending_msg_events[queued.len() + j] == (
                MessageSendEventView { node_id: peer, msg: #[trigger] msgs[j] })
            &&& after.pending_events == node.pending_events + step.effects.events
            &&& after.added_monitors == node.added_monitors + step.effects.monitor_updates
            &&& after.node_id == node.node_id
            &&& after.features == node.features
            &&& after.peers == node.peers
            &&& after.feerate_per_kw == node.feerate_per_kw
        }),
{
}

/// A message or a call reaches the first open channel with that peer and id. A message for a
/// channel that there is not is answered with an error, and a call on one is refused; neither
/// changes a channel. A call that is refused changes nothing.
pub proof fn law_only_the_named_channel_is_reached(
    node: NodeView,
    peer: NodeId,
    channel_id: ChannelId,
    step: Step,
    stated: Result<Step, APIError>,
    after: NodeView,
    res: Result<(), APIError>,
)
    ensures
        ({
            let i = find_with(node.entries, peer, channel_id);
            let handled = node.handled(peer, channel_id, step);
            &&& i >= 0 ==> handled == node.stepped(i, step)
            &&& i < 0 ==> handled == (NodeView {
                pending_msg_events: node.pending_msg_events.push(
                    MessageSendEventView {
                        node_id: peer,
                        msg: MessageView::HandleError(ErrorAction::SendErrorMessage),
                    },
                ),
                ..node
            })
            &&& node.called(peer, channel_id, stated, after, res) ==> {
                &&& i < 0 ==> after == node && res == Err::<(), APIError>(
                    APIError::ChannelUnavailable,
                )
                &&& i >= 0 && stated is Ok ==> after == node.stepped(i, stated->Ok_0) && res
                    == Ok::<(), APIError>(())
                &&& i >= 0 && stated is Err ==> after == node && res == Err::<(), APIError>(
                    stated->Err_0,
                )
            }
            &&& node.entry(peer, channel_id) == node.entries[i]
        }),
{
}

/// The messages that resume channels: one for each open channel with the peer, in order, with what
/// the channel says of itself.
pub proof fn law_every_open_channel_is_resumed(entries: Seq<ChannelEntryView>, peer: NodeId)
    ensures
        reestablish_msgs(entries, peer) == entries.filter(
            |e: ChannelEntryView| !e.is_closed && e.channel.counterparty == peer,
        ).map_values(
            |e: ChannelEntryView|
                MessageSendEventView {
                    node_id: peer,
                    msg: MessageView::SendChannelReestablish(
                        e.channel.spec_get_channel_reestablish(),
                    ),
                },
        ),
    decreases entries.len(),
{
    reveal(Seq::filter);
    let with = |e: ChannelEntryView| !e.is_closed && e.channel.counterparty == peer;
    let tell = |e: ChannelEntryView|
        MessageSendEventView {
            node_id: peer,
            msg: MessageView::SendChannelReestablish(e.channel.spec_get_channel_reestablish()),
        };
    if entries.len() == 0 {
        assert(reestablish_msgs(entries, peer) =~= entries.filter(with).map_values(tell));
    } else {
        let before = entries.drop_last();
        law_every_open_channel_is_resumed(before, peer);
        if with(entries.last()) {
            assert(entries.filter(with) =~= before.filter(with).push(entries.last()));
            assert(entries.filter(with).map_values(tell) =~= before.filter(with).map_values(
                tell,
            ).push(tell(entries.last())));
        } else {
            assert(entries.filter(with) =~= before.filter(with));
        }
    }
}

/// The user sees every open channel, in order, and no closed one.
pub proof fn law_every_open_channel_is_listed(entries: Seq<ChannelEntryView>)
    ensures
        open_channels(entries) == entries.filter(|e: ChannelEntryView| !e.is_closed).map_values(
            |e: ChannelEntryView|
                ChannelDetails {
                    channel_id: e.channel.channel_id,
                    counterparty_node_id: e.channel.counterparty,
                    funding_txo: e.channel.funding.funding_txo,
                    channel_value_satoshis: e.channel.funding.value_sat,
                    channel_type: e.terms.channel_type,
                },
        ),
    decreases entries.len(),
{
    reveal(Seq::filter);
    let open = |e: ChannelEntryView| !e.is_closed;
    let show = |e: ChannelEntryView|
        ChannelDetails {
            channel_id: e.channel.channel_id,
            counterparty_node_id: e.channel.counterparty,
            funding_txo: e.channel.funding.funding_txo,
            channel_value_satoshis: e.channel.funding.value_sat,
            channel_type: e.terms.channel_type,
        };
    if entries.len() == 0 {
        assert(open_channels(entries) =~= entries.filter(open).map_values(show));
    } else {
        let before = entries.drop_last();
        law_every_open_channel_is_listed(before);
        if open(entries.last()) {
            assert(entries.filter(open) =~= before.filter(open).push(entries.last()));
            assert(entries.filter(open).map_values(show) =~= before.filter(open).map_values(
                show,
            ).push(show(entries.last())));
        } else {
            assert(entries.filter(open) =~= before.filter(open));
        }
    }
}

/// When the messages leave, the queue is empty and every channel notes exactly what left for it: an
/// acceptance or an acknowledgement that is addressed to its peer and names it.
pub proof fn law_channels_note_what_left(node: NodeView, k: int)
    requires
        0 <= k < node.entries.len(),
    ensures
        ({
            let after = node.drained();
            let e = node.entries[k];
            let peer = e.channel.counterparty;
            let channel_id = e.channel.channel_id;
            let left = |msg: MessageView|
                node.pending_msg_events.contains(MessageSendEventView { node_id: peer, msg });
            &&& after.pending_msg_events.len() == 0
            &&& after.entries.len() == node.entries.len()
            &&& after.entries[k] == e.messages_sent(
                left(MessageView::SendTeleportAck(TeleportAck { channel_id })),
                left(MessageView::SendTeleportCompleteAck(TeleportCompleteAck { channel_id })),
            )
            &&& after.pending_events == node.pending_events
            &&& after.added_monitors == node.added_monitors
            &&& after.peers == node.peers
            &&& after.features == node.features
            &&& after.feerate_per_kw == node.feerate_per_kw
            &&& after.node_id == node.node_id
        }),
{
}

/// A lost connection concerns the channels with that peer, the messages to it and the peer itself.
/// All others stay, in their order.
pub proof fn law_lost_peer_concerns_no_other(node: NodeView, peer: NodeId, k: int)
    requires
        0 <= k < node.entries.len(),
    ensures
        ({
            let after = node.disconnected(peer);
            let e = node.entries[k];
            &&& after.entries.len() == node.entries.len()
            &&& e.channel.counterparty == peer ==> after.entries[k] == e.peer_disconnected()
            &&& e.channel.counterparty != peer ==> after.entries[k] == e
            &&& after.pending_msg_events == node.pending_msg_events.filter(
                |m: MessageSendEventView| m.node_id != peer,
            )
            &&& after.peers == node.peers.filter(|p: Peer| p.node_id != peer)
            &&& after.pending_events == node.pending_events
            &&& after.added_monitors == node.added_monitors
            &&& after.features == node.features
            &&& after.feerate_per_kw == node.feerate_per_kw
            &&& after.node_id == node.node_id
        }),
{
}

/// A new connection is noted with what the peer said and who made it, in place of an earlier one,
/// and every open channel with the peer is resumed behind what is queued. No channel changes yet.
pub proof fn law_connection_is_noted(node: NodeView, peer: NodeId, init: Init, is_inbound: bool)
    ensures
        ({
            let after = node.connected(peer, init, is_inbound);
            &&& after.peers == node.peers.filter(|p: Peer| p.node_id != peer).push(
                Peer { node_id: peer, features: init.features, is_inbound },
            )
            &&& after.pending_msg_events == node.pending_msg_events + reestablish_msgs(
                node.entries,
                peer,
            )
            &&& after.entries == node.entries
            &&& after.pending_events == node.pending_events
            &&& after.added_monitors == node.added_monitors
            &&& after.features == node.features
            &&& after.feerate_per_kw == node.feerate_per_kw
            &&& after.node_id == node.node_id
        }),
{
}

/// A restart loses the peers, the queued messages and the monitor updates that nobody looked at,
/// and does to each channel what a lost connection does. What the user has to learn stays.
pub proof fn law_restart_keeps_channels_and_events(node: NodeView, k: int)
    requires
        0 <= k < node.entries.len(),
    ensures
        ({
            let after = node.restarted();
            &&& after.entries.len() == node.entries.len()
            &&& after.entries[k] == node.entries[k].peer_disconnected()
            &&& after.pending_events == node.pending_events
            &&& after.pending_msg_events.len() == 0
            &&& after.added_monitors.len() == 0
            &&& after.peers.len() == 0
            &&& after.features == node.features
            &&& after.feerate_per_kw == node.feerate_per_kw
            &&& after.node_id == node.node_id
        }),
{
}

/// A tick of the timer reaches every open channel once, in order, with the feerate that the node
/// wants, and no closed one.
pub proof fn law_tick_reaches_every_open_channel(node: NodeView, n: nat, k: int)
    requires
        n <= node.entries.len(),
        0 <= k < node.entries.len(),
    ensures
        ({
            let after = node.ticked(n);
            let e = node.entries[k];
            &&& after.entries.len() == node.entries.len()
            &&& k < n && !e.is_closed ==> after.entries[k] == e.timer_tick(
                node.feerate_per_kw,
            ).entry
            &&& k >= n || e.is_closed ==> after.entries[k] == e
            &&& n > 0 ==> {
                let before = node.ticked((n - 1) as nat);
                let last = node.entries[n - 1];
                after == if last.is_closed {
                    before
                } else {
                    before.stepped(n - 1, last.timer_tick(node.feerate_per_kw))
                }
            }
            &&& n == 0 ==> after == node
        }),
    decreases n,
{
    if n > 0 {
        law_tick_reaches_every_open_channel(node, (n - 1) as nat, k);
        law_tick_reaches_every_open_channel(node, (n - 1) as nat, n - 1);
    }
}

/// The signatures that name their scope are those of each message in turn, and none of a message
/// that carries no signature.
pub proof fn law_scoped_signatures_are_collected(
    msgs: Seq<MessageSendEventView>,
    event: MessageSendEventView,
)
    ensures
        scoped_commitments(Seq::<MessageSendEventView>::empty()).len() == 0,
        scoped_commitments(msgs.push(event)) == scoped_commitments(msgs) + match event.msg {
            MessageView::UpdateHTLCs(update) => update.commitment_signed.filter(
                |cs: CommitmentSigned| cs.funding_txid is Some,
            ),
            _ => Seq::<CommitmentSigned>::empty(),
        },
{
    assert(msgs.push(event).drop_last() =~= msgs);
    assert(scoped_commitments(msgs) + Seq::<CommitmentSigned>::empty() =~= scoped_commitments(
        msgs,
    ));
}

} // verus!
