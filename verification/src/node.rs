//! A node: its channels and what it has queued for its peers and its user.

use crate::channel::{APIError, Channel, ChannelSetup, ValueRemovals};
use crate::entry::{messages_view, ChannelEntry, ChannelEntryView, Effects, Step};
use crate::events::{ClosureReason, Event};
use crate::funding::{ChannelTerms, ChannelType};
use crate::htlcs::{HtlcBook, HtlcBookView};
use crate::monitor::{ChannelMonitor, ChannelMonitorView, MonitorUpdate};
use crate::msgs::{
    ChannelId, ChannelReestablish, CommitmentSigned, ErrorAction, Init, InitFeatures, Message,
    MessageSendEvent, MessageSendEventView, MessageView, NodeId, PaymentHash, RevokeAndACK, Stfu,
    TeleportAbort, TeleportAck, TeleportComplete, TeleportCompleteAck, TeleportInit, Update,
};
use crate::outpoint::FundingOutPoint;
use vstd::prelude::*;

verus! {

broadcast use crate::entry::group_steps;

/// A peer that the node is connected to.
#[derive(Clone, Copy, PartialEq, Eq, Structural, Debug)]
pub struct Peer {
    pub node_id: NodeId,
    /// What the peer said that it can do.
    pub features: InitFeatures,
    /// Whether the peer made the connection.
    pub is_inbound: bool,
}

/// What the user sees of an open channel.
#[derive(Clone, Copy, Debug)]
pub struct ChannelDetails {
    pub channel_id: ChannelId,
    pub counterparty_node_id: NodeId,
    pub funding_txo: FundingOutPoint,
    pub channel_value_satoshis: u64,
    pub channel_type: ChannelType,
}

/// A node with its channels.
#[derive(Debug)]
pub struct Node {
    pub node_id: NodeId,
    /// What this node can do.
    pub features: InitFeatures,
    /// The peers that this node is connected to.
    pub peers: Vec<Peer>,
    pub entries: Vec<ChannelEntry>,
    pub pending_msg_events: Vec<MessageSendEvent>,
    pub pending_events: Vec<Event>,
    /// The monitor updates since the last look at them.
    pub added_monitors: Vec<MonitorUpdate>,
    /// The feerate that this node wants its channels to have.
    pub feerate_per_kw: u32,
}

/// The contents of a [`Node`].
#[verifier::ext_equal]
pub struct NodeView {
    pub node_id: NodeId,
    pub features: InitFeatures,
    pub peers: Seq<Peer>,
    pub entries: Seq<ChannelEntryView>,
    pub pending_msg_events: Seq<MessageSendEventView>,
    pub pending_events: Seq<Event>,
    pub added_monitors: Seq<MonitorUpdate>,
    pub feerate_per_kw: u32,
}

/// The contents of entries.
pub open spec fn entries_view(entries: Seq<ChannelEntry>) -> Seq<ChannelEntryView> {
    entries.map_values(|e: ChannelEntry| e@)
}

/// The contents of queued messages.
pub open spec fn msg_events_view(msgs: Seq<MessageSendEvent>) -> Seq<MessageSendEventView> {
    msgs.map_values(|m: MessageSendEvent| m@)
}

impl View for Node {
    type V = NodeView;

    open spec fn view(&self) -> NodeView {
        NodeView {
            node_id: self.node_id,
            features: self.features,
            peers: self.peers@,
            entries: entries_view(self.entries@),
            pending_msg_events: msg_events_view(self.pending_msg_events@),
            pending_events: self.pending_events@,
            added_monitors: self.added_monitors@,
            feerate_per_kw: self.feerate_per_kw,
        }
    }
}

impl ChannelEntryView {
    /// Whether this is an open channel with that id.
    pub open spec fn is_open(self, channel_id: ChannelId) -> bool {
        !self.is_closed && self.channel.channel_id == channel_id
    }

    /// Whether this is an open channel with that peer and id.
    pub open spec fn is_with(self, peer: NodeId, channel_id: ChannelId) -> bool {
        self.is_open(channel_id) && self.channel.counterparty == peer
    }
}

/// The position of the first open channel with that peer and id, or -1.
pub open spec fn find_with(
    entries: Seq<ChannelEntryView>,
    peer: NodeId,
    channel_id: ChannelId,
) -> int
    decreases entries.len(),
{
    if entries.len() == 0 {
        -1
    } else {
        let earlier = find_with(entries.drop_last(), peer, channel_id);
        if earlier >= 0 {
            earlier
        } else if entries.last().is_with(peer, channel_id) {
            entries.len() - 1
        } else {
            -1
        }
    }
}

/// What the user sees of the open channels, in their order.
pub open spec fn open_channels(entries: Seq<ChannelEntryView>) -> Seq<ChannelDetails>
    decreases entries.len(),
{
    if entries.len() == 0 {
        seq![]
    } else {
        let earlier = open_channels(entries.drop_last());
        let e = entries.last();
        if e.is_closed {
            earlier
        } else {
            earlier.push(
                ChannelDetails {
                    channel_id: e.channel.channel_id,
                    counterparty_node_id: e.channel.counterparty,
                    funding_txo: e.channel.funding.funding_txo,
                    channel_value_satoshis: e.channel.funding.value_sat,
                    channel_type: e.terms.channel_type,
                },
            )
        }
    }
}

/// The peers but for one.
pub open spec fn other_peers(peers: Seq<Peer>, peer: NodeId) -> Seq<Peer> {
    peers.filter(|p: Peer| p.node_id != peer)
}

/// The messages, addressed to a peer.
pub open spec fn addressed(msgs: Seq<MessageView>, peer: NodeId) -> Seq<MessageSendEventView> {
    msgs.map_values(|m: MessageView| MessageSendEventView { node_id: peer, msg: m })
}

/// Whether the acceptance of a teleport of this channel is queued.
pub open spec fn ack_queued(
    msgs: Seq<MessageSendEventView>,
    peer: NodeId,
    channel_id: ChannelId,
) -> bool {
    exists|i: int|
        0 <= i < msgs.len() && #[trigger] msgs[i] == (MessageSendEventView {
            node_id: peer,
            msg: MessageView::SendTeleportAck(TeleportAck { channel_id }),
        })
}

/// Whether the acknowledgement of a completed teleport of this channel is queued.
pub open spec fn complete_ack_queued(
    msgs: Seq<MessageSendEventView>,
    peer: NodeId,
    channel_id: ChannelId,
) -> bool {
    exists|i: int|
        0 <= i < msgs.len() && #[trigger] msgs[i] == (MessageSendEventView {
            node_id: peer,
            msg: MessageView::SendTeleportCompleteAck(TeleportCompleteAck { channel_id }),
        })
}

/// The messages that resume the open channels with a peer.
pub open spec fn reestablish_msgs(entries: Seq<ChannelEntryView>, peer: NodeId) -> Seq<
    MessageSendEventView,
>
    decreases entries.len(),
{
    if entries.len() == 0 {
        seq![]
    } else {
        let earlier = reestablish_msgs(entries.drop_last(), peer);
        let e = entries.last();
        if !e.is_closed && e.channel.counterparty == peer {
            earlier.push(
                MessageSendEventView {
                    node_id: peer,
                    msg: MessageView::SendChannelReestablish(
                        e.channel.spec_get_channel_reestablish(),
                    ),
                },
            )
        } else {
            earlier
        }
    }
}

impl NodeView {
    /// This node after the channel at `i` made a step.
    pub open spec fn stepped(self, i: int, step: Step) -> NodeView {
        NodeView {
            entries: self.entries.update(i, step.entry),
            pending_msg_events: self.pending_msg_events + addressed(
                step.effects.msgs,
                step.entry.channel.counterparty,
            ),
            pending_events: self.pending_events + step.effects.events,
            added_monitors: self.added_monitors + step.effects.monitor_updates,
            ..self
        }
    }

    /// This node after a message for a channel that it does not have: the peer is told.
    pub open spec fn unknown_channel(self, peer: NodeId) -> NodeView {
        NodeView {
            pending_msg_events: self.pending_msg_events.push(
                MessageSendEventView {
                    node_id: peer,
                    msg: MessageView::HandleError(ErrorAction::SendErrorMessage),
                },
            ),
            ..self
        }
    }

    /// The position of the channel with that peer and id, or -1.
    pub open spec fn find(self, peer: NodeId, channel_id: ChannelId) -> int {
        find_with(self.entries, peer, channel_id)
    }

    /// The messages of this node have left.
    pub open spec fn drained(self) -> NodeView {
        NodeView {
            entries: Seq::new(
                self.entries.len(),
                |i: int|
                    self.entries[i].messages_sent(
                        ack_queued(
                            self.pending_msg_events,
                            self.entries[i].channel.counterparty,
                            self.entries[i].channel.channel_id,
                        ),
                        complete_ack_queued(
                            self.pending_msg_events,
                            self.entries[i].channel.counterparty,
                            self.entries[i].channel.channel_id,
                        ),
                    ),
            ),
            pending_msg_events: seq![],
            ..self
        }
    }

    /// The connection to a peer drops: its channels are notified, its messages are lost, and it is
    /// no longer a peer.
    pub open spec fn disconnected(self, peer: NodeId) -> NodeView {
        NodeView {
            peers: other_peers(self.peers, peer),
            entries: self.entries.map_values(
                |e: ChannelEntryView|
                    if e.channel.counterparty == peer {
                        e.peer_disconnected()
                    } else {
                        e
                    },
            ),
            pending_msg_events: self.pending_msg_events.filter(
                |m: MessageSendEventView| m.node_id != peer,
            ),
            ..self
        }
    }

    /// A connection to a peer is made: what the peer can do and who made the connection is noted,
    /// and the channels with it are resumed.
    pub open spec fn connected(self, peer: NodeId, init: Init, is_inbound: bool) -> NodeView {
        NodeView {
            peers: other_peers(self.peers, peer).push(
                Peer { node_id: peer, features: init.features, is_inbound },
            ),
            pending_msg_events: self.pending_msg_events + reestablish_msgs(self.entries, peer),
            ..self
        }
    }

    /// The node restarts: all peers are gone, and what was queued for them is lost.
    pub open spec fn restarted(self) -> NodeView {
        NodeView {
            peers: seq![],
            entries: self.entries.map_values(|e: ChannelEntryView| e.peer_disconnected()),
            pending_msg_events: seq![],
            added_monitors: seq![],
            ..self
        }
    }

    /// A timer tick has passed for the first `n` channels.
    pub open spec fn ticked(self, n: nat) -> NodeView
        decreases n,
    {
        if n == 0 {
            self
        } else {
            let before = self.ticked((n - 1) as nat);
            let e = before.entries[n - 1];
            if e.is_closed {
                before
            } else {
                before.stepped(n - 1, e.timer_tick(self.feerate_per_kw))
            }
        }
    }

    /// The channel with that peer and id.
    pub open spec fn entry(self, peer: NodeId, channel_id: ChannelId) -> ChannelEntryView {
        self.entries[self.find(peer, channel_id)]
    }

    /// Whether the outcome of a call on the channel with that peer and id is the one that is
    /// stated: the same step, or the same error and nothing changed. Without such a channel the
    /// call is refused.
    pub open spec fn called(
        self,
        peer: NodeId,
        channel_id: ChannelId,
        stated: Result<Step, APIError>,
        after: NodeView,
        res: Result<(), APIError>,
    ) -> bool {
        &&& after == self.call_made(peer, channel_id, stated)
        &&& res == if self.find(peer, channel_id) < 0 {
            Err::<(), APIError>(APIError::ChannelUnavailable)
        } else {
            match stated {
                Ok(_) => Ok::<(), APIError>(()),
                Err(e) => Err::<(), APIError>(e),
            }
        }
    }

    /// This node after a call on the channel with that peer and id, which makes the step or is
    /// refused.
    pub open spec fn call_made(
        self,
        peer: NodeId,
        channel_id: ChannelId,
        stated: Result<Step, APIError>,
    ) -> NodeView {
        let i = self.find(peer, channel_id);
        match stated {
            Ok(step) if i >= 0 => self.stepped(i, step),
            _ => self,
        }
    }

    /// This node after a message for the channel with that peer and id, which makes the step; or
    /// after one for a channel that it does not have.
    pub open spec fn handled(self, peer: NodeId, channel_id: ChannelId, step: Step) -> NodeView {
        let i = self.find(peer, channel_id);
        if i < 0 {
            self.unknown_channel(peer)
        } else {
            self.stepped(i, step)
        }
    }
}

proof fn lemma_find_with_prefix(
    entries: Seq<ChannelEntryView>,
    n: int,
    peer: NodeId,
    channel_id: ChannelId,
)
    requires
        0 <= n <= entries.len(),
        find_with(entries.take(n), peer, channel_id) >= 0,
    ensures
        find_with(entries, peer, channel_id) == find_with(entries.take(n), peer, channel_id),
    decreases entries.len() - n,
{
    if n == entries.len() {
        assert(entries.take(n) =~= entries);
    } else {
        assert(entries.take(n + 1).drop_last() =~= entries.take(n));
        lemma_find_with_prefix(entries, n + 1, peer, channel_id);
    }
}

impl NodeView {
    /// What holds of every node between two calls: no two channels share their id, and each channel
    /// is sound.
    pub open spec fn inv(self) -> bool {
        &&& forall|i: int| 0 <= i < self.entries.len() ==> (#[trigger] self.entries[i]).inv()
        &&& forall|i: int, j: int|
            0 <= i < j < self.entries.len() ==> (#[trigger] self.entries[i]).channel.channel_id != (
            #[trigger] self.entries[j]).channel.channel_id
    }
}

impl Node {
    /// What holds of every node between two calls: no two channels share their id, and each channel
    /// is sound.
    pub open spec fn inv(&self) -> bool {
        &&& forall|i: int| 0 <= i < self.entries.len() ==> (#[trigger] self.entries[i]).inv()
        &&& forall|i: int, j: int|
            0 <= i < j < self.entries.len() ==> (#[trigger] self.entries[i]).channel.channel_id != (
            #[trigger] self.entries[j]).channel.channel_id
    }

    /// A node without channels.
    pub fn new(node_id: NodeId, features: InitFeatures, feerate_per_kw: u32) -> (node: Node)
        ensures
            node.inv(),
            node@ == (NodeView {
                node_id,
                features,
                peers: seq![],
                entries: seq![],
                pending_msg_events: seq![],
                pending_events: seq![],
                added_monitors: seq![],
                feerate_per_kw,
            }),
    {
        let node = Node {
            node_id,
            features,
            peers: Vec::new(),
            entries: Vec::new(),
            pending_msg_events: Vec::new(),
            pending_events: Vec::new(),
            added_monitors: Vec::new(),
            feerate_per_kw,
        };
        assert(node@.entries =~= seq![]);
        assert(node@.pending_msg_events =~= seq![]);
        node
    }

    /// Takes up a channel that was just opened, whose funding outputs have the given script.
    pub fn add_channel(&mut self, setup: ChannelSetup, terms: ChannelTerms, funding_script: Vec<u8>)
        requires
            old(self).inv(),
            setup.funding.value_to_self_msat <= setup.funding.value_sat * 1000,
            forall|i: int|
                0 <= i < old(self)@.entries.len() ==> (
                #[trigger] old(self)@.entries[i]).channel.channel_id != setup.channel_id,
        ensures
            final(self).inv(),
            final(self)@ == (NodeView {
                entries: old(self)@.entries.push(
                    ChannelEntryView {
                        channel: Channel::spec_opened(setup),
                        terms,
                        book: HtlcBookView::empty(),
                        monitor: ChannelMonitorView::new(
                            setup.channel_id,
                            setup.funding.funding_txo,
                            funding_script@,
                        ),
                        is_closed: false,
                    },
                ),
                ..old(self)@
            }),
    {
        let entry = ChannelEntry {
            channel: Channel::opened(setup),
            terms,
            book: HtlcBook::new(),
            monitor: ChannelMonitor::new(
                setup.channel_id,
                setup.funding.funding_txo,
                funding_script,
            ),
            is_closed: false,
        };
        let ghost entry_view = entry@;
        self.entries.push(entry);
        proof {
            assert(self@.entries =~= old(self)@.entries.push(entry_view));
            assert forall|i: int, j: int| 0 <= i < j < self.entries.len() implies (
            #[trigger] self.entries[i]).channel.channel_id != (
            #[trigger] self.entries[j]).channel.channel_id by {
                if j == self.entries.len() - 1 {
                    assert(old(self)@.entries[i].channel.channel_id != setup.channel_id);
                }
            }
        }
    }

    fn find(&self, peer: NodeId, channel_id: ChannelId) -> (pos: Option<usize>)
        ensures
            match pos {
                Some(i) => i < self.entries.len() && i == self@.find(peer, channel_id)
                    && self@.entries[i as int].is_with(peer, channel_id),
                None => self@.find(peer, channel_id) == -1,
            },
    {
        let ghost all = self@.entries;
        let mut i: usize = 0;
        while i < self.entries.len()
            invariant
                i <= self.entries.len(),
                all == self@.entries,
                find_with(all.take(i as int), peer, channel_id) == -1,
            decreases self.entries.len() - i,
        {
            assert(all.take(i + 1).drop_last() =~= all.take(i as int));
            assert(all.take(i + 1).last() == self.entries@[i as int]@);
            let e = &self.entries[i];
            if !e.is_closed && e.channel.channel_id == channel_id && e.channel.counterparty
                == peer {
                proof {
                    lemma_find_with_prefix(all, i + 1, peer, channel_id);
                }
                return Some(i);
            }
            i = i + 1;
        }
        assert(all.take(all.len() as int) =~= all);
        None
    }

    /// Queues the effects of a step of one channel.
    fn absorb(&mut self, peer: NodeId, fx: Effects)
        requires
            old(self).inv(),
        ensures
            final(self).inv(),
            final(self).entries == old(self).entries,
            final(self)@ == (NodeView {
                pending_msg_events: old(self)@.pending_msg_events + addressed(fx@.msgs, peer),
                pending_events: old(self)@.pending_events + fx@.events,
                added_monitors: old(self)@.added_monitors + fx@.monitor_updates,
                ..old(self)@
            }),
    {
        let ghost before = *self;
        let Effects { msgs, events, monitor_updates } = fx;
        let ghost all = messages_view(msgs@);
        let mut msgs = msgs;
        let mut events = events;
        let mut monitor_updates = monitor_updates;
        self.pending_events.append(&mut events);
        self.added_monitors.append(&mut monitor_updates);
        let mut out: Vec<MessageSendEvent> = Vec::new();
        while msgs.len() > 0
            invariant
                messages_view(msgs@) + msg_events_view(out@).map_values(
                    |m: MessageSendEventView| m.msg,
                ) == all,
                forall|k: int| 0 <= k < out.len() ==> (#[trigger] out@[k]).node_id == peer,
            decreases msgs.len(),
        {
            let ghost before_msgs = msgs@;
            let ghost before_out = out@;
            if let Some(msg) = msgs.pop() {
                out.insert(0, MessageSendEvent { node_id: peer, msg });
                assert(out@ =~= before_out.insert(0, MessageSendEvent { node_id: peer, msg }));
                assert forall|k: int| 0 <= k < out.len() implies (#[trigger] out@[k]).node_id
                    == peer by {
                    if k > 0 {
                        assert(out@[k] == before_out[k - 1]);
                    }
                }
                assert(messages_view(msgs@) + msg_events_view(out@).map_values(
                    |m: MessageSendEventView| m.msg,
                ) =~= messages_view(before_msgs) + msg_events_view(before_out).map_values(
                    |m: MessageSendEventView| m.msg,
                ));
            }
        }
        assert(msg_events_view(out@).map_values(|m: MessageSendEventView| m.msg) =~= all);
        assert(msg_events_view(out@) =~= addressed(all, peer)) by {
            assert forall|k: int| 0 <= k < out.len() implies msg_events_view(out@)[k] == addressed(
                all,
                peer,
            )[k] by {
                assert(out@[k].node_id == peer);
                assert(msg_events_view(out@).map_values(|m: MessageSendEventView| m.msg)[k]
                    == all[k]);
            }
        }
        let ghost new_msgs = msg_events_view(out@);
        self.pending_msg_events.append(&mut out);
        assert(self@.pending_msg_events =~= before@.pending_msg_events + new_msgs);
        assert(self@.entries =~= before@.entries);
    }

    /// Notes that a peer named a channel that this node does not have.
    fn report_unknown_channel(&mut self, peer: NodeId)
        requires
            old(self).inv(),
        ensures
            final(self).inv(),
            final(self)@ == old(self)@.unknown_channel(peer),
    {
        self.pending_msg_events.push(
            MessageSendEvent {
                node_id: peer,
                msg: Message::HandleError(ErrorAction::SendErrorMessage),
            },
        );
        assert(self@.pending_msg_events =~= old(self)@.unknown_channel(peer).pending_msg_events);
        assert(self@.entries =~= old(self)@.entries);
    }

    /// Starts a teleport of the channel to `new_funding_txo`.
    pub fn teleport_channel(
        &mut self,
        channel_id: ChannelId,
        peer: NodeId,
        new_funding_txo: FundingOutPoint,
        responder_value_removal_sat: u64,
        initiator_value_removal_sat: u64,
    ) -> (res: Result<
        (),
        APIError,
    >)
        requires
            old(self).inv(),
        ensures
            final(self).inv(),
            old(self)@.called(
                peer,
                channel_id,
                old(self)@.entry(peer, channel_id).teleport_channel(
                    new_funding_txo,
                    ValueRemovals { responder_value_removal_sat, initiator_value_removal_sat },
                ),
                final(self)@,
                res,
            ),
    {
        match self.find(peer, channel_id) {
            Some(i) => {
                let res = self.entries[i].teleport_channel(
                    new_funding_txo,
                    ValueRemovals { responder_value_removal_sat, initiator_value_removal_sat },
                );
                assert(self@.entries =~= old(self)@.entries.update(
                    i as int,
                    self.entries@[i as int]@,
                ));
                match res {
                    Ok(fx) => {
                        self.absorb(peer, fx);
                        Ok(())
                    },
                    Err(e) => {
                        assert(self@ =~= old(self)@);
                        Err(e)
                    },
                }
            },
            None => Err(APIError::ChannelUnavailable),
        }
    }

    /// Accepts the proposed teleport of the channel.
    pub fn ack_teleport(&mut self, channel_id: ChannelId, peer: NodeId) -> (res: Result<
        (),
        APIError,
    >)
        requires
            old(self).inv(),
        ensures
            final(self).inv(),
            old(self)@.called(
                peer,
                channel_id,
                old(self)@.entry(peer, channel_id).ack_teleport(),
                final(self)@,
                res,
            ),
    {
        match self.find(peer, channel_id) {
            Some(i) => {
                let res = self.entries[i].ack_teleport();
                assert(self@.entries =~= old(self)@.entries.update(
                    i as int,
                    self.entries@[i as int]@,
                ));
                match res {
                    Ok(fx) => {
                        self.absorb(peer, fx);
                        Ok(())
                    },
                    Err(e) => {
                        assert(self@ =~= old(self)@);
                        Err(e)
                    },
                }
            },
            None => Err(APIError::ChannelUnavailable),
        }
    }

    /// Refuses the proposed teleport of the channel.
    pub fn cancel_teleport(&mut self, channel_id: ChannelId, peer: NodeId) -> (res: Result<
        (),
        APIError,
    >)
        requires
            old(self).inv(),
        ensures
            final(self).inv(),
            old(self)@.called(
                peer,
                channel_id,
                old(self)@.entry(peer, channel_id).cancel_teleport(),
                final(self)@,
                res,
            ),
    {
        match self.find(peer, channel_id) {
            Some(i) => {
                let res = self.entries[i].cancel_teleport();
                assert(self@.entries =~= old(self)@.entries.update(
                    i as int,
                    self.entries@[i as int]@,
                ));
                match res {
                    Ok(fx) => {
                        self.absorb(peer, fx);
                        Ok(())
                    },
                    Err(e) => {
                        assert(self@ =~= old(self)@);
                        Err(e)
                    },
                }
            },
            None => Err(APIError::ChannelUnavailable),
        }
    }

    /// Completes the teleport of the channel.
    pub fn complete_teleport(&mut self, channel_id: ChannelId, peer: NodeId) -> (res: Result<
        (),
        APIError,
    >)
        requires
            old(self).inv(),
        ensures
            final(self).inv(),
            old(self)@.called(
                peer,
                channel_id,
                old(self)@.entry(peer, channel_id).complete_teleport(),
                final(self)@,
                res,
            ),
    {
        match self.find(peer, channel_id) {
            Some(i) => {
                let res = self.entries[i].complete_teleport();
                assert(self@.entries =~= old(self)@.entries.update(
                    i as int,
                    self.entries@[i as int]@,
                ));
                match res {
                    Ok(fx) => {
                        self.absorb(peer, fx);
                        Ok(())
                    },
                    Err(e) => {
                        assert(self@ =~= old(self)@);
                        Err(e)
                    },
                }
            },
            None => Err(APIError::ChannelUnavailable),
        }
    }

    /// Sends a payment to the peer.
    pub fn send_payment(
        &mut self,
        channel_id: ChannelId,
        peer: NodeId,
        payment_hash: PaymentHash,
        amount_msat: u64,
        cltv_expiry: u32,
    ) -> (res: Result<(), APIError>)
        requires
            old(self).inv(),
        ensures
            final(self).inv(),
            old(self)@.called(
                peer,
                channel_id,
                old(self)@.entry(peer, channel_id).send_payment(
                    payment_hash,
                    amount_msat,
                    cltv_expiry,
                ),
                final(self)@,
                res,
            ),
    {
        match self.find(peer, channel_id) {
            Some(i) => {
                let res = self.entries[i].send_payment(payment_hash, amount_msat, cltv_expiry);
                assert(self@.entries =~= old(self)@.entries.update(
                    i as int,
                    self.entries@[i as int]@,
                ));
                match res {
                    Ok(fx) => {
                        self.absorb(peer, fx);
                        Ok(())
                    },
                    Err(e) => {
                        assert(self@ =~= old(self)@);
                        Err(e)
                    },
                }
            },
            None => Err(APIError::ChannelUnavailable),
        }
    }

    /// Claims a payment that has arrived.
    pub fn claim_funds(
        &mut self,
        channel_id: ChannelId,
        peer: NodeId,
        payment_hash: PaymentHash,
    ) -> (res: Result<(), APIError>)
        requires
            old(self).inv(),
        ensures
            final(self).inv(),
            old(self)@.called(
                peer,
                channel_id,
                old(self)@.entry(peer, channel_id).resolve_payment(payment_hash, true),
                final(self)@,
                res,
            ),
    {
        match self.find(peer, channel_id) {
            Some(i) => {
                let res = self.entries[i].resolve_payment(payment_hash, true);
                assert(self@.entries =~= old(self)@.entries.update(
                    i as int,
                    self.entries@[i as int]@,
                ));
                match res {
                    Ok(fx) => {
                        self.absorb(peer, fx);
                        Ok(())
                    },
                    Err(e) => {
                        assert(self@ =~= old(self)@);
                        Err(e)
                    },
                }
            },
            None => Err(APIError::ChannelUnavailable),
        }
    }

    /// Fails a payment that has arrived.
    pub fn fail_htlc_backwards(
        &mut self,
        channel_id: ChannelId,
        peer: NodeId,
        payment_hash: PaymentHash,
    ) -> (res: Result<(), APIError>)
        requires
            old(self).inv(),
        ensures
            final(self).inv(),
            old(self)@.called(
                peer,
                channel_id,
                old(self)@.entry(peer, channel_id).resolve_payment(payment_hash, false),
                final(self)@,
                res,
            ),
    {
        match self.find(peer, channel_id) {
            Some(i) => {
                let res = self.entries[i].resolve_payment(payment_hash, false);
                assert(self@.entries =~= old(self)@.entries.update(
                    i as int,
                    self.entries@[i as int]@,
                ));
                match res {
                    Ok(fx) => {
                        self.absorb(peer, fx);
                        Ok(())
                    },
                    Err(e) => {
                        assert(self@ =~= old(self)@);
                        Err(e)
                    },
                }
            },
            None => Err(APIError::ChannelUnavailable),
        }
    }

    /// Handles `stfu`.
    pub fn handle_stfu(&mut self, peer: NodeId, msg: &Stfu)
        requires
            old(self).inv(),
        ensures
            final(self).inv(),
            final(self)@ == old(self)@.handled(
                peer,
                msg.channel_id,
                old(self)@.entry(peer, msg.channel_id).stfu(*msg),
            ),
    {
        match self.find(peer, msg.channel_id) {
            Some(i) => {
                let fx = self.entries[i].handle_stfu(msg);
                assert(self@.entries =~= old(self)@.entries.update(
                    i as int,
                    self.entries@[i as int]@,
                ));
                self.absorb(peer, fx);
            },
            None => self.report_unknown_channel(peer),
        }
    }

    /// Handles `teleport_init`.
    pub fn handle_teleport_init(&mut self, peer: NodeId, msg: &TeleportInit)
        requires
            old(self).inv(),
        ensures
            final(self).inv(),
            final(self)@ == old(self)@.handled(
                peer,
                msg.channel_id,
                old(self)@.entry(peer, msg.channel_id).teleport_init(*msg),
            ),
    {
        match self.find(peer, msg.channel_id) {
            Some(i) => {
                let fx = self.entries[i].handle_teleport_init(msg);
                assert(self@.entries =~= old(self)@.entries.update(
                    i as int,
                    self.entries@[i as int]@,
                ));
                self.absorb(peer, fx);
            },
            None => self.report_unknown_channel(peer),
        }
    }

    /// Handles `teleport_ack`.
    pub fn handle_teleport_ack(&mut self, peer: NodeId, msg: &TeleportAck)
        requires
            old(self).inv(),
        ensures
            final(self).inv(),
            final(self)@ == old(self)@.handled(
                peer,
                msg.channel_id,
                old(self)@.entry(peer, msg.channel_id).teleport_ack(),
            ),
    {
        match self.find(peer, msg.channel_id) {
            Some(i) => {
                let fx = self.entries[i].handle_teleport_ack();
                assert(self@.entries =~= old(self)@.entries.update(
                    i as int,
                    self.entries@[i as int]@,
                ));
                self.absorb(peer, fx);
            },
            None => self.report_unknown_channel(peer),
        }
    }

    /// Handles `teleport_complete`.
    pub fn handle_teleport_complete(&mut self, peer: NodeId, msg: &TeleportComplete)
        requires
            old(self).inv(),
        ensures
            final(self).inv(),
            final(self)@ == old(self)@.handled(
                peer,
                msg.channel_id,
                old(self)@.entry(peer, msg.channel_id).teleport_complete(),
            ),
    {
        match self.find(peer, msg.channel_id) {
            Some(i) => {
                let fx = self.entries[i].handle_teleport_complete();
                assert(self@.entries =~= old(self)@.entries.update(
                    i as int,
                    self.entries@[i as int]@,
                ));
                self.absorb(peer, fx);
            },
            None => self.report_unknown_channel(peer),
        }
    }

    /// Handles `teleport_complete_ack`.
    pub fn handle_teleport_complete_ack(&mut self, peer: NodeId, msg: &TeleportCompleteAck)
        requires
            old(self).inv(),
        ensures
            final(self).inv(),
            final(self)@ == old(self)@.handled(
                peer,
                msg.channel_id,
                old(self)@.entry(peer, msg.channel_id).teleport_complete_ack(),
            ),
    {
        match self.find(peer, msg.channel_id) {
            Some(i) => {
                let fx = self.entries[i].handle_teleport_complete_ack();
                assert(self@.entries =~= old(self)@.entries.update(
                    i as int,
                    self.entries@[i as int]@,
                ));
                self.absorb(peer, fx);
            },
            None => self.report_unknown_channel(peer),
        }
    }

    /// Handles `teleport_abort`.
    pub fn handle_teleport_abort(&mut self, peer: NodeId, msg: &TeleportAbort)
        requires
            old(self).inv(),
        ensures
            final(self).inv(),
            final(self)@ == old(self)@.handled(
                peer,
                msg.channel_id,
                old(self)@.entry(peer, msg.channel_id).teleport_abort(),
            ),
    {
        match self.find(peer, msg.channel_id) {
            Some(i) => {
                let fx = self.entries[i].handle_teleport_abort();
                assert(self@.entries =~= old(self)@.entries.update(
                    i as int,
                    self.entries@[i as int]@,
                ));
                self.absorb(peer, fx);
            },
            None => self.report_unknown_channel(peer),
        }
    }

    /// Handles `commitment_signed`.
    pub fn handle_commitment_signed(&mut self, peer: NodeId, msg: &CommitmentSigned)
        requires
            old(self).inv(),
        ensures
            final(self).inv(),
            final(self)@ == old(self)@.handled(
                peer,
                msg.channel_id,
                old(self)@.entry(peer, msg.channel_id).commitment_signed(*msg),
            ),
    {
        match self.find(peer, msg.channel_id) {
            Some(i) => {
                let fx = self.entries[i].handle_commitment_signed(msg);
                assert(self@.entries =~= old(self)@.entries.update(
                    i as int,
                    self.entries@[i as int]@,
                ));
                self.absorb(peer, fx);
            },
            None => self.report_unknown_channel(peer),
        }
    }

    /// Handles `revoke_and_ack`.
    pub fn handle_revoke_and_ack(&mut self, peer: NodeId, msg: &RevokeAndACK)
        requires
            old(self).inv(),
        ensures
            final(self).inv(),
            final(self)@ == old(self)@.handled(
                peer,
                msg.channel_id,
                old(self)@.entry(peer, msg.channel_id).revoke_and_ack(*msg),
            ),
    {
        match self.find(peer, msg.channel_id) {
            Some(i) => {
                let fx = self.entries[i].handle_revoke_and_ack(msg);
                assert(self@.entries =~= old(self)@.entries.update(
                    i as int,
                    self.entries@[i as int]@,
                ));
                self.absorb(peer, fx);
            },
            None => self.report_unknown_channel(peer),
        }
    }

    /// Handles `channel_reestablish`.
    pub fn handle_channel_reestablish(&mut self, peer: NodeId, msg: &ChannelReestablish)
        requires
            old(self).inv(),
        ensures
            final(self).inv(),
            final(self)@ == old(self)@.handled(
                peer,
                msg.channel_id,
                old(self)@.entry(peer, msg.channel_id).channel_reestablish(*msg),
            ),
    {
        match self.find(peer, msg.channel_id) {
            Some(i) => {
                let fx = self.entries[i].handle_channel_reestablish(msg);
                assert(self@.entries =~= old(self)@.entries.update(
                    i as int,
                    self.entries@[i as int]@,
                ));
                self.absorb(peer, fx);
            },
            None => self.report_unknown_channel(peer),
        }
    }

    /// Handles an update of the peer to the channel.
    pub fn handle_update(&mut self, peer: NodeId, channel_id: ChannelId, update: &Update)
        requires
            old(self).inv(),
        ensures
            final(self).inv(),
            final(self)@ == old(self)@.handled(
                peer,
                channel_id,
                old(self)@.entry(peer, channel_id).update_received(*update),
            ),
    {
        match self.find(peer, channel_id) {
            Some(i) => {
                let fx = self.entries[i].handle_update(update);
                assert(self@.entries =~= old(self)@.entries.update(
                    i as int,
                    self.entries@[i as int]@,
                ));
                self.absorb(peer, fx);
            },
            None => self.report_unknown_channel(peer),
        }
    }

    /// Closes the channel with its latest commitment. The peer is told, and the user learns of it
    /// with the message that is given here.
    pub fn force_close_broadcasting_latest_txn(
        &mut self,
        channel_id: ChannelId,
        peer: NodeId,
        message: String,
    ) -> (res: Result<(), APIError>)
        requires
            old(self).inv(),
        ensures
            final(self).inv(),
            old(self)@.called(
                peer,
                channel_id,
                Ok(
                    old(self)@.entry(peer, channel_id).closed_by(
                        ClosureReason::HolderForceClosed {
                            broadcasted_latest_txn: Some(true),
                            message,
                        },
                    ),
                ),
                final(self)@,
                res,
            ),
    {
        match self.find(peer, channel_id) {
            Some(i) => {
                let fx = self.entries[i].close_by(
                    ClosureReason::HolderForceClosed {
                        broadcasted_latest_txn: Some(true),
                        message,
                    },
                );
                assert(self@.entries =~= old(self)@.entries.update(
                    i as int,
                    self.entries@[i as int]@,
                ));
                self.absorb(peer, fx);
                Ok(())
            },
            None => Err(APIError::ChannelUnavailable),
        }
    }

    /// Notes that a commitment of the channel was confirmed: the channel is closed, and the peer is
    /// told.
    pub fn commitment_confirmed(&mut self, channel_id: ChannelId, peer: NodeId) -> (res: Result<
        (),
        APIError,
    >)
        requires
            old(self).inv(),
        ensures
            final(self).inv(),
            old(self)@.called(
                peer,
                channel_id,
                Ok(
                    old(self)@.entry(peer, channel_id).closed_by(
                        ClosureReason::CommitmentTxConfirmed,
                    ),
                ),
                final(self)@,
                res,
            ),
    {
        match self.find(peer, channel_id) {
            Some(i) => {
                let fx = self.entries[i].close_by(ClosureReason::CommitmentTxConfirmed);
                assert(self@.entries =~= old(self)@.entries.update(
                    i as int,
                    self.entries@[i as int]@,
                ));
                self.absorb(peer, fx);
                Ok(())
            },
            None => Err(APIError::ChannelUnavailable),
        }
    }

    /// What the user sees of the open channels.
    pub fn list_channels(&self) -> (channels: Vec<ChannelDetails>)
        ensures
            channels@ == open_channels(self@.entries),
    {
        let ghost all = self@.entries;
        let mut channels: Vec<ChannelDetails> = Vec::new();
        assert(channels@ =~= open_channels(all.take(0)));
        let mut i: usize = 0;
        while i < self.entries.len()
            invariant
                i <= self.entries.len(),
                all == self@.entries,
                channels@ == open_channels(all.take(i as int)),
            decreases self.entries.len() - i,
        {
            assert(all.take(i + 1).drop_last() =~= all.take(i as int));
            assert(all.take(i + 1).last() == self.entries@[i as int]@);
            let e = &self.entries[i];
            if !e.is_closed {
                channels.push(
                    ChannelDetails {
                        channel_id: e.channel.channel_id,
                        counterparty_node_id: e.channel.counterparty,
                        funding_txo: e.channel.funding.funding_txo,
                        channel_value_satoshis: e.channel.funding.value_sat,
                        channel_type: e.terms.channel_type,
                    },
                );
            }
            i = i + 1;
        }
        assert(all.take(all.len() as int) =~= all);
        channels
    }

    /// What this node tells its peers that it can do.
    pub fn init_features(&self) -> (features: InitFeatures)
        ensures
            features == self@.features,
    {
        self.features
    }

    /// Takes the queued messages, which thereby are sent.
    pub fn get_and_clear_pending_msg_events(&mut self) -> (msgs: Vec<MessageSendEvent>)
        requires
            old(self).inv(),
        ensures
            final(self).inv(),
            msg_events_view(msgs@) == old(self)@.pending_msg_events,
            final(self)@ == old(self)@.drained(),
    {
        let mut msgs: Vec<MessageSendEvent> = Vec::new();
        msgs.append(&mut self.pending_msg_events);
        let ghost before = *old(self);
        let ghost queued = msg_events_view(msgs@);
        assert(msgs@ =~= before.pending_msg_events@);
        let mut i: usize = 0;
        while i < self.entries.len()
            invariant
                i <= self.entries.len(),
                self.inv(),
                before == *old(self),
                queued == msg_events_view(msgs@),
                queued == before@.pending_msg_events,
                self.entries.len() == before.entries.len(),
                forall|j: int|
                    0 <= j < i ==> (#[trigger] self.entries@[j])@ == before@.drained().entries[j],
                forall|j: int|
                    i <= j < self.entries.len() ==> #[trigger] self.entries@[j]
                        == before.entries@[j],
                self.node_id == before.node_id,
                self.features == before.features,
                self.peers == before.peers,
                self.pending_msg_events@.len() == 0,
                self.pending_events == before.pending_events,
                self.added_monitors == before.added_monitors,
                self.feerate_per_kw == before.feerate_per_kw,
            decreases self.entries.len() - i,
        {
            let (ack, complete_ack) = queued_acks(
                &msgs,
                self.entries[i].channel.counterparty,
                self.entries[i].channel.channel_id,
            );
            assert(self.entries@[i as int]@ == before@.entries[i as int]);
            self.entries[i].note_messages_sent(ack, complete_ack);
            i = i + 1;
        }
        assert(self@.entries =~= before@.drained().entries);
        assert(self@.pending_msg_events =~= seq![]);
        msgs
    }

    /// Takes the queued events.
    pub fn get_and_clear_pending_events(&mut self) -> (events: Vec<Event>)
        requires
            old(self).inv(),
        ensures
            final(self).inv(),
            events@ == old(self)@.pending_events,
            final(self)@ == (NodeView { pending_events: seq![], ..old(self)@ }),
    {
        let mut events: Vec<Event> = Vec::new();
        events.append(&mut self.pending_events);
        assert(events@ =~= old(self)@.pending_events);
        assert(self@.pending_events =~= seq![]);
        assert(self@.entries =~= old(self)@.entries);
        events
    }

    /// Takes the monitor updates since the last look at them.
    pub fn take_added_monitors(&mut self) -> (updates: Vec<MonitorUpdate>)
        requires
            old(self).inv(),
        ensures
            final(self).inv(),
            updates@ == old(self)@.added_monitors,
            final(self)@ == (NodeView { added_monitors: seq![], ..old(self)@ }),
    {
        let mut updates: Vec<MonitorUpdate> = Vec::new();
        updates.append(&mut self.added_monitors);
        assert(updates@ =~= old(self)@.added_monitors);
        assert(self@.added_monitors =~= seq![]);
        assert(self@.entries =~= old(self)@.entries);
        updates
    }

    /// Notes that the connection to a peer dropped.
    pub fn peer_disconnected(&mut self, peer: NodeId)
        requires
            old(self).inv(),
        ensures
            final(self).inv(),
            final(self)@ == old(self)@.disconnected(peer),
    {
        let ghost before = *old(self);
        drop_messages_to(&mut self.pending_msg_events, peer);
        self.peers = peers_without(&self.peers, peer);
        let mut i: usize = 0;
        while i < self.entries.len()
            invariant
                i <= self.entries.len(),
                self.inv(),
                before == *old(self),
                self.entries.len() == before.entries.len(),
                forall|j: int|
                    0 <= j < i ==> (#[trigger] self.entries@[j])@ == before@.disconnected(
                        peer,
                    ).entries[j],
                forall|j: int|
                    i <= j < self.entries.len() ==> #[trigger] self.entries@[j]
                        == before.entries@[j],
                self.node_id == before.node_id,
                self.features == before.features,
                self.peers@ == other_peers(before.peers@, peer),
                self@.pending_msg_events == before@.disconnected(peer).pending_msg_events,
                self.pending_events == before.pending_events,
                self.added_monitors == before.added_monitors,
                self.feerate_per_kw == before.feerate_per_kw,
            decreases self.entries.len() - i,
        {
            assert(self.entries@[i as int]@ == before@.entries[i as int]);
            if self.entries[i].channel.counterparty == peer {
                self.entries[i].peer_disconnected();
            }
            i = i + 1;
        }
        assert(self@.entries =~= before@.disconnected(peer).entries);
    }

    /// Notes that the node restarts from what it keeps across a restart.
    pub fn reload(&mut self)
        requires
            old(self).inv(),
        ensures
            final(self).inv(),
            final(self)@ == old(self)@.restarted(),
    {
        let ghost before = *old(self);
        self.peers = Vec::new();
        self.pending_msg_events = Vec::new();
        self.added_monitors = Vec::new();
        let mut i: usize = 0;
        while i < self.entries.len()
            invariant
                i <= self.entries.len(),
                self.inv(),
                before == *old(self),
                self.entries.len() == before.entries.len(),
                forall|j: int|
                    0 <= j < i ==> (#[trigger] self.entries@[j])@ == before@.restarted().entries[j],
                forall|j: int|
                    i <= j < self.entries.len() ==> #[trigger] self.entries@[j]
                        == before.entries@[j],
                self.node_id == before.node_id,
                self.features == before.features,
                self.peers@.len() == 0,
                self.pending_msg_events@.len() == 0,
                self.pending_events == before.pending_events,
                self.added_monitors@.len() == 0,
                self.feerate_per_kw == before.feerate_per_kw,
            decreases self.entries.len() - i,
        {
            assert(self.entries@[i as int]@ == before@.entries[i as int]);
            self.entries[i].peer_disconnected();
            i = i + 1;
        }
        assert(self@.entries =~= before@.restarted().entries);
        assert(self@.peers =~= seq![]);
        assert(self@.pending_msg_events =~= seq![]);
        assert(self@.added_monitors =~= seq![]);
    }

    /// Notes that a connection to a peer was made, and resumes the channels with it. A peer whose
    /// key would change with the commitment is refused.
    pub fn peer_connected(&mut self, peer: NodeId, init: &Init, inbound: bool) -> (res: Result<
        (),
        (),
    >)
        requires
            old(self).inv(),
        ensures
            final(self).inv(),
            res is Ok <==> init.features.static_remote_key,
            res is Ok ==> final(self)@ == old(self)@.connected(peer, *init, inbound),
            res is Err ==> final(self)@ == old(self)@,
    {
        if !init.features.static_remote_key {
            return Err(());
        }
        let ghost before = *old(self);
        self.peers = peers_without(&self.peers, peer);
        self.peers.push(Peer { node_id: peer, features: init.features, is_inbound: inbound });
        let ghost peers = self.peers@;
        let ghost all = before@.entries;
        assert(self@.pending_msg_events =~= before@.pending_msg_events + reestablish_msgs(
            all.take(0),
            peer,
        ));
        let mut i: usize = 0;
        while i < self.entries.len()
            invariant
                i <= self.entries.len(),
                self.inv(),
                before == *old(self),
                all == before@.entries,
                self.entries == before.entries,
                self.node_id == before.node_id,
                self.features == before.features,
                self.peers@ == peers,
                self@.pending_msg_events == before@.pending_msg_events + reestablish_msgs(
                    all.take(i as int),
                    peer,
                ),
                self.pending_events == before.pending_events,
                self.added_monitors == before.added_monitors,
                self.feerate_per_kw == before.feerate_per_kw,
            decreases self.entries.len() - i,
        {
            let ghost queued = self@.pending_msg_events;
            assert(all.take(i + 1).drop_last() =~= all.take(i as int));
            assert(all.take(i + 1).last() == self.entries@[i as int]@);
            if !self.entries[i].is_closed && self.entries[i].channel.counterparty == peer {
                let msg = self.entries[i].channel.get_channel_reestablish();
                let event = MessageSendEvent {
                    node_id: peer,
                    msg: Message::SendChannelReestablish(msg),
                };
                let ghost event_view = event@;
                self.pending_msg_events.push(event);
                assert(self@.pending_msg_events =~= queued.push(event_view));
            }
            assert(self@.pending_msg_events =~= before@.pending_msg_events + reestablish_msgs(
                all.take(i + 1),
                peer,
            ));
            i = i + 1;
        }
        assert(all.take(all.len() as int) =~= all);
        assert(self@.entries =~= before@.entries);
        Ok(())
    }

    /// Counts a timer tick for every channel.
    pub fn timer_tick_occurred(&mut self)
        requires
            old(self).inv(),
        ensures
            final(self).inv(),
            final(self)@ == old(self)@.ticked(old(self)@.entries.len()),
    {
        let ghost before = *old(self);
        let mut i: usize = 0;
        while i < self.entries.len()
            invariant
                i <= self.entries.len(),
                self.inv(),
                before == *old(self),
                self.entries.len() == before.entries.len(),
                self.feerate_per_kw == before.feerate_per_kw,
                self@ == before@.ticked(i as nat),
            decreases self.entries.len() - i,
        {
            let ghost so_far = *self;
            if !self.entries[i].is_closed {
                let peer = self.entries[i].channel.counterparty;
                let feerate_per_kw: u32 = self.feerate_per_kw;
                let fx = self.entries[i].timer_tick(feerate_per_kw);
                assert(self@.entries =~= so_far@.entries.update(
                    i as int,
                    self.entries@[i as int]@,
                ));
                self.absorb(peer, fx);
            }
            i = i + 1;
        }
    }
}

/// The peers but for one.
fn peers_without(peers: &Vec<Peer>, peer: NodeId) -> (others: Vec<Peer>)
    ensures
        others@ == other_peers(peers@, peer),
{
    let ghost keeps = |p: Peer| p.node_id != peer;
    let mut others: Vec<Peer> = Vec::new();
    proof {
        reveal(Seq::filter);
        assert(peers@.take(0).filter(keeps) =~= seq![]);
    }
    let mut i: usize = 0;
    while i < peers.len()
        invariant
            i <= peers.len(),
            keeps == (|p: Peer| p.node_id != peer),
            others@ == peers@.take(i as int).filter(keeps),
        decreases peers.len() - i,
    {
        proof {
            assert(peers@.take(i + 1).drop_last() =~= peers@.take(i as int));
            reveal(Seq::filter);
        }
        if peers[i].node_id != peer {
            others.push(peers[i]);
        }
        i = i + 1;
    }
    assert(peers@.take(peers.len() as int) =~= peers@);
    others
}

/// Whether an acceptance and whether an acknowledgement for the channel is among the messages.
fn queued_acks(msgs: &Vec<MessageSendEvent>, peer: NodeId, channel_id: ChannelId) -> (r: (
    bool,
    bool,
))
    ensures
        r.0 == ack_queued(msg_events_view(msgs@), peer, channel_id),
        r.1 == complete_ack_queued(msg_events_view(msgs@), peer, channel_id),
{
    let ghost all = msg_events_view(msgs@);
    let mut ack: bool = false;
    let mut complete_ack: bool = false;
    let mut i: usize = 0;
    assert(all.take(0).len() == 0);
    while i < msgs.len()
        invariant
            i <= msgs.len(),
            all == msg_events_view(msgs@),
            ack == ack_queued(all.take(i as int), peer, channel_id),
            complete_ack == complete_ack_queued(all.take(i as int), peer, channel_id),
        decreases msgs.len() - i,
    {
        let ghost shorter = all.take(i as int);
        let ghost longer = all.take(i + 1);
        let ghost (had_ack, had_complete_ack) = (ack, complete_ack);
        assert(longer =~= shorter.push(all[i as int]));
        assert(longer[i as int] == msgs@[i as int]@);
        if msgs[i].node_id == peer {
            match &msgs[i].msg {
                Message::SendTeleportAck(m) => {
                    if m.channel_id == channel_id {
                        ack = true;
                    }
                },
                Message::SendTeleportCompleteAck(m) => {
                    if m.channel_id == channel_id {
                        complete_ack = true;
                    }
                },
                _ => {},
            }
        }
        assert(ack_queued(shorter, peer, channel_id) ==> ack_queued(longer, peer, channel_id)) by {
            if ack_queued(shorter, peer, channel_id) {
                let k = choose|k: int|
                    0 <= k < shorter.len() && #[trigger] shorter[k] == (MessageSendEventView {
                        node_id: peer,
                        msg: MessageView::SendTeleportAck(TeleportAck { channel_id }),
                    });
                assert(longer[k] == shorter[k]);
            }
        }
        assert(complete_ack_queued(shorter, peer, channel_id) ==> complete_ack_queued(
            longer,
            peer,
            channel_id,
        )) by {
            if complete_ack_queued(shorter, peer, channel_id) {
                let k = choose|k: int|
                    0 <= k < shorter.len() && #[trigger] shorter[k] == (MessageSendEventView {
                        node_id: peer,
                        msg: MessageView::SendTeleportCompleteAck(
                            TeleportCompleteAck { channel_id },
                        ),
                    });
                assert(longer[k] == shorter[k]);
            }
        }
        i = i + 1;
    }
    assert(all.take(all.len() as int) =~= all);
    (ack, complete_ack)
}

/// Drops the messages to a peer.
fn drop_messages_to(msgs: &mut Vec<MessageSendEvent>, peer: NodeId)
    ensures
        msg_events_view(final(msgs)@) == msg_events_view(old(msgs)@).filter(
            |m: MessageSendEventView| m.node_id != peer,
        ),
{
    let ghost all = msg_events_view(old(msgs)@);
    let ghost keeps = |m: MessageSendEventView| m.node_id != peer;
    let ghost mut seen: int = 0;
    let mut i: usize = 0;
    proof {
        reveal(Seq::filter);
        assert(all.take(0).filter(keeps) =~= seq![]);
        assert(all.take(0).filter(keeps) + all.skip(0) =~= all);
    }
    while i < msgs.len()
        invariant
            i <= msgs.len(),
            0 <= seen <= all.len(),
            keeps == (|m: MessageSendEventView| m.node_id != peer),
            i == all.take(seen).filter(keeps).len(),
            msg_events_view(msgs@) == all.take(seen).filter(keeps) + all.skip(seen),
        decreases msgs.len() - i,
    {
        let ghost view = msg_events_view(msgs@);
        proof {
            assert(view.len() == i + (all.len() - seen));
            assert(view[i as int] == all[seen]);
            assert(view[i as int] == msgs@[i as int]@);
            assert(all.take(seen + 1).drop_last() =~= all.take(seen));
            assert(all.take(seen + 1).last() == all[seen]);
            reveal(Seq::filter);
        }
        if msgs[i].node_id == peer {
            let _ = msgs.remove(i);
            assert(msg_events_view(msgs@) =~= view.remove(i as int));
        } else {
            i = i + 1;
        }
        proof {
            seen = seen + 1;
            assert(msg_events_view(msgs@) =~= all.take(seen).filter(keeps) + all.skip(seen));
        }
    }
    assert(all.skip(seen) =~= seq![]);
    assert(all.take(seen) =~= all);
    assert(msg_events_view(msgs@) =~= all.filter(keeps));
}

} // verus!
