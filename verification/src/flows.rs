//! Whole passages of the teleport protocol between two nodes, and what can be read off a node
//! between them.
//!
//! The nodes are driven by hand: each function takes the messages that one node has queued and
//! hands them to the other.

use crate::channel::{Channel, FundingScope, PendingTeleport, Quiescence, ValueRemovals};
use crate::entry::ChannelEntryView;
use crate::events::Event;
use crate::monitor::{
    copy_bytes, find_watched, watched_script, ChannelMonitorView, MonitorUpdate,
};
use crate::msgs::{
    ChannelId, ChannelReestablish, CommitmentSigned, Init, Message, MessageSendEvent,
    MessageSendEventView, MessageView, NodeId, TeleportAck, TeleportCompleteAck,
};
use crate::node::{
    ack_queued, complete_ack_queued, find_with, msg_events_view, reestablish_msgs, Node, NodeView,
};
use crate::outpoint::FundingOutPoint;
use vstd::prelude::*;

verus! {

broadcast use crate::entry::group_steps;

/// The position of the first open channel with that id, or -1.
pub open spec fn find_open(entries: Seq<ChannelEntryView>, channel_id: ChannelId) -> int
    decreases entries.len(),
{
    if entries.len() == 0 {
        -1
    } else {
        let earlier = find_open(entries.drop_last(), channel_id);
        if earlier >= 0 {
            earlier
        } else if entries.last().is_open(channel_id) {
            entries.len() - 1
        } else {
            -1
        }
    }
}

/// The position of the first channel, open or closed, whose monitor has that id, or -1.
pub open spec fn find_monitor(entries: Seq<ChannelEntryView>, channel_id: ChannelId) -> int
    decreases entries.len(),
{
    if entries.len() == 0 {
        -1
    } else {
        let earlier = find_monitor(entries.drop_last(), channel_id);
        if earlier >= 0 {
            earlier
        } else if entries.last().monitor.channel_id == channel_id {
            entries.len() - 1
        } else {
            -1
        }
    }
}

impl NodeView {
    /// Whether the node has an open channel with that id.
    pub open spec fn has_channel(self, channel_id: ChannelId) -> bool {
        find_open(self.entries, channel_id) >= 0
    }

    /// The open channel with that id.
    pub open spec fn channel(self, channel_id: ChannelId) -> Channel {
        self.entries[find_open(self.entries, channel_id)].channel
    }

    /// Whether the node has a monitor for the channel with that id.
    pub open spec fn has_monitor(self, channel_id: ChannelId) -> bool {
        find_monitor(self.entries, channel_id) >= 0
    }

    /// The monitor of the channel with that id.
    pub open spec fn monitor(self, channel_id: ChannelId) -> ChannelMonitorView {
        self.entries[find_monitor(self.entries, channel_id)].monitor
    }

    /// Whether the channel with that id lingers after a teleport to `new_funding_txo`: promoted,
    /// open to updates, and waiting for a sign that the initiator promoted too.
    pub open spec fn lingers(
        self,
        channel_id: ChannelId,
        new_funding_txo: FundingOutPoint,
    ) -> bool {
        let c = self.channel(channel_id);
        &&& self.has_channel(channel_id)
        &&& c.is_lingering()
        &&& c.pending_teleport->Some_0.spec_new_funding_txo() == new_funding_txo
        &&& c.funding.funding_txo == new_funding_txo
        &&& c.quiescence !is Quiescent
    }
}

proof fn lemma_find_open_prefix(entries: Seq<ChannelEntryView>, n: int, channel_id: ChannelId)
    requires
        0 <= n <= entries.len(),
        find_open(entries.take(n), channel_id) >= 0,
    ensures
        find_open(entries, channel_id) == find_open(entries.take(n), channel_id),
    decreases entries.len() - n,
{
    if n == entries.len() {
        assert(entries.take(n) =~= entries);
    } else {
        assert(entries.take(n + 1).drop_last() =~= entries.take(n));
        lemma_find_open_prefix(entries, n + 1, channel_id);
    }
}

proof fn lemma_find_monitor_prefix(entries: Seq<ChannelEntryView>, n: int, channel_id: ChannelId)
    requires
        0 <= n <= entries.len(),
        find_monitor(entries.take(n), channel_id) >= 0,
    ensures
        find_monitor(entries, channel_id) == find_monitor(entries.take(n), channel_id),
    decreases entries.len() - n,
{
    if n == entries.len() {
        assert(entries.take(n) =~= entries);
    } else {
        assert(entries.take(n + 1).drop_last() =~= entries.take(n));
        lemma_find_monitor_prefix(entries, n + 1, channel_id);
    }
}

fn position_of_open(node: &Node, channel_id: ChannelId) -> (pos: Option<usize>)
    ensures
        match pos {
            Some(i) => i < node.entries.len() && i == find_open(node@.entries, channel_id),
            None => find_open(node@.entries, channel_id) == -1,
        },
{
    let ghost all = node@.entries;
    let mut i: usize = 0;
    while i < node.entries.len()
        invariant
            i <= node.entries.len(),
            all == node@.entries,
            find_open(all.take(i as int), channel_id) == -1,
        decreases node.entries.len() - i,
    {
        assert(all.take(i + 1).drop_last() =~= all.take(i as int));
        assert(all.take(i + 1).last() == node.entries@[i as int]@);
        if !node.entries[i].is_closed && node.entries[i].channel.channel_id == channel_id {
            proof {
                lemma_find_open_prefix(all, i + 1, channel_id);
            }
            return Some(i);
        }
        i = i + 1;
    }
    assert(all.take(all.len() as int) =~= all);
    None
}

fn position_of_monitor(node: &Node, channel_id: ChannelId) -> (pos: Option<usize>)
    ensures
        match pos {
            Some(i) => i < node.entries.len() && i == find_monitor(node@.entries, channel_id),
            None => find_monitor(node@.entries, channel_id) == -1,
        },
{
    let ghost all = node@.entries;
    let mut i: usize = 0;
    while i < node.entries.len()
        invariant
            i <= node.entries.len(),
            all == node@.entries,
            find_monitor(all.take(i as int), channel_id) == -1,
        decreases node.entries.len() - i,
    {
        assert(all.take(i + 1).drop_last() =~= all.take(i as int));
        assert(all.take(i + 1).last() == node.entries@[i as int]@);
        if node.entries[i].monitor.channel_id == channel_id {
            proof {
                lemma_find_monitor_prefix(all, i + 1, channel_id);
            }
            return Some(i);
        }
        i = i + 1;
    }
    assert(all.take(all.len() as int) =~= all);
    None
}

/// The number of this side's current commitment. It must survive a teleport.
pub fn holder_commitment_number(node: &Node, channel_id: ChannelId) -> (number: u64)
    requires
        node@.has_channel(channel_id),
    ensures
        number == node@.channel(channel_id).holder_commitment_number,
{
    let pos = position_of_open(node, channel_id);
    node.entries[pos.unwrap()].channel.holder_commitment_number
}

/// The part of the channel's value that belongs to this side.
pub fn value_to_self_msat(node: &Node, channel_id: ChannelId) -> (value: u64)
    requires
        node@.has_channel(channel_id),
    ensures
        value == node@.channel(channel_id).funding.value_to_self_msat,
{
    let pos = position_of_open(node, channel_id);
    node.entries[pos.unwrap()].channel.funding.value_to_self_msat
}

/// The output that funds the channel now.
pub fn current_funding_txo(node: &Node, channel_id: ChannelId) -> (txo: FundingOutPoint)
    requires
        node@.has_channel(channel_id),
    ensures
        txo == node@.channel(channel_id).funding.funding_txo,
{
    let pos = position_of_open(node, channel_id);
    node.entries[pos.unwrap()].channel.funding.funding_txo
}

/// The funding output that the channel's monitor guards now.
pub fn current_monitor_funding_txo(node: &Node, channel_id: ChannelId) -> (txo: FundingOutPoint)
    requires
        node@.has_monitor(channel_id),
    ensures
        txo == node@.monitor(channel_id).funding_txo,
{
    let pos = position_of_monitor(node, channel_id);
    node.entries[pos.unwrap()].monitor.get_funding_txo()
}

/// Whether the channel's monitor watches the outpoint.
pub fn monitor_watches_funding_txo(
    node: &Node,
    channel_id: ChannelId,
    funding_txo: FundingOutPoint,
) -> (watched: bool)
    requires
        node@.has_monitor(channel_id),
    ensures
        watched == (watched_script(node@.monitor(channel_id).outputs_to_watch, funding_txo)
            is Some),
{
    let pos = position_of_monitor(node, channel_id);
    find_watched(
        node.entries[pos.unwrap()].monitor.get_outputs_to_watch(),
        funding_txo,
    ).is_some()
}

/// The script under which the channel's monitor watches the outpoint.
pub fn funding_watch_script(node: &Node, channel_id: ChannelId, funding_txo: FundingOutPoint)
    -> (script: Vec<u8>)
    requires
        node@.has_monitor(channel_id),
        watched_script(node@.monitor(channel_id).outputs_to_watch, funding_txo) is Some,
    ensures
        Some(script@) == watched_script(node@.monitor(channel_id).outputs_to_watch, funding_txo),
{
    let pos = position_of_monitor(node, channel_id);
    let watched = node.entries[pos.unwrap()].monitor.get_outputs_to_watch();
    let found = find_watched(watched, funding_txo);
    let (k, j): (usize, usize) = found.unwrap();
    copy_bytes(&watched[k].1[j].1)
}

/// Whether the responder has promoted to `new_funding_txo` and acknowledged it, is open to updates
/// again, and waits for a sign that the initiator promoted too.
pub fn assert_responder_lingering_after_complete_ack(
    responder: &Node,
    channel_id: ChannelId,
    new_funding_txo: FundingOutPoint,
) -> (lingering: bool)
    ensures
        lingering == responder@.lingers(channel_id, new_funding_txo),
{
    match position_of_open(responder, channel_id) {
        None => false,
        Some(i) => {
            let channel = &responder.entries[i].channel;
            match channel.pending_teleport {
                Some(
                    PendingTeleport::AwaitingRemoteActivityAfterTeleportCompleteAckSend {
                        new_funding_txo: txo,
                        ..
                    },
                ) => txo == new_funding_txo && channel.funding.funding_txo == new_funding_txo
                    && channel.quiescence != Quiescence::Quiescent,
                _ => false,
            }
        },
    }
}

/// No removal on either side.
pub open spec fn no_removals() -> ValueRemovals {
    ValueRemovals { responder_value_removal_sat: 0, initiator_value_removal_sat: 0 }
}

impl ChannelEntryView {
    /// Whether the channel is connected, open to updates and without one in flight.
    pub open spec fn is_at_rest(self) -> bool {
        &&& !self.channel.is_disconnected
        &&& self.channel.quiescence is Active
        &&& self.book.is_idle()
    }

    /// This entry, paused, with its teleport at the given stage.
    pub open spec fn paused_at(self, stage: PendingTeleport) -> ChannelEntryView {
        ChannelEntryView {
            channel: Channel {
                quiescence: Quiescence::Quiescent,
                ..self.channel.at_stage(stage)
            },
            ..self
        }
    }
}

impl NodeView {
    /// This node with another channel at `i`.
    pub open spec fn with_entry(self, i: int, entry: ChannelEntryView) -> NodeView {
        NodeView { entries: self.entries.update(i, entry), ..self }
    }

    /// Whether a teleport of the channel to the responder can start: both ends are at rest, the
    /// initiator has no other teleport, and neither node has a message queued.
    pub open spec fn can_start_teleport(self, responder: NodeView, channel_id: ChannelId) -> bool {
        let i = self.find(responder.node_id, channel_id);
        let r = responder.find(self.node_id, channel_id);
        &&& i >= 0
        &&& r >= 0
        &&& self.entries[i].is_at_rest()
        &&& self.entries[i].channel.pending_teleport is None
        &&& responder.entries[r].is_at_rest()
        &&& self.pending_msg_events.len() == 0
        &&& responder.pending_msg_events.len() == 0
    }

    /// This node, the initiator, after it proposed a teleport.
    pub open spec fn teleport_proposed(
        self,
        peer: NodeId,
        channel_id: ChannelId,
        new_funding_txo: FundingOutPoint,
    ) -> NodeView {
        let i = self.find(peer, channel_id);
        self.with_entry(
            i,
            self.entries[i].paused_at(
                PendingTeleport::AwaitingTeleportAck { new_funding_txo, removals: no_removals() },
            ),
        )
    }

    /// This node, the responder, after a teleport was proposed to it: the user is asked.
    pub open spec fn teleport_asked(
        self,
        peer: NodeId,
        channel_id: ChannelId,
        new_funding_txo: FundingOutPoint,
    ) -> NodeView {
        let r = self.find(peer, channel_id);
        let e = self.entries[r];
        NodeView {
            pending_events: self.pending_events.push(
                Event::ChannelTeleport {
                    channel_id,
                    user_channel_id: e.channel.user_channel_id,
                    counterparty_node_id: peer,
                    new_funding_txo: new_funding_txo.spec_into_bitcoin_outpoint(),
                    responder_value_removal_sat: 0,
                    initiator_value_removal_sat: 0,
                },
            ),
            ..self.with_entry(
                r,
                e.paused_at(
                    PendingTeleport::AwaitingUserDecision {
                        new_funding_txo,
                        removals: no_removals(),
                    },
                ),
            )
        }
    }
}

/// Where a channel is does not change with what happens to it.
pub(crate) proof fn lemma_find_with_entry(
    entries: Seq<ChannelEntryView>,
    k: int,
    e: ChannelEntryView,
    peer: NodeId,
    channel_id: ChannelId,
)
    requires
        0 <= k < entries.len(),
        e.is_with(peer, channel_id) == entries[k].is_with(peer, channel_id),
    ensures
        find_with(entries.update(k, e), peer, channel_id) == find_with(entries, peer, channel_id),
    decreases entries.len(),
{
    let updated = entries.update(k, e);
    if k == entries.len() - 1 {
        assert(updated.drop_last() =~= entries.drop_last());
    } else {
        assert(updated.drop_last() =~= entries.drop_last().update(k, e));
        lemma_find_with_entry(entries.drop_last(), k, e, peer, channel_id);
    }
}

/// What is found is a channel with that peer and id.
pub(crate) proof fn lemma_found(entries: Seq<ChannelEntryView>, peer: NodeId, channel_id: ChannelId)
    ensures
        -1 <= find_with(entries, peer, channel_id) < entries.len(),
        find_with(entries, peer, channel_id) >= 0 ==> entries[find_with(
            entries,
            peer,
            channel_id,
        )].is_with(peer, channel_id),
    decreases entries.len(),
{
    if entries.len() > 0 {
        lemma_found(entries.drop_last(), peer, channel_id);
    }
}

/// Messages that neither accept nor acknowledge a teleport leave without a trace.
proof fn lemma_drain_others(node: NodeView)
    requires
        forall|k: int|
            0 <= k < node.pending_msg_events.len() ==> (#[trigger] node.pending_msg_events[k]).msg
                !is SendTeleportAck && node.pending_msg_events[k].msg !is SendTeleportCompleteAck,
    ensures
        node.drained() == (NodeView { pending_msg_events: seq![], ..node }),
{
    assert(node.drained().entries =~= node.entries);
}

/// Takes the only queued message.
fn take_msg(node: &mut Node) -> (msg: Message)
    requires
        old(node).inv(),
        old(node)@.pending_msg_events.len() == 1,
    ensures
        final(node).inv(),
        msg@ == old(node)@.pending_msg_events[0].msg,
        final(node)@ == old(node)@.drained(),
{
    let mut msgs = node.get_and_clear_pending_msg_events();
    assert(msg_events_view(msgs@)[0] == msgs@[0]@);
    msgs.remove(0).msg
}

/// Quiesces the channel and proposes a teleport to `new_funding_txo`, up to the point where the
/// responder's user is asked.
#[verifier::spinoff_prover]
pub fn start_teleport(
    initiator: &mut Node,
    responder: &mut Node,
    channel_id: ChannelId,
    new_funding_txo: FundingOutPoint,
)
    requires
        old(initiator).inv(),
        old(responder).inv(),
        old(initiator)@.can_start_teleport(old(responder)@, channel_id),
    ensures
        final(initiator).inv(),
        final(responder).inv(),
        final(initiator)@ == old(initiator)@.teleport_proposed(
            old(responder)@.node_id,
            channel_id,
            new_funding_txo,
        ),
        final(responder)@ == old(responder)@.teleport_asked(
            old(initiator)@.node_id,
            channel_id,
            new_funding_txo,
        ),
{
    reveal(ChannelEntryView::teleport_channel);
    reveal(ChannelEntryView::stfu);
    reveal(ChannelEntryView::teleport_init);
    let initiator_id = initiator.node_id;
    let responder_id = responder.node_id;
    let ghost i0 = initiator@;
    let ghost r0 = responder@;
    let ghost i = i0.find(responder_id, channel_id);
    let ghost r = r0.find(initiator_id, channel_id);
    proof {
        lemma_found(i0.entries, responder_id, channel_id);
        lemma_found(r0.entries, initiator_id, channel_id);
    }
    let res = initiator.teleport_channel(channel_id, responder_id, new_funding_txo, 0, 0);
    assert(res is Ok);
    proof {
        lemma_find_with_entry(
            i0.entries,
            i,
            initiator@.entries[i],
            responder_id,
            channel_id,
        );
        lemma_drain_others(initiator@);
    }
    if let Message::SendStfu(stfu) = take_msg(initiator) {
        responder.handle_stfu(initiator_id, &stfu);
        proof {
            lemma_find_with_entry(
                r0.entries,
                r,
                responder@.entries[r],
                initiator_id,
                channel_id,
            );
            lemma_drain_others(responder@);
        }
        if let Message::SendStfu(stfu) = take_msg(responder) {
            initiator.handle_stfu(responder_id, &stfu);
            proof {
                lemma_drain_others(initiator@);
            }
            if let Message::SendTeleportInit(teleport_init) = take_msg(initiator) {
                responder.handle_teleport_init(initiator_id, &teleport_init);
            }
        }
    }
}

impl ChannelEntryView {
    /// The teleport that waits for the acceptance of the counterparty, or of the user.
    pub open spec fn proposal(self) -> PendingTeleport {
        self.channel.pending_teleport->Some_0
    }

    /// This entry after it signed on the new scope.
    pub open spec fn signed_on_new_scope(self, is_initiator: bool) -> ChannelEntryView {
        ChannelEntryView {
            channel: self.channel.at_stage(
                PendingTeleport::AwaitingRemoteCommitmentSigned {
                    new_funding_txo: self.proposal().spec_new_funding_txo(),
                    removals: self.proposal().spec_removals(),
                    is_initiator,
                },
            ),
            ..self
        }
    }

    /// The signature of this side on the new scope.
    pub open spec fn own_new_scope_commitment(self) -> CommitmentSigned {
        self.channel.new_scope_commitment(self.proposal().spec_new_funding_txo())
    }
}

impl NodeView {
    /// Whether the proposed teleport can be accepted: the responder's user has to decide, the
    /// initiator waits for the acceptance of a teleport to the same outpoint and affords its
    /// removals, both count their commitments alike, and neither node has a message queued.
    pub open spec fn can_accept_teleport(self, responder: NodeView, channel_id: ChannelId) -> bool {
        let i = self.find(responder.node_id, channel_id);
        let r = responder.find(self.node_id, channel_id);
        let ei = self.entries[i];
        let er = responder.entries[r];
        &&& i >= 0
        &&& r >= 0
        &&& !ei.channel.is_disconnected
        &&& !er.channel.is_disconnected
        &&& ei.channel.pending_teleport is Some
        &&& ei.proposal() is AwaitingTeleportAck
        &&& ei.channel.removals_fit(ei.proposal().spec_removals(), true, ei.book.locked())
        &&& er.channel.pending_teleport is Some
        &&& er.proposal() is AwaitingUserDecision
        &&& er.proposal().spec_new_funding_txo() == ei.proposal().spec_new_funding_txo()
        &&& ei.channel.holder_commitment_number == er.channel.counterparty_commitment_number
        &&& ei.channel.counterparty_commitment_number == er.channel.holder_commitment_number
        &&& self.pending_msg_events.len() == 0
        &&& responder.pending_msg_events.len() == 0
    }

    /// This node after it signed on the new scope of the teleport with the peer.
    pub open spec fn teleport_signed(self, peer: NodeId, channel_id: ChannelId, is_initiator: bool)
        -> NodeView {
        let k = self.find(peer, channel_id);
        self.with_entry(k, self.entries[k].signed_on_new_scope(is_initiator))
    }

    /// This node after it signed on the new scope and then took in the signature of the peer. The
    /// monitor update that this leads to has been looked at.
    pub open spec fn teleport_exchanged(
        self,
        peer: NodeId,
        channel_id: ChannelId,
        is_initiator: bool,
        cs: CommitmentSigned,
    ) -> NodeView {
        let k = self.find(peer, channel_id);
        NodeView {
            added_monitors: seq![],
            ..self.stepped(
                k,
                self.entries[k].signed_on_new_scope(is_initiator).new_scope_commitment(cs),
            )
        }
    }
}

/// The acceptance leaves: only the channel that accepted notices.
proof fn lemma_drain_acceptance(node: NodeView, k: int)
    requires
        0 <= k < node.entries.len(),
        node.entries[k].channel.pending_teleport is Some,
        node.entries[k].proposal() is AwaitingTeleportAckSend,
        forall|a: int, b: int|
            0 <= a < b < node.entries.len() ==> (#[trigger] node.entries[a]).channel.channel_id != (
            #[trigger] node.entries[b]).channel.channel_id,
        node.pending_msg_events.len() == 2,
        node.pending_msg_events[0] == (MessageSendEventView {
            node_id: node.entries[k].channel.counterparty,
            msg: MessageView::SendTeleportAck(
                TeleportAck { channel_id: node.entries[k].channel.channel_id },
            ),
        }),
        node.pending_msg_events[1].msg is UpdateHTLCs,
    ensures
        node.drained() == (NodeView {
            pending_msg_events: seq![],
            ..node.with_entry(k, node.entries[k].signed_on_new_scope(false))
        }),
{
    let after = node.with_entry(k, node.entries[k].signed_on_new_scope(false));
    assert forall|j: int| 0 <= j < node.entries.len() implies node.drained().entries[j]
        == after.entries[j] by {
        let e = node.entries[j];
        assert(!complete_ack_queued(
            node.pending_msg_events,
            e.channel.counterparty,
            e.channel.channel_id,
        ));
        if j == k {
            assert(ack_queued(
                node.pending_msg_events,
                e.channel.counterparty,
                e.channel.channel_id,
            ));
        } else {
            assert(e.channel.channel_id != node.entries[k].channel.channel_id);
            assert(!ack_queued(
                node.pending_msg_events,
                e.channel.counterparty,
                e.channel.channel_id,
            ));
        }
    }
    assert(node.drained().entries =~= after.entries);
}

/// Takes the acceptance and the signature that the responder has queued.
fn take_acceptance(node: &mut Node) -> (acceptance: (Message, Message))
    requires
        old(node).inv(),
        old(node)@.pending_msg_events.len() == 2,
    ensures
        final(node).inv(),
        acceptance.0@ == old(node)@.pending_msg_events[0].msg,
        acceptance.1@ == old(node)@.pending_msg_events[1].msg,
        final(node)@ == old(node)@.drained(),
{
    let mut msgs = node.get_and_clear_pending_msg_events();
    assert(msg_events_view(msgs@)[0] == msgs@[0]@);
    assert(msg_events_view(msgs@)[1] == msgs@[1]@);
    let first = msgs.remove(0).msg;
    let second = msgs.remove(0).msg;
    (first, second)
}

/// Lets the responder's user accept the teleport and the initiator take the acceptance in. Returns
/// the signatures of the responder and of the initiator on the new scope.
#[verifier::spinoff_prover]
fn exchange_acceptance(initiator: &mut Node, responder: &mut Node, channel_id: ChannelId) -> (css: (
    CommitmentSigned,
    CommitmentSigned,
))
    requires
        old(initiator).inv(),
        old(responder).inv(),
        old(initiator)@.can_accept_teleport(old(responder)@, channel_id),
    ensures
        final(initiator).inv(),
        final(responder).inv(),
        final(initiator)@ == old(initiator)@.teleport_signed(
            old(responder)@.node_id,
            channel_id,
            true,
        ),
        final(responder)@ == old(responder)@.teleport_signed(
            old(initiator)@.node_id,
            channel_id,
            false,
        ),
        css.0 == old(responder)@.entry(
            old(initiator)@.node_id,
            channel_id,
        ).own_new_scope_commitment(),
        css.1 == old(initiator)@.entry(
            old(responder)@.node_id,
            channel_id,
        ).own_new_scope_commitment(),
{
    reveal(ChannelEntryView::ack_teleport);
    reveal(ChannelEntryView::teleport_ack);
    let initiator_id = initiator.node_id;
    let responder_id = responder.node_id;
    let ghost i0 = initiator@;
    let ghost r0 = responder@;
    let ghost i = i0.find(responder_id, channel_id);
    let ghost r = r0.find(initiator_id, channel_id);
    proof {
        lemma_found(i0.entries, responder_id, channel_id);
        lemma_found(r0.entries, initiator_id, channel_id);
    }
    let res = responder.ack_teleport(channel_id, initiator_id);
    assert(res is Ok);
    proof {
        lemma_drain_acceptance(responder@, r);
        assert(responder@.drained() =~= r0.teleport_signed(initiator_id, channel_id, false));
    }
    let (first, second) = take_acceptance(responder);
    let mut css: Option<(CommitmentSigned, CommitmentSigned)> = None;
    if let (Message::SendTeleportAck(teleport_ack), Message::UpdateHTLCs(responder_update)) = (
        first,
        second,
    ) {
        initiator.handle_teleport_ack(responder_id, &teleport_ack);
        proof {
            lemma_drain_others(initiator@);
            assert(initiator@.drained() =~= i0.teleport_signed(responder_id, channel_id, true));
        }
        if let Message::UpdateHTLCs(initiator_update) = take_msg(initiator) {
            css = Some(
                (responder_update.commitment_signed[0], initiator_update.commitment_signed[0]),
            );
        }
    }
    css.unwrap()
}

/// The monitor updates that a passage led to on either side.
#[derive(Debug)]
pub struct TeleportUpdates {
    pub initiator: Vec<MonitorUpdate>,
    pub responder: Vec<MonitorUpdate>,
}

/// Takes a teleport from the user's decision to the point where each side holds the other's
/// signature on the new scope. That leads to one monitor update on either side, which watches the
/// new outpoint.
#[verifier::spinoff_prover]
pub fn ack_teleport(initiator: &mut Node, responder: &mut Node, channel_id: ChannelId) -> (updates:
    TeleportUpdates)
    requires
        old(initiator).inv(),
        old(responder).inv(),
        old(initiator)@.can_accept_teleport(old(responder)@, channel_id),
        old(initiator)@.added_monitors.len() == 0,
        old(responder)@.added_monitors.len() == 0,
    ensures
        final(initiator).inv(),
        final(responder).inv(),
        final(initiator)@ == old(initiator)@.teleport_exchanged(
            old(responder)@.node_id,
            channel_id,
            true,
            old(responder)@.entry(old(initiator)@.node_id, channel_id).own_new_scope_commitment(),
        ),
        final(responder)@ == old(responder)@.teleport_exchanged(
            old(initiator)@.node_id,
            channel_id,
            false,
            old(initiator)@.entry(old(responder)@.node_id, channel_id).own_new_scope_commitment(),
        ),
        ({
            let funding_txo = old(initiator)@.entry(
                old(responder)@.node_id,
                channel_id,
            ).proposal().spec_new_funding_txo();
            &&& updates.initiator@ == seq![MonitorUpdate::RenegotiatedFunding { funding_txo }]
            &&& updates.responder@ == seq![MonitorUpdate::RenegotiatedFunding { funding_txo }]
        }),
{
    reveal(ChannelEntryView::commitment_signed);
    reveal(ChannelEntryView::new_scope_commitment);
    let initiator_id = initiator.node_id;
    let responder_id = responder.node_id;
    let ghost i0 = initiator@;
    let ghost r0 = responder@;
    let ghost i = i0.find(responder_id, channel_id);
    let ghost r = r0.find(initiator_id, channel_id);
    let ghost funding_txo = i0.entries[i].proposal().spec_new_funding_txo();
    proof {
        lemma_found(i0.entries, responder_id, channel_id);
        lemma_found(r0.entries, initiator_id, channel_id);
    }
    let (responder_cs, initiator_cs) = exchange_acceptance(initiator, responder, channel_id);
    proof {
        lemma_find_with_entry(i0.entries, i, initiator@.entries[i], responder_id, channel_id);
        lemma_find_with_entry(r0.entries, r, responder@.entries[r], initiator_id, channel_id);
    }
    initiator.handle_commitment_signed(responder_id, &responder_cs);
    let initiator_updates = initiator.take_added_monitors();
    responder.handle_commitment_signed(initiator_id, &initiator_cs);
    let responder_updates = responder.take_added_monitors();
    assert(initiator_updates@ =~= seq![MonitorUpdate::RenegotiatedFunding { funding_txo }]);
    assert(responder_updates@ =~= seq![MonitorUpdate::RenegotiatedFunding { funding_txo }]);
    TeleportUpdates { initiator: initiator_updates, responder: responder_updates }
}

/// Takes a teleport into the gap in which the responder holds the initiator's signature on the new
/// scope and the initiator still waits for the responder's. Returns the signature that the
/// initiator did not get, and the responder's monitor updates: the one that watches the new
/// outpoint. The initiator has none.
#[verifier::spinoff_prover]
pub fn ack_teleport_into_gap(initiator: &mut Node, responder: &mut Node, channel_id: ChannelId)
    -> (gap: (CommitmentSigned, Vec<MonitorUpdate>))
    requires
        old(initiator).inv(),
        old(responder).inv(),
        old(initiator)@.can_accept_teleport(old(responder)@, channel_id),
        old(responder)@.added_monitors.len() == 0,
    ensures
        final(initiator).inv(),
        final(responder).inv(),
        final(initiator)@ == old(initiator)@.teleport_signed(
            old(responder)@.node_id,
            channel_id,
            true,
        ),
        final(responder)@ == old(responder)@.teleport_exchanged(
            old(initiator)@.node_id,
            channel_id,
            false,
            old(initiator)@.entry(old(responder)@.node_id, channel_id).own_new_scope_commitment(),
        ),
        gap.0 == old(responder)@.entry(
            old(initiator)@.node_id,
            channel_id,
        ).own_new_scope_commitment(),
        gap.1@ == seq![
            MonitorUpdate::RenegotiatedFunding {
                funding_txo: old(responder)@.entry(
                    old(initiator)@.node_id,
                    channel_id,
                ).proposal().spec_new_funding_txo(),
            },
        ],
{
    reveal(ChannelEntryView::commitment_signed);
    reveal(ChannelEntryView::new_scope_commitment);
    let initiator_id = initiator.node_id;
    let ghost r0 = responder@;
    let ghost r = r0.find(initiator_id, channel_id);
    proof {
        lemma_found(initiator@.entries, responder.node_id, channel_id);
        lemma_found(r0.entries, initiator_id, channel_id);
    }
    let (held, initiator_cs) = exchange_acceptance(initiator, responder, channel_id);
    proof {
        lemma_find_with_entry(r0.entries, r, responder@.entries[r], initiator_id, channel_id);
    }
    responder.handle_commitment_signed(initiator_id, &initiator_cs);
    let updates = responder.take_added_monitors();
    assert(updates@ =~= seq![
        MonitorUpdate::RenegotiatedFunding {
            funding_txo: r0.entries[r].proposal().spec_new_funding_txo(),
        },
    ]);
    (held, updates)
}

/// The signatures among the messages that name the scope that they are on.
pub open spec fn scoped_commitments(msgs: Seq<MessageSendEventView>) -> Seq<CommitmentSigned>
    decreases msgs.len(),
{
    if msgs.len() == 0 {
        seq![]
    } else {
        let earlier = scoped_commitments(msgs.drop_last());
        match msgs.last().msg {
            MessageView::UpdateHTLCs(update) => earlier + update.commitment_signed.filter(
                |cs: CommitmentSigned| cs.funding_txid is Some,
            ),
            _ => earlier,
        }
    }
}

impl NodeView {
    /// The message that resumes the only channel with the peer. There is none if the node has more
    /// than that to say once it is connected, or less.
    pub open spec fn reestablish_msg(self, peer: NodeId) -> Option<ChannelReestablish> {
        let queued = self.pending_msg_events + reestablish_msgs(self.entries, peer);
        if queued.len() == 1 && queued[0].node_id == peer {
            match queued[0].msg {
                MessageView::SendChannelReestablish(msg) => Some(msg),
                _ => None,
            }
        } else {
            None
        }
    }

    /// This node after it was connected to the peer, sent what resumes the channel and took in what
    /// the peer sent to resume it.
    pub open spec fn resumed_with(
        self,
        peer: NodeId,
        init: Init,
        is_inbound: bool,
        msg: ChannelReestablish,
    ) -> NodeView {
        let sent = self.connected(peer, init, is_inbound).drained();
        sent.handled(
            peer,
            msg.channel_id,
            sent.entry(peer, msg.channel_id).channel_reestablish(msg),
        )
    }
}

/// Collects the signatures that name the scope that they are on.
fn collect_scoped(msgs: &Vec<MessageSendEvent>) -> (scoped: Vec<CommitmentSigned>)
    ensures
        scoped@ == scoped_commitments(msg_events_view(msgs@)),
{
    let ghost all = msg_events_view(msgs@);
    let ghost names = |cs: CommitmentSigned| cs.funding_txid is Some;
    let mut scoped: Vec<CommitmentSigned> = Vec::new();
    assert(scoped@ =~= scoped_commitments(all.take(0)));
    let mut i: usize = 0;
    while i < msgs.len()
        invariant
            i <= msgs.len(),
            all == msg_events_view(msgs@),
            names == (|cs: CommitmentSigned| cs.funding_txid is Some),
            scoped@ == scoped_commitments(all.take(i as int)),
        decreases msgs.len() - i,
    {
        assert(all.take(i + 1).drop_last() =~= all.take(i as int));
        assert(all.take(i + 1).last() == msgs@[i as int]@);
        if let Message::UpdateHTLCs(update) = &msgs[i].msg {
            let ghost earlier = scoped@;
            let ghost signed = update.commitment_signed@;
            proof {
                reveal(Seq::filter);
                assert(signed.take(0).filter(names) =~= seq![]);
            }
            let mut j: usize = 0;
            while j < update.commitment_signed.len()
                invariant
                    j <= update.commitment_signed.len(),
                    signed == update.commitment_signed@,
                    names == (|cs: CommitmentSigned| cs.funding_txid is Some),
                    scoped@ == earlier + signed.take(j as int).filter(names),
                decreases update.commitment_signed.len() - j,
            {
                proof {
                    assert(signed.take(j + 1).drop_last() =~= signed.take(j as int));
                    assert(signed.take(j + 1).last() == signed[j as int]);
                    reveal(Seq::filter);
                }
                if update.commitment_signed[j].funding_txid.is_some() {
                    scoped.push(update.commitment_signed[j]);
                }
                assert(scoped@ =~= earlier + signed.take(j + 1).filter(names));
                j = j + 1;
            }
            assert(signed.take(signed.len() as int) =~= signed);
        }
        i = i + 1;
    }
    assert(all.take(all.len() as int) =~= all);
    scoped
}

/// Reconnects the two nodes, each told what the other can do, lets them resume their channel, and
/// returns the signature on a scope that the responder repeats, if it repeats one. The initiator
/// repeats none. Whatever else the two repeat is dropped.
#[verifier::spinoff_prover]
pub fn teleport_reconnect_capturing_responder_cs(initiator: &mut Node, responder: &mut Node) -> (
    responder_cs: Option<CommitmentSigned>)
    requires
        old(initiator).inv(),
        old(responder).inv(),
        old(initiator)@.features.static_remote_key,
        old(responder)@.features.static_remote_key,
        old(initiator)@.reestablish_msg(old(responder)@.node_id) is Some,
        old(responder)@.reestablish_msg(old(initiator)@.node_id) is Some,
        scoped_commitments(
            old(initiator)@.resumed_with(
                old(responder)@.node_id,
                (Init { features: old(responder)@.features }),
                true,
                old(responder)@.reestablish_msg(old(initiator)@.node_id)->Some_0,
            ).pending_msg_events,
        ).len() == 0,
        scoped_commitments(
            old(responder)@.resumed_with(
                old(initiator)@.node_id,
                (Init { features: old(initiator)@.features }),
                false,
                old(initiator)@.reestablish_msg(old(responder)@.node_id)->Some_0,
            ).pending_msg_events,
        ).len() <= 1,
    ensures
        final(initiator).inv(),
        final(responder).inv(),
        final(initiator)@ == old(initiator)@.resumed_with(
            old(responder)@.node_id,
            (Init { features: old(responder)@.features }),
            true,
            old(responder)@.reestablish_msg(old(initiator)@.node_id)->Some_0,
        ).drained(),
        final(responder)@ == old(responder)@.resumed_with(
            old(initiator)@.node_id,
            (Init { features: old(initiator)@.features }),
            false,
            old(initiator)@.reestablish_msg(old(responder)@.node_id)->Some_0,
        ).drained(),
        ({
            let scoped = scoped_commitments(
                old(responder)@.resumed_with(
                    old(initiator)@.node_id,
                    (Init { features: old(initiator)@.features }),
                    false,
                    old(initiator)@.reestablish_msg(old(responder)@.node_id)->Some_0,
                ).pending_msg_events,
            );
            responder_cs == if scoped.len() == 0 {
                None::<CommitmentSigned>
            } else {
                Some(scoped[0])
            }
        }),
{
    let initiator_id = initiator.node_id;
    let responder_id = responder.node_id;
    let initiator_init = Init { features: initiator.init_features() };
    let responder_init = Init { features: responder.init_features() };
    let res = initiator.peer_connected(responder_id, &responder_init, true);
    assert(res is Ok);
    let initiator_msg = take_msg(initiator);
    let res = responder.peer_connected(initiator_id, &initiator_init, false);
    assert(res is Ok);
    let responder_msg = take_msg(responder);
    if let (
        Message::SendChannelReestablish(initiator_reestablish),
        Message::SendChannelReestablish(responder_reestablish),
    ) = (initiator_msg, responder_msg) {
        initiator.handle_channel_reestablish(responder_id, &responder_reestablish);
        responder.handle_channel_reestablish(initiator_id, &initiator_reestablish);
    }
    let _ = initiator.get_and_clear_pending_msg_events();
    let msgs = responder.get_and_clear_pending_msg_events();
    let scoped = collect_scoped(&msgs);
    if scoped.len() == 0 {
        None
    } else {
        Some(scoped[0])
    }
}

impl NodeView {
    /// Whether a teleport of the channel can be taken through: it can start, both ends count their
    /// commitments alike, the initiator holds no update back that the new scope would set free, and
    /// nobody has left an event or a monitor update behind.
    pub open spec fn can_teleport(self, responder: NodeView, channel_id: ChannelId) -> bool {
        let i = self.find(responder.node_id, channel_id);
        let r = responder.find(self.node_id, channel_id);
        let ci = self.entries[i].channel;
        let cr = responder.entries[r].channel;
        &&& self.can_start_teleport(responder, channel_id)
        &&& ci.holder_commitment_number == cr.counterparty_commitment_number
        &&& ci.counterparty_commitment_number == cr.holder_commitment_number
        &&& self.entries[i].book.holding_cell.len() == 0 || ci.counterparty_commitment_number == 0
        &&& responder.pending_events.len() == 0
        &&& self.added_monitors.len() == 0
        &&& responder.added_monitors.len() == 0
    }
}

impl ChannelEntryView {
    /// This entry on the new scope of a teleport without removals, at the given stage.
    pub open spec fn teleported(
        self,
        new_funding_txo: FundingOutPoint,
        pending_teleport: Option<PendingTeleport>,
    ) -> ChannelEntryView {
        ChannelEntryView {
            channel: Channel {
                funding: FundingScope { funding_txo: new_funding_txo, ..self.channel.funding },
                quiescence: Quiescence::Active,
                pending_teleport,
                response_ticks: 0,
                ..self.channel
            },
            monitor: self.monitor.apply(
                MonitorUpdate::RenegotiatedFunding { funding_txo: new_funding_txo },
            ).apply(MonitorUpdate::RenegotiatedFundingLocked { funding_txo: new_funding_txo }),
            ..self
        }
    }
}

/// The acknowledgement of a completed teleport leaves: only the channel that acknowledged notices.
proof fn lemma_drain_acknowledgement(node: NodeView, k: int)
    requires
        0 <= k < node.entries.len(),
        forall|a: int, b: int|
            0 <= a < b < node.entries.len() ==> (#[trigger] node.entries[a]).channel.channel_id != (
            #[trigger] node.entries[b]).channel.channel_id,
        node.pending_msg_events.len() == 1,
        node.pending_msg_events[0] == (MessageSendEventView {
            node_id: node.entries[k].channel.counterparty,
            msg: MessageView::SendTeleportCompleteAck(
                TeleportCompleteAck { channel_id: node.entries[k].channel.channel_id },
            ),
        }),
    ensures
        node.drained() == (NodeView {
            pending_msg_events: seq![],
            ..node.with_entry(k, node.entries[k].messages_sent(false, true))
        }),
{
    let after = node.with_entry(k, node.entries[k].messages_sent(false, true));
    assert forall|j: int| 0 <= j < node.entries.len() implies node.drained().entries[j]
        == after.entries[j] by {
        let e = node.entries[j];
        assert(!ack_queued(node.pending_msg_events, e.channel.counterparty, e.channel.channel_id));
        if j == k {
            assert(complete_ack_queued(
                node.pending_msg_events,
                e.channel.counterparty,
                e.channel.channel_id,
            ));
        } else {
            assert(e.channel.channel_id != node.entries[k].channel.channel_id);
            assert(!complete_ack_queued(
                node.pending_msg_events,
                e.channel.counterparty,
                e.channel.channel_id,
            ));
        }
    }
    assert(node.drained().entries =~= after.entries);
}

/// A channel is found by its id alone, since no two channels share theirs.
pub(crate) proof fn lemma_find_open(entries: Seq<ChannelEntryView>, k: int, channel_id: ChannelId)
    requires
        0 <= k < entries.len(),
        entries[k].is_open(channel_id),
        forall|a: int, b: int|
            0 <= a < b < entries.len() ==> (#[trigger] entries[a]).channel.channel_id != (
            #[trigger] entries[b]).channel.channel_id,
    ensures
        find_open(entries, channel_id) == k,
    decreases entries.len(),
{
    if k == entries.len() - 1 {
        lemma_find_open_absent(entries.drop_last(), channel_id);
    } else {
        lemma_find_open(entries.drop_last(), k, channel_id);
    }
}

proof fn lemma_find_open_absent(entries: Seq<ChannelEntryView>, channel_id: ChannelId)
    requires
        forall|a: int| 0 <= a < entries.len() ==> (#[trigger] entries[a]).channel.channel_id
            != channel_id,
    ensures
        find_open(entries, channel_id) == -1,
    decreases entries.len(),
{
    if entries.len() > 0 {
        assert(entries.last() == entries[entries.len() - 1]);
        lemma_find_open_absent(entries.drop_last(), channel_id);
    }
}

impl ChannelEntryView {
    /// This entry once it holds the counterparty's signature on the new scope.
    pub open spec fn holding_signature(self, is_initiator: bool) -> ChannelEntryView {
        let new_funding_txo = self.proposal().spec_new_funding_txo();
        let removals = self.proposal().spec_removals();
        ChannelEntryView {
            channel: self.channel.at_stage(
                if is_initiator {
                    PendingTeleport::AwaitingLocalComplete { new_funding_txo, removals }
                } else {
                    PendingTeleport::AwaitingRemoteComplete { new_funding_txo, removals }
                },
            ),
            monitor: self.monitor.apply(
                MonitorUpdate::RenegotiatedFunding { funding_txo: new_funding_txo },
            ),
            ..self
        }
    }

    /// This entry on the new scope of its teleport. An initiator is done with the teleport; a
    /// responder lingers.
    pub open spec fn completed(self, is_initiator: bool) -> ChannelEntryView {
        let new_funding_txo = self.proposal().spec_new_funding_txo();
        let removals = self.proposal().spec_removals();
        let promoted = self.channel.promoted(self.proposal());
        ChannelEntryView {
            channel: if is_initiator {
                promoted.resumed()
            } else {
                Channel {
                    quiescence: Quiescence::Active,
                    ..promoted.at_stage(
                        PendingTeleport::AwaitingRemoteActivityAfterTeleportCompleteAckSend {
                            new_funding_txo,
                            removals,
                        },
                    )
                }
            },
            monitor: self.monitor.apply(
                MonitorUpdate::RenegotiatedFundingLocked { funding_txo: new_funding_txo },
            ),
            ..self
        }
    }
}

/// The signature that is awaited on the new scope is taken.
proof fn lemma_signature_is_taken(e: ChannelEntryView, is_initiator: bool, cs: CommitmentSigned)
    requires
        e.channel.pending_teleport is Some,
        !e.channel.is_disconnected,
        cs.commitment_number == e.channel.holder_commitment_number,
    ensures
        e.signed_on_new_scope(is_initiator).new_scope_commitment(cs).entry == e.holding_signature(
            is_initiator,
        ),
        e.signed_on_new_scope(is_initiator).new_scope_commitment(cs).effects.msgs =~= seq![],
        e.signed_on_new_scope(is_initiator).new_scope_commitment(cs).effects.events =~= seq![],
{
    reveal(ChannelEntryView::new_scope_commitment);
}

/// Without anything held back, the acknowledgement moves the initiator on and does nothing else.
proof fn lemma_acknowledgement_is_taken(e: ChannelEntryView)
    requires
        !e.channel.is_disconnected,
        e.channel.pending_teleport is Some,
        e.proposal() is AwaitingTeleportCompleteAck,
        e.book.holding_cell.len() == 0 || e.channel.counterparty_commitment_number == 0,
    ensures
        ({
            let step = e.teleport_complete_ack();
            &&& step.entry == e.completed(true)
            &&& step.effects.msgs =~= seq![]
            &&& step.effects.events =~= seq![]
            &&& step.effects.monitor_updates =~= seq![
                MonitorUpdate::RenegotiatedFundingLocked {
                    funding_txo: e.proposal().spec_new_funding_txo(),
                },
            ]
        }),
{
    reveal(ChannelEntryView::teleport_complete_ack);
}

/// Takes a teleport from the user's completion to its end on both sides. Returns the monitor
/// updates and what the responder sent.
#[verifier::spinoff_prover]
fn exchange_completion(
    initiator: &mut Node,
    responder: &mut Node,
    channel_id: ChannelId,
) -> (done: (TeleportUpdates, Vec<MessageSendEvent>))
    requires
        old(initiator).inv(),
        old(responder).inv(),
        old(initiator)@.find(old(responder)@.node_id, channel_id) >= 0,
        old(responder)@.find(old(initiator)@.node_id, channel_id) >= 0,
        old(initiator)@.pending_msg_events.len() == 0,
        old(responder)@.pending_msg_events.len() == 0,
        old(initiator)@.added_monitors.len() == 0,
        old(responder)@.added_monitors.len() == 0,
        ({
            let ei = old(initiator)@.entry(old(responder)@.node_id, channel_id);
            let er = old(responder)@.entry(old(initiator)@.node_id, channel_id);
            &&& !ei.channel.is_disconnected
            &&& ei.channel.pending_teleport is Some
            &&& ei.proposal() is AwaitingLocalComplete
            &&& ei.book.holding_cell.len() == 0 || ei.channel.counterparty_commitment_number == 0
            &&& !er.channel.is_disconnected
            &&& er.channel.pending_teleport is Some
            &&& er.proposal() is AwaitingRemoteComplete
            &&& er.proposal().spec_new_funding_txo() == ei.proposal().spec_new_funding_txo()
        }),
    ensures
        final(initiator).inv(),
        final(responder).inv(),
        ({
            let i = old(initiator)@.find(old(responder)@.node_id, channel_id);
            let r = old(responder)@.find(old(initiator)@.node_id, channel_id);
            let ei = old(initiator)@.entries[i];
            let funding_txo = ei.proposal().spec_new_funding_txo();
            &&& final(initiator)@ == old(initiator)@.with_entry(i, ei.completed(true))
            &&& final(responder)@ == old(responder)@.with_entry(
                r,
                old(responder)@.entries[r].completed(false),
            )
            &&& done.0.initiator@ == seq![MonitorUpdate::RenegotiatedFundingLocked { funding_txo }]
            &&& done.0.responder@ == seq![MonitorUpdate::RenegotiatedFundingLocked { funding_txo }]
        }),
        msg_events_view(done.1@) == seq![
            MessageSendEventView {
                node_id: old(initiator)@.node_id,
                msg: MessageView::SendTeleportCompleteAck(TeleportCompleteAck { channel_id }),
            },
        ],
{
    reveal(ChannelEntryView::complete_teleport);
    reveal(ChannelEntryView::teleport_complete);
    let initiator_id = initiator.node_id;
    let responder_id = responder.node_id;
    let ghost i0 = initiator@;
    let ghost r0 = responder@;
    let ghost i = i0.find(responder_id, channel_id);
    let ghost r = r0.find(initiator_id, channel_id);
    let ghost funding_txo = i0.entries[i].proposal().spec_new_funding_txo();
    proof {
        lemma_found(i0.entries, responder_id, channel_id);
        lemma_found(r0.entries, initiator_id, channel_id);
    }
    let mut completed = TeleportUpdates { initiator: Vec::new(), responder: Vec::new() };
    let mut responder_msgs: Vec<MessageSendEvent> = Vec::new();
    let res = initiator.complete_teleport(channel_id, responder_id);
    assert(res is Ok);
    proof {
        lemma_find_with_entry(i0.entries, i, initiator@.entries[i], responder_id, channel_id);
        lemma_drain_others(initiator@);
    }
    if let Message::SendTeleportComplete(teleport_complete) = take_msg(initiator) {
        responder.handle_teleport_complete(initiator_id, &teleport_complete);
        completed.responder = responder.take_added_monitors();
        proof {
            assert(responder@.entries =~= r0.entries.update(r, responder@.entries[r]));
            lemma_drain_acknowledgement(responder@, r);
        }
        responder_msgs = responder.get_and_clear_pending_msg_events();
        assert(msg_events_view(responder_msgs@)[0] == responder_msgs@[0]@);
        assert(msg_events_view(responder_msgs@) =~= seq![
            MessageSendEventView {
                node_id: initiator_id,
                msg: MessageView::SendTeleportCompleteAck(TeleportCompleteAck { channel_id }),
            },
        ]);
        proof {
            lemma_acknowledgement_is_taken(initiator@.entries[i]);
        }
        if let Message::SendTeleportCompleteAck(teleport_complete_ack) = &responder_msgs[0].msg {
            initiator.handle_teleport_complete_ack(responder_id, teleport_complete_ack);
            completed.initiator = initiator.take_added_monitors();
        }
    }
    assert(completed.initiator@ =~= seq![
        MonitorUpdate::RenegotiatedFundingLocked { funding_txo },
    ]);
    assert(completed.responder@ =~= completed.initiator@);
    assert(initiator@.entries =~= i0.entries.update(i, i0.entries[i].completed(true)));
    assert(responder@.entries =~= r0.entries.update(r, r0.entries[r].completed(false)));
    assert(initiator@.pending_msg_events =~= i0.pending_msg_events);
    assert(responder@.pending_msg_events =~= r0.pending_msg_events);
    assert(initiator@.pending_events =~= i0.pending_events);
    assert(responder@.pending_events =~= r0.pending_events);
    assert(initiator@.added_monitors =~= i0.added_monitors);
    assert(responder@.added_monitors =~= r0.added_monitors);
    (completed, responder_msgs)
}

/// What a teleport led to on its way, but for the messages that were handed over.
#[derive(Debug)]
pub struct TeleportPassage {
    /// What the responder's user was asked.
    pub responder_events: Vec<Event>,
    /// The monitor updates from the acceptance.
    pub accepted: TeleportUpdates,
    /// The monitor updates from the completion.
    pub completed: TeleportUpdates,
    /// What the responder sent once it was told to complete.
    pub responder_msgs: Vec<MessageSendEvent>,
}

/// Takes a teleport without removals to its end on both sides. The responder is left lingering.
/// Either side has two monitor updates, one to watch the new outpoint and one to move to it, and
/// the responder answers the completion with its acknowledgement and nothing else.
#[verifier::spinoff_prover]
pub fn complete_teleport_into_responder_lingering(
    initiator: &mut Node,
    responder: &mut Node,
    channel_id: ChannelId,
    new_funding_txo: FundingOutPoint,
) -> (passage: TeleportPassage)
    requires
        old(initiator).inv(),
        old(responder).inv(),
        old(initiator)@.can_teleport(old(responder)@, channel_id),
    ensures
        final(initiator).inv(),
        final(responder).inv(),
        ({
            let i = old(initiator)@.find(old(responder)@.node_id, channel_id);
            final(initiator)@ == old(initiator)@.with_entry(
                i,
                old(initiator)@.entries[i].teleported(new_funding_txo, None),
            )
        }),
        ({
            let r = old(responder)@.find(old(initiator)@.node_id, channel_id);
            final(responder)@ == old(responder)@.with_entry(
                r,
                old(responder)@.entries[r].teleported(
                    new_funding_txo,
                    Some(
                        PendingTeleport::AwaitingRemoteActivityAfterTeleportCompleteAckSend {
                            new_funding_txo,
                            removals: no_removals(),
                        },
                    ),
                ),
            )
        }),
        final(initiator)@.has_channel(channel_id),
        final(initiator)@.channel(channel_id).funding.funding_txo == new_funding_txo,
        final(responder)@.lingers(channel_id, new_funding_txo),
        passage.responder_events@ == seq![
            Event::ChannelTeleport {
                channel_id,
                user_channel_id: old(responder)@.entry(
                    old(initiator)@.node_id,
                    channel_id,
                ).channel.user_channel_id,
                counterparty_node_id: old(initiator)@.node_id,
                new_funding_txo: new_funding_txo.spec_into_bitcoin_outpoint(),
                responder_value_removal_sat: 0,
                initiator_value_removal_sat: 0,
            },
        ],
        passage.accepted.initiator@ == seq![
            MonitorUpdate::RenegotiatedFunding { funding_txo: new_funding_txo },
        ],
        passage.accepted.responder@ == passage.accepted.initiator@,
        passage.completed.initiator@ == seq![
            MonitorUpdate::RenegotiatedFundingLocked { funding_txo: new_funding_txo },
        ],
        passage.completed.responder@ == passage.completed.initiator@,
        msg_events_view(passage.responder_msgs@) == seq![
            MessageSendEventView {
                node_id: old(initiator)@.node_id,
                msg: MessageView::SendTeleportCompleteAck(TeleportCompleteAck { channel_id }),
            },
        ],
{
    let initiator_id = initiator.node_id;
    let responder_id = responder.node_id;
    let ghost i0 = initiator@;
    let ghost r0 = responder@;
    let ghost i = i0.find(responder_id, channel_id);
    let ghost r = r0.find(initiator_id, channel_id);
    proof {
        lemma_found(i0.entries, responder_id, channel_id);
        lemma_found(r0.entries, initiator_id, channel_id);
    }
    start_teleport(initiator, responder, channel_id, new_funding_txo);
    let responder_events = responder.get_and_clear_pending_events();
    assert(responder_events@.len() == 1);
    proof {
        lemma_find_with_entry(i0.entries, i, initiator@.entries[i], responder_id, channel_id);
        lemma_find_with_entry(r0.entries, r, responder@.entries[r], initiator_id, channel_id);
    }
    proof {
        lemma_signature_is_taken(
            initiator@.entries[i],
            true,
            responder@.entries[r].own_new_scope_commitment(),
        );
        lemma_signature_is_taken(
            responder@.entries[r],
            false,
            initiator@.entries[i].own_new_scope_commitment(),
        );
    }
    let accepted = ack_teleport(initiator, responder, channel_id);
    proof {
        lemma_find_with_entry(i0.entries, i, initiator@.entries[i], responder_id, channel_id);
        lemma_find_with_entry(r0.entries, r, responder@.entries[r], initiator_id, channel_id);
        assert(initiator@.entries =~= i0.entries.update(i, initiator@.entries[i]));
        assert(responder@.entries =~= r0.entries.update(r, responder@.entries[r]));
    }
    let (completed, responder_msgs) = exchange_completion(initiator, responder, channel_id);
    assert(initiator@.entries =~= i0.with_entry(
        i,
        i0.entries[i].teleported(new_funding_txo, None),
    ).entries);
    assert(responder@.entries =~= r0.entries.update(r, responder@.entries[r]));
    assert(initiator@.pending_msg_events =~= i0.pending_msg_events);
    assert(responder@.pending_msg_events =~= r0.pending_msg_events);
    assert(responder@.pending_events =~= r0.pending_events);
    assert(initiator@.added_monitors =~= i0.added_monitors);
    assert(responder@.added_monitors =~= r0.added_monitors);
    proof {
        lemma_find_open(initiator@.entries, i, channel_id);
        lemma_find_open(responder@.entries, r, channel_id);
    }
    assert(responder_events@ =~= seq![responder_events@[0]]);
    TeleportPassage { responder_events, accepted, completed, responder_msgs }
}

} // verus!
