//! The stages of a teleport, one step at a time, said in the fields of the channel and of the
//! messages.

use crate::channel::{
    APIError, Channel, ChannelSetup, PendingTeleport, Quiescence, ValueRemovals,
    DISCONNECT_PEER_AWAITING_RESPONSE_TICKS, INITIAL_COMMITMENT_NUMBER,
};
use crate::entry::{ChannelEntryView, Step};
use crate::htlcs::{InboundStage, OutboundStage};
use crate::monitor::MonitorUpdate;
use crate::msgs::{
    ChannelId, ChannelReestablish, CommitmentSigned, CommitmentUpdateView, ErrorAction,
    MessageView, RevokeAndACK, Stfu, TeleportAbort, TeleportAck, TeleportComplete,
    TeleportCompleteAck, TeleportInit, Update,
};
use crate::outpoint::{FundingOutPoint, Txid};
use vstd::prelude::*;

verus! {

broadcast use crate::entry::group_steps;

/// Whether the stage says this of its teleport.
pub open spec fn is_told(
    p: PendingTeleport,
    new_funding_txo: FundingOutPoint,
    removals: ValueRemovals,
    is_initiator: bool,
    is_persistent: bool,
    is_promoted: bool,
) -> bool {
    &&& p.spec_new_funding_txo() == new_funding_txo
    &&& p.spec_removals() == removals
    &&& p.spec_is_initiator() == is_initiator
    &&& p.spec_is_persistent() == is_persistent
    &&& p.is_promoted() == is_promoted
}

/// Every stage tells which teleport it belongs to, on which side it is, whether it survives a lost
/// connection, and whether this side has promoted. The last three are, in this order, what follows
/// each stage here.
pub proof fn law_stage_tells_its_teleport(new_funding_txo: FundingOutPoint, removals: ValueRemovals)
    ensures
        is_told(
            PendingTeleport::AwaitingQuiescence { new_funding_txo, removals },
            new_funding_txo,
            removals,
            true,
            false,
            false,
        ),
        is_told(
            PendingTeleport::AwaitingTeleportAck { new_funding_txo, removals },
            new_funding_txo,
            removals,
            true,
            false,
            false,
        ),
        is_told(
            PendingTeleport::AwaitingUserDecision { new_funding_txo, removals },
            new_funding_txo,
            removals,
            false,
            false,
            false,
        ),
        is_told(
            PendingTeleport::AwaitingTeleportAckSend { new_funding_txo, removals },
            new_funding_txo,
            removals,
            false,
            false,
            false,
        ),
        is_told(
            PendingTeleport::AwaitingLocalComplete { new_funding_txo, removals },
            new_funding_txo,
            removals,
            true,
            true,
            false,
        ),
        is_told(
            PendingTeleport::AwaitingTeleportCompleteAck { new_funding_txo, removals },
            new_funding_txo,
            removals,
            true,
            true,
            false,
        ),
        is_told(
            PendingTeleport::AwaitingRemoteComplete { new_funding_txo, removals },
            new_funding_txo,
            removals,
            false,
            true,
            false,
        ),
        is_told(
            PendingTeleport::AwaitingTeleportCompleteAckSend { new_funding_txo, removals },
            new_funding_txo,
            removals,
            false,
            true,
            true,
        ),
        is_told(
            PendingTeleport::AwaitingRemoteActivityAfterTeleportCompleteAckSend {
                new_funding_txo,
                removals,
            },
            new_funding_txo,
            removals,
            false,
            true,
            true,
        ),
        is_told(
            PendingTeleport::AwaitingRemoteCommitmentSigned {
                new_funding_txo,
                removals,
                is_initiator: true,
            },
            new_funding_txo,
            removals,
            true,
            true,
            false,
        ),
        is_told(
            PendingTeleport::AwaitingRemoteCommitmentSigned {
                new_funding_txo,
                removals,
                is_initiator: false,
            },
            new_funding_txo,
            removals,
            false,
            false,
            false,
        ),
{
}

/// A channel starts as it was set up: with the first commitments, open to updates and connected.
pub proof fn law_channel_opens_as_set_up(setup: ChannelSetup)
    ensures
        Channel::spec_opened(setup) == (Channel {
            channel_id: setup.channel_id,
            user_channel_id: setup.user_channel_id,
            counterparty: setup.counterparty,
            is_outbound: setup.is_outbound,
            funding: setup.funding,
            holder_commitment_number: 0xffff_ffff_ffff,
            counterparty_commitment_number: 0xffff_ffff_ffff,
            holder_reserve_sat: setup.holder_reserve_sat,
            counterparty_reserve_sat: setup.counterparty_reserve_sat,
            dust_limit_sat: setup.dust_limit_sat,
            feerate_per_kw: setup.feerate_per_kw,
            quiescence: Quiescence::Active,
            pending_teleport: None,
            is_disconnected: false,
            response_ticks: 0,
        }),
{
}

impl ChannelEntryView {
    /// Whether no update is on its way in either direction and no revocation is owed.
    pub open spec fn has_no_update_in_flight(self) -> bool {
        &&& self.book.outbound_stage == OutboundStage::Idle
        &&& self.book.inbound_stage == InboundStage::Idle
        &&& !self.book.awaits_revocation
    }

    /// This entry with another stage of its teleport and another state of its pause.
    pub open spec fn with_stage(
        self,
        pending_teleport: Option<PendingTeleport>,
        quiescence: Quiescence,
    ) -> ChannelEntryView {
        ChannelEntryView {
            channel: Channel { pending_teleport, quiescence, response_ticks: 0, ..self.channel },
            ..self
        }
    }
}

/// Whether the step changed the entry to the given one, sent these messages and did nothing else.
pub open spec fn only_sends(step: Step, entry: ChannelEntryView, msgs: Seq<MessageView>) -> bool {
    &&& step.entry == entry
    &&& step.effects.msgs =~= msgs
    &&& step.effects.events.len() == 0
    &&& step.effects.monitor_updates.len() == 0
}

/// Whether the step changed nothing and warned the peer.
pub open spec fn only_warns(step: Step, e: ChannelEntryView) -> bool {
    only_sends(
        step,
        e,
        seq![MessageView::HandleError(ErrorAction::DisconnectPeerWithWarning)],
    )
}

/// Quiescence is granted to a peer that asks for it, and taken from a peer that grants it, on a
/// connected channel without an update on its way. Who had asked then proposes exactly what its
/// user wants. Anything else is answered with a warning.
pub proof fn law_quiescence_is_asked_and_granted(e: ChannelEntryView, msg: Stfu)
    ensures
        ({
            let step = e.stfu(msg);
            let channel_id = e.channel.channel_id;
            let can = !e.channel.is_disconnected && e.has_no_update_in_flight();
            if can && msg.initiator && e.channel.quiescence is Active {
                only_sends(
                    step,
                    e.with_stage(None, Quiescence::Quiescent),
                    seq![MessageView::SendStfu(Stfu { channel_id, initiator: false })],
                )
            } else if can && !msg.initiator && e.channel.quiescence is StfuSent
                && e.channel.pending_teleport is Some && e.channel.pending_teleport->Some_0 is
                AwaitingQuiescence {
                let p = e.channel.pending_teleport->Some_0;
                let new_funding_txo = p->AwaitingQuiescence_new_funding_txo;
                let removals = p->AwaitingQuiescence_removals;
                only_sends(
                    step,
                    e.with_stage(
                        Some(PendingTeleport::AwaitingTeleportAck { new_funding_txo, removals }),
                        Quiescence::Quiescent,
                    ),
                    seq![
                        MessageView::SendTeleportInit(
                            TeleportInit {
                                channel_id,
                                new_funding_txo,
                                responder_value_removal_sat: removals.responder_value_removal_sat,
                                initiator_value_removal_sat: removals.initiator_value_removal_sat,
                            },
                        ),
                    ],
                )
            } else {
                only_warns(step, e)
            }
        }),
{
    reveal(ChannelEntryView::stfu);
    reveal(Step::failed);
}

/// The signature on a scope, as a message.
pub open spec fn signature(
    channel_id: ChannelId,
    txid: Txid,
    commitment_number: u64,
    updates: Seq<Update>,
) -> MessageView {
    MessageView::UpdateHTLCs(
        CommitmentUpdateView {
            updates,
            commitment_signed: seq![
                CommitmentSigned { channel_id, funding_txid: Some(txid), commitment_number },
            ],
        },
    )
}

/// A user can accept or refuse exactly what is waiting for the user's decision on a live
/// connection. An acceptance goes out with the signature on the new scope, for the counterparty's
/// commitment of the same number; a refusal ends the pause.
pub proof fn law_user_decides_what_waits(e: ChannelEntryView)
    ensures
        ({
            let waits = !e.channel.is_disconnected && e.channel.pending_teleport is Some
                && e.channel.pending_teleport->Some_0 is AwaitingUserDecision;
            let p = e.channel.pending_teleport->Some_0;
            let new_funding_txo = p->AwaitingUserDecision_new_funding_txo;
            let removals = p->AwaitingUserDecision_removals;
            let channel_id = e.channel.channel_id;
            &&& !waits ==> e.ack_teleport() == Err::<Step, APIError>(APIError::TeleportNotPending)
            &&& !waits ==> e.cancel_teleport() == Err::<Step, APIError>(
                APIError::TeleportNotPending,
            )
            &&& waits ==> {
                &&& e.ack_teleport() is Ok
                &&& only_sends(
                    e.ack_teleport()->Ok_0,
                    e.with_stage(
                        Some(
                            PendingTeleport::AwaitingTeleportAckSend { new_funding_txo, removals },
                        ),
                        e.channel.quiescence,
                    ),
                    seq![
                        MessageView::SendTeleportAck(TeleportAck { channel_id }),
                        signature(
                            channel_id,
                            new_funding_txo.txid,
                            e.channel.counterparty_commitment_number,
                            seq![],
                        ),
                    ],
                )
                &&& e.cancel_teleport() is Ok
                &&& e.cancel_teleport()->Ok_0.entry.channel == e.with_stage(
                    None,
                    Quiescence::Active,
                ).channel
                &&& e.cancel_teleport()->Ok_0.effects.msgs.len() > 0
                &&& e.cancel_teleport()->Ok_0.effects.msgs[0] == MessageView::SendTeleportAbort(
                    TeleportAbort { channel_id },
                )
            }
        }),
{
    reveal(ChannelEntryView::ack_teleport);
    reveal(ChannelEntryView::cancel_teleport);
}

/// An acceptance that an initiator waits for is answered with its own signature on the new scope,
/// for the counterparty's commitment of the same number. One that it does not wait for is answered
/// with a warning.
pub proof fn law_acceptance_is_answered_with_a_signature(e: ChannelEntryView)
    ensures
        ({
            let step = e.teleport_ack();
            let waits = !e.channel.is_disconnected && e.channel.pending_teleport is Some
                && e.channel.pending_teleport->Some_0 is AwaitingTeleportAck;
            let p = e.channel.pending_teleport->Some_0;
            &&& !waits ==> only_warns(step, e)
            &&& waits && !step.entry.is_closed ==> {
                &&& step.effects.msgs =~= seq![
                    signature(
                        e.channel.channel_id,
                        p->AwaitingTeleportAck_new_funding_txo.txid,
                        e.channel.counterparty_commitment_number,
                        seq![],
                    ),
                ]
                &&& step.effects.events.len() == 0
                &&& step.effects.monitor_updates.len() == 0
            }
        }),
{
    reveal(ChannelEntryView::teleport_ack);
    reveal(Step::failed);
}

/// A signature is on the new scope exactly if this side waits for one and the signature names that
/// transaction. It is a repetition if the teleport leads there, is past that point and not
/// promoted. A paused channel takes no other; any other is on the scope in use.
pub proof fn law_signatures_are_told_apart(c: Channel, msg: CommitmentSigned)
    ensures
        ({
            let class = c.spec_classify(msg);
            let p = c.pending_teleport->Some_0;
            let names = c.pending_teleport is Some && msg.funding_txid == Some(
                p.spec_new_funding_txo().txid,
            );
            let new = names && p is AwaitingRemoteCommitmentSigned;
            let again = names && !new && p.spec_new_funding_txo().txid
                != c.funding.funding_txo.txid;
            &&& class is NewScope <==> new
            &&& class is Duplicate <==> again
            &&& class is WhileQuiescent <==> !new && !again && c.quiescence is Quiescent
            &&& class is Ordinary <==> !new && !again && c.quiescence !is Quiescent
        }),
{
}

/// The awaited signature on the new scope is taken if it is for this side's commitment of the same
/// number: the monitor watches the new outpoint, and each side waits for the completion in its
/// role. One with another number closes the channel.
pub proof fn law_new_scope_signature_is_taken(e: ChannelEntryView, msg: CommitmentSigned)
    requires
        !e.channel.is_disconnected,
        e.channel.pending_teleport is Some,
        e.channel.pending_teleport->Some_0 is AwaitingRemoteCommitmentSigned,
        msg.funding_txid == Some(e.channel.pending_teleport->Some_0.spec_new_funding_txo().txid),
    ensures
        ({
            let step = e.commitment_signed(msg);
            let p = e.channel.pending_teleport->Some_0;
            let new_funding_txo = p->AwaitingRemoteCommitmentSigned_new_funding_txo;
            let removals = p->AwaitingRemoteCommitmentSigned_removals;
            let stage = if p->AwaitingRemoteCommitmentSigned_is_initiator {
                PendingTeleport::AwaitingLocalComplete { new_funding_txo, removals }
            } else {
                PendingTeleport::AwaitingRemoteComplete { new_funding_txo, removals }
            };
            &&& msg.commitment_number == e.channel.holder_commitment_number ==> {
                &&& step.entry.channel == e.with_stage(Some(stage), e.channel.quiescence).channel
                &&& step.entry.book == e.book
                &&& step.entry.is_closed == e.is_closed
                &&& step.effects.msgs.len() == 0
                &&& step.effects.events.len() == 0
                &&& step.effects.monitor_updates =~= seq![
                    MonitorUpdate::RenegotiatedFunding { funding_txo: new_funding_txo },
                ]
            }
            &&& msg.commitment_number != e.channel.holder_commitment_number ==> {
                &&& step.entry.is_closed
                &&& step.entry.channel == e.channel
            }
        }),
{
    reveal(ChannelEntryView::commitment_signed);
    reveal(ChannelEntryView::new_scope_commitment);
}

/// A channel that is paused or without a connection takes no update, no revocation and no signature
/// but one on the new scope: it warns, and nothing changes. A repeated signature on the new scope
/// changes nothing and leads to nothing.
pub proof fn law_paused_channel_takes_no_update(
    e: ChannelEntryView,
    update: Update,
    cs: CommitmentSigned,
    raa: RevokeAndACK,
)
    requires
        e.channel.is_disconnected || e.channel.quiescence is Quiescent,
    ensures
        only_warns(e.update_received(update), e),
        only_warns(e.revoke_and_ack(raa), e),
        e.channel.spec_classify(cs) is WhileQuiescent ==> only_warns(e.commitment_signed(cs), e),
        e.channel.spec_classify(cs) is Ordinary ==> only_warns(e.commitment_signed(cs), e),
        e.channel.spec_classify(cs) is Duplicate ==> only_sends(
            e.commitment_signed(cs),
            e,
            seq![],
        ),
        e.channel.spec_classify(cs) is NewScope && e.channel.is_disconnected ==> only_warns(
            e.commitment_signed(cs),
            e,
        ),
{
    reveal(ChannelEntryView::update_received);
    reveal(ChannelEntryView::revoke_and_ack);
    reveal(ChannelEntryView::commitment_signed);
    reveal(ChannelEntryView::new_scope_commitment);
    reveal(ChannelEntryView::ordinary_commitment);
    reveal(Step::failed);
}

/// An initiator can complete exactly when it holds the responder's signature on a live connection,
/// and then tells the responder.
pub proof fn law_initiator_completes_what_is_signed(e: ChannelEntryView)
    ensures
        ({
            let waits = !e.channel.is_disconnected && e.channel.pending_teleport is Some
                && e.channel.pending_teleport->Some_0 is AwaitingLocalComplete;
            let p = e.channel.pending_teleport->Some_0;
            &&& !waits ==> e.complete_teleport() == Err::<Step, APIError>(
                APIError::TeleportNotPending,
            )
            &&& waits ==> e.complete_teleport() is Ok && only_sends(
                e.complete_teleport()->Ok_0,
                e.with_stage(
                    Some(
                        PendingTeleport::AwaitingTeleportCompleteAck {
                            new_funding_txo: p->AwaitingLocalComplete_new_funding_txo,
                            removals: p->AwaitingLocalComplete_removals,
                        },
                    ),
                    e.channel.quiescence,
                ),
                seq![
                    MessageView::SendTeleportComplete(
                        TeleportComplete { channel_id: e.channel.channel_id },
                    ),
                ],
            )
        }),
{
    reveal(ChannelEntryView::complete_teleport);
}

/// A responder that holds the initiator's signature promotes when it is told to: it is on the new
/// output with its balance less its own removal and the value less both, its monitor moves there in
/// one update, and it acknowledges. One that has promoted takes the repetition without a word. Any
/// other warns.
pub proof fn law_responder_promotes_when_told(e: ChannelEntryView)
    requires
        e.inv(),
    ensures
        ({
            let step = e.teleport_complete();
            let p = e.channel.pending_teleport->Some_0;
            let is_pending = !e.channel.is_disconnected && e.channel.pending_teleport is Some;
            let waits = is_pending && p is AwaitingRemoteComplete;
            let done = is_pending && (p is AwaitingTeleportCompleteAckSend || p is
                AwaitingRemoteActivityAfterTeleportCompleteAckSend);
            &&& waits ==> {
                let new_funding_txo = p->AwaitingRemoteComplete_new_funding_txo;
                let removals = p->AwaitingRemoteComplete_removals;
                let f = step.entry.channel.funding;
                &&& f.funding_txo == new_funding_txo
                &&& f.value_to_self_msat == e.channel.funding.value_to_self_msat - 1000
                    * removals.responder_value_removal_sat
                &&& f.value_sat == e.channel.funding.value_sat
                    - removals.responder_value_removal_sat - removals.initiator_value_removal_sat
                &&& step.entry.channel == (Channel {
                    funding: f,
                    pending_teleport: Some(
                        PendingTeleport::AwaitingTeleportCompleteAckSend {
                            new_funding_txo,
                            removals,
                        },
                    ),
                    response_ticks: 0,
                    ..e.channel
                })
                &&& step.entry.book == e.book
                &&& step.entry.is_closed == e.is_closed
                &&& step.entry.monitor.funding_txo == new_funding_txo
                &&& step.effects.monitor_updates =~= seq![
                    MonitorUpdate::RenegotiatedFundingLocked { funding_txo: new_funding_txo },
                ]
                &&& step.effects.msgs =~= seq![
                    MessageView::SendTeleportCompleteAck(
                        TeleportCompleteAck { channel_id: e.channel.channel_id },
                    ),
                ]
                &&& step.effects.events.len() == 0
            }
            &&& done ==> only_sends(step, e, seq![])
            &&& !waits && !done ==> only_warns(step, e)
        }),
{
    reveal(ChannelEntryView::teleport_complete);
    reveal(Step::failed);
}

/// An initiator that has completed promotes when the responder acknowledges: it is on the new
/// output with its balance less its own removal and the value less both, its monitor moves there
/// first, and the channel is open to updates. An acknowledgement that it does not wait for does
/// nothing.
pub proof fn law_initiator_promotes_when_acknowledged(e: ChannelEntryView)
    requires
        e.inv(),
    ensures
        ({
            let step = e.teleport_complete_ack();
            let p = e.channel.pending_teleport->Some_0;
            let waits = !e.channel.is_disconnected && e.channel.pending_teleport is Some && p is
                AwaitingTeleportCompleteAck;
            &&& waits ==> {
                let new_funding_txo = p->AwaitingTeleportCompleteAck_new_funding_txo;
                let removals = p->AwaitingTeleportCompleteAck_removals;
                let f = step.entry.channel.funding;
                &&& f.funding_txo == new_funding_txo
                &&& f.value_to_self_msat == e.channel.funding.value_to_self_msat - 1000
                    * removals.initiator_value_removal_sat
                &&& f.value_sat == e.channel.funding.value_sat
                    - removals.responder_value_removal_sat - removals.initiator_value_removal_sat
                &&& step.entry.channel == (Channel {
                    funding: f,
                    pending_teleport: None,
                    quiescence: Quiescence::Active,
                    response_ticks: 0,
                    ..e.channel
                })
                &&& step.entry.book.htlcs == e.book.htlcs
                &&& step.entry.is_closed == e.is_closed
                &&& step.entry.monitor.funding_txo == new_funding_txo
                &&& step.effects.monitor_updates.len() > 0
                &&& step.effects.monitor_updates[0]
                    == (MonitorUpdate::RenegotiatedFundingLocked { funding_txo: new_funding_txo })
            }
            &&& !waits ==> only_sends(step, e, seq![])
        }),
{
    reveal(ChannelEntryView::teleport_complete_ack);
    reveal(Step::freed);
}

/// A refusal that an initiator waits for ends the pause, on the scope that it is on. Any other is
/// answered with a warning.
pub proof fn law_refusal_ends_the_pause(e: ChannelEntryView)
    ensures
        ({
            let step = e.teleport_abort();
            let waits = !e.channel.is_disconnected && e.channel.pending_teleport is Some
                && e.channel.pending_teleport->Some_0 is AwaitingTeleportAck;
            &&& waits ==> step.entry.channel == e.with_stage(None, Quiescence::Active).channel
                && step.entry.is_closed == e.is_closed
            &&& !waits ==> only_warns(step, e)
        }),
{
    reveal(ChannelEntryView::teleport_abort);
    reveal(Step::failed);
}

/// An acceptance or an acknowledgement counts once it has left. Before that the stage waits for it;
/// what else leaves changes no stage.
pub proof fn law_sent_messages_count(e: ChannelEntryView, ack: bool, complete_ack: bool)
    ensures
        ({
            let after = e.messages_sent(ack, complete_ack);
            let p = e.channel.pending_teleport->Some_0;
            let is_some = e.channel.pending_teleport is Some;
            if ack && is_some && p is AwaitingTeleportAckSend {
                after == e.with_stage(
                    Some(
                        PendingTeleport::AwaitingRemoteCommitmentSigned {
                            new_funding_txo: p->AwaitingTeleportAckSend_new_funding_txo,
                            removals: p->AwaitingTeleportAckSend_removals,
                            is_initiator: false,
                        },
                    ),
                    e.channel.quiescence,
                )
            } else if complete_ack && is_some && p is AwaitingTeleportCompleteAckSend {
                after == e.with_stage(
                    Some(
                        PendingTeleport::AwaitingRemoteActivityAfterTeleportCompleteAckSend {
                            new_funding_txo: p->AwaitingTeleportCompleteAckSend_new_funding_txo,
                            removals: p->AwaitingTeleportCompleteAckSend_removals,
                        },
                    ),
                    Quiescence::Active,
                )
            } else {
                after == e
            }
        }),
{
}

/// What a lost connection leaves of a channel. Updates that were not signed for are forgotten. A
/// teleport stays exactly if the other side may hold this one to it: an initiator's from its
/// signature on, a responder's from the initiator's signature on. Any other is gone, and the
/// channel is open to updates.
pub proof fn law_lost_connection_keeps_what_binds(e: ChannelEntryView)
    ensures
        ({
            let after = e.peer_disconnected();
            let binds = match e.channel.pending_teleport {
                None => false,
                Some(PendingTeleport::AwaitingQuiescence { .. }) => false,
                Some(PendingTeleport::AwaitingTeleportAck { .. }) => false,
                Some(PendingTeleport::AwaitingUserDecision { .. }) => false,
                Some(PendingTeleport::AwaitingTeleportAckSend { .. }) => false,
                Some(PendingTeleport::AwaitingRemoteCommitmentSigned { is_initiator, .. }) =>
                    is_initiator,
                Some(PendingTeleport::AwaitingLocalComplete { .. }) => true,
                Some(PendingTeleport::AwaitingTeleportCompleteAck { .. }) => true,
                Some(PendingTeleport::AwaitingRemoteComplete { .. }) => true,
                Some(PendingTeleport::AwaitingTeleportCompleteAckSend { .. }) => true,
                Some(
                    PendingTeleport::AwaitingRemoteActivityAfterTeleportCompleteAckSend { .. },
                ) => true,
            };
            &&& after.channel == (Channel {
                is_disconnected: true,
                response_ticks: 0,
                pending_teleport: if binds {
                    e.channel.pending_teleport
                } else {
                    None
                },
                quiescence: if binds {
                    e.channel.quiescence
                } else {
                    Quiescence::Active
                },
                ..e.channel
            })
            &&& after.monitor == e.monitor
            &&& after.terms == e.terms
            &&& after.is_closed == e.is_closed
            &&& after.book.htlcs == e.book.htlcs
            &&& after.book.outbound == e.book.outbound
            &&& after.book.outbound_stage == e.book.outbound_stage
            &&& after.book.awaits_revocation == e.book.awaits_revocation
            &&& after.book.holding_cell == e.book.holding_cell
            &&& after.book.next_htlc_id == e.book.next_htlc_id
            &&& e.book.inbound_stage is Received ==> after.book.inbound.len() == 0
                && after.book.inbound_stage is Idle
            &&& e.book.inbound_stage !is Received ==> after.book.inbound == e.book.inbound
                && after.book.inbound_stage == e.book.inbound_stage
        }),
{
}

/// What a side says of itself after a reconnection: its commitments, and the transaction of its
/// teleport exactly if it carries one over.
pub proof fn law_side_names_what_it_carries_over(c: Channel)
    ensures
        ({
            let msg = c.spec_get_channel_reestablish();
            &&& msg.channel_id == c.channel_id
            &&& msg.holder_commitment_number == c.holder_commitment_number
            &&& msg.counterparty_commitment_number == c.counterparty_commitment_number
            &&& msg.teleport_funding_txid is Some <==> c.spec_peer_disconnected().pending_teleport
                is Some
            &&& msg.teleport_funding_txid matches Some(txid) ==> txid
                == c.pending_teleport->Some_0.spec_new_funding_txo().txid
        }),
{
}

/// What a channel does when its peer resumes it. A channel that was not disconnected warns, and one
/// whose commitments do not fit is closed. Else it is connected again. Only an initiator whose peer
/// does not name its teleport gives it up. Then, in this order, it repeats the opening messages if
/// there was no commitment yet; for its teleport the signature, the completion or the
/// acknowledgement that the peer may have missed; the revocation that the peer does not know of;
/// and the signature that it does not know of, with the updates that it covers.
pub proof fn law_resumed_channel_repeats_what_was_lost(
    e: ChannelEntryView,
    msg: ChannelReestablish,
)
    ensures
        ({
            let step = e.channel_reestablish(msg);
            let c = e.channel;
            let channel_id = c.channel_id;
            let fits = {
                &&& msg.holder_commitment_number == c.counterparty_commitment_number
                    || e.book.awaits_revocation && msg.holder_commitment_number
                    == c.counterparty_commitment_number - 1
                &&& msg.counterparty_commitment_number == c.holder_commitment_number
                    || msg.counterparty_commitment_number == c.holder_commitment_number + 1
            };
            let p = c.pending_teleport->Some_0;
            let dropped = c.pending_teleport is Some && p.spec_is_initiator()
                && msg.teleport_funding_txid != Some(p.spec_new_funding_txo().txid);
            let opening = if c.holder_commitment_number == 0xffff_ffff_ffff
                && c.counterparty_commitment_number == 0xffff_ffff_ffff {
                seq![
                    MessageView::SendChannelReady(crate::msgs::ChannelReady { channel_id }),
                    MessageView::SendAnnouncementSignatures(
                        crate::msgs::AnnouncementSignatures { channel_id },
                    ),
                ]
            } else {
                seq![]
            };
            let teleport = if c.pending_teleport is None || dropped {
                seq![]
            } else {
                match p {
                    PendingTeleport::AwaitingTeleportCompleteAck { .. } => seq![
                        MessageView::SendTeleportComplete(TeleportComplete { channel_id }),
                    ],
                    PendingTeleport::AwaitingRemoteComplete { new_funding_txo, .. } => seq![
                        signature(
                            channel_id,
                            new_funding_txo.txid,
                            c.counterparty_commitment_number,
                            seq![],
                        ),
                    ],
                    PendingTeleport::AwaitingTeleportCompleteAckSend { .. } => seq![
                        MessageView::SendTeleportCompleteAck(TeleportCompleteAck { channel_id }),
                    ],
                    PendingTeleport::AwaitingRemoteActivityAfterTeleportCompleteAckSend { .. } =>
                        seq![
                        MessageView::SendTeleportCompleteAck(TeleportCompleteAck { channel_id }),
                    ],
                    _ => seq![],
                }
            };
            let revocation = if msg.counterparty_commitment_number == c.holder_commitment_number + 1
            {
                seq![
                    MessageView::SendRevokeAndACK(
                        RevokeAndACK {
                            channel_id,
                            commitment_number: msg.counterparty_commitment_number,
                        },
                    ),
                ]
            } else {
                seq![]
            };
            let signed = if e.book.awaits_revocation && msg.holder_commitment_number
                == c.counterparty_commitment_number && c.counterparty_commitment_number > 0 {
                seq![
                    signature(
                        channel_id,
                        c.funding.funding_txo.txid,
                        (c.counterparty_commitment_number - 1) as u64,
                        if e.book.outbound_stage == OutboundStage::Sent {
                            e.book.outbound
                        } else {
                            seq![]
                        },
                    ),
                ]
            } else {
                seq![]
            };
            let repeated = opening + teleport + revocation + signed;
            &&& !c.is_disconnected ==> only_warns(step, e)
            &&& c.is_disconnected && !fits ==> step.entry.is_closed && step.entry.channel == c
            &&& c.is_disconnected && fits ==> {
                &&& step.entry.channel == (Channel {
                    is_disconnected: false,
                    response_ticks: 0,
                    pending_teleport: if dropped {
                        None
                    } else {
                        c.pending_teleport
                    },
                    quiescence: if dropped {
                        Quiescence::Active
                    } else {
                        c.quiescence
                    },
                    ..c
                })
                &&& step.entry.is_closed == e.is_closed
                &&& step.entry.book.htlcs == e.book.htlcs
                &&& repeated.len() <= step.effects.msgs.len()
                &&& step.effects.msgs.take(repeated.len() as int) =~= repeated
            }
        }),
{
    reveal(ChannelEntryView::channel_reestablish);
    assert(!e.channel.is_disconnected ==> only_warns(e.channel_reestablish(msg), e)) by {
        reveal(Step::failed);
    }
    let (channel, resend) = e.channel.spec_channel_reestablish(msg);
    let effects = e.start().effects.reopened(e.channel).resent(
        resend,
        e.channel.channel_id,
    ).revocation_repeated(e.channel, msg).signature_repeated(
        ChannelEntryView { channel, ..e },
        msg,
    );
    let before = Step { effects, ..e.start().channel(channel) };
    assert(before.freed().entry.book.htlcs == before.entry.book.htlcs) by {
        reveal(Step::freed);
    }
    assert(before.freed().effects.msgs.take(effects.msgs.len() as int) =~= effects.msgs);
}

/// A peer that owes an answer is disconnected at the second tick of the timer, and one that owes
/// none is not. It owes one after a signature of this side, when it was asked for quiescence, and
/// while the channel is paused without a teleport that survives a lost connection.
pub proof fn law_silent_peer_is_disconnected(c: Channel, awaits_revocation: bool)
    ensures
        DISCONNECT_PEER_AWAITING_RESPONSE_TICKS == 2,
        ({
            let first = c.spec_timer_tick(awaits_revocation);
            let second = first.0.spec_timer_tick(awaits_revocation);
            let binds = c.spec_peer_disconnected().pending_teleport is Some;
            let owes = !c.is_disconnected && (awaits_revocation || c.quiescence is StfuSent
                || c.quiescence is Quiescent && !binds);
            &&& owes && c.response_ticks == 0 ==> !first.1 && second.1
            &&& owes && c.response_ticks > 0 ==> first.1
            &&& !owes ==> !first.1 && first.0.response_ticks == 0
            &&& first.0 == (Channel { response_ticks: first.0.response_ticks, ..c })
        }),
{
}

/// The side that funded a channel whose commitments pay a fee follows the feerate that its node
/// wants, as soon as the channel is at rest. No other side changes the feerate.
pub proof fn law_funder_follows_the_feerate(e: ChannelEntryView, feerate_per_kw: u32)
    requires
        e.has_no_update_in_flight(),
        e.book.holding_cell.len() == 0,
        !e.channel.is_disconnected,
        e.channel.quiescence is Active,
        e.channel.counterparty_commitment_number > 0,
    ensures
        ({
            let step = e.timer_tick(feerate_per_kw);
            let update = Update::Fee { feerate_per_kw };
            if e.terms.channel_type is Stock && e.channel.is_outbound && e.channel.feerate_per_kw
                != feerate_per_kw {
                &&& step.entry.book.outbound =~= seq![update]
                &&& step.entry.book.outbound_stage is Sent
                &&& step.entry.book.awaits_revocation
                &&& step.effects.monitor_updates =~= seq![
                    MonitorUpdate::LatestCounterpartyCommitment,
                ]
                &&& step.effects.msgs =~= seq![
                    signature(
                        e.channel.channel_id,
                        e.channel.funding.funding_txo.txid,
                        (e.channel.counterparty_commitment_number - 1) as u64,
                        seq![update],
                    ),
                ]
            } else {
                &&& step.entry.book == e.book
                &&& step.effects.msgs.len() == 0
                &&& step.effects.monitor_updates.len() == 0
            }
        }),
{
    reveal(ChannelEntryView::timer_tick);
}

/// A peer that shows itself on the new scope ends a lingering teleport and nothing else.
pub proof fn law_activity_ends_only_lingering(c: Channel)
    ensures
        c.spec_note_counterparty_activity() == (Channel {
            pending_teleport: match c.pending_teleport {
                Some(
                    PendingTeleport::AwaitingRemoteActivityAfterTeleportCompleteAckSend { .. },
                ) => None,
                other => other,
            },
            ..c
        }),
        c.is_lingering() <==> c.pending_teleport is Some && c.pending_teleport->Some_0 is
            AwaitingRemoteActivityAfterTeleportCompleteAckSend,
{
}

/// The first commitment has the largest number that fits into six bytes.
pub proof fn law_commitments_count_down_from_six_bytes()
    ensures
        INITIAL_COMMITMENT_NUMBER == 256 * 256 * 256 * 256 * 256 * 256 - 1,
{
}

} // verus!
