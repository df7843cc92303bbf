//! The steps of a teleport on one side of a channel.
//!
//! Each step is stated as a function from the channel before it to the channel after it and the
//! answer that it gives.

use crate::channel::{
    removal_allowed, removal_fits, APIError, Channel, CommitmentClass, LockedValue,
    PendingTeleport, Quiescence, StfuReply, TeleportResend, ValueRemovals,
    DISCONNECT_PEER_AWAITING_RESPONSE_TICKS,
};
use crate::msgs::{
    ChannelReestablish, CommitmentSigned, ErrorAction, Stfu, TeleportAbort, TeleportAck,
    TeleportComplete, TeleportInit,
};
use crate::outpoint::{names_txid, FundingOutPoint};
use vstd::prelude::*;

verus! {

impl Channel {
    /// The user starts a teleport. Only the initiator's own removal is checked here, and only an
    /// idle channel with a connected peer can start one.
    pub open spec fn spec_teleport_channel(
        self,
        new_funding_txo: FundingOutPoint,
        removals: ValueRemovals,
        is_idle: bool,
        locked: LockedValue,
    ) -> (Channel, Result<Stfu, APIError>) {
        if self.is_disconnected {
            (self, Err(APIError::ChannelUnavailable))
        } else if self.pending_teleport is Some || self.quiescence !is Active || !is_idle {
            (self, Err(APIError::ChannelBusy))
        } else if !removal_fits(
            removals.initiator_value_removal_sat,
            self.holder_reserve_sat,
            locked.offered_msat as int,
            self.funding.value_to_self_msat as int,
        ) {
            (
                self,
                Err(
                    APIError::ExcessiveRemoval {
                        initiator_value_removal_sat: removals.initiator_value_removal_sat,
                    },
                ),
            )
        } else {
            (
                Channel {
                    quiescence: Quiescence::StfuSent,
                    ..self.at_stage(
                        PendingTeleport::AwaitingQuiescence { new_funding_txo, removals },
                    )
                },
                Ok(Stfu { channel_id: self.channel_id, initiator: true }),
            )
        }
    }

    /// Starts a teleport by asking the peer for quiescence.
    pub fn teleport_channel(
        &mut self,
        new_funding_txo: FundingOutPoint,
        removals: ValueRemovals,
        is_idle: bool,
        locked: LockedValue,
    ) -> (res: Result<Stfu, APIError>)
        requires
            old(self).inv(),
        ensures
            final(self).inv(),
            (*final(self), res) == old(self).spec_teleport_channel(
                new_funding_txo,
                removals,
                is_idle,
                locked,
            ),
    {
        if self.is_disconnected {
            return Err(APIError::ChannelUnavailable);
        }
        if self.pending_teleport.is_some() || self.quiescence != Quiescence::Active || !is_idle {
            return Err(APIError::ChannelBusy);
        }
        if !removal_allowed(
            removals.initiator_value_removal_sat,
            self.holder_reserve_sat,
            locked.offered_msat,
            self.funding.value_to_self_msat as u128,
        ) {
            return Err(
                APIError::ExcessiveRemoval {
                    initiator_value_removal_sat: removals.initiator_value_removal_sat,
                },
            );
        }
        self.quiescence = Quiescence::StfuSent;
        self.pending_teleport = Some(
            PendingTeleport::AwaitingQuiescence { new_funding_txo, removals },
        );
        self.response_ticks = 0;
        Ok(Stfu { channel_id: self.channel_id, initiator: true })
    }

    /// The peer asks for quiescence, or grants it. A request pauses an idle channel and is granted;
    /// it also proves that the peer is done with an earlier teleport. A grant lets this side
    /// propose. Neither may come while an update is in flight.
    pub open spec fn spec_stfu(self, msg: Stfu, is_idle: bool) -> (
        Channel,
        Result<StfuReply, ErrorAction>,
    ) {
        if self.is_disconnected {
            (self, Err(ErrorAction::DisconnectPeerWithWarning))
        } else if self.quiescence is Active && msg.initiator && is_idle {
            (
                Channel { quiescence: Quiescence::Quiescent, ..self.resumed() },
                Ok(StfuReply::Stfu(Stfu { channel_id: self.channel_id, initiator: false })),
            )
        } else if self.quiescence is StfuSent && !msg.initiator && is_idle {
            match self.pending_teleport {
                Some(PendingTeleport::AwaitingQuiescence { new_funding_txo, removals }) => (
                    Channel {
                        quiescence: Quiescence::Quiescent,
                        ..self.at_stage(
                            PendingTeleport::AwaitingTeleportAck { new_funding_txo, removals },
                        )
                    },
                    Ok(
                        StfuReply::TeleportInit(
                            TeleportInit {
                                channel_id: self.channel_id,
                                new_funding_txo,
                                responder_value_removal_sat: removals.responder_value_removal_sat,
                                initiator_value_removal_sat: removals.initiator_value_removal_sat,
                            },
                        ),
                    ),
                ),
                _ => (self, Err(ErrorAction::DisconnectPeerWithWarning)),
            }
        } else {
            (self, Err(ErrorAction::DisconnectPeerWithWarning))
        }
    }

    /// Handles `stfu`.
    pub fn stfu(&mut self, msg: &Stfu, is_idle: bool) -> (res: Result<StfuReply, ErrorAction>)
        requires
            old(self).inv(),
        ensures
            final(self).inv(),
            (*final(self), res) == old(self).spec_stfu(*msg, is_idle),
    {
        if self.is_disconnected {
            return Err(ErrorAction::DisconnectPeerWithWarning);
        }
        if self.quiescence == Quiescence::Active && msg.initiator && is_idle {
            self.pending_teleport = None;
            self.quiescence = Quiescence::Quiescent;
            self.response_ticks = 0;
            return Ok(StfuReply::Stfu(Stfu { channel_id: self.channel_id, initiator: false }));
        }
        if self.quiescence == Quiescence::StfuSent && !msg.initiator && is_idle {
            if let Some(PendingTeleport::AwaitingQuiescence { new_funding_txo, removals }) =
                self.pending_teleport {
                self.quiescence = Quiescence::Quiescent;
                self.pending_teleport = Some(
                    PendingTeleport::AwaitingTeleportAck { new_funding_txo, removals },
                );
                self.response_ticks = 0;
                return Ok(
                    StfuReply::TeleportInit(
                        TeleportInit {
                            channel_id: self.channel_id,
                            new_funding_txo,
                            responder_value_removal_sat: removals.responder_value_removal_sat,
                            initiator_value_removal_sat: removals.initiator_value_removal_sat,
                        },
                    ),
                );
            }
        }
        Err(ErrorAction::DisconnectPeerWithWarning)
    }

    /// The peer proposes a teleport. A removal that either side cannot afford closes the channel;
    /// otherwise the user has to decide.
    pub open spec fn spec_teleport_init(self, msg: TeleportInit, locked: LockedValue) -> (
        Channel,
        Result<(), ErrorAction>,
    ) {
        let removals = ValueRemovals {
            responder_value_removal_sat: msg.responder_value_removal_sat,
            initiator_value_removal_sat: msg.initiator_value_removal_sat,
        };
        if self.is_disconnected || self.quiescence !is Quiescent || self.pending_teleport is Some {
            (self, Err(ErrorAction::DisconnectPeerWithWarning))
        } else if !self.removals_fit(removals, false, locked) {
            (self, Err(ErrorAction::SendErrorMessage))
        } else {
            (
                self.at_stage(
                    PendingTeleport::AwaitingUserDecision {
                        new_funding_txo: msg.new_funding_txo,
                        removals,
                    },
                ),
                Ok(()),
            )
        }
    }

    /// Handles `teleport_init`.
    pub fn teleport_init(&mut self, msg: &TeleportInit, locked: LockedValue) -> (res: Result<
        (),
        ErrorAction,
    >)
        requires
            old(self).inv(),
        ensures
            final(self).inv(),
            (*final(self), res) == old(self).spec_teleport_init(*msg, locked),
    {
        let removals = ValueRemovals {
            responder_value_removal_sat: msg.responder_value_removal_sat,
            initiator_value_removal_sat: msg.initiator_value_removal_sat,
        };
        if self.is_disconnected || self.quiescence != Quiescence::Quiescent
            || self.pending_teleport.is_some() {
            return Err(ErrorAction::DisconnectPeerWithWarning);
        }
        if !self.removals_allowed(removals, false, locked) {
            return Err(ErrorAction::SendErrorMessage);
        }
        self.pending_teleport = Some(
            PendingTeleport::AwaitingUserDecision {
                new_funding_txo: msg.new_funding_txo,
                removals,
            },
        );
        self.response_ticks = 0;
        Ok(())
    }

    /// The user accepts: the acceptance and the first commitment of the new scope are queued.
    pub open spec fn spec_ack_teleport(self) -> (
        Channel,
        Result<(TeleportAck, CommitmentSigned), APIError>,
    ) {
        match self.pending_teleport {
            Some(
                PendingTeleport::AwaitingUserDecision { new_funding_txo, removals },
            ) if !self.is_disconnected => (
                self.at_stage(
                    PendingTeleport::AwaitingTeleportAckSend { new_funding_txo, removals },
                ),
                Ok(
                    (
                        TeleportAck { channel_id: self.channel_id },
                        self.new_scope_commitment(new_funding_txo),
                    ),
                ),
            ),
            _ => (self, Err(APIError::TeleportNotPending)),
        }
    }

    /// Accepts a proposed teleport.
    pub fn ack_teleport(&mut self) -> (res: Result<(TeleportAck, CommitmentSigned), APIError>)
        requires
            old(self).inv(),
        ensures
            final(self).inv(),
            (*final(self), res) == old(self).spec_ack_teleport(),
    {
        if !self.is_disconnected {
            if let Some(PendingTeleport::AwaitingUserDecision { new_funding_txo, removals }) =
                self.pending_teleport {
                self.pending_teleport = Some(
                    PendingTeleport::AwaitingTeleportAckSend { new_funding_txo, removals },
                );
                self.response_ticks = 0;
                return Ok(
                    (
                        TeleportAck { channel_id: self.channel_id },
                        self.new_scope_commitment_signed(new_funding_txo),
                    ),
                );
            }
        }
        Err(APIError::TeleportNotPending)
    }

    /// The user refuses: the channel resumes on its old scope.
    pub open spec fn spec_cancel_teleport(self) -> (Channel, Result<TeleportAbort, APIError>) {
        match self.pending_teleport {
            Some(PendingTeleport::AwaitingUserDecision { .. }) if !self.is_disconnected => (
                self.resumed(),
                Ok(TeleportAbort { channel_id: self.channel_id }),
            ),
            _ => (self, Err(APIError::TeleportNotPending)),
        }
    }

    /// Refuses a proposed teleport.
    pub fn cancel_teleport(&mut self) -> (res: Result<TeleportAbort, APIError>)
        requires
            old(self).inv(),
        ensures
            final(self).inv(),
            (*final(self), res) == old(self).spec_cancel_teleport(),
    {
        if !self.is_disconnected {
            if let Some(PendingTeleport::AwaitingUserDecision { .. }) = self.pending_teleport {
                self.resume();
                return Ok(TeleportAbort { channel_id: self.channel_id });
            }
        }
        Err(APIError::TeleportNotPending)
    }

    fn resume(&mut self)
        ensures
            *final(self) == old(self).resumed(),
    {
        self.pending_teleport = None;
        self.quiescence = Quiescence::Active;
        self.response_ticks = 0;
    }

    /// The queued acceptance has left: from here on the peer may sign.
    pub open spec fn spec_teleport_ack_sent(self) -> Channel {
        match self.pending_teleport {
            Some(PendingTeleport::AwaitingTeleportAckSend { new_funding_txo, removals }) =>
                self.at_stage(
                PendingTeleport::AwaitingRemoteCommitmentSigned {
                    new_funding_txo,
                    removals,
                    is_initiator: false,
                },
            ),
            _ => self,
        }
    }

    /// Notes that `teleport_ack` has left.
    pub fn teleport_ack_sent(&mut self)
        requires
            old(self).inv(),
        ensures
            final(self).inv(),
            *final(self) == old(self).spec_teleport_ack_sent(),
    {
        if let Some(PendingTeleport::AwaitingTeleportAckSend { new_funding_txo, removals }) =
            self.pending_teleport {
            self.pending_teleport = Some(
                PendingTeleport::AwaitingRemoteCommitmentSigned {
                    new_funding_txo,
                    removals,
                    is_initiator: false,
                },
            );
            self.response_ticks = 0;
        }
    }

    /// The peer accepts: this side signs the first commitment of the new scope. It checks both
    /// removals, since only its own was checked when it proposed them.
    pub open spec fn spec_teleport_ack(self, locked: LockedValue) -> (
        Channel,
        Result<CommitmentSigned, ErrorAction>,
    ) {
        match self.pending_teleport {
            Some(
                PendingTeleport::AwaitingTeleportAck { new_funding_txo, removals },
            ) if !self.is_disconnected => if self.removals_fit(removals, true, locked) {
                (
                    self.at_stage(
                        PendingTeleport::AwaitingRemoteCommitmentSigned {
                            new_funding_txo,
                            removals,
                            is_initiator: true,
                        },
                    ),
                    Ok(self.new_scope_commitment(new_funding_txo)),
                )
            } else {
                (self, Err(ErrorAction::SendErrorMessage))
            },
            _ => (self, Err(ErrorAction::DisconnectPeerWithWarning)),
        }
    }

    /// Handles `teleport_ack`.
    pub fn teleport_ack(&mut self, locked: LockedValue) -> (res: Result<
        CommitmentSigned,
        ErrorAction,
    >)
        requires
            old(self).inv(),
        ensures
            final(self).inv(),
            (*final(self), res) == old(self).spec_teleport_ack(locked),
    {
        if !self.is_disconnected {
            if let Some(PendingTeleport::AwaitingTeleportAck { new_funding_txo, removals }) =
                self.pending_teleport {
                if !self.removals_allowed(removals, true, locked) {
                    return Err(ErrorAction::SendErrorMessage);
                }
                self.pending_teleport = Some(
                    PendingTeleport::AwaitingRemoteCommitmentSigned {
                        new_funding_txo,
                        removals,
                        is_initiator: true,
                    },
                );
                self.response_ticks = 0;
                return Ok(self.new_scope_commitment_signed(new_funding_txo));
            }
        }
        Err(ErrorAction::DisconnectPeerWithWarning)
    }

    /// What a received signature is. One that names the new scope of the pending teleport is
    /// awaited, or repeated while that scope is not the current one; any other belongs to the
    /// current scope, which takes none while it is paused.
    pub open spec fn spec_classify(self, msg: CommitmentSigned) -> CommitmentClass {
        match self.pending_teleport {
            Some(p) if msg.funding_txid == Some(p.spec_new_funding_txo().txid) && p is
                AwaitingRemoteCommitmentSigned => CommitmentClass::NewScope,
            Some(p) if msg.funding_txid == Some(p.spec_new_funding_txo().txid)
                && p.spec_new_funding_txo().txid != self.funding.funding_txo.txid =>
                CommitmentClass::Duplicate,
            _ => if self.quiescence is Quiescent {
                CommitmentClass::WhileQuiescent
            } else {
                CommitmentClass::Ordinary
            },
        }
    }

    /// Tells how to handle a `commitment_signed`.
    pub fn classify(&self, msg: &CommitmentSigned) -> (class: CommitmentClass)
        ensures
            class == self.spec_classify(*msg),
    {
        if let Some(p) = self.pending_teleport {
            let new_txid = p.new_funding_txo().txid;
            if names_txid(&msg.funding_txid, &new_txid) {
                if let PendingTeleport::AwaitingRemoteCommitmentSigned { .. } = p {
                    return CommitmentClass::NewScope;
                }
                if new_txid != self.funding.funding_txo.txid {
                    return CommitmentClass::Duplicate;
                }
            }
        }
        if self.quiescence == Quiescence::Quiescent {
            CommitmentClass::WhileQuiescent
        } else {
            CommitmentClass::Ordinary
        }
    }

    /// The peer signs this side's first commitment of the new scope. The signature must be for the
    /// number of the current commitment; any other number closes the channel.
    pub open spec fn spec_new_scope_commitment_received(self, msg: CommitmentSigned) -> (
        Channel,
        Result<(), ErrorAction>,
    ) {
        match self.pending_teleport {
            Some(
                PendingTeleport::AwaitingRemoteCommitmentSigned {
                    new_funding_txo,
                    removals,
                    is_initiator,
                },
            ) if !self.is_disconnected => if msg.commitment_number
                != self.holder_commitment_number {
                (self, Err(ErrorAction::SendErrorMessage))
            } else if is_initiator {
                (
                    self.at_stage(
                        PendingTeleport::AwaitingLocalComplete { new_funding_txo, removals },
                    ),
                    Ok(()),
                )
            } else {
                (
                    self.at_stage(
                        PendingTeleport::AwaitingRemoteComplete { new_funding_txo, removals },
                    ),
                    Ok(()),
                )
            },
            _ => (self, Err(ErrorAction::DisconnectPeerWithWarning)),
        }
    }

    /// Handles the `commitment_signed` of the new scope.
    pub fn new_scope_commitment_received(&mut self, msg: &CommitmentSigned) -> (res: Result<
        (),
        ErrorAction,
    >)
        requires
            old(self).inv(),
        ensures
            final(self).inv(),
            (*final(self), res) == old(self).spec_new_scope_commitment_received(*msg),
    {
        if !self.is_disconnected {
            if let Some(
                PendingTeleport::AwaitingRemoteCommitmentSigned {
                    new_funding_txo,
                    removals,
                    is_initiator,
                },
            ) = self.pending_teleport {
                if msg.commitment_number != self.holder_commitment_number {
                    return Err(ErrorAction::SendErrorMessage);
                }
                self.pending_teleport = if is_initiator {
                    Some(PendingTeleport::AwaitingLocalComplete { new_funding_txo, removals })
                } else {
                    Some(PendingTeleport::AwaitingRemoteComplete { new_funding_txo, removals })
                };
                self.response_ticks = 0;
                return Ok(());
            }
        }
        Err(ErrorAction::DisconnectPeerWithWarning)
    }

    /// The user completes: the responder is told to promote. This side stays on the old scope.
    pub open spec fn spec_complete_teleport(self) -> (Channel, Result<TeleportComplete, APIError>) {
        match self.pending_teleport {
            Some(
                PendingTeleport::AwaitingLocalComplete { new_funding_txo, removals },
            ) if !self.is_disconnected => (
                self.at_stage(
                    PendingTeleport::AwaitingTeleportCompleteAck { new_funding_txo, removals },
                ),
                Ok(TeleportComplete { channel_id: self.channel_id }),
            ),
            _ => (self, Err(APIError::TeleportNotPending)),
        }
    }

    /// Completes a teleport whose commitments have been exchanged.
    pub fn complete_teleport(&mut self) -> (res: Result<TeleportComplete, APIError>)
        requires
            old(self).inv(),
        ensures
            final(self).inv(),
            (*final(self), res) == old(self).spec_complete_teleport(),
    {
        if !self.is_disconnected {
            if let Some(PendingTeleport::AwaitingLocalComplete { new_funding_txo, removals }) =
                self.pending_teleport {
                self.pending_teleport = Some(
                    PendingTeleport::AwaitingTeleportCompleteAck { new_funding_txo, removals },
                );
                self.response_ticks = 0;
                return Ok(TeleportComplete { channel_id: self.channel_id });
            }
        }
        Err(APIError::TeleportNotPending)
    }

    /// The initiator completes: this side promotes and answers. `Ok(true)` says that it promoted
    /// just now, `Ok(false)` that it had done so before.
    pub open spec fn spec_teleport_complete(self) -> (Channel, Result<bool, ErrorAction>) {
        match self.pending_teleport {
            Some(p) if self.is_disconnected => (self, Err(ErrorAction::DisconnectPeerWithWarning)),
            Some(PendingTeleport::AwaitingRemoteComplete { new_funding_txo, removals }) => (
                self.promoted(self.pending_teleport->Some_0).at_stage(
                    PendingTeleport::AwaitingTeleportCompleteAckSend { new_funding_txo, removals },
                ),
                Ok(true),
            ),
            Some(p) if p.is_promoted() => (self, Ok(false)),
            _ => (self, Err(ErrorAction::DisconnectPeerWithWarning)),
        }
    }

    /// Handles `teleport_complete`.
    pub fn teleport_complete(&mut self) -> (res: Result<bool, ErrorAction>)
        requires
            old(self).inv(),
        ensures
            final(self).inv(),
            (*final(self), res) == old(self).spec_teleport_complete(),
    {
        if !self.is_disconnected {
            match self.pending_teleport {
                Some(PendingTeleport::AwaitingRemoteComplete { new_funding_txo, removals }) => {
                    self.funding = self.teleported_scope(new_funding_txo, removals, false);
                    self.pending_teleport = Some(
                        PendingTeleport::AwaitingTeleportCompleteAckSend {
                            new_funding_txo,
                            removals,
                        },
                    );
                    self.response_ticks = 0;
                    return Ok(true);
                },
                Some(PendingTeleport::AwaitingTeleportCompleteAckSend { .. }) => {
                    return Ok(false);
                },
                Some(PendingTeleport::AwaitingRemoteActivityAfterTeleportCompleteAckSend { .. }) => {
                    return Ok(false);
                },
                _ => {},
            }
        }
        Err(ErrorAction::DisconnectPeerWithWarning)
    }

    /// The queued acknowledgement has left: the channel takes updates again, and the teleport
    /// lingers until the initiator shows that it promoted.
    pub open spec fn spec_teleport_complete_ack_sent(self) -> Channel {
        match self.pending_teleport {
            Some(PendingTeleport::AwaitingTeleportCompleteAckSend { new_funding_txo, removals }) =>
                Channel {
                quiescence: Quiescence::Active,
                ..self.at_stage(
                    PendingTeleport::AwaitingRemoteActivityAfterTeleportCompleteAckSend {
                        new_funding_txo,
                        removals,
                    },
                )
            },
            _ => self,
        }
    }

    /// Notes that `teleport_complete_ack` has left.
    pub fn teleport_complete_ack_sent(&mut self)
        requires
            old(self).inv(),
        ensures
            final(self).inv(),
            *final(self) == old(self).spec_teleport_complete_ack_sent(),
    {
        if let Some(PendingTeleport::AwaitingTeleportCompleteAckSend { new_funding_txo, removals }) =
            self.pending_teleport {
            self.pending_teleport = Some(
                PendingTeleport::AwaitingRemoteActivityAfterTeleportCompleteAckSend {
                    new_funding_txo,
                    removals,
                },
            );
            self.quiescence = Quiescence::Active;
            self.response_ticks = 0;
        }
    }

    /// The responder has promoted: an initiator that waits for this promotes and resumes. The flag
    /// says whether it promoted just now. At any other stage the message is a repetition, which
    /// changes nothing.
    pub open spec fn spec_teleport_complete_ack(self) -> (Channel, bool) {
        match self.pending_teleport {
            Some(
                PendingTeleport::AwaitingTeleportCompleteAck { .. },
            ) if !self.is_disconnected => (
                self.promoted(self.pending_teleport->Some_0).resumed(),
                true,
            ),
            _ => (self, false),
        }
    }

    /// Handles `teleport_complete_ack`.
    pub fn teleport_complete_ack(&mut self) -> (promoted: bool)
        requires
            old(self).inv(),
        ensures
            final(self).inv(),
            (*final(self), promoted) == old(self).spec_teleport_complete_ack(),
    {
        if !self.is_disconnected {
            if let Some(PendingTeleport::AwaitingTeleportCompleteAck { new_funding_txo, removals }) =
                self.pending_teleport {
                self.funding = self.teleported_scope(new_funding_txo, removals, true);
                self.resume();
                return true;
            }
        }
        false
    }

    /// The peer refuses: the channel resumes on its old scope. Once this side has signed on the new
    /// scope a refusal comes too late.
    pub open spec fn spec_teleport_abort(self) -> (Channel, Result<(), ErrorAction>) {
        match self.pending_teleport {
            Some(PendingTeleport::AwaitingTeleportAck { .. }) if !self.is_disconnected => (
                self.resumed(),
                Ok(()),
            ),
            _ => (self, Err(ErrorAction::DisconnectPeerWithWarning)),
        }
    }

    /// Handles `teleport_abort`.
    pub fn teleport_abort(&mut self) -> (res: Result<(), ErrorAction>)
        requires
            old(self).inv(),
        ensures
            final(self).inv(),
            (*final(self), res) == old(self).spec_teleport_abort(),
    {
        if !self.is_disconnected {
            if let Some(PendingTeleport::AwaitingTeleportAck { .. }) = self.pending_teleport {
                self.resume();
                return Ok(());
            }
        }
        Err(ErrorAction::DisconnectPeerWithWarning)
    }

    /// The peer used the new scope: a lingering teleport is over.
    pub open spec fn spec_note_counterparty_activity(self) -> Channel {
        match self.pending_teleport {
            Some(PendingTeleport::AwaitingRemoteActivityAfterTeleportCompleteAckSend { .. }) =>
                Channel { pending_teleport: None, ..self },
            _ => self,
        }
    }

    /// Retires a lingering teleport.
    pub fn note_counterparty_post_teleport_complete_ack_activity(&mut self)
        requires
            old(self).inv(),
        ensures
            final(self).inv(),
            *final(self) == old(self).spec_note_counterparty_activity(),
    {
        if let Some(PendingTeleport::AwaitingRemoteActivityAfterTeleportCompleteAckSend { .. }) =
            self.pending_teleport {
            self.pending_teleport = None;
        }
    }

    /// The connection drops, or this side restarts. Only a persistent teleport is carried over,
    /// together with the pause that it stands for.
    pub open spec fn spec_peer_disconnected(self) -> Channel {
        match self.pending_teleport {
            Some(p) if p.spec_is_persistent() => Channel {
                is_disconnected: true,
                response_ticks: 0,
                ..self
            },
            _ => Channel { is_disconnected: true, ..self.resumed() },
        }
    }

    /// Notes that the peer is gone.
    pub fn peer_disconnected(&mut self)
        requires
            old(self).inv(),
        ensures
            final(self).inv(),
            *final(self) == old(self).spec_peer_disconnected(),
    {
        let keep: bool = match self.pending_teleport {
            Some(p) => p.is_persistent(),
            None => false,
        };
        if !keep {
            self.pending_teleport = None;
            self.quiescence = Quiescence::Active;
        }
        self.is_disconnected = true;
        self.response_ticks = 0;
    }

    /// What this side says of itself after a reconnection. It names the scope of a teleport exactly
    /// if it carries one over.
    pub open spec fn spec_get_channel_reestablish(self) -> ChannelReestablish {
        ChannelReestablish {
            channel_id: self.channel_id,
            holder_commitment_number: self.holder_commitment_number,
            counterparty_commitment_number: self.counterparty_commitment_number,
            teleport_funding_txid: match self.pending_teleport {
                Some(p) if p.spec_is_persistent() => Some(p.spec_new_funding_txo().txid),
                _ => None,
            },
        }
    }

    /// The `channel_reestablish` to send.
    pub fn get_channel_reestablish(&self) -> (msg: ChannelReestablish)
        ensures
            msg == self.spec_get_channel_reestablish(),
    {
        let teleport_funding_txid = match self.pending_teleport {
            Some(p) => if p.is_persistent() {
                Some(p.new_funding_txo().txid)
            } else {
                None
            },
            None => None,
        };
        ChannelReestablish {
            channel_id: self.channel_id,
            holder_commitment_number: self.holder_commitment_number,
            counterparty_commitment_number: self.counterparty_commitment_number,
            teleport_funding_txid,
        }
    }

    /// The peer resumes the channel. An initiator gives its teleport up if the responder does not
    /// name it; a responder that has signed repeats its signature, and one that has promoted its
    /// acknowledgement. An initiator that has completed repeats that too.
    pub open spec fn spec_channel_reestablish(self, msg: ChannelReestablish) -> (
        Channel,
        TeleportResend,
    ) {
        let back = Channel { is_disconnected: false, response_ticks: 0, ..self };
        match self.pending_teleport {
            Some(p) if p.spec_is_initiator() => if msg.teleport_funding_txid != Some(
                p.spec_new_funding_txo().txid,
            ) {
                (back.resumed(), TeleportResend::Nothing)
            } else if p is AwaitingTeleportCompleteAck {
                (back, TeleportResend::TeleportComplete)
            } else {
                (back, TeleportResend::Nothing)
            },
            Some(PendingTeleport::AwaitingRemoteComplete { new_funding_txo, .. }) => (
                back,
                TeleportResend::CommitmentSigned(self.new_scope_commitment(new_funding_txo)),
            ),
            Some(p) if p.is_promoted() => (back, TeleportResend::TeleportCompleteAck),
            _ => (back, TeleportResend::Nothing),
        }
    }

    /// Handles the part of `channel_reestablish` that concerns the teleport.
    pub fn channel_reestablish(&mut self, msg: &ChannelReestablish) -> (resend: TeleportResend)
        requires
            old(self).inv(),
        ensures
            final(self).inv(),
            (*final(self), resend) == old(self).spec_channel_reestablish(*msg),
    {
        self.is_disconnected = false;
        self.response_ticks = 0;
        match self.pending_teleport {
            None => TeleportResend::Nothing,
            Some(p) => match p {
                PendingTeleport::AwaitingRemoteComplete { new_funding_txo, .. } =>
                    TeleportResend::CommitmentSigned(
                    self.new_scope_commitment_signed(new_funding_txo),
                ),
                PendingTeleport::AwaitingTeleportCompleteAckSend { .. } =>
                    TeleportResend::TeleportCompleteAck,
                PendingTeleport::AwaitingRemoteActivityAfterTeleportCompleteAckSend { .. } =>
                    TeleportResend::TeleportCompleteAck,
                _ => {
                    if !p.is_initiator() {
                        return TeleportResend::Nothing;
                    }
                    if !names_txid(&msg.teleport_funding_txid, &p.new_funding_txo().txid) {
                        self.resume();
                        return TeleportResend::Nothing;
                    }
                    if let PendingTeleport::AwaitingTeleportCompleteAck { .. } = p {
                        return TeleportResend::TeleportComplete;
                    }
                    TeleportResend::Nothing
                },
            },
        }
    }

    /// Whether this side waits for something that only the peer can send. A persistent teleport
    /// waits for the users instead.
    pub open spec fn awaits_response(self, awaits_revocation: bool) -> bool {
        &&& !self.is_disconnected
        &&& {
            ||| awaits_revocation
            ||| self.quiescence is StfuSent
            ||| self.quiescence is Quiescent && !(self.pending_teleport is Some
                && self.pending_teleport->Some_0.spec_is_persistent())
        }
    }

    /// A timer tick passes. The peer is disconnected once it has left this side waiting for
    /// [`DISCONNECT_PEER_AWAITING_RESPONSE_TICKS`] ticks.
    pub open spec fn spec_timer_tick(self, awaits_revocation: bool) -> (Channel, bool) {
        if !self.awaits_response(awaits_revocation) {
            (Channel { response_ticks: 0, ..self }, false)
        } else if self.response_ticks + 1 < DISCONNECT_PEER_AWAITING_RESPONSE_TICKS {
            (Channel { response_ticks: (self.response_ticks + 1) as u64, ..self }, false)
        } else {
            (Channel { response_ticks: DISCONNECT_PEER_AWAITING_RESPONSE_TICKS, ..self }, true)
        }
    }

    /// Counts a timer tick and tells whether to disconnect the peer.
    pub fn timer_tick(&mut self, awaits_revocation: bool) -> (disconnect: bool)
        requires
            old(self).inv(),
        ensures
            final(self).inv(),
            (*final(self), disconnect) == old(self).spec_timer_tick(awaits_revocation),
    {
        let persistent: bool = match self.pending_teleport {
            Some(p) => p.is_persistent(),
            None => false,
        };
        let awaits: bool = !self.is_disconnected && (awaits_revocation || self.quiescence
            == Quiescence::StfuSent || self.quiescence == Quiescence::Quiescent && !persistent);
        if !awaits {
            self.response_ticks = 0;
            false
        } else if self.response_ticks < DISCONNECT_PEER_AWAITING_RESPONSE_TICKS - 1 {
            self.response_ticks = self.response_ticks + 1;
            false
        } else {
            self.response_ticks = DISCONNECT_PEER_AWAITING_RESPONSE_TICKS;
            true
        }
    }
}

} // verus!
