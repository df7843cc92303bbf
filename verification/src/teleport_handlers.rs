//! How a channel with its payments and its monitor takes part in a teleport.

use crate::channel::{APIError, StfuReply, TeleportResend, ValueRemovals};
use crate::entry::{ChannelEntry, ChannelEntryView, Effects, EffectsView, Step};
use crate::events::Event;
use crate::monitor::MonitorUpdate;
use crate::msgs::{
    ChannelId, CommitmentSigned, Message, MessageView, Stfu, TeleportComplete,
    TeleportCompleteAck, TeleportInit,
};
use crate::outpoint::FundingOutPoint;
use vstd::prelude::*;

verus! {

broadcast use crate::entry::group_steps;

impl ChannelEntryView {
    /// The user starts a teleport.
    #[verifier::opaque]
    pub open spec fn teleport_channel(
        self,
        new_funding_txo: FundingOutPoint,
        removals: ValueRemovals,
    ) -> Result<Step, APIError> {
        match self.channel.spec_teleport_channel(
            new_funding_txo,
            removals,
            self.book.is_idle(),
            self.book.locked(),
        ) {
            (channel, Ok(stfu)) => Ok(
                self.start().channel(channel).msg(MessageView::SendStfu(stfu)),
            ),
            (_, Err(e)) => Err(e),
        }
    }

    /// The peer asks for quiescence, or grants it.
    #[verifier::opaque]
    pub open spec fn stfu(self, msg: Stfu) -> Step {
        match self.channel.spec_stfu(msg, self.book.is_idle()) {
            (channel, Ok(StfuReply::Stfu(m))) => self.start().channel(channel).msg(
                MessageView::SendStfu(m),
            ),
            (channel, Ok(StfuReply::TeleportInit(m))) => self.start().channel(channel).msg(
                MessageView::SendTeleportInit(m),
            ),
            (_, Err(action)) => self.start().failed(action),
        }
    }

    /// The peer proposes a teleport: the user is asked.
    #[verifier::opaque]
    pub open spec fn teleport_init(self, msg: TeleportInit) -> Step {
        match self.channel.spec_teleport_init(msg, self.book.locked()) {
            (channel, Ok(())) => self.start().channel(channel).event(
                Event::ChannelTeleport {
                    channel_id: self.channel.channel_id,
                    user_channel_id: self.channel.user_channel_id,
                    counterparty_node_id: self.channel.counterparty,
                    new_funding_txo: msg.new_funding_txo.spec_into_bitcoin_outpoint(),
                    responder_value_removal_sat: msg.responder_value_removal_sat,
                    initiator_value_removal_sat: msg.initiator_value_removal_sat,
                },
            ),
            (_, Err(action)) => self.start().failed(action),
        }
    }

    /// The user accepts: the acceptance goes out, and then the signature on the new scope.
    #[verifier::opaque]
    pub open spec fn ack_teleport(self) -> Result<Step, APIError> {
        match self.channel.spec_ack_teleport() {
            (channel, Ok((ack, cs))) => Ok(
                self.start().channel(channel).msg(MessageView::SendTeleportAck(ack)).signed(
                    seq![],
                    cs,
                ),
            ),
            (_, Err(e)) => Err(e),
        }
    }

    /// The user refuses: the channel resumes.
    #[verifier::opaque]
    pub open spec fn cancel_teleport(self) -> Result<Step, APIError> {
        match self.channel.spec_cancel_teleport() {
            (channel, Ok(abort)) => Ok(
                self.start().channel(channel).msg(MessageView::SendTeleportAbort(abort)).freed(),
            ),
            (_, Err(e)) => Err(e),
        }
    }

    /// The peer accepts: the signature on the new scope goes out.
    #[verifier::opaque]
    pub open spec fn teleport_ack(self) -> Step {
        match self.channel.spec_teleport_ack(self.book.locked()) {
            (channel, Ok(cs)) => self.start().channel(channel).signed(seq![], cs),
            (_, Err(action)) => self.start().failed(action),
        }
    }

    /// The peer signs on the new scope: the monitor watches that scope too.
    #[verifier::opaque]
    pub open spec fn new_scope_commitment(self, msg: CommitmentSigned) -> Step {
        match self.channel.spec_new_scope_commitment_received(msg) {
            (channel, Ok(())) => self.start().channel(channel).monitor(
                MonitorUpdate::RenegotiatedFunding {
                    funding_txo: channel.pending_teleport->Some_0.spec_new_funding_txo(),
                },
            ),
            (_, Err(action)) => self.start().failed(action),
        }
    }

    /// The user completes.
    #[verifier::opaque]
    pub open spec fn complete_teleport(self) -> Result<Step, APIError> {
        match self.channel.spec_complete_teleport() {
            (channel, Ok(complete)) => Ok(
                self.start().channel(channel).msg(MessageView::SendTeleportComplete(complete)),
            ),
            (_, Err(e)) => Err(e),
        }
    }

    /// The initiator completes: the monitor moves to the new scope, and the acknowledgement goes
    /// out.
    #[verifier::opaque]
    pub open spec fn teleport_complete(self) -> Step {
        match self.channel.spec_teleport_complete() {
            (channel, Ok(true)) => self.start().channel(channel).monitor(
                MonitorUpdate::RenegotiatedFundingLocked {
                    funding_txo: channel.funding.funding_txo,
                },
            ).msg(
                MessageView::SendTeleportCompleteAck(
                    TeleportCompleteAck { channel_id: self.channel.channel_id },
                ),
            ),
            (_, Ok(false)) => self.start(),
            (_, Err(action)) => self.start().failed(action),
        }
    }

    /// The responder has promoted: the monitor moves to the new scope and held updates are sent.
    #[verifier::opaque]
    pub open spec fn teleport_complete_ack(self) -> Step {
        match self.channel.spec_teleport_complete_ack() {
            (channel, true) => self.start().channel(channel).monitor(
                MonitorUpdate::RenegotiatedFundingLocked {
                    funding_txo: channel.funding.funding_txo,
                },
            ).freed(),
            (_, false) => self.start(),
        }
    }

    /// The peer refuses: the channel resumes.
    #[verifier::opaque]
    pub open spec fn teleport_abort(self) -> Step {
        match self.channel.spec_teleport_abort() {
            (channel, Ok(())) => self.start().channel(channel).freed(),
            (_, Err(action)) => self.start().failed(action),
        }
    }
}

impl EffectsView {
    /// Then what the teleport repeats after a reconnection is sent.
    pub open spec fn resent(self, resend: TeleportResend, channel_id: ChannelId) -> EffectsView {
        match resend {
            TeleportResend::Nothing => self,
            TeleportResend::CommitmentSigned(cs) => self.signed(seq![], cs),
            TeleportResend::TeleportComplete => self.msg(
                MessageView::SendTeleportComplete(TeleportComplete { channel_id }),
            ),
            TeleportResend::TeleportCompleteAck => self.msg(
                MessageView::SendTeleportCompleteAck(TeleportCompleteAck { channel_id }),
            ),
        }
    }
}

/// Whether the outcome of a call by the user is the one that is stated: the same step, or the same
/// error and nothing changed.
pub open spec fn call_outcome(
    stated: Result<Step, APIError>,
    before: ChannelEntryView,
    after: ChannelEntryView,
    res: Result<EffectsView, APIError>,
) -> bool {
    match stated {
        Ok(step) => after == step.entry && res == Ok::<EffectsView, APIError>(step.effects),
        Err(e) => after == before && res == Err::<EffectsView, APIError>(e),
    }
}

/// The contents of a result.
pub open spec fn result_view(res: Result<Effects, APIError>) -> Result<EffectsView, APIError> {
    match res {
        Ok(fx) => Ok(fx@),
        Err(e) => Err(e),
    }
}

impl ChannelEntry {
    /// Starts a teleport.
    pub fn teleport_channel(&mut self, new_funding_txo: FundingOutPoint, removals: ValueRemovals)
        -> (res: Result<Effects, APIError>)
        requires
            old(self).inv(),
        ensures
            final(self).inv(),
            final(self).same_place(old(self)),
            call_outcome(
                old(self)@.teleport_channel(new_funding_txo, removals),
                old(self)@,
                final(self)@,
                result_view(res),
            ),
    {
        reveal(ChannelEntryView::teleport_channel);
        let is_idle: bool = self.book.is_idle();
        let locked = self.book.locked();
        match self.channel.teleport_channel(new_funding_txo, removals, is_idle, locked) {
            Ok(stfu) => {
                let mut fx = Effects::new();
                fx.msg(Message::SendStfu(stfu));
                Ok(fx)
            },
            Err(e) => Err(e),
        }
    }

    /// Handles `stfu`.
    pub fn handle_stfu(&mut self, msg: &Stfu) -> (fx: Effects)
        requires
            old(self).inv(),
        ensures
            final(self).inv(),
            final(self).same_place(old(self)),
            final(self).step(&fx) == old(self)@.stfu(*msg),
    {
        reveal(ChannelEntryView::stfu);
        let mut fx = Effects::new();
        let is_idle: bool = self.book.is_idle();
        match self.channel.stfu(msg, is_idle) {
            Ok(StfuReply::Stfu(m)) => fx.msg(Message::SendStfu(m)),
            Ok(StfuReply::TeleportInit(m)) => fx.msg(Message::SendTeleportInit(m)),
            Err(action) => self.fail(&mut fx, action),
        }
        fx
    }

    /// Handles `teleport_init`.
    pub fn handle_teleport_init(&mut self, msg: &TeleportInit) -> (fx: Effects)
        requires
            old(self).inv(),
        ensures
            final(self).inv(),
            final(self).same_place(old(self)),
            final(self).step(&fx) == old(self)@.teleport_init(*msg),
    {
        reveal(ChannelEntryView::teleport_init);
        let mut fx = Effects::new();
        let locked = self.book.locked();
        match self.channel.teleport_init(msg, locked) {
            Ok(()) => fx.event(
                Event::ChannelTeleport {
                    channel_id: self.channel.channel_id,
                    user_channel_id: self.channel.user_channel_id,
                    counterparty_node_id: self.channel.counterparty,
                    new_funding_txo: msg.new_funding_txo.into_bitcoin_outpoint(),
                    responder_value_removal_sat: msg.responder_value_removal_sat,
                    initiator_value_removal_sat: msg.initiator_value_removal_sat,
                },
            ),
            Err(action) => self.fail(&mut fx, action),
        }
        fx
    }

    /// Accepts a proposed teleport.
    pub fn ack_teleport(&mut self) -> (res: Result<Effects, APIError>)
        requires
            old(self).inv(),
        ensures
            final(self).inv(),
            final(self).same_place(old(self)),
            call_outcome(old(self)@.ack_teleport(), old(self)@, final(self)@, result_view(res)),
    {
        reveal(ChannelEntryView::ack_teleport);
        match self.channel.ack_teleport() {
            Ok((ack, cs)) => {
                let mut fx = Effects::new();
                fx.msg(Message::SendTeleportAck(ack));
                fx.signed_only(cs);
                Ok(fx)
            },
            Err(e) => Err(e),
        }
    }

    /// Refuses a proposed teleport.
    pub fn cancel_teleport(&mut self) -> (res: Result<Effects, APIError>)
        requires
            old(self).inv(),
        ensures
            final(self).inv(),
            final(self).same_place(old(self)),
            call_outcome(old(self)@.cancel_teleport(), old(self)@, final(self)@, result_view(res)),
    {
        reveal(ChannelEntryView::cancel_teleport);
        match self.channel.cancel_teleport() {
            Ok(abort) => {
                let mut fx = Effects::new();
                fx.msg(Message::SendTeleportAbort(abort));
                self.free_holding_cell(&mut fx);
                Ok(fx)
            },
            Err(e) => Err(e),
        }
    }

    /// Handles `teleport_ack`.
    pub fn handle_teleport_ack(&mut self) -> (fx: Effects)
        requires
            old(self).inv(),
        ensures
            final(self).inv(),
            final(self).same_place(old(self)),
            final(self).step(&fx) == old(self)@.teleport_ack(),
    {
        reveal(ChannelEntryView::teleport_ack);
        let mut fx = Effects::new();
        let locked = self.book.locked();
        match self.channel.teleport_ack(locked) {
            Ok(cs) => fx.signed_only(cs),
            Err(action) => self.fail(&mut fx, action),
        }
        fx
    }

    /// Handles the `commitment_signed` of the new scope.
    pub(crate) fn handle_new_scope_commitment(&mut self, msg: &CommitmentSigned) -> (fx: Effects)
        requires
            old(self).inv(),
        ensures
            final(self).inv(),
            final(self).same_place(old(self)),
            final(self).step(&fx) == old(self)@.new_scope_commitment(*msg),
    {
        reveal(ChannelEntryView::new_scope_commitment);
        let mut fx = Effects::new();
        match self.channel.new_scope_commitment_received(msg) {
            Ok(()) => {
                if let Some(p) = self.channel.pending_teleport {
                    self.report(
                        &mut fx,
                        MonitorUpdate::RenegotiatedFunding { funding_txo: p.new_funding_txo() },
                    );
                }
            },
            Err(action) => self.fail(&mut fx, action),
        }
        fx
    }

    /// Completes a teleport whose commitments have been exchanged.
    pub fn complete_teleport(&mut self) -> (res: Result<Effects, APIError>)
        requires
            old(self).inv(),
        ensures
            final(self).inv(),
            final(self).same_place(old(self)),
            call_outcome(
                old(self)@.complete_teleport(),
                old(self)@,
                final(self)@,
                result_view(res),
            ),
    {
        reveal(ChannelEntryView::complete_teleport);
        match self.channel.complete_teleport() {
            Ok(complete) => {
                let mut fx = Effects::new();
                fx.msg(Message::SendTeleportComplete(complete));
                Ok(fx)
            },
            Err(e) => Err(e),
        }
    }

    /// Handles `teleport_complete`.
    pub fn handle_teleport_complete(&mut self) -> (fx: Effects)
        requires
            old(self).inv(),
        ensures
            final(self).inv(),
            final(self).same_place(old(self)),
            final(self).step(&fx) == old(self)@.teleport_complete(),
    {
        reveal(ChannelEntryView::teleport_complete);
        let mut fx = Effects::new();
        match self.channel.teleport_complete() {
            Ok(true) => {
                let funding_txo = self.channel.funding.funding_txo;
                self.report(&mut fx, MonitorUpdate::RenegotiatedFundingLocked { funding_txo });
                fx.msg(
                    Message::SendTeleportCompleteAck(
                        TeleportCompleteAck { channel_id: self.channel.channel_id },
                    ),
                );
            },
            Ok(false) => {},
            Err(action) => self.fail(&mut fx, action),
        }
        fx
    }

    /// Handles `teleport_complete_ack`.
    pub fn handle_teleport_complete_ack(&mut self) -> (fx: Effects)
        requires
            old(self).inv(),
        ensures
            final(self).inv(),
            final(self).same_place(old(self)),
            final(self).step(&fx) == old(self)@.teleport_complete_ack(),
    {
        reveal(ChannelEntryView::teleport_complete_ack);
        let mut fx = Effects::new();
        if self.channel.teleport_complete_ack() {
            let funding_txo = self.channel.funding.funding_txo;
            self.report(&mut fx, MonitorUpdate::RenegotiatedFundingLocked { funding_txo });
            self.free_holding_cell(&mut fx);
        }
        fx
    }

    /// Handles `teleport_abort`.
    pub fn handle_teleport_abort(&mut self) -> (fx: Effects)
        requires
            old(self).inv(),
        ensures
            final(self).inv(),
            final(self).same_place(old(self)),
            final(self).step(&fx) == old(self)@.teleport_abort(),
    {
        reveal(ChannelEntryView::teleport_abort);
        let mut fx = Effects::new();
        match self.channel.teleport_abort() {
            Ok(()) => self.free_holding_cell(&mut fx),
            Err(action) => self.fail(&mut fx, action),
        }
        fx
    }
}

impl Effects {
    /// Sends what a teleport repeats after a reconnection.
    pub(crate) fn resend(&mut self, resend: TeleportResend, channel_id: ChannelId)
        ensures
            final(self)@ == old(self)@.resent(resend, channel_id),
    {
        match resend {
            TeleportResend::Nothing => {},
            TeleportResend::CommitmentSigned(cs) => self.signed_only(cs),
            TeleportResend::TeleportComplete => self.msg(
                Message::SendTeleportComplete(TeleportComplete { channel_id }),
            ),
            TeleportResend::TeleportCompleteAck => self.msg(
                Message::SendTeleportCompleteAck(TeleportCompleteAck { channel_id }),
            ),
        }
    }
}

} // verus!
