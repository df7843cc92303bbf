//! How a channel fares with its connection: losing it, resuming, waiting, and sending.

use crate::channel::{Channel, INITIAL_COMMITMENT_NUMBER};
use crate::entry::{
    copy_updates, ChannelEntry, ChannelEntryView, Effects, EffectsView, Step,
};
use crate::funding::ChannelType;
use crate::htlcs::{lemma_added_one, HtlcBookView, InboundStage, OutboundStage};
use crate::msgs::{
    AnnouncementSignatures, ChannelReady, ChannelReestablish, ErrorAction, Message, MessageView,
    RevokeAndACK, Update,
};
use vstd::prelude::*;

verus! {

broadcast use crate::entry::group_steps;

impl ChannelEntryView {
    /// The connection drops, or this side restarts. Updates that were never signed for are
    /// forgotten; the counterparty repeats them.
    pub open spec fn peer_disconnected(self) -> ChannelEntryView {
        ChannelEntryView {
            channel: self.channel.spec_peer_disconnected(),
            book: if self.book.inbound_stage is Received {
                HtlcBookView {
                    inbound: seq![],
                    inbound_stage: InboundStage::Idle,
                    ..self.book
                }
            } else {
                self.book
            },
            ..self
        }
    }

    /// Whether the commitment numbers of both sides fit together after a reconnection: each side
    /// is where the other believes, or one signature or revocation ahead.
    pub open spec fn in_sync(self, msg: ChannelReestablish) -> bool {
        let c = self.channel;
        &&& msg.holder_commitment_number == c.counterparty_commitment_number
            || self.book.awaits_revocation && msg.holder_commitment_number + 1
            == c.counterparty_commitment_number
        &&& msg.counterparty_commitment_number == c.holder_commitment_number
            || msg.counterparty_commitment_number == c.holder_commitment_number + 1
    }

    /// The peer resumes the channel. A channel without updates so far repeats its opening messages.
    /// What the teleport repeats goes first, so that a peer still waiting for the acknowledgement
    /// learns of it before any update; then a lost revocation and a lost signature are repeated.
    #[verifier::opaque]
    pub open spec fn channel_reestablish(self, msg: ChannelReestablish) -> Step {
        let c = self.channel;
        if !c.is_disconnected {
            self.start().failed(ErrorAction::DisconnectPeerWithWarning)
        } else if !self.in_sync(msg) {
            self.start().failed(ErrorAction::SendErrorMessage)
        } else {
            let (channel, resend) = c.spec_channel_reestablish(msg);
            let effects = self.start().effects.reopened(c).resent(
                resend,
                c.channel_id,
            ).revocation_repeated(c, msg).signature_repeated(
                ChannelEntryView { channel, ..self },
                msg,
            );
            Step { effects, ..self.start().channel(channel) }.freed()
        }
    }

    /// A timer tick passes. A peer that does not respond is disconnected, held updates are sent,
    /// and the side that funded the channel follows the feerate if commitments pay a fee.
    #[verifier::opaque]
    pub open spec fn timer_tick(self, feerate_per_kw: u32) -> Step {
        let (channel, disconnect) = self.channel.spec_timer_tick(self.book.awaits_revocation);
        let s0 = self.start().channel(channel);
        let s1 = if disconnect {
            s0.failed(ErrorAction::DisconnectPeerWithWarning)
        } else {
            s0
        };
        let s2 = s1.freed();
        if self.terms.channel_type is Stock && self.channel.is_outbound && s2.entry.can_send()
            && self.channel.feerate_per_kw != feerate_per_kw {
            s2.sent(seq![Update::Fee { feerate_per_kw }])
        } else {
            s2
        }
    }

    /// Queued messages have left, an acceptance or an acknowledgement of a teleport among them.
    pub open spec fn messages_sent(self, ack: bool, complete_ack: bool) -> ChannelEntryView {
        let c1 = if ack {
            self.channel.spec_teleport_ack_sent()
        } else {
            self.channel
        };
        let c2 = if complete_ack {
            c1.spec_teleport_complete_ack_sent()
        } else {
            c1
        };
        ChannelEntryView { channel: c2, ..self }
    }
}

impl EffectsView {
    /// Then a channel without updates so far repeats its opening messages.
    pub open spec fn reopened(self, c: Channel) -> EffectsView {
        if c.holder_commitment_number == INITIAL_COMMITMENT_NUMBER
            && c.counterparty_commitment_number == INITIAL_COMMITMENT_NUMBER {
            self.msg(
                MessageView::SendChannelReady(ChannelReady { channel_id: c.channel_id }),
            ).msg(
                MessageView::SendAnnouncementSignatures(
                    AnnouncementSignatures { channel_id: c.channel_id },
                ),
            )
        } else {
            self
        }
    }

    /// Then a revocation that the peer did not get is repeated.
    pub open spec fn revocation_repeated(self, c: Channel, msg: ChannelReestablish) -> EffectsView {
        if msg.counterparty_commitment_number == c.holder_commitment_number + 1 {
            self.msg(
                MessageView::SendRevokeAndACK(
                    RevokeAndACK {
                        channel_id: c.channel_id,
                        commitment_number: msg.counterparty_commitment_number,
                    },
                ),
            )
        } else {
            self
        }
    }

    /// Then a signature that the peer did not get is repeated, with the updates that it covers.
    pub open spec fn signature_repeated(
        self,
        e: ChannelEntryView,
        msg: ChannelReestablish,
    ) -> EffectsView {
        if e.book.awaits_revocation && msg.holder_commitment_number
            == e.channel.counterparty_commitment_number
            && e.channel.counterparty_commitment_number > 0 {
            self.signed(
                if e.book.outbound_stage is Sent {
                    e.book.outbound
                } else {
                    seq![]
                },
                e.channel.next_commitment(),
            )
        } else {
            self
        }
    }
}

impl ChannelEntry {
    fn reopen(&self, fx: &mut Effects)
        ensures
            final(fx)@ == old(fx)@.reopened(self.channel),
    {
        let channel_id = self.channel.channel_id;
        if self.channel.holder_commitment_number == INITIAL_COMMITMENT_NUMBER
            && self.channel.counterparty_commitment_number == INITIAL_COMMITMENT_NUMBER {
            fx.msg(Message::SendChannelReady(ChannelReady { channel_id }));
            fx.msg(Message::SendAnnouncementSignatures(AnnouncementSignatures { channel_id }));
        }
    }

    fn repeat_revocation(&self, fx: &mut Effects, msg: &ChannelReestablish)
        requires
            msg.counterparty_commitment_number == self.channel.holder_commitment_number
                || msg.counterparty_commitment_number == self.channel.holder_commitment_number + 1,
        ensures
            final(fx)@ == old(fx)@.revocation_repeated(self.channel, *msg),
    {
        if msg.counterparty_commitment_number != self.channel.holder_commitment_number {
            fx.msg(
                Message::SendRevokeAndACK(
                    RevokeAndACK {
                        channel_id: self.channel.channel_id,
                        commitment_number: msg.counterparty_commitment_number,
                    },
                ),
            );
        }
    }

    fn repeat_signature(&self, fx: &mut Effects, msg: &ChannelReestablish)
        ensures
            final(fx)@ == old(fx)@.signature_repeated(self@, *msg),
    {
        if self.book.awaits_revocation && msg.holder_commitment_number
            == self.channel.counterparty_commitment_number
            && self.channel.counterparty_commitment_number > 0 {
            let cs = self.next_commitment_signed();
            if self.book.outbound_stage == OutboundStage::Sent {
                let updates = copy_updates(&self.book.outbound);
                fx.signed(updates, cs);
            } else {
                fx.signed_only(cs);
            }
        }
    }

    /// Notes that the peer is gone, or that this side restarts.
    pub fn peer_disconnected(&mut self)
        requires
            old(self).inv(),
        ensures
            final(self).inv(),
            final(self)@ == old(self)@.peer_disconnected(),
    {
        self.channel.peer_disconnected();
        if self.book.inbound_stage == InboundStage::Received {
            self.book.inbound = Vec::new();
            self.book.inbound_stage = InboundStage::Idle;
            assert(self.book.inbound@ =~= seq![]);
        }
    }

    fn in_sync(&self, msg: &ChannelReestablish) -> (r: bool)
        ensures
            r == self@.in_sync(*msg),
    {
        let peer_holder: u64 = msg.holder_commitment_number;
        let peer_counterparty: u64 = msg.counterparty_commitment_number;
        let counterparty: u64 = self.channel.counterparty_commitment_number;
        let holder: u64 = self.channel.holder_commitment_number;
        (peer_holder == counterparty || self.book.awaits_revocation && counterparty > 0
            && peer_holder == counterparty - 1) && (peer_counterparty == holder
            || peer_counterparty > 0 && peer_counterparty - 1 == holder)
    }

    /// Handles `channel_reestablish`.
    pub fn handle_channel_reestablish(&mut self, msg: &ChannelReestablish) -> (fx: Effects)
        requires
            old(self).inv(),
        ensures
            final(self).inv(),
            final(self).same_place(old(self)),
            final(self).step(&fx) == old(self)@.channel_reestablish(*msg),
    {
        reveal(ChannelEntryView::channel_reestablish);
        let mut fx = Effects::new();
        if !self.channel.is_disconnected {
            self.fail(&mut fx, ErrorAction::DisconnectPeerWithWarning);
            return fx;
        }
        if !self.in_sync(msg) {
            self.fail(&mut fx, ErrorAction::SendErrorMessage);
            return fx;
        }
        let channel_id = self.channel.channel_id;
        self.reopen(&mut fx);
        let resend = self.channel.channel_reestablish(msg);
        fx.resend(resend, channel_id);
        self.repeat_revocation(&mut fx, msg);
        self.repeat_signature(&mut fx, msg);
        self.free_holding_cell(&mut fx);
        fx
    }

    /// Counts a timer tick.
    pub fn timer_tick(&mut self, feerate_per_kw: u32) -> (fx: Effects)
        requires
            old(self).inv(),
        ensures
            final(self).inv(),
            final(self).same_place(old(self)),
            final(self).step(&fx) == old(self)@.timer_tick(feerate_per_kw),
    {
        reveal(ChannelEntryView::timer_tick);
        let mut fx = Effects::new();
        let awaits_revocation: bool = self.book.awaits_revocation;
        if self.channel.timer_tick(awaits_revocation) {
            self.fail(&mut fx, ErrorAction::DisconnectPeerWithWarning);
        }
        self.free_holding_cell(&mut fx);
        if self.terms.channel_type == ChannelType::Stock && self.channel.is_outbound
            && self.can_send() && self.channel.feerate_per_kw != feerate_per_kw {
            let mut updates: Vec<Update> = Vec::new();
            updates.push(Update::Fee { feerate_per_kw });
            assert(updates@ =~= seq![Update::Fee { feerate_per_kw }]);
            proof {
                lemma_added_one(Update::Fee { feerate_per_kw });
            }
            self.send(&mut fx, updates);
        }
        fx
    }

    /// Notes that queued messages have left.
    pub fn note_messages_sent(&mut self, ack: bool, complete_ack: bool)
        requires
            old(self).inv(),
        ensures
            final(self).inv(),
            final(self)@ == old(self)@.messages_sent(ack, complete_ack),
    {
        if ack {
            self.channel.teleport_ack_sent();
        }
        if complete_ack {
            self.channel.teleport_complete_ack_sent();
        }
    }
}

} // verus!
