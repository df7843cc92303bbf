//! Messages that the two peers of a channel exchange.
//!
//! The new funding output is spent by an ordinary two-of-two signature, so no message of the
//! teleport flow carries a signing nonce.

use crate::outpoint::{same_bytes32, FundingOutPoint, Txid};
use vstd::prelude::*;

verus! {

/// Identifies a channel.
#[derive(Clone, Copy, PartialEq, Eq, Structural, Debug)]
pub struct ChannelId {
    pub id: u64,
}

/// Identifies a node.
#[derive(Clone, Copy, PartialEq, Eq, Structural, Debug)]
pub struct NodeId {
    pub id: u64,
}

/// What a node can do, as it tells its peers.
#[derive(Clone, Copy, PartialEq, Eq, Structural, Debug)]
pub struct InitFeatures {
    /// The key that a side is paid to does not change with the commitment. Required of every peer.
    pub static_remote_key: bool,
    /// The channel can be paused.
    pub quiescence: bool,
}

/// The first message on a connection.
#[derive(Clone, Copy, PartialEq, Eq, Structural, Debug)]
pub struct Init {
    pub features: InitFeatures,
}

/// The hash that a payment is locked to.
#[derive(Clone, Copy, Eq, Debug)]
pub struct PaymentHash {
    pub bytes: [u8; 32],
}

impl PartialEq for PaymentHash {
    fn eq(&self, other: &Self) -> (r: bool) {
        same_bytes32(&self.bytes, &other.bytes)
    }
}

impl vstd::std_specs::cmp::PartialEqSpecImpl for PaymentHash {
    open spec fn obeys_eq_spec() -> bool {
        true
    }

    open spec fn eq_spec(&self, other: &Self) -> bool {
        *self == *other
    }
}

/// Asks for quiescence, or grants it.
#[derive(Clone, Copy, Debug)]
pub struct Stfu {
    pub channel_id: ChannelId,
    pub initiator: bool,
}

/// Proposes a teleport to `new_funding_txo`, with what each side takes out of the channel.
#[derive(Clone, Copy, Debug)]
pub struct TeleportInit {
    pub channel_id: ChannelId,
    pub new_funding_txo: FundingOutPoint,
    pub responder_value_removal_sat: u64,
    pub initiator_value_removal_sat: u64,
}

/// Accepts a proposed teleport.
#[derive(Clone, Copy, Debug)]
pub struct TeleportAck {
    pub channel_id: ChannelId,
}

/// Tells the responder to promote the new funding scope.
#[derive(Clone, Copy, Debug)]
pub struct TeleportComplete {
    pub channel_id: ChannelId,
}

/// Tells the initiator that the responder has promoted the new funding scope.
#[derive(Clone, Copy, Debug)]
pub struct TeleportCompleteAck {
    pub channel_id: ChannelId,
}

/// Refuses a proposed teleport.
#[derive(Clone, Copy, Debug)]
pub struct TeleportAbort {
    pub channel_id: ChannelId,
}

/// Signs the receiver's commitment `commitment_number` on the funding scope `funding_txid`.
#[derive(Clone, Copy, Debug)]
pub struct CommitmentSigned {
    pub channel_id: ChannelId,
    pub funding_txid: Option<Txid>,
    pub commitment_number: u64,
}

/// Revokes the sender's commitment `commitment_number`.
#[derive(Clone, Copy, Debug)]
pub struct RevokeAndACK {
    pub channel_id: ChannelId,
    pub commitment_number: u64,
}

/// Resumes a channel after a reconnection.
#[derive(Clone, Copy, Debug)]
pub struct ChannelReestablish {
    pub channel_id: ChannelId,
    /// The sender's own current commitment.
    pub holder_commitment_number: u64,
    /// The receiver's current commitment, as far as the sender knows.
    pub counterparty_commitment_number: u64,
    /// The scope of a teleport that the sender carries across the reconnection.
    pub teleport_funding_txid: Option<Txid>,
}

/// Says that the funding output is deep enough. Sent again while no commitment followed the first.
#[derive(Clone, Copy, Debug)]
pub struct ChannelReady {
    pub channel_id: ChannelId,
}

/// Signs the public announcement of the channel. Sent again with [`ChannelReady`].
#[derive(Clone, Copy, Debug)]
pub struct AnnouncementSignatures {
    pub channel_id: ChannelId,
}

/// What a peer is told when one of its messages cannot be handled.
#[derive(Clone, Copy, PartialEq, Eq, Structural, Debug)]
pub enum ErrorAction {
    /// The connection is dropped, the channel stays.
    DisconnectPeerWithWarning,
    /// The channel is closed.
    SendErrorMessage,
}

/// A change to the outputs or the feerate of both commitments.
#[derive(Clone, Copy, Debug)]
pub enum Update {
    /// The sender can take the HTLC back from the height `cltv_expiry` on.
    AddHtlc { htlc_id: u64, payment_hash: PaymentHash, amount_msat: u64, cltv_expiry: u32 },
    FulfillHtlc { htlc_id: u64 },
    FailHtlc { htlc_id: u64 },
    Fee { feerate_per_kw: u32 },
}

/// Updates together with the signatures that cover them.
#[derive(Clone, Debug)]
pub struct CommitmentUpdate {
    pub updates: Vec<Update>,
    pub commitment_signed: Vec<CommitmentSigned>,
}

/// The contents of a [`CommitmentUpdate`].
#[verifier::ext_equal]
pub struct CommitmentUpdateView {
    pub updates: Seq<Update>,
    pub commitment_signed: Seq<CommitmentSigned>,
}

impl View for CommitmentUpdate {
    type V = CommitmentUpdateView;

    open spec fn view(&self) -> CommitmentUpdateView {
        CommitmentUpdateView { updates: self.updates@, commitment_signed: self.commitment_signed@ }
    }
}

/// A message to the peer of a channel.
#[derive(Clone, Debug)]
pub enum Message {
    SendStfu(Stfu),
    SendTeleportInit(TeleportInit),
    SendTeleportAck(TeleportAck),
    SendTeleportComplete(TeleportComplete),
    SendTeleportCompleteAck(TeleportCompleteAck),
    SendTeleportAbort(TeleportAbort),
    UpdateHTLCs(CommitmentUpdate),
    SendRevokeAndACK(RevokeAndACK),
    SendChannelReestablish(ChannelReestablish),
    SendChannelReady(ChannelReady),
    SendAnnouncementSignatures(AnnouncementSignatures),
    HandleError(ErrorAction),
}

/// The contents of a [`Message`].
#[verifier::ext_equal]
pub enum MessageView {
    SendStfu(Stfu),
    SendTeleportInit(TeleportInit),
    SendTeleportAck(TeleportAck),
    SendTeleportComplete(TeleportComplete),
    SendTeleportCompleteAck(TeleportCompleteAck),
    SendTeleportAbort(TeleportAbort),
    UpdateHTLCs(CommitmentUpdateView),
    SendRevokeAndACK(RevokeAndACK),
    SendChannelReestablish(ChannelReestablish),
    SendChannelReady(ChannelReady),
    SendAnnouncementSignatures(AnnouncementSignatures),
    HandleError(ErrorAction),
}

impl View for Message {
    type V = MessageView;

    open spec fn view(&self) -> MessageView {
        match *self {
            Message::SendStfu(m) => MessageView::SendStfu(m),
            Message::SendTeleportInit(m) => MessageView::SendTeleportInit(m),
            Message::SendTeleportAck(m) => MessageView::SendTeleportAck(m),
            Message::SendTeleportComplete(m) => MessageView::SendTeleportComplete(m),
            Message::SendTeleportCompleteAck(m) => MessageView::SendTeleportCompleteAck(m),
            Message::SendTeleportAbort(m) => MessageView::SendTeleportAbort(m),
            Message::UpdateHTLCs(m) => MessageView::UpdateHTLCs(m@),
            Message::SendRevokeAndACK(m) => MessageView::SendRevokeAndACK(m),
            Message::SendChannelReestablish(m) => MessageView::SendChannelReestablish(m),
            Message::SendChannelReady(m) => MessageView::SendChannelReady(m),
            Message::SendAnnouncementSignatures(m) => MessageView::SendAnnouncementSignatures(m),
            Message::HandleError(a) => MessageView::HandleError(a),
        }
    }
}

/// A message on its way to `node_id`.
#[derive(Clone, Debug)]
pub struct MessageSendEvent {
    pub node_id: NodeId,
    pub msg: Message,
}

/// The contents of a [`MessageSendEvent`].
#[verifier::ext_equal]
pub struct MessageSendEventView {
    pub node_id: NodeId,
    pub msg: MessageView,
}

impl View for MessageSendEvent {
    type V = MessageSendEventView;

    open spec fn view(&self) -> MessageSendEventView {
        MessageSendEventView { node_id: self.node_id, msg: self.msg@ }
    }
}

} // verus!
