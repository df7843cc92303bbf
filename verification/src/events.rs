//! What a node tells its user.

use crate::msgs::{ChannelId, NodeId, PaymentHash};
use crate::outpoint::BitcoinOutPoint;
use vstd::prelude::*;

verus! {

/// Why a channel was closed.
#[derive(Clone, PartialEq, Eq, Debug)]
pub enum ClosureReason {
    /// A message of the peer could not be squared with the channel.
    ProcessingError,
    /// The user closed the channel with its latest commitment, and gave this message as the reason.
    HolderForceClosed { broadcasted_latest_txn: Option<bool>, message: String },
    /// A commitment of the channel was confirmed.
    CommitmentTxConfirmed,
}

/// Something that the user learns or has to decide.
#[derive(Clone, PartialEq, Eq, Debug)]
pub enum Event {
    /// A peer proposes a teleport. The user compares it with what was agreed and then accepts or
    /// refuses it.
    ChannelTeleport {
        channel_id: ChannelId,
        user_channel_id: u128,
        counterparty_node_id: NodeId,
        new_funding_txo: BitcoinOutPoint,
        responder_value_removal_sat: u64,
        initiator_value_removal_sat: u64,
    },
    /// A payment has arrived and can be claimed.
    PaymentClaimable { channel_id: ChannelId, payment_hash: PaymentHash, amount_msat: u64 },
    /// A payment was claimed: its preimage is known to the monitor.
    PaymentClaimed { channel_id: ChannelId, payment_hash: PaymentHash, amount_msat: u64 },
    /// A payment that was held could no longer be sent.
    PaymentFailed { channel_id: ChannelId, payment_hash: PaymentHash, amount_msat: u64 },
    /// A channel was closed.
    ChannelClosed {
        channel_id: ChannelId,
        reason: ClosureReason,
        counterparty_node_id: NodeId,
        channel_capacity_sats: u64,
    },
}

} // verus!
