//! The teleport state machine of one side of a channel.

use crate::msgs::{ChannelId, CommitmentSigned, NodeId, Stfu, TeleportInit};
use crate::outpoint::FundingOutPoint;
use vstd::prelude::*;

verus! {

/// The number of the first commitment of a channel. Later commitments count down from it.
pub const INITIAL_COMMITMENT_NUMBER: u64 = 281474976710655;

/// After so many timer ticks without an awaited response the peer is disconnected.
pub const DISCONNECT_PEER_AWAITING_RESPONSE_TICKS: u64 = 2;

/// A funding output together with the split of its value.
#[derive(Clone, Copy, Debug)]
pub struct FundingScope {
    pub funding_txo: FundingOutPoint,
    /// The value of the funding output.
    pub value_sat: u64,
    /// The part of the value that belongs to this side.
    pub value_to_self_msat: u64,
}

/// What each side takes out of the channel in a teleport.
#[derive(Clone, Copy, Debug)]
pub struct ValueRemovals {
    pub responder_value_removal_sat: u64,
    pub initiator_value_removal_sat: u64,
}

/// Value that pending HTLCs hold back from the two balances.
#[derive(Clone, Copy, Debug)]
pub struct LockedValue {
    /// Offered by this side.
    pub offered_msat: u128,
    /// Offered by the counterparty.
    pub received_msat: u128,
}

/// How far the two sides have come in pausing the channel.
#[derive(Clone, Copy, PartialEq, Eq, Structural, Debug)]
pub enum Quiescence {
    /// Updates flow.
    Active,
    /// This side has asked for quiescence.
    StfuSent,
    /// No updates until the session ends.
    Quiescent,
}

/// How far a teleport has come on this side.
#[derive(Clone, Copy, Debug)]
pub enum PendingTeleport {
    /// Initiator: waits for quiescence before it proposes.
    AwaitingQuiescence { new_funding_txo: FundingOutPoint, removals: ValueRemovals },
    /// Initiator: has proposed.
    AwaitingTeleportAck { new_funding_txo: FundingOutPoint, removals: ValueRemovals },
    /// Responder: the user has to accept or refuse.
    AwaitingUserDecision { new_funding_txo: FundingOutPoint, removals: ValueRemovals },
    /// Responder: accepted, the acceptance is still queued.
    AwaitingTeleportAckSend { new_funding_txo: FundingOutPoint, removals: ValueRemovals },
    /// Either side: has signed on the new scope and waits for the counterparty's signature.
    AwaitingRemoteCommitmentSigned {
        new_funding_txo: FundingOutPoint,
        removals: ValueRemovals,
        is_initiator: bool,
    },
    /// Initiator: holds a signed commitment on the new scope, the user has to complete.
    AwaitingLocalComplete { new_funding_txo: FundingOutPoint, removals: ValueRemovals },
    /// Initiator: has told the responder to promote.
    AwaitingTeleportCompleteAck { new_funding_txo: FundingOutPoint, removals: ValueRemovals },
    /// Responder: holds a signed commitment on the new scope.
    AwaitingRemoteComplete { new_funding_txo: FundingOutPoint, removals: ValueRemovals },
    /// Responder: promoted, the acknowledgement is still queued.
    AwaitingTeleportCompleteAckSend { new_funding_txo: FundingOutPoint, removals: ValueRemovals },
    /// Responder: promoted and acknowledged, waits for a sign that the initiator promoted too.
    AwaitingRemoteActivityAfterTeleportCompleteAckSend {
        new_funding_txo: FundingOutPoint,
        removals: ValueRemovals,
    },
}

impl PendingTeleport {
    /// The outpoint that the teleport leads to.
    pub open spec fn spec_new_funding_txo(self) -> FundingOutPoint {
        match self {
            PendingTeleport::AwaitingQuiescence { new_funding_txo, .. } => new_funding_txo,
            PendingTeleport::AwaitingTeleportAck { new_funding_txo, .. } => new_funding_txo,
            PendingTeleport::AwaitingUserDecision { new_funding_txo, .. } => new_funding_txo,
            PendingTeleport::AwaitingTeleportAckSend { new_funding_txo, .. } => new_funding_txo,
            PendingTeleport::AwaitingRemoteCommitmentSigned { new_funding_txo, .. } =>
                new_funding_txo,
            PendingTeleport::AwaitingLocalComplete { new_funding_txo, .. } => new_funding_txo,
            PendingTeleport::AwaitingTeleportCompleteAck { new_funding_txo, .. } => new_funding_txo,
            PendingTeleport::AwaitingRemoteComplete { new_funding_txo, .. } => new_funding_txo,
            PendingTeleport::AwaitingTeleportCompleteAckSend { new_funding_txo, .. } =>
                new_funding_txo,
            PendingTeleport::AwaitingRemoteActivityAfterTeleportCompleteAckSend {
                new_funding_txo,
                ..
            } => new_funding_txo,
        }
    }

    /// What the two sides take out of the channel.
    pub open spec fn spec_removals(self) -> ValueRemovals {
        match self {
            PendingTeleport::AwaitingQuiescence { removals, .. } => removals,
            PendingTeleport::AwaitingTeleportAck { removals, .. } => removals,
            PendingTeleport::AwaitingUserDecision { removals, .. } => removals,
            PendingTeleport::AwaitingTeleportAckSend { removals, .. } => removals,
            PendingTeleport::AwaitingRemoteCommitmentSigned { removals, .. } => removals,
            PendingTeleport::AwaitingLocalComplete { removals, .. } => removals,
            PendingTeleport::AwaitingTeleportCompleteAck { removals, .. } => removals,
            PendingTeleport::AwaitingRemoteComplete { removals, .. } => removals,
            PendingTeleport::AwaitingTeleportCompleteAckSend { removals, .. } => removals,
            PendingTeleport::AwaitingRemoteActivityAfterTeleportCompleteAckSend {
                removals,
                ..
            } => removals,
        }
    }

    /// Whether this side proposed the teleport.
    pub open spec fn spec_is_initiator(self) -> bool {
        match self {
            PendingTeleport::AwaitingQuiescence { .. } => true,
            PendingTeleport::AwaitingTeleportAck { .. } => true,
            PendingTeleport::AwaitingRemoteCommitmentSigned { is_initiator, .. } => is_initiator,
            PendingTeleport::AwaitingLocalComplete { .. } => true,
            PendingTeleport::AwaitingTeleportCompleteAck { .. } => true,
            _ => false,
        }
    }

    /// Whether the teleport survives a disconnection or a restart of this side.
    pub open spec fn spec_is_persistent(self) -> bool {
        match self {
            PendingTeleport::AwaitingRemoteCommitmentSigned { is_initiator, .. } => is_initiator,
            PendingTeleport::AwaitingLocalComplete { .. } => true,
            PendingTeleport::AwaitingTeleportCompleteAck { .. } => true,
            PendingTeleport::AwaitingRemoteComplete { .. } => true,
            PendingTeleport::AwaitingTeleportCompleteAckSend { .. } => true,
            PendingTeleport::AwaitingRemoteActivityAfterTeleportCompleteAckSend { .. } => true,
            _ => false,
        }
    }

    /// Whether this side has promoted the new scope.
    pub open spec fn is_promoted(self) -> bool {
        self is AwaitingTeleportCompleteAckSend || self is
            AwaitingRemoteActivityAfterTeleportCompleteAckSend
    }

    /// The outpoint that the teleport leads to.
    pub fn new_funding_txo(&self) -> (txo: FundingOutPoint)
        ensures
            txo == self.spec_new_funding_txo(),
    {
        match *self {
            PendingTeleport::AwaitingQuiescence { new_funding_txo, .. } => new_funding_txo,
            PendingTeleport::AwaitingTeleportAck { new_funding_txo, .. } => new_funding_txo,
            PendingTeleport::AwaitingUserDecision { new_funding_txo, .. } => new_funding_txo,
            PendingTeleport::AwaitingTeleportAckSend { new_funding_txo, .. } => new_funding_txo,
            PendingTeleport::AwaitingRemoteCommitmentSigned { new_funding_txo, .. } =>
                new_funding_txo,
            PendingTeleport::AwaitingLocalComplete { new_funding_txo, .. } => new_funding_txo,
            PendingTeleport::AwaitingTeleportCompleteAck { new_funding_txo, .. } => new_funding_txo,
            PendingTeleport::AwaitingRemoteComplete { new_funding_txo, .. } => new_funding_txo,
            PendingTeleport::AwaitingTeleportCompleteAckSend { new_funding_txo, .. } =>
                new_funding_txo,
            PendingTeleport::AwaitingRemoteActivityAfterTeleportCompleteAckSend {
                new_funding_txo,
                ..
            } => new_funding_txo,
        }
    }

    /// What the two sides take out of the channel.
    pub fn removals(&self) -> (removals: ValueRemovals)
        ensures
            removals == self.spec_removals(),
    {
        match *self {
            PendingTeleport::AwaitingQuiescence { removals, .. } => removals,
            PendingTeleport::AwaitingTeleportAck { removals, .. } => removals,
            PendingTeleport::AwaitingUserDecision { removals, .. } => removals,
            PendingTeleport::AwaitingTeleportAckSend { removals, .. } => removals,
            PendingTeleport::AwaitingRemoteCommitmentSigned { removals, .. } => removals,
            PendingTeleport::AwaitingLocalComplete { removals, .. } => removals,
            PendingTeleport::AwaitingTeleportCompleteAck { removals, .. } => removals,
            PendingTeleport::AwaitingRemoteComplete { removals, .. } => removals,
            PendingTeleport::AwaitingTeleportCompleteAckSend { removals, .. } => removals,
            PendingTeleport::AwaitingRemoteActivityAfterTeleportCompleteAckSend {
                removals,
                ..
            } => removals,
        }
    }

    /// Whether this side proposed the teleport.
    pub fn is_initiator(&self) -> (initiator: bool)
        ensures
            initiator == self.spec_is_initiator(),
    {
        match *self {
            PendingTeleport::AwaitingQuiescence { .. } => true,
            PendingTeleport::AwaitingTeleportAck { .. } => true,
            PendingTeleport::AwaitingRemoteCommitmentSigned { is_initiator, .. } => is_initiator,
            PendingTeleport::AwaitingLocalComplete { .. } => true,
            PendingTeleport::AwaitingTeleportCompleteAck { .. } => true,
            _ => false,
        }
    }

    /// Whether the teleport survives a disconnection or a restart of this side.
    pub fn is_persistent(&self) -> (persistent: bool)
        ensures
            persistent == self.spec_is_persistent(),
    {
        match *self {
            PendingTeleport::AwaitingRemoteCommitmentSigned { is_initiator, .. } => is_initiator,
            PendingTeleport::AwaitingLocalComplete { .. } => true,
            PendingTeleport::AwaitingTeleportCompleteAck { .. } => true,
            PendingTeleport::AwaitingRemoteComplete { .. } => true,
            PendingTeleport::AwaitingTeleportCompleteAckSend { .. } => true,
            PendingTeleport::AwaitingRemoteActivityAfterTeleportCompleteAckSend { .. } => true,
            _ => false,
        }
    }
}

/// Why a call by the user was refused.
#[derive(Clone, Copy, Debug)]
pub enum APIError {
    /// The node has no such channel with that peer, or the peer is disconnected.
    ChannelUnavailable,
    /// The channel is not idle.
    ChannelBusy,
    /// The initiator cannot take that much out of the channel.
    ExcessiveRemoval { initiator_value_removal_sat: u64 },
    /// No teleport is at the stage that the call belongs to.
    TeleportNotPending,
    /// The channel cannot carry the payment.
    PaymentUnavailable,
}

/// What a `commitment_signed` is to the side that receives it.
#[derive(Clone, Copy, PartialEq, Eq, Structural, Debug)]
pub enum CommitmentClass {
    /// The awaited signature on the new scope of the pending teleport.
    NewScope,
    /// One more signature on a new scope that this side has not promoted.
    Duplicate,
    /// An update of a channel that is paused.
    WhileQuiescent,
    /// An update of the current scope, or of none that this side knows.
    Ordinary,
}

/// What answers an [`Stfu`].
#[derive(Clone, Copy, Debug)]
pub enum StfuReply {
    Stfu(Stfu),
    TeleportInit(TeleportInit),
}

/// What a side repeats for its teleport after a reconnection.
#[derive(Clone, Copy, Debug)]
pub enum TeleportResend {
    Nothing,
    CommitmentSigned(CommitmentSigned),
    TeleportComplete,
    TeleportCompleteAck,
}

/// One side of a funded channel, without its payments.
#[derive(Clone, Copy, Debug)]
pub struct Channel {
    pub channel_id: ChannelId,
    /// What the user knows the channel by.
    pub user_channel_id: u128,
    pub counterparty: NodeId,
    /// Whether this side funded the channel and so sets its feerate.
    pub is_outbound: bool,
    pub funding: FundingScope,
    /// The number of this side's current commitment.
    pub holder_commitment_number: u64,
    /// The number of the counterparty's current commitment.
    pub counterparty_commitment_number: u64,
    /// What this side must keep, as the counterparty selected it.
    pub holder_reserve_sat: u64,
    /// What the counterparty must keep.
    pub counterparty_reserve_sat: u64,
    pub dust_limit_sat: u64,
    pub feerate_per_kw: u32,
    pub quiescence: Quiescence,
    pub pending_teleport: Option<PendingTeleport>,
    pub is_disconnected: bool,
    /// Timer ticks spent waiting for the peer.
    pub response_ticks: u64,
}

/// Whether a side may take `removal_sat` out of its balance: all of it must be there, and what is
/// left must cover the reserve and what HTLCs hold back. Taking nothing is always allowed.
pub open spec fn removal_fits(
    removal_sat: u64,
    reserve_sat: u64,
    locked_msat: int,
    balance_msat: int,
) -> bool {
    removal_sat == 0 || removal_sat * 1000 + reserve_sat * 1000 + locked_msat <= balance_msat
}

/// Whether a removal of `removal_sat` leaves the reserve and the locked value in the balance.
pub(crate) fn removal_allowed(
    removal_sat: u64,
    reserve_sat: u64,
    locked_msat: u128,
    balance_msat: u128,
) -> (r: bool)
    requires
        balance_msat <= u64::MAX * 1000,
    ensures
        r == removal_fits(removal_sat, reserve_sat, locked_msat as int, balance_msat as int),
{
    if removal_sat == 0 {
        return true;
    }
    if locked_msat > balance_msat {
        return false;
    }
    (removal_sat as u128) * 1000 + (reserve_sat as u128) * 1000 + locked_msat <= balance_msat
}

impl FundingScope {
    /// The part of the value that belongs to the counterparty.
    pub open spec fn value_to_counterparty_msat(self) -> int {
        self.value_sat * 1000 - self.value_to_self_msat
    }

    /// The scope that a teleport leads to: each side gives up its own removal, and the channel
    /// their sum.
    pub open spec fn teleported(
        self,
        new_funding_txo: FundingOutPoint,
        removals: ValueRemovals,
        is_initiator: bool,
    ) -> FundingScope {
        FundingScope {
            funding_txo: new_funding_txo,
            value_sat: (self.value_sat - removals.responder_value_removal_sat
                - removals.initiator_value_removal_sat) as u64,
            value_to_self_msat: (self.value_to_self_msat - removals.own(is_initiator) * 1000)
                as u64,
        }
    }

    /// Whether both balances cover the removals.
    pub open spec fn covers(self, removals: ValueRemovals, is_initiator: bool) -> bool {
        &&& removals.own(is_initiator) * 1000 <= self.value_to_self_msat
        &&& removals.own(!is_initiator) * 1000 <= self.value_to_counterparty_msat()
    }
}

impl ValueRemovals {
    /// What the initiator, or else the responder, takes out.
    pub open spec fn own(self, is_initiator: bool) -> u64 {
        if is_initiator {
            self.initiator_value_removal_sat
        } else {
            self.responder_value_removal_sat
        }
    }
}

/// What a channel starts with.
#[derive(Clone, Copy, Debug)]
pub struct ChannelSetup {
    pub channel_id: ChannelId,
    pub user_channel_id: u128,
    pub counterparty: NodeId,
    pub is_outbound: bool,
    pub funding: FundingScope,
    pub holder_reserve_sat: u64,
    pub counterparty_reserve_sat: u64,
    pub dust_limit_sat: u64,
    pub feerate_per_kw: u32,
}

impl Channel {
    /// A channel that was just opened.
    pub open spec fn spec_opened(setup: ChannelSetup) -> Channel {
        Channel {
            channel_id: setup.channel_id,
            user_channel_id: setup.user_channel_id,
            counterparty: setup.counterparty,
            is_outbound: setup.is_outbound,
            funding: setup.funding,
            holder_commitment_number: INITIAL_COMMITMENT_NUMBER,
            counterparty_commitment_number: INITIAL_COMMITMENT_NUMBER,
            holder_reserve_sat: setup.holder_reserve_sat,
            counterparty_reserve_sat: setup.counterparty_reserve_sat,
            dust_limit_sat: setup.dust_limit_sat,
            feerate_per_kw: setup.feerate_per_kw,
            quiescence: Quiescence::Active,
            pending_teleport: None,
            is_disconnected: false,
            response_ticks: 0,
        }
    }

    /// A channel that was just opened.
    pub fn opened(setup: ChannelSetup) -> (channel: Channel)
        requires
            setup.funding.value_to_self_msat <= setup.funding.value_sat * 1000,
        ensures
            channel == Channel::spec_opened(setup),
            channel.inv(),
    {
        Channel {
            channel_id: setup.channel_id,
            user_channel_id: setup.user_channel_id,
            counterparty: setup.counterparty,
            is_outbound: setup.is_outbound,
            funding: setup.funding,
            holder_commitment_number: INITIAL_COMMITMENT_NUMBER,
            counterparty_commitment_number: INITIAL_COMMITMENT_NUMBER,
            holder_reserve_sat: setup.holder_reserve_sat,
            counterparty_reserve_sat: setup.counterparty_reserve_sat,
            dust_limit_sat: setup.dust_limit_sat,
            feerate_per_kw: setup.feerate_per_kw,
            quiescence: Quiescence::Active,
            pending_teleport: None,
            is_disconnected: false,
            response_ticks: 0,
        }
    }

    /// What holds of every channel between two calls: the balance is part of the value, commitments
    /// are counted down from the first, a teleport that is not promoted pauses the channel, and its
    /// removals are covered once both sides had the chance to refuse them.
    pub open spec fn inv(self) -> bool {
        &&& self.funding.value_to_self_msat <= self.funding.value_sat * 1000
        &&& self.holder_commitment_number <= INITIAL_COMMITMENT_NUMBER
        &&& self.counterparty_commitment_number <= INITIAL_COMMITMENT_NUMBER
        &&& match self.pending_teleport {
            None => self.quiescence !is StfuSent,
            Some(PendingTeleport::AwaitingQuiescence { .. }) => self.quiescence is StfuSent,
            Some(
                PendingTeleport::AwaitingRemoteActivityAfterTeleportCompleteAckSend {
                    new_funding_txo,
                    ..
                },
            ) => self.quiescence is Active && self.funding.funding_txo == new_funding_txo,
            Some(PendingTeleport::AwaitingTeleportCompleteAckSend { new_funding_txo, .. }) =>
                self.quiescence is Quiescent && self.funding.funding_txo == new_funding_txo,
            Some(PendingTeleport::AwaitingTeleportAck { .. }) => self.quiescence is Quiescent,
            Some(p) => self.quiescence is Quiescent && self.funding.covers(
                p.spec_removals(),
                p.spec_is_initiator(),
            ),
        }
    }

    /// What this side is about to take out of the channel.
    pub open spec fn promised_removal_msat(self) -> int {
        match self.pending_teleport {
            Some(p) if !p.is_promoted() => p.spec_removals().own(p.spec_is_initiator()) * 1000,
            _ => 0,
        }
    }

    /// What this side, or else the counterparty, takes out of the channel in a teleport that both
    /// had the chance to refuse and that is not promoted.
    pub open spec fn accepted_removal_msat(self, is_own: bool) -> int {
        match self.pending_teleport {
            Some(PendingTeleport::AwaitingQuiescence { .. }) => 0,
            Some(PendingTeleport::AwaitingTeleportAck { .. }) => 0,
            Some(p) if !p.is_promoted() => p.spec_removals().own(p.spec_is_initiator() == is_own)
                * 1000,
            _ => 0,
        }
    }

    pub(crate) fn sum_promised_removal(&self) -> (total: u128)
        ensures
            total == self.promised_removal_msat(),
    {
        match self.pending_teleport {
            None => 0,
            Some(PendingTeleport::AwaitingTeleportCompleteAckSend { .. }) => 0,
            Some(PendingTeleport::AwaitingRemoteActivityAfterTeleportCompleteAckSend { .. }) => 0,
            Some(p) => {
                let removals = p.removals();
                let own_sat: u64 = if p.is_initiator() {
                    removals.initiator_value_removal_sat
                } else {
                    removals.responder_value_removal_sat
                };
                own_sat as u128 * 1000
            },
        }
    }

    /// This channel with its teleport at the given stage.
    pub open spec fn at_stage(self, stage: PendingTeleport) -> Channel {
        Channel { pending_teleport: Some(stage), response_ticks: 0, ..self }
    }

    /// This channel without a teleport and open to updates, on the scope that it has.
    pub open spec fn resumed(self) -> Channel {
        Channel {
            pending_teleport: None,
            quiescence: Quiescence::Active,
            response_ticks: 0,
            ..self
        }
    }

    /// This channel on the new scope of its teleport.
    pub open spec fn promoted(self, p: PendingTeleport) -> Channel {
        Channel {
            funding: self.funding.teleported(
                p.spec_new_funding_txo(),
                p.spec_removals(),
                p.spec_is_initiator(),
            ),
            ..self
        }
    }

    /// The signature on the counterparty's first commitment of the new scope. It continues the
    /// number of the counterparty's current commitment.
    pub open spec fn new_scope_commitment(self, new_funding_txo: FundingOutPoint)
        -> CommitmentSigned {
        CommitmentSigned {
            channel_id: self.channel_id,
            funding_txid: Some(new_funding_txo.txid),
            commitment_number: self.counterparty_commitment_number,
        }
    }

    pub(crate) fn new_scope_commitment_signed(&self, new_funding_txo: FundingOutPoint) -> (cs:
        CommitmentSigned)
        ensures
            cs == self.new_scope_commitment(new_funding_txo),
    {
        CommitmentSigned {
            channel_id: self.channel_id,
            funding_txid: Some(new_funding_txo.txid),
            commitment_number: self.counterparty_commitment_number,
        }
    }

    /// The scope that a teleport leads to.
    pub(crate) fn teleported_scope(
        &self,
        new_funding_txo: FundingOutPoint,
        removals: ValueRemovals,
        is_initiator: bool,
    ) -> (scope: FundingScope)
        requires
            self.inv(),
            self.funding.covers(removals, is_initiator),
        ensures
            scope == self.funding.teleported(new_funding_txo, removals, is_initiator),
            scope.value_to_self_msat <= scope.value_sat * 1000,
    {
        let own_sat: u64 = if is_initiator {
            removals.initiator_value_removal_sat
        } else {
            removals.responder_value_removal_sat
        };
        FundingScope {
            funding_txo: new_funding_txo,
            value_sat: self.funding.value_sat - removals.responder_value_removal_sat
                - removals.initiator_value_removal_sat,
            value_to_self_msat: self.funding.value_to_self_msat - own_sat * 1000,
        }
    }

    /// Whether both removals of a teleport leave each side its reserve.
    pub open spec fn removals_fit(
        self,
        removals: ValueRemovals,
        is_initiator: bool,
        locked: LockedValue,
    ) -> bool {
        &&& removal_fits(
            removals.own(is_initiator),
            self.holder_reserve_sat,
            locked.offered_msat as int,
            self.funding.value_to_self_msat as int,
        )
        &&& removal_fits(
            removals.own(!is_initiator),
            self.counterparty_reserve_sat,
            locked.received_msat as int,
            self.funding.value_to_counterparty_msat(),
        )
    }

    pub(crate) fn removals_allowed(
        &self,
        removals: ValueRemovals,
        is_initiator: bool,
        locked: LockedValue,
    ) -> (r: bool)
        requires
            self.inv(),
        ensures
            r == self.removals_fit(removals, is_initiator, locked),
            r ==> self.funding.covers(removals, is_initiator),
    {
        let (own_sat, other_sat): (u64, u64) = if is_initiator {
            (removals.initiator_value_removal_sat, removals.responder_value_removal_sat)
        } else {
            (removals.responder_value_removal_sat, removals.initiator_value_removal_sat)
        };
        let own_msat: u128 = self.funding.value_to_self_msat as u128;
        let other_msat: u128 = (self.funding.value_sat as u128) * 1000 - own_msat;
        removal_allowed(own_sat, self.holder_reserve_sat, locked.offered_msat, own_msat)
            && removal_allowed(
            other_sat,
            self.counterparty_reserve_sat,
            locked.received_msat,
            other_msat,
        )
    }
}

} // verus!
