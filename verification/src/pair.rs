//! The two sides of a channel as one system, and what holds of it in every execution.

use crate::balance_laws::Teleport;
use crate::channel::{
    Channel, CommitmentClass, FundingScope, LockedValue, PendingTeleport, StfuReply,
    TeleportResend, ValueRemovals,
};
use crate::msgs::{CommitmentSigned, Stfu, TeleportInit};
use crate::outpoint::FundingOutPoint;
use vstd::prelude::*;

verus! {

/// A message of the teleport flow between the two sides.
pub enum Wire {
    Stfu(Stfu),
    Init(TeleportInit),
    Ack,
    Commitment(CommitmentSigned),
    Complete,
    CompleteAck,
    Abort,
}

/// The two sides of a channel and the messages between them, each queue in the order of sending.
#[verifier::ext_equal]
pub struct Pair {
    pub initiator: Channel,
    pub responder: Channel,
    /// On their way to the responder.
    pub to_responder: Seq<Wire>,
    /// On their way to the initiator.
    pub to_initiator: Seq<Wire>,
    /// Queued by the responder, not sent yet.
    pub outbox: Seq<Wire>,
    /// What pending HTLCs hold back, as the initiator sees it.
    pub locked: LockedValue,
    /// A removal was refused and the channel closed.
    pub is_closed: bool,
}

/// Something that can happen to a pair.
pub enum PairStep {
    /// The initiator's user starts a teleport.
    Propose { new_funding_txo: FundingOutPoint, removals: ValueRemovals },
    /// The responder's user accepts.
    Accept,
    /// The responder's user refuses.
    Refuse,
    /// The initiator's user completes.
    Complete,
    /// The responder's queued messages leave.
    Flush,
    /// The responder handles the next message.
    DeliverToResponder,
    /// The initiator handles the next message.
    DeliverToInitiator,
    /// The initiator uses the scope that it is on.
    Activity,
    /// The connection drops and every message on the way is lost.
    Disconnect,
    /// The sides reconnect and exchange `channel_reestablish`.
    Reconnect,
}

impl LockedValue {
    /// The same value as the counterparty sees it.
    pub open spec fn mirrored(self) -> LockedValue {
        LockedValue { offered_msat: self.received_msat, received_msat: self.offered_msat }
    }
}

impl FundingScope {
    /// Whether `other` is the counterparty's side of this scope: the same output, and two balances
    /// that make up its value.
    pub open spec fn mirrors(self, other: FundingScope) -> bool {
        &&& self.funding_txo == other.funding_txo
        &&& self.value_sat == other.value_sat
        &&& self.value_to_self_msat + other.value_to_self_msat == self.value_sat * 1000
    }
}

/// Whether the two channels are the two sides of one channel, whatever their scopes are.
pub open spec fn same_channel(a: Channel, b: Channel) -> bool {
    &&& a.channel_id == b.channel_id
    &&& a.holder_commitment_number == b.counterparty_commitment_number
    &&& a.counterparty_commitment_number == b.holder_commitment_number
    &&& a.holder_reserve_sat == b.counterparty_reserve_sat
    &&& a.counterparty_reserve_sat == b.holder_reserve_sat
    &&& a.is_disconnected == b.is_disconnected
}

impl Pair {
    /// A connected pair with no teleport, on one scope.
    pub open spec fn is_fresh(self) -> bool {
        &&& same_channel(self.initiator, self.responder)
        &&& self.initiator.inv()
        &&& self.responder.inv()
        &&& self.initiator.funding.mirrors(self.responder.funding)
        &&& !self.initiator.is_disconnected
        &&& self.initiator.pending_teleport is None
        &&& self.responder.pending_teleport is None
        &&& self.initiator.quiescence is Active
        &&& self.responder.quiescence is Active
        &&& self.to_responder =~= seq![]
        &&& self.to_initiator =~= seq![]
        &&& self.outbox =~= seq![]
        &&& !self.is_closed
    }

    /// The responder handles `msg`. `None` says that it would have to disconnect.
    pub open spec fn responder_handles(self, msg: Wire) -> Option<Pair> {
        let r = self.responder;
        match msg {
            Wire::Stfu(m) => match r.spec_stfu(m, true) {
                (r2, Ok(StfuReply::Stfu(reply))) => Some(
                    Pair { responder: r2, outbox: self.outbox.push(Wire::Stfu(reply)), ..self },
                ),
                _ => None,
            },
            Wire::Init(m) => match r.spec_teleport_init(m, self.locked.mirrored()) {
                (r2, Ok(())) => Some(Pair { responder: r2, ..self }),
                (r2, Err(crate::msgs::ErrorAction::SendErrorMessage)) => Some(
                    Pair { responder: r2, is_closed: true, ..self },
                ),
                _ => None,
            },
            Wire::Commitment(m) => self.handles_commitment(r, m, false),
            Wire::Complete => match r.spec_teleport_complete() {
                (r2, Ok(true)) => Some(
                    Pair { responder: r2, outbox: self.outbox.push(Wire::CompleteAck), ..self },
                ),
                (r2, Ok(false)) => Some(Pair { responder: r2, ..self }),
                _ => None,
            },
            _ => None,
        }
    }

    /// The initiator handles `msg`. `None` says that it would have to disconnect.
    pub open spec fn initiator_handles(self, msg: Wire) -> Option<Pair> {
        let i = self.initiator;
        match msg {
            Wire::Stfu(m) => match i.spec_stfu(m, true) {
                (i2, Ok(StfuReply::TeleportInit(init))) => Some(
                    Pair {
                        initiator: i2,
                        to_responder: self.to_responder.push(Wire::Init(init)),
                        ..self
                    },
                ),
                _ => None,
            },
            Wire::Ack => match i.spec_teleport_ack(self.locked) {
                (i2, Ok(cs)) => Some(
                    Pair {
                        initiator: i2,
                        to_responder: self.to_responder.push(Wire::Commitment(cs)),
                        ..self
                    },
                ),
                _ => None,
            },
            Wire::Commitment(m) => self.handles_commitment(i, m, true),
            Wire::CompleteAck => Some(
                Pair { initiator: i.spec_teleport_complete_ack().0, ..self },
            ),
            Wire::Abort => match i.spec_teleport_abort() {
                (i2, Ok(())) => Some(Pair { initiator: i2, ..self }),
                _ => None,
            },
            _ => None,
        }
    }

    /// The side `c` handles a signature on the new scope.
    pub open spec fn handles_commitment(
        self,
        c: Channel,
        m: CommitmentSigned,
        is_initiator: bool,
    ) -> Option<Pair> {
        match c.spec_classify(m) {
            CommitmentClass::NewScope => match c.spec_new_scope_commitment_received(m) {
                (c2, Ok(())) => Some(
                    if is_initiator {
                        Pair { initiator: c2, ..self }
                    } else {
                        Pair { responder: c2, ..self }
                    },
                ),
                _ => None,
            },
            CommitmentClass::Duplicate => Some(self),
            _ => None,
        }
    }

    /// The pair after `step`. A step that cannot happen changes nothing. `None` says that a peer
    /// would have to disconnect because of a message that it did not expect.
    pub open spec fn step(self, step: PairStep) -> Option<Pair> {
        if self.is_closed {
            Some(self)
        } else {
            match step {
                PairStep::Propose { new_funding_txo, removals } => match
                    self.initiator.spec_teleport_channel(
                    new_funding_txo,
                    removals,
                    true,
                    self.locked,
                ) {
                    (i2, Ok(m)) => Some(
                        Pair {
                            initiator: i2,
                            to_responder: self.to_responder.push(Wire::Stfu(m)),
                            ..self
                        },
                    ),
                    _ => Some(self),
                },
                PairStep::Accept => match self.responder.spec_ack_teleport() {
                    (r2, Ok((_, cs))) => Some(
                        Pair {
                            responder: r2,
                            outbox: self.outbox.push(Wire::Ack).push(Wire::Commitment(cs)),
                            ..self
                        },
                    ),
                    _ => Some(self),
                },
                PairStep::Refuse => match self.responder.spec_cancel_teleport() {
                    (r2, Ok(_)) => Some(
                        Pair { responder: r2, outbox: self.outbox.push(Wire::Abort), ..self },
                    ),
                    _ => Some(self),
                },
                PairStep::Complete => match self.initiator.spec_complete_teleport() {
                    (i2, Ok(_)) => Some(
                        Pair {
                            initiator: i2,
                            to_responder: self.to_responder.push(Wire::Complete),
                            ..self
                        },
                    ),
                    _ => Some(self),
                },
                PairStep::Flush => {
                    let r1 = if self.outbox.contains(Wire::Ack) {
                        self.responder.spec_teleport_ack_sent()
                    } else {
                        self.responder
                    };
                    let r2 = if self.outbox.contains(Wire::CompleteAck) {
                        r1.spec_teleport_complete_ack_sent()
                    } else {
                        r1
                    };
                    Some(
                        Pair {
                            responder: r2,
                            to_initiator: self.to_initiator + self.outbox,
                            outbox: seq![],
                            ..self
                        },
                    )
                },
                PairStep::DeliverToResponder => if self.to_responder.len() == 0 {
                    Some(self)
                } else {
                    Pair { to_responder: self.to_responder.drop_first(), ..self }.responder_handles(
                        self.to_responder[0],
                    )
                },
                PairStep::DeliverToInitiator => if self.to_initiator.len() == 0 {
                    Some(self)
                } else {
                    Pair { to_initiator: self.to_initiator.drop_first(), ..self }.initiator_handles(
                        self.to_initiator[0],
                    )
                },
                PairStep::Activity => if self.initiator.pending_teleport is None
                    && !self.initiator.is_disconnected && self.to_responder.len() == 0 {
                    Some(
                        Pair { responder: self.responder.spec_note_counterparty_activity(), ..self },
                    )
                } else {
                    Some(self)
                },
                PairStep::Disconnect => Some(
                    Pair {
                        initiator: self.initiator.spec_peer_disconnected(),
                        responder: self.responder.spec_peer_disconnected(),
                        to_responder: seq![],
                        to_initiator: seq![],
                        outbox: seq![],
                        ..self
                    },
                ),
                PairStep::Reconnect => if !self.initiator.is_disconnected {
                    Some(self)
                } else {
                    let (i2, i_resend) = self.initiator.spec_channel_reestablish(
                        self.responder.spec_get_channel_reestablish(),
                    );
                    let (r2, r_resend) = self.responder.spec_channel_reestablish(
                        self.initiator.spec_get_channel_reestablish(),
                    );
                    Some(
                        Pair {
                            initiator: i2,
                            responder: r2,
                            to_responder: resent(i_resend),
                            outbox: resent(r_resend),
                            ..self
                        },
                    )
                },
            }
        }
    }

    /// The pair after `steps`, as long as no peer has to disconnect.
    pub open spec fn run(self, steps: Seq<PairStep>) -> Option<Pair>
        decreases steps.len(),
    {
        if steps.len() == 0 {
            Some(self)
        } else {
            match self.run(steps.drop_last()) {
                Some(p) => p.step(steps.last()),
                None => None,
            }
        }
    }
}

/// The messages that a side repeats after a reconnection.
pub open spec fn resent(resend: TeleportResend) -> Seq<Wire> {
    match resend {
        TeleportResend::Nothing => seq![],
        TeleportResend::CommitmentSigned(cs) => seq![Wire::Commitment(cs)],
        TeleportResend::TeleportComplete => seq![Wire::Complete],
        TeleportResend::TeleportCompleteAck => seq![Wire::CompleteAck],
    }
}


/// Whether the queue holds exactly `m`.
spec fn holds_one(q: Seq<Wire>, m: Wire) -> bool {
    q.len() == 1 && q[0] == m
}

/// Whether the queue holds exactly `m` and `n`, in this order.
spec fn holds_two(q: Seq<Wire>, m: Wire, n: Wire) -> bool {
    q.len() == 2 && q[0] == m && q[1] == n
}

/// Whether both stages belong to one teleport.
spec fn same_teleport(i: PendingTeleport, r: PendingTeleport) -> bool {
    i.spec_new_funding_txo() == r.spec_new_funding_txo() && i.spec_removals() == r.spec_removals()
}

impl Pair {
    /// Everything on its way from the responder to the initiator.
    spec fn backward(self) -> Seq<Wire> {
        self.to_initiator + self.outbox
    }

    /// The responder's signature on the new scope.
    spec fn responder_commitment(self, p: PendingTeleport) -> Wire {
        Wire::Commitment(self.responder.new_scope_commitment(p.spec_new_funding_txo()))
    }

    /// The initiator's signature on the new scope.
    spec fn initiator_commitment(self, p: PendingTeleport) -> Wire {
        Wire::Commitment(self.initiator.new_scope_commitment(p.spec_new_funding_txo()))
    }

    /// At most a repeated acknowledgement is on its way back.
    spec fn backward_is_stale(self) -> bool {
        self.backward().len() == 0 || holds_one(self.backward(), Wire::CompleteAck)
    }

    /// At most a repeated completion is on its way to the responder.
    spec fn forward_is_stale(self) -> bool {
        self.to_responder.len() == 0 || holds_one(self.to_responder, Wire::Complete)
    }

    /// Which stages can stand side by side on a live connection, and with which messages between.
    spec fn connected_phase(self) -> bool {
        let forward = self.to_responder;
        let backward = self.backward();
        let ask = Wire::Stfu(Stfu { channel_id: self.initiator.channel_id, initiator: true });
        let grant = Wire::Stfu(Stfu { channel_id: self.initiator.channel_id, initiator: false });
        match (self.initiator.pending_teleport, self.responder.pending_teleport) {
            (None, None) => {
                &&& self.initiator.quiescence is Active
                &&& self.responder.quiescence is Active
                &&& forward.len() == 0
                &&& self.backward_is_stale()
            },
            (
                None,
                Some(PendingTeleport::AwaitingRemoteActivityAfterTeleportCompleteAckSend { .. }),
            ) => {
                &&& self.initiator.quiescence is Active
                &&& self.forward_is_stale()
                &&& self.backward_is_stale()
            },
            (Some(PendingTeleport::AwaitingQuiescence { .. }), None) => {
                ||| {
                    &&& self.responder.quiescence is Active
                    &&& holds_one(forward, ask)
                    &&& self.backward_is_stale()
                }
                ||| {
                    &&& self.responder.quiescence is Quiescent
                    &&& forward.len() == 0
                    &&& holds_one(backward, grant) || holds_two(backward, Wire::CompleteAck, grant)
                }
            },
            (
                Some(PendingTeleport::AwaitingQuiescence { .. }),
                Some(PendingTeleport::AwaitingRemoteActivityAfterTeleportCompleteAckSend { .. }),
            ) => {
                &&& holds_one(forward, ask) || holds_two(forward, Wire::Complete, ask)
                &&& self.backward_is_stale()
            },
            (Some(PendingTeleport::AwaitingTeleportAck { new_funding_txo, removals }), None) => {
                ||| {
                    &&& self.responder.quiescence is Quiescent
                    &&& holds_one(
                        forward,
                        Wire::Init(
                            TeleportInit {
                                channel_id: self.initiator.channel_id,
                                new_funding_txo,
                                responder_value_removal_sat: removals.responder_value_removal_sat,
                                initiator_value_removal_sat: removals.initiator_value_removal_sat,
                            },
                        ),
                    )
                    &&& backward.len() == 0
                }
                ||| {
                    &&& self.responder.quiescence is Active
                    &&& forward.len() == 0
                    &&& holds_one(backward, Wire::Abort)
                }
            },
            (Some(i), Some(r)) => {
                &&& same_teleport(i, r)
                &&& match (i, r) {
                    (
                        PendingTeleport::AwaitingTeleportAck { .. },
                        PendingTeleport::AwaitingUserDecision { .. },
                    ) => forward.len() == 0 && backward.len() == 0 && self.removals_accepted(i),
                    (
                        PendingTeleport::AwaitingTeleportAck { .. },
                        PendingTeleport::AwaitingTeleportAckSend { .. },
                    ) => {
                        &&& forward.len() == 0
                        &&& self.to_initiator.len() == 0
                        &&& holds_two(self.outbox, Wire::Ack, self.responder_commitment(i))
                        &&& self.removals_accepted(i)
                    },
                    (
                        PendingTeleport::AwaitingTeleportAck { .. },
                        PendingTeleport::AwaitingRemoteCommitmentSigned { is_initiator: false, .. },
                    ) => {
                        &&& forward.len() == 0
                        &&& self.outbox.len() == 0
                        &&& holds_two(self.to_initiator, Wire::Ack, self.responder_commitment(i))
                        &&& self.removals_accepted(i)
                    },
                    (
                        PendingTeleport::AwaitingRemoteCommitmentSigned { is_initiator: true, .. },
                        PendingTeleport::AwaitingRemoteCommitmentSigned { is_initiator: false, .. },
                    ) => {
                        &&& holds_one(forward, self.initiator_commitment(i))
                        &&& self.outbox.len() == 0
                        &&& holds_one(self.to_initiator, self.responder_commitment(i))
                    },
                    (
                        PendingTeleport::AwaitingLocalComplete { .. },
                        PendingTeleport::AwaitingRemoteCommitmentSigned { is_initiator: false, .. },
                    ) => {
                        &&& holds_one(forward, self.initiator_commitment(i))
                        &&& backward.len() == 0
                    },
                    (
                        PendingTeleport::AwaitingTeleportCompleteAck { .. },
                        PendingTeleport::AwaitingRemoteCommitmentSigned { is_initiator: false, .. },
                    ) => {
                        &&& holds_two(forward, self.initiator_commitment(i), Wire::Complete)
                        &&& backward.len() == 0
                    },
                    (
                        PendingTeleport::AwaitingRemoteCommitmentSigned { is_initiator: true, .. },
                        PendingTeleport::AwaitingRemoteComplete { .. },
                    ) => forward.len() == 0 && holds_one(backward, self.responder_commitment(i)),
                    (
                        PendingTeleport::AwaitingLocalComplete { .. },
                        PendingTeleport::AwaitingRemoteComplete { .. },
                    ) => {
                        &&& forward.len() == 0
                        &&& backward.len() == 0 || holds_one(backward, self.responder_commitment(i))
                    },
                    (
                        PendingTeleport::AwaitingTeleportCompleteAck { .. },
                        PendingTeleport::AwaitingRemoteComplete { .. },
                    ) => {
                        &&& holds_one(forward, Wire::Complete)
                        &&& backward.len() == 0 || holds_one(backward, self.responder_commitment(i))
                    },
                    (
                        PendingTeleport::AwaitingTeleportCompleteAck { .. },
                        PendingTeleport::AwaitingTeleportCompleteAckSend { .. },
                    ) => {
                        &&& self.forward_is_stale()
                        &&& self.outbox.len() > 0
                        &&& holds_one(backward, Wire::CompleteAck) || holds_two(
                            backward,
                            self.responder_commitment(i),
                            Wire::CompleteAck,
                        )
                    },
                    (
                        PendingTeleport::AwaitingTeleportCompleteAck { .. },
                        PendingTeleport::AwaitingRemoteActivityAfterTeleportCompleteAckSend { .. },
                    ) => {
                        &&& self.forward_is_stale()
                        &&& holds_one(backward, Wire::CompleteAck) || holds_two(
                            backward,
                            self.responder_commitment(i),
                            Wire::CompleteAck,
                        )
                    },
                    _ => false,
                }
            },
            _ => false,
        }
    }

    /// Which stages can stand side by side while the sides are apart.
    spec fn disconnected_phase(self) -> bool {
        &&& self.to_responder.len() == 0
        &&& self.to_initiator.len() == 0
        &&& self.outbox.len() == 0
        &&& match (self.initiator.pending_teleport, self.responder.pending_teleport) {
            (None, None) => {
                &&& self.initiator.quiescence is Active
                &&& self.responder.quiescence is Active
            },
            (
                None,
                Some(PendingTeleport::AwaitingRemoteActivityAfterTeleportCompleteAckSend { .. }),
            ) => self.initiator.quiescence is Active,
            (Some(i), None) => {
                &&& i.spec_is_initiator()
                &&& i.spec_is_persistent()
                &&& self.responder.quiescence is Active
            },
            (Some(i), Some(r)) => {
                &&& same_teleport(i, r)
                &&& i.spec_is_initiator()
                &&& i.spec_is_persistent()
                &&& r is AwaitingRemoteComplete || i is AwaitingTeleportCompleteAck
                    && r.is_promoted()
            },
            _ => false,
        }
    }

    /// The initiator's check of the removals passes too.
    spec fn removals_accepted(self, p: PendingTeleport) -> bool {
        self.initiator.removals_fit(p.spec_removals(), true, self.locked)
    }

    /// Both sides are on one scope, unless only the responder has promoted: its scope is then the
    /// one that the initiator is about to promote.
    pub open spec fn scopes_agree(self) -> bool {
        match (self.initiator.pending_teleport, self.responder.pending_teleport) {
            (Some(i), Some(r)) if i is AwaitingTeleportCompleteAck && r.is_promoted() =>
                self.initiator.promoted(i).funding.mirrors(self.responder.funding),
            _ => self.initiator.funding.mirrors(self.responder.funding),
        }
    }

    /// The initiator's teleport leads to another transaction than the current one.
    pub open spec fn teleport_moves(self) -> bool {
        match self.initiator.pending_teleport {
            Some(i) => i.spec_new_funding_txo().txid != self.initiator.funding.funding_txo.txid,
            None => true,
        }
    }

    /// What holds of a pair after every step.
    pub closed spec fn inv(self) -> bool {
        self.is_closed || {
            &&& same_channel(self.initiator, self.responder)
            &&& self.initiator.inv()
            &&& self.responder.inv()
            &&& self.scopes_agree()
            &&& self.teleport_moves()
            &&& if self.initiator.is_disconnected {
                self.disconnected_phase()
            } else {
                self.connected_phase()
            }
        }
    }
}

/// Whether a proposal in `step` leads to another transaction than the current one.
pub open spec fn step_moves(p: Pair, step: PairStep) -> bool {
    match step {
        PairStep::Propose { new_funding_txo, .. } => new_funding_txo.txid
            != p.initiator.funding.funding_txo.txid,
        _ => true,
    }
}

#[verifier::spinoff_prover]
proof fn lemma_user_step(p: Pair, step: PairStep)
    requires
        p.inv(),
        step_moves(p, step),
        step is Propose || step is Accept || step is Refuse || step is Complete || step is Activity,
    ensures
        p.step(step) is Some,
        p.step(step)->Some_0.inv(),
{
}

#[verifier::spinoff_prover]
proof fn lemma_flush(p: Pair)
    requires
        p.inv(),
    ensures
        p.step(PairStep::Flush) is Some,
        p.step(PairStep::Flush)->Some_0.inv(),
{
}

#[verifier::spinoff_prover]
proof fn lemma_deliver_to_responder(p: Pair)
    requires
        p.inv(),
    ensures
        p.step(PairStep::DeliverToResponder) is Some,
        p.step(PairStep::DeliverToResponder)->Some_0.inv(),
{
}

#[verifier::spinoff_prover]
proof fn lemma_deliver_to_initiator(p: Pair)
    requires
        p.inv(),
    ensures
        p.step(PairStep::DeliverToInitiator) is Some,
        p.step(PairStep::DeliverToInitiator)->Some_0.inv(),
{
}

#[verifier::spinoff_prover]
proof fn lemma_link_step(p: Pair, step: PairStep)
    requires
        p.inv(),
        step is Disconnect || step is Reconnect,
    ensures
        p.step(step) is Some,
        p.step(step)->Some_0.inv(),
{
}


proof fn lemma_step(p: Pair, step: PairStep)
    requires
        p.inv(),
        step_moves(p, step),
    ensures
        p.step(step) is Some,
        p.step(step)->Some_0.inv(),
{
    match step {
        PairStep::Flush => lemma_flush(p),
        PairStep::DeliverToResponder => lemma_deliver_to_responder(p),
        PairStep::DeliverToInitiator => lemma_deliver_to_initiator(p),
        PairStep::Disconnect => lemma_link_step(p, step),
        PairStep::Reconnect => lemma_link_step(p, step),
        _ => lemma_user_step(p, step),
    }
}

/// Whether every proposal in `steps` leads to another transaction than the one that funds the
/// channel when it is made.
pub open spec fn steps_move(p: Pair, steps: Seq<PairStep>) -> bool
    decreases steps.len(),
{
    steps.len() == 0 || {
        &&& steps_move(p, steps.drop_last())
        &&& p.run(steps.drop_last()) is Some ==> step_moves(
            p.run(steps.drop_last())->Some_0,
            steps.last(),
        )
    }
}

proof fn lemma_run(p: Pair, steps: Seq<PairStep>)
    requires
        p.inv(),
        steps_move(p, steps),
    ensures
        p.run(steps) is Some,
        p.run(steps)->Some_0.inv(),
    decreases steps.len(),
{
    if steps.len() > 0 {
        lemma_run(p, steps.drop_last());
        lemma_step(p.run(steps.drop_last())->Some_0, steps.last());
    }
}

spec fn same_numbers(a: Channel, b: Channel) -> bool {
    &&& a.holder_commitment_number == b.holder_commitment_number
    &&& a.counterparty_commitment_number == b.counterparty_commitment_number
}

proof fn lemma_step_keeps_numbers(p: Pair, step: PairStep)
    requires
        p.step(step) is Some,
    ensures
        same_numbers(p.initiator, p.step(step)->Some_0.initiator),
        same_numbers(p.responder, p.step(step)->Some_0.responder),
{
    match step {
        PairStep::DeliverToResponder => if p.to_responder.len() > 0 {
            match p.to_responder[0] {
                Wire::Commitment(m) => {},
                _ => {},
            }
        },
        PairStep::DeliverToInitiator => if p.to_initiator.len() > 0 {
            match p.to_initiator[0] {
                Wire::Commitment(m) => {},
                _ => {},
            }
        },
        _ => {},
    }
}

/// Two peers that exchange the messages of teleports, without payments, never disconnect over an
/// unexpected message, whatever of a teleport their users ask for, whatever the connection loses
/// and whenever it drops.
pub proof fn law_every_message_is_expected(p: Pair, steps: Seq<PairStep>)
    requires
        p.is_fresh(),
        steps_move(p, steps),
    ensures
        p.run(steps) is Some,
{
    lemma_run(p, steps);
}

/// The commitment numbers continue across every execution of the protocol: they are never reset,
/// and no message of the teleport flow advances them.
pub proof fn law_commitment_numbers_continue(p: Pair, steps: Seq<PairStep>)
    requires
        p.run(steps) is Some,
    ensures
        ({
            let q = p.run(steps)->Some_0;
            &&& q.initiator.holder_commitment_number == p.initiator.holder_commitment_number
            &&& q.responder.holder_commitment_number == p.responder.holder_commitment_number
            &&& q.initiator.counterparty_commitment_number
                == p.initiator.counterparty_commitment_number
            &&& q.responder.counterparty_commitment_number
                == p.responder.counterparty_commitment_number
        }),
    decreases steps.len(),
{
    if steps.len() > 0 {
        law_commitment_numbers_continue(p, steps.drop_last());
        lemma_step_keeps_numbers(p.run(steps.drop_last())->Some_0, steps.last());
    }
}

/// The two sides are on one funding output with balances that make up its value, at every moment
/// but one: after the responder has promoted and before the initiator has. The initiator then holds
/// a signed commitment on the responder's scope, which is the one that it promotes next.
pub proof fn law_scopes_agree(p: Pair, steps: Seq<PairStep>)
    requires
        p.is_fresh(),
        steps_move(p, steps),
    ensures
        ({
            let q = p.run(steps)->Some_0;
            !q.is_closed ==> q.scopes_agree()
        }),
{
    lemma_run(p, steps);
}

/// The responder promotes first: an initiator that has not completed is on the same scope as the
/// responder, and one without a teleport pending too.
pub proof fn law_responder_promotes_first(p: Pair, steps: Seq<PairStep>)
    requires
        p.is_fresh(),
        steps_move(p, steps),
    ensures
        ({
            let q = p.run(steps)->Some_0;
            !q.is_closed && !(q.initiator.pending_teleport is Some
                && q.initiator.pending_teleport->Some_0 is AwaitingTeleportCompleteAck)
                ==> q.initiator.funding.mirrors(q.responder.funding)
        }),
{
    lemma_run(p, steps);
}

/// Whether every proposal in `steps` is of this teleport.
pub open spec fn steps_propose(
    steps: Seq<PairStep>,
    new_funding_txo: FundingOutPoint,
    removals: ValueRemovals,
) -> bool {
    forall|i: int|
        0 <= i < steps.len() && (#[trigger] steps[i]) is Propose ==> steps[i]
            == (PairStep::Propose { new_funding_txo, removals })
}

/// A teleport and the two scopes that it starts from, as the two sides see them.
struct Move {
    new_funding_txo: FundingOutPoint,
    removals: ValueRemovals,
    initiator: FundingScope,
    responder: FundingScope,
}

impl Move {
    spec fn is_sound(self) -> bool {
        &&& self.initiator.mirrors(self.responder)
        &&& self.initiator.funding_txo != self.new_funding_txo
    }

    spec fn of(self, is_initiator: bool) -> Teleport {
        Teleport {
            new_funding_txo: self.new_funding_txo,
            removals: self.removals,
            is_initiator,
        }
    }

    /// Neither side has left the way from its scope to the one that the teleport leads to.
    spec fn holds(self, p: Pair) -> bool {
        &&& p.initiator.is_within(self.initiator, self.of(true))
        &&& p.responder.is_within(self.responder, self.of(false))
    }
}

#[verifier::spinoff_prover]
proof fn lemma_user_step_is_within(p: Pair, step: PairStep, m: Move)
    requires
        p.inv(),
        m.is_sound(),
        m.holds(p),
        step_moves(p, step),
        step is Propose ==> step == (PairStep::Propose {
            new_funding_txo: m.new_funding_txo,
            removals: m.removals,
        }),
        step !is DeliverToResponder,
        step !is DeliverToInitiator,
    ensures
        p.step(step) is Some ==> m.holds(p.step(step)->Some_0),
{
}

#[verifier::spinoff_prover]
proof fn lemma_delivery_to_responder_is_within(p: Pair, m: Move)
    requires
        p.inv(),
        m.is_sound(),
        m.holds(p),
    ensures
        p.step(PairStep::DeliverToResponder) is Some ==> m.holds(
            p.step(PairStep::DeliverToResponder)->Some_0,
        ),
{
}

#[verifier::spinoff_prover]
proof fn lemma_delivery_to_initiator_is_within(p: Pair, m: Move)
    requires
        p.inv(),
        m.is_sound(),
        m.holds(p),
    ensures
        p.step(PairStep::DeliverToInitiator) is Some ==> m.holds(
            p.step(PairStep::DeliverToInitiator)->Some_0,
        ),
{
}

proof fn lemma_run_is_within(p: Pair, steps: Seq<PairStep>, m: Move)
    requires
        p.inv(),
        m.is_sound(),
        m.holds(p),
        steps_move(p, steps),
        steps_propose(steps, m.new_funding_txo, m.removals),
    ensures
        p.run(steps) is Some,
        m.holds(p.run(steps)->Some_0),
    decreases steps.len(),
{
    if steps.len() > 0 {
        let n = steps.len() - 1;
        assert forall|i: int| 0 <= i < n && (#[trigger] steps.drop_last()[i]) is Propose implies
            steps.drop_last()[i] == (PairStep::Propose {
            new_funding_txo: m.new_funding_txo,
            removals: m.removals,
        }) by {
            assert(steps.drop_last()[i] == steps[i]);
        }
        lemma_run_is_within(p, steps.drop_last(), m);
        lemma_run(p, steps);
        lemma_run(p, steps.drop_last());
        let q = p.run(steps.drop_last())->Some_0;
        assert(steps.last() == steps[n]);
        match steps.last() {
            PairStep::DeliverToResponder => lemma_delivery_to_responder_is_within(q, m),
            PairStep::DeliverToInitiator => lemma_delivery_to_initiator_is_within(q, m),
            _ => lemma_user_step_is_within(q, steps.last(), m),
        }
    }
}

/// A teleport with removals takes from each side what that side takes out, in every execution: once
/// both sides are on the new output, each balance is the old one less its own removal, and the
/// value of the channel the old one less their sum. Messages may be lost, the connection may drop,
/// and the teleport may be proposed several times until it succeeds.
pub proof fn law_execution_reduces_each_side(
    p: Pair,
    steps: Seq<PairStep>,
    new_funding_txo: FundingOutPoint,
    removals: ValueRemovals,
)
    requires
        p.is_fresh(),
        steps_move(p, steps),
        steps_propose(steps, new_funding_txo, removals),
        p.initiator.funding.funding_txo != new_funding_txo,
    ensures
        p.run(steps) is Some,
        ({
            let q = p.run(steps)->Some_0;
            let is_moved = |c: Channel| c.funding.funding_txo == new_funding_txo;
            &&& is_moved(q.initiator) ==> q.initiator.funding.is_reduced(
                p.initiator.funding,
                removals,
                true,
            )
            &&& is_moved(q.responder) ==> q.responder.funding.is_reduced(
                p.responder.funding,
                removals,
                false,
            )
            &&& !is_moved(q.initiator) ==> q.initiator.funding == p.initiator.funding
            &&& !is_moved(q.responder) ==> q.responder.funding == p.responder.funding
        }),
{
    let m = Move {
        new_funding_txo,
        removals,
        initiator: p.initiator.funding,
        responder: p.responder.funding,
    };
    lemma_run_is_within(p, steps, m);
}

/// `step` after whatever led to `p`.
pub open spec fn then_step(p: Option<Pair>, step: PairStep) -> Option<Pair> {
    match p {
        Some(q) => q.step(step),
        None => None,
    }
}

impl Pair {
    /// The sides reconnect, every message arrives, and the initiator's user completes.
    pub open spec fn reconnected_and_driven(self) -> Option<Pair> {
        let p1 = then_step(self.step(PairStep::Reconnect), PairStep::Flush);
        let p2 = then_step(p1, PairStep::DeliverToInitiator);
        let p3 = then_step(p2, PairStep::Complete);
        let p4 = then_step(p3, PairStep::DeliverToResponder);
        let p5 = then_step(p4, PairStep::Flush);
        then_step(p5, PairStep::DeliverToInitiator)
    }
}

/// `p` is live, nothing waits in its outbox, and it follows from a reconnection of `q`: it is at
/// the teleport that the responder of `q` carried over, or at none if there was none.
spec fn follows(q: Pair, p: Pair) -> bool {
    &&& p.inv()
    &&& !p.is_closed
    &&& !p.initiator.is_disconnected
    &&& p.outbox.len() == 0
    &&& match q.responder.pending_teleport {
        Some(r) => {
            &&& p.responder.pending_teleport is Some
            &&& p.responder.pending_teleport->Some_0.spec_new_funding_txo()
                == r.spec_new_funding_txo()
        },
        None => {
            &&& p.initiator.pending_teleport is None
            &&& p.responder.pending_teleport is None
            &&& p.initiator.funding == q.initiator.funding
            &&& p.responder.funding == q.responder.funding
        },
    }
}

/// The initiator is at a persistent stage, if at any. If only the responder has promoted, nothing
/// but its acknowledgement is on the way back.
spec fn ack_is_next(p: Pair) -> bool {
    match (p.initiator.pending_teleport, p.responder.pending_teleport) {
        (Some(i), _) if !i.spec_is_persistent() => false,
        (Some(_), Some(r)) if r.is_promoted() => holds_one(p.to_initiator, Wire::CompleteAck),
        _ => true,
    }
}

#[verifier::spinoff_prover]
proof fn lemma_resumes(q: Pair)
    requires
        q.inv(),
        !q.is_closed,
        q.initiator.is_disconnected,
    ensures
        q.step(PairStep::Reconnect) is Some,
        then_step(q.step(PairStep::Reconnect), PairStep::Flush) is Some,
        ({
            let p = then_step(q.step(PairStep::Reconnect), PairStep::Flush)->Some_0;
            &&& follows(q, p)
            &&& match p.responder.pending_teleport {
                None => true,
                Some(r) => r is AwaitingRemoteComplete || r is
                    AwaitingRemoteActivityAfterTeleportCompleteAckSend,
            }
            &&& ack_is_next(p)
        }),
{
    lemma_link_step(q, PairStep::Reconnect);
    lemma_flush(q.step(PairStep::Reconnect)->Some_0);
}

#[verifier::spinoff_prover]
proof fn lemma_reaches_completion(q: Pair, p: Pair)
    requires
        follows(q, p),
        match p.responder.pending_teleport {
            None => true,
            Some(r) => r is AwaitingRemoteComplete || r is
                AwaitingRemoteActivityAfterTeleportCompleteAckSend,
        },
        ack_is_next(p),
        q.responder.pending_teleport is None ==> p.initiator.pending_teleport is None,
    ensures
        p.step(PairStep::DeliverToInitiator) is Some,
        then_step(p.step(PairStep::DeliverToInitiator), PairStep::Complete) is Some,
        ({
            let p2 = then_step(p.step(PairStep::DeliverToInitiator), PairStep::Complete)->Some_0;
            &&& follows(q, p2)
            &&& p2.to_initiator.len() == 0
            &&& match (p2.initiator.pending_teleport, p2.responder.pending_teleport) {
                (None, None) => true,
                (None, Some(r)) => r is AwaitingRemoteActivityAfterTeleportCompleteAckSend,
                (Some(i), Some(r)) => i is AwaitingTeleportCompleteAck && r is
                    AwaitingRemoteComplete,
                _ => false,
            }
        }),
{
    lemma_deliver_to_initiator(p);
    lemma_user_step(p.step(PairStep::DeliverToInitiator)->Some_0, PairStep::Complete);
}

#[verifier::spinoff_prover]
proof fn lemma_completes(q: Pair, p: Pair)
    requires
        follows(q, p),
        p.to_initiator.len() == 0,
        match (p.initiator.pending_teleport, p.responder.pending_teleport) {
            (None, None) => true,
            (None, Some(r)) => r is AwaitingRemoteActivityAfterTeleportCompleteAckSend,
            (Some(i), Some(r)) => i is AwaitingTeleportCompleteAck && r is AwaitingRemoteComplete,
            _ => false,
        },
    ensures
        ({
            let p1 = then_step(p.step(PairStep::DeliverToResponder), PairStep::Flush);
            let end = then_step(p1, PairStep::DeliverToInitiator);
            &&& end is Some
            &&& follows(q, end->Some_0)
            &&& end->Some_0.initiator.pending_teleport is None
            &&& end->Some_0.initiator.quiescence is Active
            &&& end->Some_0.responder.quiescence is Active
            &&& end->Some_0.initiator.funding.mirrors(end->Some_0.responder.funding)
            &&& end->Some_0.responder.pending_teleport matches Some(r)
                ==> end->Some_0.initiator.funding.funding_txo == r.spec_new_funding_txo()
        }),
{
    lemma_deliver_to_responder(p);
    let p0 = p.step(PairStep::DeliverToResponder)->Some_0;
    lemma_flush(p0);
    let p1 = p0.step(PairStep::Flush)->Some_0;
    lemma_deliver_to_initiator(p1);
}

/// After any disconnection the sides converge. A teleport that the responder carried over completes
/// on both sides; any other is given up by both, and they stay on the scope that they had.
pub proof fn law_reconnection_converges(p: Pair, steps: Seq<PairStep>)
    requires
        p.is_fresh(),
        steps_move(p, steps),
    ensures
        ({
            let q = p.run(steps)->Some_0;
            let end = q.reconnected_and_driven();
            !q.is_closed && q.initiator.is_disconnected ==> {
                &&& end is Some
                &&& end->Some_0.initiator.pending_teleport is None
                &&& end->Some_0.initiator.quiescence is Active
                &&& end->Some_0.responder.quiescence is Active
                &&& end->Some_0.initiator.funding.mirrors(end->Some_0.responder.funding)
                &&& match q.responder.pending_teleport {
                    Some(r) => end->Some_0.initiator.funding.funding_txo
                        == r.spec_new_funding_txo(),
                    None => {
                        &&& end->Some_0.initiator.funding == q.initiator.funding
                        &&& end->Some_0.responder.funding == q.responder.funding
                        &&& end->Some_0.responder.pending_teleport is None
                    },
                }
            }
        }),
{
    lemma_run(p, steps);
    let q = p.run(steps)->Some_0;
    if !q.is_closed && q.initiator.is_disconnected {
        lemma_resumes(q);
        let p1 = then_step(q.step(PairStep::Reconnect), PairStep::Flush)->Some_0;
        lemma_reaches_completion(q, p1);
        let p3 = then_step(p1.step(PairStep::DeliverToInitiator), PairStep::Complete)->Some_0;
        lemma_completes(q, p3);
    }
}

} // verus!
