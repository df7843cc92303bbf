use teleport::channel::{
    APIError, ChannelSetup, FundingScope, PendingTeleport, Quiescence,
    DISCONNECT_PEER_AWAITING_RESPONSE_TICKS, INITIAL_COMMITMENT_NUMBER,
};
use teleport::claims::{max_htlcs_per_batch, ClaimProgress};
use teleport::commitment::commitment_outputs;
use teleport::commitment_tx::CommitmentKeys;
use teleport::events::{ClosureReason, Event};
use teleport::flows::{
    ack_teleport, ack_teleport_into_gap, assert_responder_lingering_after_complete_ack,
    complete_teleport_into_responder_lingering, current_funding_txo, current_monitor_funding_txo,
    monitor_watches_funding_txo, start_teleport, value_to_self_msat,
};
use teleport::funding::{ChannelTerms, ChannelType, HandshakeConfig};
use teleport::htlcs::Htlc;
use teleport::monitor::MonitorUpdate;
use teleport::msgs::{
    ChannelId, CommitmentSigned, ErrorAction, Init, InitFeatures, Message, NodeId, PaymentHash,
    RevokeAndACK, Stfu, TeleportComplete, Update,
};
use teleport::node::{Node, Peer};
use teleport::outpoint::test_outpoint;
use teleport::script::{funding_output_script, witness_script_pubkey};

const CHANNEL_ID: ChannelId = ChannelId { id: 7 };
const NODE_A: NodeId = NodeId { id: 1 };
const NODE_B: NodeId = NodeId { id: 2 };
const FEERATE: u32 = 253;
const FEATURES: InitFeatures = InitFeatures { static_remote_key: true, quiescence: true };
const CLTV_EXPIRY: u32 = 700_000;

fn hash_of(payment: u64) -> PaymentHash {
    let mut bytes = [0; 32];
    bytes[..8].copy_from_slice(&payment.to_le_bytes());
    PaymentHash { bytes }
}

/// Connects two nodes. The second reaches out to the first.
fn connect(a: &mut Node, b: &mut Node) {
    let init_a = Init { features: a.init_features() };
    let init_b = Init { features: b.init_features() };
    a.peer_connected(b.node_id, &init_b, true).unwrap();
    b.peer_connected(a.node_id, &init_a, false).unwrap();
}

const STOCK: HandshakeConfig = HandshakeConfig {
    negotiate_anchor_zero_fee_commitments: false,
    negotiate_ark_channel: false,
    ark_htlc_success_csv_delta: None,
};

fn setup(
    counterparty: NodeId, is_outbound: bool, value_sat: u64, value_to_self_msat: u64,
) -> ChannelSetup {
    let reserve_sat = core::cmp::max(1000, value_sat / 100);
    ChannelSetup {
        channel_id: CHANNEL_ID,
        user_channel_id: 42,
        counterparty,
        is_outbound,
        funding: FundingScope { funding_txo: test_outpoint(1, 0), value_sat, value_to_self_msat },
        holder_reserve_sat: reserve_sat,
        counterparty_reserve_sat: reserve_sat,
        dust_limit_sat: 354,
        feerate_per_kw: FEERATE,
    }
}

/// Two nodes with a channel between them that the first funded.
fn create_chan_between_nodes_with_value(
    value_sat: u64, push_msat: u64, config: HandshakeConfig,
) -> (Node, Node) {
    let terms = ChannelTerms::negotiated(&config, &config);
    let script = funding_output_script(&[2; 33], &[3; 33]);
    let mut a = Node::new(NODE_A, FEATURES, FEERATE);
    let mut b = Node::new(NODE_B, FEATURES, FEERATE);
    connect(&mut a, &mut b);
    a.add_channel(
        setup(NODE_B, true, value_sat, value_sat * 1000 - push_msat),
        terms,
        script.clone(),
    );
    b.add_channel(setup(NODE_A, false, value_sat, push_msat), terms, script);
    (a, b)
}

fn deliver(from: NodeId, to: &mut Node, msg: &Message) {
    match msg {
        Message::SendStfu(m) => to.handle_stfu(from, m),
        Message::SendTeleportInit(m) => to.handle_teleport_init(from, m),
        Message::SendTeleportAck(m) => to.handle_teleport_ack(from, m),
        Message::SendTeleportComplete(m) => to.handle_teleport_complete(from, m),
        Message::SendTeleportCompleteAck(m) => to.handle_teleport_complete_ack(from, m),
        Message::SendTeleportAbort(m) => to.handle_teleport_abort(from, m),
        Message::UpdateHTLCs(m) => {
            for update in &m.updates {
                to.handle_update(from, CHANNEL_ID, update);
            }
            for cs in &m.commitment_signed {
                to.handle_commitment_signed(from, cs);
            }
        },
        Message::SendRevokeAndACK(m) => to.handle_revoke_and_ack(from, m),
        Message::SendChannelReestablish(m) => to.handle_channel_reestablish(from, m),
        Message::SendChannelReady(_) | Message::SendAnnouncementSignatures(_) => {},
        Message::HandleError(action) => panic!("Unexpected error {action:?}"),
    }
}

/// Exchanges messages until neither node has one left.
fn exchange(a: &mut Node, b: &mut Node) {
    loop {
        let from_a = a.get_and_clear_pending_msg_events();
        for event in &from_a {
            assert_eq!(event.node_id, b.node_id);
            deliver(a.node_id, b, &event.msg);
        }
        let from_b = b.get_and_clear_pending_msg_events();
        for event in &from_b {
            assert_eq!(event.node_id, a.node_id);
            deliver(b.node_id, a, &event.msg);
        }
        if from_a.is_empty() && from_b.is_empty() {
            return;
        }
    }
}

fn expect_payment_claimable(node: &mut Node, payment_hash: u64, amount_msat: u64) {
    let payment_hash = hash_of(payment_hash);
    assert_eq!(
        node.get_and_clear_pending_events(),
        vec![Event::PaymentClaimable { channel_id: CHANNEL_ID, payment_hash, amount_msat }],
    );
}

fn expect_payment_claimed(node: &mut Node, payment_hash: u64, amount_msat: u64) {
    let payment_hash = hash_of(payment_hash);
    assert_eq!(
        node.get_and_clear_pending_events(),
        vec![Event::PaymentClaimed { channel_id: CHANNEL_ID, payment_hash, amount_msat }],
    );
}

/// Sends a payment up to the point where it can be claimed.
fn route_payment(from: &mut Node, to: &mut Node, payment_hash: u64, amount_msat: u64) {
    from
        .send_payment(CHANNEL_ID, to.node_id, hash_of(payment_hash), amount_msat, CLTV_EXPIRY)
        .unwrap();
    exchange(from, to);
    expect_payment_claimable(to, payment_hash, amount_msat);
    from.take_added_monitors();
    to.take_added_monitors();
}

fn claim_payment(from: &mut Node, to: &mut Node, payment_hash: u64, amount_msat: u64) {
    to.claim_funds(CHANNEL_ID, from.node_id, hash_of(payment_hash)).unwrap();
    assert_eq!(to.take_added_monitors().len(), 1);
    expect_payment_claimed(to, payment_hash, amount_msat);
    exchange(from, to);
    from.take_added_monitors();
    to.take_added_monitors();
}

/// Sends a payment that is claimed at once.
fn send_payment(from: &mut Node, to: &mut Node, amount_msat: u64) {
    let before_from = value_to_self_msat(from, CHANNEL_ID);
    let before_to = value_to_self_msat(to, CHANNEL_ID);
    route_payment(from, to, 99, amount_msat);
    claim_payment(from, to, 99, amount_msat);
    assert_eq!(value_to_self_msat(from, CHANNEL_ID), before_from - amount_msat);
    assert_eq!(value_to_self_msat(to, CHANNEL_ID), before_to + amount_msat);
}

fn even_channel() -> (Node, Node) {
    create_chan_between_nodes_with_value(1_000_000, 500_000_000, STOCK)
}

fn add_htlc(amount_msat: u64) -> Update {
    Update::AddHtlc {
        htlc_id: 0,
        payment_hash: hash_of(1),
        amount_msat,
        cltv_expiry: CLTV_EXPIRY,
    }
}

/// Takes the messages of a node that must all be errors, and returns what they demand.
fn errors(node: &mut Node) -> Vec<ErrorAction> {
    node.get_and_clear_pending_msg_events()
        .into_iter()
        .map(|event| match event.msg {
            Message::HandleError(action) => action,
            msg => panic!("Unexpected message {msg:?}"),
        })
        .collect()
}

#[test]
fn unknown_channel_is_refused() {
    let (mut a, _) = even_channel();
    let other = ChannelId { id: 8 };
    let txo = test_outpoint(3, 0);
    let err = a.teleport_channel(other, NODE_B, txo, 0, 0).unwrap_err();
    assert!(matches!(err, APIError::ChannelUnavailable));
    let err = a.teleport_channel(CHANNEL_ID, NodeId { id: 3 }, txo, 0, 0).unwrap_err();
    assert!(matches!(err, APIError::ChannelUnavailable));
    a.handle_stfu(NODE_B, &Stfu { channel_id: other, initiator: true });
    assert_eq!(errors(&mut a), vec![ErrorAction::SendErrorMessage]);
    assert!(!a.entries[0].is_closed);
}

#[test]
fn teleport_needs_an_idle_connected_channel() {
    let (mut a, mut b) = even_channel();
    let txo = test_outpoint(3, 0);
    a.send_payment(CHANNEL_ID, NODE_B, hash_of(1), 1000, CLTV_EXPIRY).unwrap();
    let err = a.teleport_channel(CHANNEL_ID, NODE_B, txo, 0, 0).unwrap_err();
    assert!(matches!(err, APIError::ChannelBusy));
    exchange(&mut a, &mut b);
    a.teleport_channel(CHANNEL_ID, NODE_B, txo, 0, 0).unwrap();
    let err = a.teleport_channel(CHANNEL_ID, NODE_B, txo, 0, 0).unwrap_err();
    assert!(matches!(err, APIError::ChannelBusy));
    a.peer_disconnected(NODE_B);
    let err = a.teleport_channel(CHANNEL_ID, NODE_B, txo, 0, 0).unwrap_err();
    assert!(matches!(err, APIError::ChannelUnavailable));
}

#[test]
fn decisions_need_a_pending_teleport() {
    let (mut a, _) = even_channel();
    for err in [
        a.ack_teleport(CHANNEL_ID, NODE_B).unwrap_err(),
        a.cancel_teleport(CHANNEL_ID, NODE_B).unwrap_err(),
        a.complete_teleport(CHANNEL_ID, NODE_B).unwrap_err(),
    ] {
        assert!(matches!(err, APIError::TeleportNotPending));
    }
    assert!(a.get_and_clear_pending_msg_events().is_empty());
}

#[test]
fn removal_may_go_down_to_the_reserve() {
    // Half of a million is 500_000 satoshis, and the reserve takes 10_000 of them.
    let (mut a, _) = even_channel();
    let txo = test_outpoint(3, 0);
    let err = a.teleport_channel(CHANNEL_ID, NODE_B, txo, 0, 490_001).unwrap_err();
    assert!(matches!(
        err,
        APIError::ExcessiveRemoval { initiator_value_removal_sat: 490_001 }
    ));
    a.teleport_channel(CHANNEL_ID, NODE_B, txo, 0, 490_000).unwrap();

    // An HTLC takes its share too.
    let (mut a, mut b) = even_channel();
    route_payment(&mut a, &mut b, 1, 1_000);
    a.teleport_channel(CHANNEL_ID, NODE_B, txo, 0, 490_000).unwrap_err();
    a.teleport_channel(CHANNEL_ID, NODE_B, txo, 0, 489_999).unwrap();
}

#[test]
fn unexpected_messages_drop_the_connection() {
    let (mut a, mut b) = even_channel();
    a.handle_teleport_complete(NODE_B, &TeleportComplete { channel_id: CHANNEL_ID });
    assert_eq!(errors(&mut a), vec![ErrorAction::DisconnectPeerWithWarning]);
    a.handle_stfu(NODE_B, &Stfu { channel_id: CHANNEL_ID, initiator: false });
    assert_eq!(errors(&mut a), vec![ErrorAction::DisconnectPeerWithWarning]);

    // A paused channel takes no update.
    start_teleport(&mut a, &mut b, CHANNEL_ID, test_outpoint(3, 0));
    let update = add_htlc(1);
    b.handle_update(NODE_A, CHANNEL_ID, &update);
    assert_eq!(errors(&mut b), vec![ErrorAction::DisconnectPeerWithWarning]);
    assert!(!a.entries[0].is_closed && !b.entries[0].is_closed);
}

#[test]
fn impossible_messages_close_the_channel() {
    let (mut a, _) = even_channel();
    let raa =
        RevokeAndACK { channel_id: CHANNEL_ID, commitment_number: INITIAL_COMMITMENT_NUMBER };
    a.handle_revoke_and_ack(NODE_B, &raa);
    assert_eq!(errors(&mut a), vec![ErrorAction::SendErrorMessage]);
    assert!(a.entries[0].is_closed);
    assert_eq!(a.take_added_monitors(), vec![MonitorUpdate::ChannelForceClosed]);
    assert_eq!(
        a.get_and_clear_pending_events(),
        vec![Event::ChannelClosed {
            channel_id: CHANNEL_ID,
            reason: ClosureReason::ProcessingError,
            counterparty_node_id: NODE_B,
            channel_capacity_sats: 1_000_000,
        }],
    );

    // The counterparty cannot spend more than it has.
    let (mut a, _) = even_channel();
    let update = add_htlc(500_000_001);
    a.handle_update(NODE_B, CHANNEL_ID, &update);
    assert_eq!(errors(&mut a), vec![ErrorAction::SendErrorMessage]);

    // Only the funder sets the feerate.
    let (mut a, _) = even_channel();
    a.handle_update(NODE_B, CHANNEL_ID, &Update::Fee { feerate_per_kw: 300 });
    assert_eq!(errors(&mut a), vec![ErrorAction::SendErrorMessage]);
}

#[test]
fn payments_are_limited_by_the_balance() {
    let (mut a, mut b) = even_channel();
    let err = a.send_payment(CHANNEL_ID, NODE_B, hash_of(1), 500_000_001, CLTV_EXPIRY).unwrap_err();
    assert!(matches!(err, APIError::PaymentUnavailable));
    let err = a.send_payment(CHANNEL_ID, NODE_B, hash_of(1), 0, CLTV_EXPIRY).unwrap_err();
    assert!(matches!(err, APIError::PaymentUnavailable));
    let err = a.claim_funds(CHANNEL_ID, NODE_B, hash_of(1)).unwrap_err();
    assert!(matches!(err, APIError::PaymentUnavailable));
    route_payment(&mut a, &mut b, 1, 400_000_000);
    let err = a.send_payment(CHANNEL_ID, NODE_B, hash_of(2), 100_000_001, CLTV_EXPIRY).unwrap_err();
    assert!(matches!(err, APIError::PaymentUnavailable));
    a.send_payment(CHANNEL_ID, NODE_B, hash_of(2), 100_000_000, CLTV_EXPIRY).unwrap();
    a.peer_disconnected(NODE_B);
    let err = a.send_payment(CHANNEL_ID, NODE_B, hash_of(3), 1, CLTV_EXPIRY).unwrap_err();
    assert!(matches!(err, APIError::ChannelUnavailable));
}

#[test]
fn a_promised_removal_is_not_spent_again() {
    let (mut a, _) = even_channel();
    a.teleport_channel(CHANNEL_ID, NODE_B, test_outpoint(3, 0), 0, 490_000).unwrap();
    let err = a.send_payment(CHANNEL_ID, NODE_B, hash_of(1), 10_000_001, CLTV_EXPIRY).unwrap_err();
    assert!(matches!(err, APIError::PaymentUnavailable));
    a.send_payment(CHANNEL_ID, NODE_B, hash_of(1), 10_000_000, CLTV_EXPIRY).unwrap();
}

#[test]
fn claimed_payments_change_hands_and_failed_ones_do_not() {
    let (mut a, mut b) = even_channel();
    send_payment(&mut a, &mut b, 7_001);
    send_payment(&mut b, &mut a, 7_000);
    assert_eq!(value_to_self_msat(&a, CHANNEL_ID), 499_999_999);
    assert_eq!(value_to_self_msat(&b, CHANNEL_ID), 500_000_001);

    route_payment(&mut a, &mut b, 5, 1_000);
    b.fail_htlc_backwards(CHANNEL_ID, NODE_A, hash_of(5)).unwrap();
    // It is being resolved already.
    b.claim_funds(CHANNEL_ID, NODE_A, hash_of(5)).unwrap_err();
    exchange(&mut a, &mut b);
    assert_eq!(value_to_self_msat(&a, CHANNEL_ID), 499_999_999);
    assert!(a.entries[0].book.htlcs.is_empty() && b.entries[0].book.htlcs.is_empty());
    // Each of the six updates took one commitment of either side.
    assert_eq!(
        a.entries[0].channel.holder_commitment_number,
        INITIAL_COMMITMENT_NUMBER - 6,
    );
    assert_eq!(
        a.entries[0].channel.counterparty_commitment_number,
        b.entries[0].channel.holder_commitment_number,
    );
}

#[test]
fn crossing_updates_are_both_committed() {
    let (mut a, mut b) = even_channel();
    a.send_payment(CHANNEL_ID, NODE_B, hash_of(1), 1_000, CLTV_EXPIRY).unwrap();
    b.send_payment(CHANNEL_ID, NODE_A, hash_of(2), 2_000, CLTV_EXPIRY).unwrap();
    // Held while the first is in flight.
    a.send_payment(CHANNEL_ID, NODE_B, hash_of(3), 3_000, CLTV_EXPIRY).unwrap();
    exchange(&mut a, &mut b);
    assert_eq!(
        b.get_and_clear_pending_events(),
        vec![
            Event::PaymentClaimable {
                channel_id: CHANNEL_ID,
                payment_hash: hash_of(1),
                amount_msat: 1_000,
            },
            Event::PaymentClaimable {
                channel_id: CHANNEL_ID,
                payment_hash: hash_of(3),
                amount_msat: 3_000,
            },
        ],
    );
    expect_payment_claimable(&mut a, 2, 2_000);
    assert_eq!(a.entries[0].book.htlcs.len(), 3);
    assert_eq!(b.entries[0].book.htlcs.len(), 3);
}

#[test]
fn lost_updates_are_repeated() {
    // Everything that is sent is lost after some number of messages.
    for delivered in 0..6 {
        let (mut a, mut b) = even_channel();
        a.send_payment(CHANNEL_ID, NODE_B, hash_of(1), 1_000, CLTV_EXPIRY).unwrap();
        let mut left = delivered;
        while left > 0 {
            for event in a.get_and_clear_pending_msg_events() {
                if left > 0 {
                    deliver(NODE_A, &mut b, &event.msg);
                    left -= 1;
                }
            }
            for event in b.get_and_clear_pending_msg_events() {
                if left > 0 {
                    deliver(NODE_B, &mut a, &event.msg);
                    left -= 1;
                }
            }
            if a.pending_msg_events.is_empty() && b.pending_msg_events.is_empty() {
                break;
            }
        }
        a.peer_disconnected(NODE_B);
        b.peer_disconnected(NODE_A);
        connect(&mut a, &mut b);
        exchange(&mut a, &mut b);
        expect_payment_claimable(&mut b, 1, 1_000);
        b.take_added_monitors();
        claim_payment(&mut a, &mut b, 1, 1_000);
        assert_eq!(value_to_self_msat(&b, CHANNEL_ID), 500_001_000);
    }
}

#[test]
fn teleport_converges_wherever_the_connection_breaks() {
    let txo = test_outpoint(3, 0);
    let old = test_outpoint(1, 0);
    for delivered in 0..9 {
        let (mut a, mut b) = even_channel();
        a.teleport_channel(CHANNEL_ID, NODE_B, txo, 0, 0).unwrap();
        let mut left = delivered;
        for _ in 0..8 {
            for event in a.get_and_clear_pending_msg_events() {
                if left > 0 {
                    deliver(NODE_A, &mut b, &event.msg);
                    left -= 1;
                }
            }
            if !b.get_and_clear_pending_events().is_empty() {
                b.ack_teleport(CHANNEL_ID, NODE_A).unwrap();
            }
            for event in b.get_and_clear_pending_msg_events() {
                if left > 0 {
                    deliver(NODE_B, &mut a, &event.msg);
                    left -= 1;
                }
            }
            let _ = a.complete_teleport(CHANNEL_ID, NODE_B);
        }
        a.peer_disconnected(NODE_B);
        b.peer_disconnected(NODE_A);
        let carried = b.entries[0].channel.pending_teleport.is_some();
        connect(&mut a, &mut b);
        exchange(&mut a, &mut b);
        let _ = a.complete_teleport(CHANNEL_ID, NODE_B);
        exchange(&mut a, &mut b);
        let expected = if carried { txo } else { old };
        assert_eq!(current_funding_txo(&a, CHANNEL_ID), expected, "after {delivered}");
        assert_eq!(current_funding_txo(&b, CHANNEL_ID), expected, "after {delivered}");
        assert_eq!(
            a.entries[0].channel.holder_commitment_number,
            INITIAL_COMMITMENT_NUMBER,
        );
        a.take_added_monitors();
        b.take_added_monitors();
        send_payment(&mut a, &mut b, 1_000_000);
    }
}

#[test]
fn only_persistent_stages_survive_a_disconnection() {
    let txo = test_outpoint(3, 0);
    let (mut a, mut b) = even_channel();
    a.teleport_channel(CHANNEL_ID, NODE_B, txo, 0, 0).unwrap();
    a.peer_disconnected(NODE_B);
    assert!(a.entries[0].channel.pending_teleport.is_none());
    assert_eq!(a.entries[0].channel.quiescence, Quiescence::Active);

    let (mut c, mut d) = even_channel();
    start_teleport(&mut c, &mut d, CHANNEL_ID, txo);
    c.peer_disconnected(NODE_B);
    d.peer_disconnected(NODE_A);
    assert!(c.entries[0].channel.pending_teleport.is_none());
    assert!(d.entries[0].channel.pending_teleport.is_none());

    a = even_channel().0;
    start_teleport(&mut a, &mut b, CHANNEL_ID, txo);
    ack_teleport_into_gap(&mut a, &mut b, CHANNEL_ID);
    a.reload();
    b.reload();
    assert!(matches!(
        a.entries[0].channel.pending_teleport,
        Some(PendingTeleport::AwaitingRemoteCommitmentSigned { is_initiator: true, .. })
    ));
    assert!(matches!(
        b.entries[0].channel.pending_teleport,
        Some(PendingTeleport::AwaitingRemoteComplete { .. })
    ));
    assert_eq!(a.entries[0].channel.quiescence, Quiescence::Quiescent);
    assert_eq!(b.entries[0].channel.quiescence, Quiescence::Quiescent);
}

#[test]
fn htlc_updates_end_lingering() {
    let (mut a, mut b) = even_channel();
    let txo = test_outpoint(3, 0);
    complete_teleport_into_responder_lingering(&mut a, &mut b, CHANNEL_ID, txo);
    assert!(assert_responder_lingering_after_complete_ack(&b, CHANNEL_ID, txo));
    assert!(!assert_responder_lingering_after_complete_ack(&b, CHANNEL_ID, test_outpoint(1, 0)));
    assert!(!assert_responder_lingering_after_complete_ack(&a, CHANNEL_ID, txo));
    assert!(!assert_responder_lingering_after_complete_ack(&b, ChannelId { id: 8 }, txo));
    let update = add_htlc(1_000);
    b.handle_update(NODE_A, CHANNEL_ID, &update);
    assert!(b.entries[0].channel.pending_teleport.is_none());
}

#[test]
fn the_end_of_an_htlc_ends_lingering() {
    for claim in [true, false] {
        let (mut a, mut b) = even_channel();
        route_payment(&mut b, &mut a, 1, 1_000);
        let txo = test_outpoint(3, 0);
        complete_teleport_into_responder_lingering(&mut a, &mut b, CHANNEL_ID, txo);
        let update = if claim {
            Update::FulfillHtlc { htlc_id: 0 }
        } else {
            Update::FailHtlc { htlc_id: 0 }
        };
        b.handle_update(NODE_A, CHANNEL_ID, &update);
        assert!(b.entries[0].channel.pending_teleport.is_none());
        assert!(b.get_and_clear_pending_msg_events().is_empty());
    }
}

#[test]
fn a_revocation_ends_lingering() {
    let (mut a, mut b) = even_channel();
    let txo = test_outpoint(3, 0);
    complete_teleport_into_responder_lingering(&mut a, &mut b, CHANNEL_ID, txo);
    b.send_payment(CHANNEL_ID, NODE_A, hash_of(1), 1_000, CLTV_EXPIRY).unwrap();
    assert!(assert_responder_lingering_after_complete_ack(&b, CHANNEL_ID, txo));
    for event in b.get_and_clear_pending_msg_events() {
        deliver(NODE_B, &mut a, &event.msg);
    }
    let msgs = a.get_and_clear_pending_msg_events();
    assert!(matches!(msgs[0].msg, Message::SendRevokeAndACK(_)));
    deliver(NODE_A, &mut b, &msgs[0].msg);
    assert!(b.entries[0].channel.pending_teleport.is_none());
    // The signature that follows leads to no further acknowledgement.
    deliver(NODE_A, &mut b, &msgs[1].msg);
    let msgs = b.get_and_clear_pending_msg_events();
    assert_eq!(msgs.len(), 1);
    assert!(matches!(msgs[0].msg, Message::SendRevokeAndACK(_)));
    deliver(NODE_B, &mut a, &msgs[0].msg);
    expect_payment_claimable(&mut a, 1, 1_000);
}

#[test]
fn lingering_responder_acknowledges_before_it_repeats_an_update() {
    let (mut a, mut b) = even_channel();
    send_payment(&mut a, &mut b, 1_000);
    let txo = test_outpoint(3, 0);
    start_teleport(&mut a, &mut b, CHANNEL_ID, txo);
    b.get_and_clear_pending_events();
    ack_teleport(&mut a, &mut b, CHANNEL_ID);
    a.complete_teleport(CHANNEL_ID, NODE_B).unwrap();
    for event in a.get_and_clear_pending_msg_events() {
        deliver(NODE_A, &mut b, &event.msg);
    }
    // The acknowledgement and a payment behind it are lost.
    assert_eq!(b.get_and_clear_pending_msg_events().len(), 1);
    b.send_payment(CHANNEL_ID, NODE_A, hash_of(1), 1_000, CLTV_EXPIRY).unwrap();
    assert_eq!(b.get_and_clear_pending_msg_events().len(), 1);
    a.peer_disconnected(NODE_B);
    b.peer_disconnected(NODE_A);

    connect(&mut a, &mut b);
    let from_a = a.get_and_clear_pending_msg_events();
    let from_b = b.get_and_clear_pending_msg_events();
    deliver(NODE_B, &mut a, &from_b[0].msg);
    deliver(NODE_A, &mut b, &from_a[0].msg);
    let repeated = b.get_and_clear_pending_msg_events();
    assert!(matches!(repeated[0].msg, Message::SendTeleportCompleteAck(_)));
    assert!(matches!(repeated[1].msg, Message::UpdateHTLCs(_)));
    for event in &repeated {
        deliver(NODE_B, &mut a, &event.msg);
    }
    exchange(&mut a, &mut b);
    assert_eq!(current_funding_txo(&a, CHANNEL_ID), txo);
    expect_payment_claimable(&mut a, 1, 1_000);
}

#[test]
fn a_claim_is_reported_once_whether_sent_or_held() {
    let (mut a, mut b) = even_channel();
    route_payment(&mut a, &mut b, 1, 1_000);
    route_payment(&mut a, &mut b, 2, 2_000);
    b.claim_funds(CHANNEL_ID, NODE_A, hash_of(1)).unwrap();
    assert_eq!(
        b.take_added_monitors(),
        vec![MonitorUpdate::PaymentPreimage { payment_hash: hash_of(1), with_commitment: true }],
    );
    expect_payment_claimed(&mut b, 1, 1_000);
    assert_eq!(b.get_and_clear_pending_msg_events().len(), 1);
    // The first is in flight.
    b.claim_funds(CHANNEL_ID, NODE_A, hash_of(2)).unwrap();
    assert_eq!(
        b.take_added_monitors(),
        vec![MonitorUpdate::PaymentPreimage { payment_hash: hash_of(2), with_commitment: false }],
    );
    expect_payment_claimed(&mut b, 2, 2_000);
    assert!(b.get_and_clear_pending_msg_events().is_empty());
    assert_eq!(b.entries[0].monitor.preimages, vec![hash_of(1), hash_of(2)]);
    b.claim_funds(CHANNEL_ID, NODE_A, hash_of(2)).unwrap_err();
    assert!(b.take_added_monitors().is_empty());
}

#[test]
fn peers_are_known_by_what_they_can_do() {
    let mut a = Node::new(NODE_A, FEATURES, FEERATE);
    let unable = InitFeatures { static_remote_key: false, quiescence: true };
    assert!(a.peer_connected(NODE_B, &Init { features: unable }, true).is_err());
    assert!(a.peers.is_empty());
    let init = Init { features: InitFeatures { static_remote_key: true, quiescence: false } };
    a.peer_connected(NODE_B, &init, true).unwrap();
    a.peer_connected(NodeId { id: 3 }, &Init { features: FEATURES }, false).unwrap();
    let third = Peer { node_id: NodeId { id: 3 }, features: FEATURES, is_inbound: false };
    let second = Peer { node_id: NODE_B, features: init.features, is_inbound: true };
    assert_eq!(a.peers, vec![second, third]);
    // A new connection replaces the one before.
    a.peer_connected(NODE_B, &Init { features: FEATURES }, false).unwrap();
    let second = Peer { node_id: NODE_B, features: FEATURES, is_inbound: false };
    assert_eq!(a.peers, vec![third, second]);
    a.peer_disconnected(NodeId { id: 3 });
    assert_eq!(a.peers, vec![second]);
    a.reload();
    assert!(a.peers.is_empty());
    assert_eq!(a.init_features(), FEATURES);
}

#[test]
fn closed_channels_are_no_longer_listed() {
    let (mut a, mut b) = even_channel();
    let listed = a.list_channels();
    assert_eq!(listed.len(), 1);
    assert_eq!(listed[0].channel_id, CHANNEL_ID);
    assert_eq!(listed[0].counterparty_node_id, NODE_B);
    assert_eq!(listed[0].funding_txo, test_outpoint(1, 0));
    assert_eq!(listed[0].channel_value_satoshis, 1_000_000);
    assert_eq!(listed[0].channel_type, ChannelType::Stock);
    let closed = |reason, counterparty_node_id| Event::ChannelClosed {
        channel_id: CHANNEL_ID,
        reason,
        counterparty_node_id,
        channel_capacity_sats: 1_000_000,
    };

    let message = "Closed by hand".to_owned();
    a.force_close_broadcasting_latest_txn(CHANNEL_ID, NODE_B, message.clone()).unwrap();
    let reason = ClosureReason::HolderForceClosed {
        broadcasted_latest_txn: Some(true),
        message: message.clone(),
    };
    assert_eq!(a.get_and_clear_pending_events(), vec![closed(reason, NODE_B)]);
    assert_eq!(errors(&mut a), vec![ErrorAction::SendErrorMessage]);
    assert!(a.list_channels().is_empty());
    let err = a.force_close_broadcasting_latest_txn(CHANNEL_ID, NODE_B, message).unwrap_err();
    assert!(matches!(err, APIError::ChannelUnavailable));

    b.commitment_confirmed(CHANNEL_ID, NODE_A).unwrap();
    let reason = ClosureReason::CommitmentTxConfirmed;
    assert_eq!(b.get_and_clear_pending_events(), vec![closed(reason, NODE_A)]);
    assert_eq!(b.take_added_monitors(), vec![MonitorUpdate::ChannelForceClosed]);
    assert_eq!(errors(&mut b), vec![ErrorAction::SendErrorMessage]);
    assert!(b.list_channels().is_empty());
    let err = b.commitment_confirmed(CHANNEL_ID, NODE_A).unwrap_err();
    assert!(matches!(err, APIError::ChannelUnavailable));
}

#[test]
fn a_held_signature_closes_the_gap() {
    let (mut a, mut b) = even_channel();
    let txo = test_outpoint(3, 0);
    start_teleport(&mut a, &mut b, CHANNEL_ID, txo);
    let (held, updates): (CommitmentSigned, Vec<MonitorUpdate>) =
        ack_teleport_into_gap(&mut a, &mut b, CHANNEL_ID);
    assert_eq!(updates, vec![MonitorUpdate::RenegotiatedFunding { funding_txo: txo }]);
    assert!(a.take_added_monitors().is_empty());
    a.handle_commitment_signed(NODE_B, &held);
    assert_eq!(
        a.take_added_monitors(),
        vec![MonitorUpdate::RenegotiatedFunding { funding_txo: txo }],
    );
    assert!(a.get_and_clear_pending_msg_events().is_empty());
    // Nothing has moved yet.
    assert_eq!(current_funding_txo(&a, CHANNEL_ID), test_outpoint(1, 0));
    assert_eq!(current_monitor_funding_txo(&a, CHANNEL_ID), test_outpoint(1, 0));
    assert!(monitor_watches_funding_txo(&a, CHANNEL_ID, txo));
    a.complete_teleport(CHANNEL_ID, NODE_B).unwrap();
    exchange(&mut a, &mut b);
    assert_eq!(current_funding_txo(&a, CHANNEL_ID), txo);
    assert_eq!(current_monitor_funding_txo(&a, CHANNEL_ID), txo);
    assert_eq!(current_monitor_funding_txo(&b, CHANNEL_ID), txo);
}

#[test]
fn a_channel_can_teleport_twice() {
    let (mut a, mut b) = even_channel();
    complete_teleport_into_responder_lingering(&mut a, &mut b, CHANNEL_ID, test_outpoint(3, 0));
    // The second proposal ends the lingering of the first teleport.
    complete_teleport_into_responder_lingering(&mut a, &mut b, CHANNEL_ID, test_outpoint(4, 1));
    assert_eq!(current_funding_txo(&a, CHANNEL_ID), test_outpoint(4, 1));
    assert_eq!(current_funding_txo(&b, CHANNEL_ID), test_outpoint(4, 1));
    assert!(monitor_watches_funding_txo(&a, CHANNEL_ID, test_outpoint(1, 0)));
    assert!(monitor_watches_funding_txo(&a, CHANNEL_ID, test_outpoint(3, 0)));
    assert!(!monitor_watches_funding_txo(&a, CHANNEL_ID, test_outpoint(3, 1)));
    send_payment(&mut b, &mut a, 1_000_000);
}

#[test]
fn silent_peer_is_disconnected() {
    let (mut a, mut b) = even_channel();
    start_teleport(&mut a, &mut b, CHANNEL_ID, test_outpoint(3, 0));
    for _ in 1..DISCONNECT_PEER_AWAITING_RESPONSE_TICKS {
        a.timer_tick_occurred();
        assert!(a.get_and_clear_pending_msg_events().is_empty());
    }
    a.timer_tick_occurred();
    assert_eq!(errors(&mut a), vec![ErrorAction::DisconnectPeerWithWarning]);
    assert!(!a.entries[0].is_closed);
}

#[test]
fn queued_messages_are_lost_with_their_peer_only() {
    let (mut a, _) = even_channel();
    let mut setup = setup(NodeId { id: 3 }, true, 1_000_000, 1_000_000_000);
    setup.channel_id = ChannelId { id: 9 };
    let terms = ChannelTerms::negotiated(&STOCK, &STOCK);
    a.add_channel(setup, terms, funding_output_script(&[2; 33], &[4; 33]));
    a.teleport_channel(CHANNEL_ID, NODE_B, test_outpoint(3, 0), 0, 0).unwrap();
    a.teleport_channel(ChannelId { id: 9 }, NodeId { id: 3 }, test_outpoint(4, 0), 0, 0).unwrap();
    a.peer_disconnected(NODE_B);
    let msgs = a.get_and_clear_pending_msg_events();
    assert_eq!(msgs.len(), 1);
    assert_eq!(msgs[0].node_id, NodeId { id: 3 });
    assert!(a.entries[0].channel.is_disconnected);
    assert!(!a.entries[1].channel.is_disconnected);
    assert!(a.entries[1].channel.pending_teleport.is_some());
}

#[test]
fn held_removals_leave_the_new_scope_split() {
    let (mut a, mut b) = even_channel();
    a.teleport_channel(CHANNEL_ID, NODE_B, test_outpoint(3, 0), 20_000, 30_000).unwrap();
    for event in a.get_and_clear_pending_msg_events() {
        deliver(NODE_A, &mut b, &event.msg);
    }
    for event in b.get_and_clear_pending_msg_events() {
        deliver(NODE_B, &mut a, &event.msg);
    }
    for event in a.get_and_clear_pending_msg_events() {
        deliver(NODE_A, &mut b, &event.msg);
    }
    ack_teleport(&mut a, &mut b, CHANNEL_ID);
    a.complete_teleport(CHANNEL_ID, NODE_B).unwrap();
    exchange(&mut a, &mut b);
    assert_eq!(a.entries[0].channel.funding.value_sat, 950_000);
    assert_eq!(b.entries[0].channel.funding.value_sat, 950_000);
    assert_eq!(value_to_self_msat(&a, CHANNEL_ID), 470_000_000);
    assert_eq!(value_to_self_msat(&b, CHANNEL_ID), 480_000_000);
}

#[test]
fn removals_are_taken_once_wherever_the_connection_breaks() {
    let txo = test_outpoint(3, 0);
    for delivered in 0..12 {
        let (mut a, mut b) = even_channel();
        route_payment(&mut a, &mut b, 1, 1_000_000);
        let mut left = delivered;
        for _ in 0..2 {
            // Proposed again if the first attempt came to nothing.
            if current_funding_txo(&a, CHANNEL_ID) != txo
                && a.entries[0].channel.pending_teleport.is_none()
            {
                a.teleport_channel(CHANNEL_ID, NODE_B, txo, 20_000, 30_000).unwrap();
            }
            for _ in 0..8 {
                for event in a.get_and_clear_pending_msg_events() {
                    if left > 0 {
                        deliver(NODE_A, &mut b, &event.msg);
                        left -= 1;
                    }
                }
                let is_asked = |e: &Event| matches!(e, Event::ChannelTeleport { .. });
                if b.get_and_clear_pending_events().iter().any(is_asked) {
                    b.ack_teleport(CHANNEL_ID, NODE_A).unwrap();
                }
                for event in b.get_and_clear_pending_msg_events() {
                    if left > 0 {
                        deliver(NODE_B, &mut a, &event.msg);
                        left -= 1;
                    }
                }
                let _ = a.complete_teleport(CHANNEL_ID, NODE_B);
            }
            a.peer_disconnected(NODE_B);
            b.peer_disconnected(NODE_A);
            connect(&mut a, &mut b);
            exchange(&mut a, &mut b);
            let _ = a.complete_teleport(CHANNEL_ID, NODE_B);
            exchange(&mut a, &mut b);
            left = 1_000;
        }
        assert_eq!(current_funding_txo(&a, CHANNEL_ID), txo, "after {delivered}");
        assert_eq!(current_funding_txo(&b, CHANNEL_ID), txo, "after {delivered}");
        assert_eq!(value_to_self_msat(&a, CHANNEL_ID), 470_000_000, "after {delivered}");
        assert_eq!(value_to_self_msat(&b, CHANNEL_ID), 480_000_000, "after {delivered}");
        assert_eq!(a.entries[0].channel.funding.value_sat, 950_000);
        assert_eq!(b.entries[0].channel.funding.value_sat, 950_000);
    }
}

#[test]
fn held_payment_fails_if_the_new_scope_cannot_carry_it() {
    let (mut a, mut b) = even_channel();
    a.teleport_channel(CHANNEL_ID, NODE_B, test_outpoint(3, 0), 400_000, 0).unwrap();
    for event in a.get_and_clear_pending_msg_events() {
        deliver(NODE_A, &mut b, &event.msg);
    }
    // The responder is paused, and does not know of the removal yet.
    b.send_payment(CHANNEL_ID, NODE_A, hash_of(1), 200_000_000, CLTV_EXPIRY).unwrap();
    b.send_payment(CHANNEL_ID, NODE_A, hash_of(2), 50_000_000, CLTV_EXPIRY).unwrap();
    for event in b.get_and_clear_pending_msg_events() {
        deliver(NODE_B, &mut a, &event.msg);
    }
    for event in a.get_and_clear_pending_msg_events() {
        deliver(NODE_A, &mut b, &event.msg);
    }
    b.get_and_clear_pending_events();
    ack_teleport(&mut a, &mut b, CHANNEL_ID);
    a.complete_teleport(CHANNEL_ID, NODE_B).unwrap();
    exchange(&mut a, &mut b);
    assert_eq!(value_to_self_msat(&b, CHANNEL_ID), 100_000_000);

    b.timer_tick_occurred();
    assert_eq!(
        b.get_and_clear_pending_events(),
        vec![Event::PaymentFailed {
            channel_id: CHANNEL_ID,
            payment_hash: hash_of(1),
            amount_msat: 200_000_000,
        }],
    );
    exchange(&mut a, &mut b);
    expect_payment_claimable(&mut a, 2, 50_000_000);
}

#[test]
fn a_grant_of_quiescence_must_not_cross_an_update() {
    let (mut a, _) = even_channel();
    a.teleport_channel(CHANNEL_ID, NODE_B, test_outpoint(3, 0), 0, 0).unwrap();
    a.get_and_clear_pending_msg_events();
    let update = add_htlc(1_000);
    a.handle_update(NODE_B, CHANNEL_ID, &update);
    a.handle_stfu(NODE_B, &Stfu { channel_id: CHANNEL_ID, initiator: false });
    assert_eq!(errors(&mut a), vec![ErrorAction::DisconnectPeerWithWarning]);
}

fn htlc(htlc_id: u64, amount_msat: u64, offered: bool) -> Htlc {
    Htlc {
        htlc_id,
        payment_hash: hash_of(htlc_id),
        amount_msat,
        cltv_expiry: CLTV_EXPIRY,
        offered,
    }
}

#[test]
fn commitment_outputs_are_trimmed_and_rounded() {
    // 10_000 satoshis, 7_000.5 of them on this side.
    let htlcs = vec![htlc(0, 354_999, true), htlc(1, 353_999, true), htlc(0, 1_000_000, false)];
    let outputs = commitment_outputs(10_000, 7_000_500, &htlcs, 354).unwrap();
    assert_eq!(outputs.to_holder_sat, Some(6_291));
    assert_eq!(outputs.to_counterparty_sat, Some(1_999));
    assert_eq!(outputs.htlcs.len(), 2);
    assert_eq!(outputs.count(), 5);
    // 10_000 - 6_291 - 1_999 - 354 - 1_000 is 356, more than the anchor takes.
    assert_eq!(outputs.anchor_sat, 240);

    // A balance below the limit goes to the anchor.
    let outputs = commitment_outputs(10_000, 9_900_000, &vec![], 354).unwrap();
    assert_eq!(outputs.to_holder_sat, Some(9_900));
    assert_eq!(outputs.to_counterparty_sat, None);
    assert_eq!(outputs.anchor_sat, 100);
    assert_eq!(outputs.count(), 2);

    // HTLCs must be covered.
    assert!(commitment_outputs(10_000, 354_998, &vec![htlc(0, 354_999, true)], 354).is_none());
    assert!(commitment_outputs(10_000, 10_000_000, &vec![htlc(0, 1, false)], 354).is_none());
}

#[test]
fn both_sides_see_the_same_anchor() {
    let (mut a, mut b) = even_channel();
    route_payment(&mut a, &mut b, 1, 100_500);
    route_payment(&mut b, &mut a, 2, 20_250);
    let from_a = a.entries[0].local_commitment().unwrap();
    let from_b = b.entries[0].local_commitment().unwrap();
    assert_eq!(from_a.anchor_sat, from_b.anchor_sat);
    assert_eq!(from_a.to_holder_sat, from_b.to_counterparty_sat);
    assert_eq!(from_a.to_counterparty_sat, from_b.to_holder_sat);
    // 100.5 and 20.25 satoshis are trimmed, and each balance is rounded down.
    assert_eq!(from_a.anchor_sat, 122);
}

#[test]
fn local_commitment_follows_the_signatures() {
    let (mut a, mut b) = even_channel();
    a.send_payment(CHANNEL_ID, NODE_B, hash_of(1), 1_000_000, CLTV_EXPIRY).unwrap();
    assert_eq!(a.entries[0].local_commitment().unwrap().htlcs.len(), 0);
    for event in a.get_and_clear_pending_msg_events() {
        deliver(NODE_A, &mut b, &event.msg);
    }
    // The receiver holds the signature for it already.
    assert_eq!(b.entries[0].local_commitment().unwrap().htlcs.len(), 1);
    assert_eq!(a.entries[0].local_commitment().unwrap().htlcs.len(), 0);
    exchange(&mut a, &mut b);
    assert_eq!(a.entries[0].local_commitment().unwrap().htlcs.len(), 1);
}

#[test]
fn commitment_transaction_follows_the_channel() {
    const KEYS: CommitmentKeys = CommitmentKeys {
        revocation_key: [2; 33],
        broadcaster_htlc_key: [3; 33],
        countersignatory_htlc_key: [4; 33],
        broadcaster_delayed_key: [5; 33],
        to_self_delay: 144,
        countersignatory_payment_key: [6; 33],
        obscure_factor: 0x0000_0100_0001,
    };
    let (mut a, mut b) = even_channel();
    let tx = a.entries[0].local_commitment_transaction(&KEYS).unwrap();
    // The first commitment has the number zero, which hides as the factor.
    assert_eq!(tx.sequence, 0x8000_0001);
    assert_eq!(tx.lock_time, 0x2000_0001);
    assert_eq!(tx.funding_txo, test_outpoint(1, 0));
    assert_eq!(tx.outputs.len(), 3);

    route_payment(&mut a, &mut b, 1, 1_000_000);
    route_payment(&mut b, &mut a, 2, 2_000_000);
    complete_teleport_into_responder_lingering(&mut a, &mut b, CHANNEL_ID, test_outpoint(3, 1));
    let tx = a.entries[0].local_commitment_transaction(&KEYS).unwrap();
    assert_eq!(tx.sequence, 0x8000_0001);
    assert_eq!(tx.lock_time, 0x2000_0003);
    assert_eq!(tx.funding_txo, test_outpoint(3, 1));
    let values: Vec<u64> = tx.outputs.iter().map(|out| out.value_sat).collect();
    assert_eq!(values, vec![499_000, 498_000, 1_000, 2_000, 0]);
    for (k, htlc) in a.entries[0].book.htlcs.iter().enumerate() {
        assert_eq!(
            tx.outputs[2 + k].script_pubkey,
            witness_script_pubkey(&KEYS.htlc_script(htlc, None)),
        );
    }
    assert_eq!(tx.outputs[0].script_pubkey, witness_script_pubkey(&KEYS.to_holder_script()));
    assert_eq!(tx.outputs[1].script_pubkey, KEYS.to_counterparty_script_pubkey());
}

#[test]
fn batches_fit_and_shrink() {
    assert_eq!(max_htlcs_per_batch(40_000, 1_042, 660), 59);
    assert_eq!(max_htlcs_per_batch(1_000, 1_000, 1), 0);
    assert_eq!(max_htlcs_per_batch(1_000, 400, 300), 2);

    let mut claim = ClaimProgress::new(5, 3);
    let batch = claim.next_batch().unwrap();
    assert_eq!((batch.from, batch.size, batch.keeps_claim_id), (0, 3, true));
    claim.answered(true);
    let batch = claim.next_batch().unwrap();
    assert_eq!((batch.from, batch.size, batch.keeps_claim_id), (3, 2, false));
    claim.answered(false);
    assert!(claim.next_batch().is_none());
    assert!(claim.has_given_up() && !claim.is_done());

    let claim = ClaimProgress::new(0, 3);
    assert!(claim.is_done() && !claim.has_given_up());
    assert!(ClaimProgress::new(3, 0).has_given_up());
}
