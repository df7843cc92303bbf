use teleport::channel::{
    APIError, ChannelSetup, FundingScope, DISCONNECT_PEER_AWAITING_RESPONSE_TICKS,
    INITIAL_COMMITMENT_NUMBER,
};
use teleport::events::{ClosureReason, Event};
use teleport::flows::{
    ack_teleport, ack_teleport_into_gap, assert_responder_lingering_after_complete_ack,
    complete_teleport_into_responder_lingering, current_funding_txo, current_monitor_funding_txo,
    funding_watch_script, holder_commitment_number, monitor_watches_funding_txo, start_teleport,
    teleport_reconnect_capturing_responder_cs, value_to_self_msat,
};
use teleport::funding::{ChannelTerms, HandshakeConfig};
use teleport::monitor::MonitorUpdate;
use teleport::msgs::{
    ChannelId, CommitmentUpdate, Init, InitFeatures, Message, NodeId, PaymentHash, TeleportAbort,
    TeleportAck, TeleportComplete, TeleportCompleteAck, TeleportInit, Update,
};
use teleport::node::{Node, Peer};
use teleport::outpoint::test_outpoint;
use teleport::script::funding_output_script;

const CHANNEL_ID: ChannelId = ChannelId { id: 7 };
const NODE_A: NodeId = NodeId { id: 1 };
const NODE_B: NodeId = NodeId { id: 2 };
const FEERATE: u32 = 253;
const FEATURES: InitFeatures = InitFeatures { static_remote_key: true, quiescence: true };
const CLTV_EXPIRY: u32 = 700_000;

fn hash_of(payment: u64) -> PaymentHash {
    let mut bytes = [0; 32];
    bytes[..8].copy_from_slice(&payment.to_le_bytes());
    PaymentHash { bytes }
}

/// Connects two nodes. The second reaches out to the first.
fn connect(a: &mut Node, b: &mut Node) {
    let init_a = Init { features: a.init_features() };
    let init_b = Init { features: b.init_features() };
    a.peer_connected(b.node_id, &init_b, true).unwrap();
    b.peer_connected(a.node_id, &init_a, false).unwrap();
}

const STOCK: HandshakeConfig = HandshakeConfig {
    negotiate_anchor_zero_fee_commitments: false,
    negotiate_ark_channel: false,
    ark_htlc_success_csv_delta: None,
};

fn setup(
    counterparty: NodeId, is_outbound: bool, value_sat: u64, value_to_self_msat: u64,
) -> ChannelSetup {
    let reserve_sat = core::cmp::max(1000, value_sat / 100);
    ChannelSetup {
        channel_id: CHANNEL_ID,
        user_channel_id: 42,
        counterparty,
        is_outbound,
        funding: FundingScope { funding_txo: test_outpoint(1, 0), value_sat, value_to_self_msat },
        holder_reserve_sat: reserve_sat,
        counterparty_reserve_sat: reserve_sat,
        dust_limit_sat: 354,
        feerate_per_kw: FEERATE,
    }
}

/// Two nodes with a channel between them that the first funded.
fn create_chan_between_nodes_with_value(
    value_sat: u64, push_msat: u64, config: HandshakeConfig,
) -> (Node, Node) {
    let terms = ChannelTerms::negotiated(&config, &config);
    let script = funding_output_script(&[2; 33], &[3; 33]);
    let mut a = Node::new(NODE_A, FEATURES, FEERATE);
    let mut b = Node::new(NODE_B, FEATURES, FEERATE);
    connect(&mut a, &mut b);
    a.add_channel(
        setup(NODE_B, true, value_sat, value_sat * 1000 - push_msat),
        terms,
        script.clone(),
    );
    b.add_channel(setup(NODE_A, false, value_sat, push_msat), terms, script);
    (a, b)
}

fn deliver(from: NodeId, to: &mut Node, msg: &Message) {
    match msg {
        Message::SendStfu(m) => to.handle_stfu(from, m),
        Message::SendTeleportInit(m) => to.handle_teleport_init(from, m),
        Message::SendTeleportAck(m) => to.handle_teleport_ack(from, m),
        Message::SendTeleportComplete(m) => to.handle_teleport_complete(from, m),
        Message::SendTeleportCompleteAck(m) => to.handle_teleport_complete_ack(from, m),
        Message::SendTeleportAbort(m) => to.handle_teleport_abort(from, m),
        Message::UpdateHTLCs(m) => {
            for update in &m.updates {
                to.handle_update(from, CHANNEL_ID, update);
            }
            for cs in &m.commitment_signed {
                to.handle_commitment_signed(from, cs);
            }
        },
        Message::SendRevokeAndACK(m) => to.handle_revoke_and_ack(from, m),
        Message::SendChannelReestablish(m) => to.handle_channel_reestablish(from, m),
        Message::SendChannelReady(_) | Message::SendAnnouncementSignatures(_) => {},
        Message::HandleError(action) => panic!("Unexpected error {action:?}"),
    }
}

/// Exchanges messages until neither node has one left.
fn exchange(a: &mut Node, b: &mut Node) {
    loop {
        let from_a = a.get_and_clear_pending_msg_events();
        for event in &from_a {
            assert_eq!(event.node_id, b.node_id);
            deliver(a.node_id, b, &event.msg);
        }
        let from_b = b.get_and_clear_pending_msg_events();
        for event in &from_b {
            assert_eq!(event.node_id, a.node_id);
            deliver(b.node_id, a, &event.msg);
        }
        if from_a.is_empty() && from_b.is_empty() {
            return;
        }
    }
}

fn expect_payment_claimable(node: &mut Node, payment_hash: u64, amount_msat: u64) {
    let payment_hash = hash_of(payment_hash);
    assert_eq!(
        node.get_and_clear_pending_events(),
        vec![Event::PaymentClaimable { channel_id: CHANNEL_ID, payment_hash, amount_msat }],
    );
}

fn expect_payment_claimed(node: &mut Node, payment_hash: u64, amount_msat: u64) {
    let payment_hash = hash_of(payment_hash);
    assert_eq!(
        node.get_and_clear_pending_events(),
        vec![Event::PaymentClaimed { channel_id: CHANNEL_ID, payment_hash, amount_msat }],
    );
}

/// Sends a payment up to the point where it can be claimed.
fn route_payment(from: &mut Node, to: &mut Node, payment_hash: u64, amount_msat: u64) {
    from
        .send_payment(CHANNEL_ID, to.node_id, hash_of(payment_hash), amount_msat, CLTV_EXPIRY)
        .unwrap();
    exchange(from, to);
    expect_payment_claimable(to, payment_hash, amount_msat);
    from.take_added_monitors();
    to.take_added_monitors();
}

fn claim_payment(from: &mut Node, to: &mut Node, payment_hash: u64, amount_msat: u64) {
    to.claim_funds(CHANNEL_ID, from.node_id, hash_of(payment_hash)).unwrap();
    assert_eq!(to.take_added_monitors().len(), 1);
    expect_payment_claimed(to, payment_hash, amount_msat);
    exchange(from, to);
    from.take_added_monitors();
    to.take_added_monitors();
}

/// Sends a payment that is claimed at once.
fn send_payment(from: &mut Node, to: &mut Node, amount_msat: u64) {
    let before_from = value_to_self_msat(from, CHANNEL_ID);
    let before_to = value_to_self_msat(to, CHANNEL_ID);
    route_payment(from, to, 99, amount_msat);
    claim_payment(from, to, 99, amount_msat);
    assert_eq!(value_to_self_msat(from, CHANNEL_ID), before_from - amount_msat);
    assert_eq!(value_to_self_msat(to, CHANNEL_ID), before_to + amount_msat);
}

fn create_announced_chan_between_nodes() -> (Node, Node) {
    create_chan_between_nodes_with_value(100_000, 10_001, STOCK)
}

fn check_added_monitors(node: &mut Node, count: usize) {
    let updates = node.take_added_monitors();
    assert_eq!(updates.len(), count, "{updates:?}");
}

fn assert_no_msgs(node: &mut Node) {
    let msgs = node.get_and_clear_pending_msg_events();
    assert!(msgs.is_empty(), "{msgs:?}");
}

/// Takes the only queued message, which must be for the peer.
fn get_event_msg(node: &mut Node, peer: NodeId) -> Message {
    let mut msgs = node.get_and_clear_pending_msg_events();
    assert_eq!(msgs.len(), 1, "{msgs:?}");
    let event = msgs.remove(0);
    assert_eq!(event.node_id, peer);
    event.msg
}

fn get_htlc_update_msgs(node: &mut Node, peer: NodeId) -> CommitmentUpdate {
    match get_event_msg(node, peer) {
        Message::UpdateHTLCs(updates) => updates,
        msg => panic!("Unexpected message {msg:?}"),
    }
}

/// Takes the only pending event, which must be a proposed teleport.
fn get_teleport_event(node: &mut Node) -> Event {
    let mut events = node.get_and_clear_pending_events();
    assert_eq!(events.len(), 1, "{events:?}");
    assert!(matches!(events[0], Event::ChannelTeleport { .. }));
    events.remove(0)
}

fn quiesce(initiator: &mut Node, responder: &mut Node) {
    match get_event_msg(initiator, responder.node_id) {
        Message::SendStfu(stfu) => responder.handle_stfu(initiator.node_id, &stfu),
        msg => panic!("Unexpected message {msg:?}"),
    }
    match get_event_msg(responder, initiator.node_id) {
        Message::SendStfu(stfu) => initiator.handle_stfu(responder.node_id, &stfu),
        msg => panic!("Unexpected message {msg:?}"),
    }
}

fn get_teleport_init(initiator: &mut Node, peer: NodeId) -> TeleportInit {
    match get_event_msg(initiator, peer) {
        Message::SendTeleportInit(init) => init,
        msg => panic!("Unexpected message {msg:?}"),
    }
}

/// Accepts a teleport. Each side has one monitor update from that.
fn accept_teleport(initiator: &mut Node, responder: &mut Node, channel_id: ChannelId) {
    let updates = ack_teleport(initiator, responder, channel_id);
    assert_eq!(updates.initiator.len(), 1, "{updates:?}");
    assert_eq!(updates.responder.len(), 1, "{updates:?}");
    assert!(matches!(updates.initiator[0], MonitorUpdate::RenegotiatedFunding { .. }));
    assert!(matches!(updates.responder[0], MonitorUpdate::RenegotiatedFunding { .. }));
}

/// Completes a teleport up to the promotion of the responder.
fn complete_to_responder(initiator: &mut Node, responder: &mut Node) {
    initiator.complete_teleport(CHANNEL_ID, responder.node_id).unwrap();
    match get_event_msg(initiator, responder.node_id) {
        Message::SendTeleportComplete(complete) => {
            responder.handle_teleport_complete(initiator.node_id, &complete)
        },
        msg => panic!("Unexpected message {msg:?}"),
    }
    check_added_monitors(responder, 1);
}

/// Hands the responder's acknowledgement to the initiator.
fn acknowledge(initiator: &mut Node, responder: &mut Node) {
    match get_event_msg(responder, initiator.node_id) {
        Message::SendTeleportCompleteAck(ack) => {
            initiator.handle_teleport_complete_ack(responder.node_id, &ack)
        },
        msg => panic!("Unexpected message {msg:?}"),
    }
}

fn disconnect(a: &mut Node, b: &mut Node) {
    a.peer_disconnected(b.node_id);
    b.peer_disconnected(a.node_id);
}

/// Reconnects two nodes whose channel has seen no update: each repeats its opening messages and
/// nothing else.
fn reconnect_nodes(a: &mut Node, b: &mut Node) {
    connect(a, b);
    let from_a = get_event_msg(a, b.node_id);
    let from_b = get_event_msg(b, a.node_id);
    deliver(b.node_id, a, &from_b);
    deliver(a.node_id, b, &from_a);
    for node in [a, b] {
        let msgs = node.get_and_clear_pending_msg_events();
        assert_eq!(msgs.len(), 2, "{msgs:?}");
        assert!(matches!(msgs[0].msg, Message::SendChannelReady(_)));
        assert!(matches!(msgs[1].msg, Message::SendAnnouncementSignatures(_)));
    }
}

fn tick_past_timeout(a: &mut Node, b: &mut Node) {
    for _ in 0..=DISCONNECT_PEER_AWAITING_RESPONSE_TICKS {
        a.timer_tick_occurred();
        b.timer_tick_occurred();
    }
    assert_no_msgs(a);
    assert_no_msgs(b);
}

#[test]
fn test_channel_teleport_happy_path_releases_holding_cell() {
    let (mut node_0, mut node_1) = create_announced_chan_between_nodes();
    let initiator = &mut node_0;
    let responder = &mut node_1;
    let responder_id = responder.node_id;
    let new_funding_txo = test_outpoint(3, 1);
    let original_funding_txo = current_funding_txo(initiator, CHANNEL_ID);
    let original_funding_script = funding_watch_script(initiator, CHANNEL_ID, original_funding_txo);
    assert_eq!(original_funding_script, funding_output_script(&[2; 33], &[3; 33]));

    let initiator_commitment_number_before = holder_commitment_number(initiator, CHANNEL_ID);
    let responder_commitment_number_before = holder_commitment_number(responder, CHANNEL_ID);
    assert_eq!(initiator_commitment_number_before, INITIAL_COMMITMENT_NUMBER);

    // No message carries a signing nonce: these patterns name every field.
    let channel_id = CHANNEL_ID;
    let TeleportInit {
        channel_id: _,
        new_funding_txo: _,
        responder_value_removal_sat: _,
        initiator_value_removal_sat: _,
    } = TeleportInit {
        channel_id,
        new_funding_txo,
        responder_value_removal_sat: 0,
        initiator_value_removal_sat: 0,
    };
    let TeleportAck { channel_id: _ } = TeleportAck { channel_id };
    let TeleportComplete { channel_id: _ } = TeleportComplete { channel_id };
    let TeleportCompleteAck { channel_id: _ } = TeleportCompleteAck { channel_id };
    let TeleportAbort { channel_id: _ } = TeleportAbort { channel_id };

    start_teleport(initiator, responder, CHANNEL_ID, new_funding_txo);

    match get_teleport_event(responder) {
        Event::ChannelTeleport {
            channel_id: ev_channel_id,
            user_channel_id: _,
            counterparty_node_id,
            new_funding_txo: ev_outpoint,
            responder_value_removal_sat,
            initiator_value_removal_sat,
        } => {
            assert_eq!(ev_channel_id, CHANNEL_ID);
            assert_eq!(counterparty_node_id, initiator.node_id);
            assert_eq!(ev_outpoint, new_funding_txo.into_bitcoin_outpoint());
            assert_eq!(responder_value_removal_sat, 0);
            assert_eq!(initiator_value_removal_sat, 0);
        },
        _ => panic!(),
    }

    accept_teleport(initiator, responder, CHANNEL_ID);
    assert_eq!(current_funding_txo(initiator, CHANNEL_ID), original_funding_txo);
    assert_eq!(current_funding_txo(responder, CHANNEL_ID), original_funding_txo);
    assert_eq!(current_monitor_funding_txo(initiator, CHANNEL_ID), original_funding_txo);
    assert_eq!(current_monitor_funding_txo(responder, CHANNEL_ID), original_funding_txo);
    assert!(monitor_watches_funding_txo(initiator, CHANNEL_ID, new_funding_txo));
    assert!(monitor_watches_funding_txo(responder, CHANNEL_ID, new_funding_txo));

    let payment_amount = 1_000_000;
    initiator
        .send_payment(CHANNEL_ID, responder_id, hash_of(5), payment_amount, CLTV_EXPIRY)
        .unwrap();
    check_added_monitors(initiator, 0);
    assert_no_msgs(initiator);

    complete_to_responder(initiator, responder);

    // The responder promotes first.
    assert_eq!(current_funding_txo(initiator, CHANNEL_ID), original_funding_txo);
    assert_eq!(current_funding_txo(responder, CHANNEL_ID), new_funding_txo);
    assert_eq!(current_monitor_funding_txo(initiator, CHANNEL_ID), original_funding_txo);
    assert_eq!(current_monitor_funding_txo(responder, CHANNEL_ID), new_funding_txo);
    assert_eq!(
        holder_commitment_number(responder, CHANNEL_ID),
        responder_commitment_number_before,
    );

    acknowledge(initiator, responder);
    check_added_monitors(initiator, 2);

    assert_eq!(current_funding_txo(initiator, CHANNEL_ID), new_funding_txo);
    assert_eq!(current_funding_txo(responder, CHANNEL_ID), new_funding_txo);
    assert_ne!(new_funding_txo, original_funding_txo);
    assert_eq!(
        holder_commitment_number(initiator, CHANNEL_ID),
        initiator_commitment_number_before,
    );

    let update_add = get_htlc_update_msgs(initiator, responder_id);
    check_added_monitors(initiator, 0);
    deliver(initiator.node_id, responder, &Message::UpdateHTLCs(update_add));
    exchange(initiator, responder);
    expect_payment_claimable(responder, 5, payment_amount);
}

#[test]
fn test_channel_teleport_cancel_exits_quiescence() {
    let (mut node_0, mut node_1) = create_announced_chan_between_nodes();
    let initiator = &mut node_0;
    let responder = &mut node_1;
    let original_funding_txo = current_funding_txo(initiator, CHANNEL_ID);

    start_teleport(initiator, responder, CHANNEL_ID, test_outpoint(4, 0));
    get_teleport_event(responder);

    responder.cancel_teleport(CHANNEL_ID, initiator.node_id).unwrap();
    match get_event_msg(responder, initiator.node_id) {
        Message::SendTeleportAbort(abort) => {
            initiator.handle_teleport_abort(responder.node_id, &abort)
        },
        msg => panic!("Unexpected message {msg:?}"),
    }

    assert_eq!(current_funding_txo(initiator, CHANNEL_ID), original_funding_txo);
    assert_eq!(current_funding_txo(responder, CHANNEL_ID), original_funding_txo);

    send_payment(initiator, responder, 1_000_000);
}

#[test]
fn test_channel_teleport_disconnect_before_ack_sent_allows_fresh_attempt_after_reconnect() {
    let (mut node_0, mut node_1) = create_announced_chan_between_nodes();
    let initiator = &mut node_0;
    let responder = &mut node_1;
    let original_funding_txo = current_funding_txo(initiator, CHANNEL_ID);
    let replacement_funding_txo = test_outpoint(7, 0);

    start_teleport(initiator, responder, CHANNEL_ID, test_outpoint(5, 0));
    get_teleport_event(responder);
    responder.ack_teleport(CHANNEL_ID, initiator.node_id).unwrap();

    disconnect(initiator, responder);
    reconnect_nodes(initiator, responder);

    start_teleport(initiator, responder, CHANNEL_ID, replacement_funding_txo);
    match get_teleport_event(responder) {
        Event::ChannelTeleport {
            channel_id: ev_channel_id,
            user_channel_id: _,
            counterparty_node_id,
            new_funding_txo: ev_outpoint,
            responder_value_removal_sat,
            initiator_value_removal_sat,
        } => {
            assert_eq!(ev_channel_id, CHANNEL_ID);
            assert_eq!(counterparty_node_id, initiator.node_id);
            assert_eq!(ev_outpoint, replacement_funding_txo.into_bitcoin_outpoint());
            assert_eq!(responder_value_removal_sat, 0);
            assert_eq!(initiator_value_removal_sat, 0);
        },
        _ => panic!(),
    }
    accept_teleport(initiator, responder, CHANNEL_ID);

    assert_eq!(current_funding_txo(initiator, CHANNEL_ID), original_funding_txo);
    assert_eq!(current_funding_txo(responder, CHANNEL_ID), original_funding_txo);
}

#[test]
fn test_channel_teleport_disconnect_after_ack_preserves_quiescence() {
    let (mut node_0, mut node_1) = create_announced_chan_between_nodes();
    let initiator = &mut node_0;
    let responder = &mut node_1;
    let responder_id = responder.node_id;
    let new_funding_txo = test_outpoint(6, 0);
    let original_funding_txo = current_funding_txo(initiator, CHANNEL_ID);

    let initiator_commitment_number_before = holder_commitment_number(initiator, CHANNEL_ID);
    let responder_commitment_number_before = holder_commitment_number(responder, CHANNEL_ID);

    start_teleport(initiator, responder, CHANNEL_ID, new_funding_txo);
    get_teleport_event(responder);
    accept_teleport(initiator, responder, CHANNEL_ID);
    assert_eq!(current_funding_txo(responder, CHANNEL_ID), original_funding_txo);
    assert_eq!(current_monitor_funding_txo(initiator, CHANNEL_ID), original_funding_txo);
    assert_eq!(current_monitor_funding_txo(responder, CHANNEL_ID), original_funding_txo);
    assert!(monitor_watches_funding_txo(initiator, CHANNEL_ID, new_funding_txo));
    assert!(monitor_watches_funding_txo(responder, CHANNEL_ID, new_funding_txo));

    disconnect(initiator, responder);

    // The initiator has the responder's signature already: the repetition changes nothing.
    let responder_cs = teleport_reconnect_capturing_responder_cs(initiator, responder)
        .expect("responder must repeat its signature");
    assert_eq!(responder_cs.funding_txid, Some(new_funding_txo.txid));
    assert_eq!(
        initiator.peers,
        vec![Peer { node_id: responder_id, features: FEATURES, is_inbound: true }],
    );
    assert_eq!(
        responder.peers,
        vec![Peer { node_id: initiator.node_id, features: FEATURES, is_inbound: false }],
    );
    initiator.handle_commitment_signed(responder_id, &responder_cs);
    check_added_monitors(initiator, 0);
    assert_no_msgs(initiator);

    tick_past_timeout(initiator, responder);

    initiator.send_payment(CHANNEL_ID, responder_id, hash_of(5), 1_000_000, CLTV_EXPIRY).unwrap();
    check_added_monitors(initiator, 0);
    assert_no_msgs(initiator);

    complete_to_responder(initiator, responder);
    assert_eq!(current_funding_txo(initiator, CHANNEL_ID), original_funding_txo);
    assert_eq!(current_funding_txo(responder, CHANNEL_ID), new_funding_txo);
    assert_eq!(current_monitor_funding_txo(initiator, CHANNEL_ID), original_funding_txo);
    assert_eq!(current_monitor_funding_txo(responder, CHANNEL_ID), new_funding_txo);
    acknowledge(initiator, responder);
    check_added_monitors(initiator, 2);

    assert_eq!(current_funding_txo(initiator, CHANNEL_ID), new_funding_txo);
    assert_eq!(current_funding_txo(responder, CHANNEL_ID), new_funding_txo);
    assert_eq!(current_monitor_funding_txo(initiator, CHANNEL_ID), new_funding_txo);
    assert_eq!(current_monitor_funding_txo(responder, CHANNEL_ID), new_funding_txo);
    assert_eq!(
        holder_commitment_number(initiator, CHANNEL_ID),
        initiator_commitment_number_before,
    );
    assert_eq!(
        holder_commitment_number(responder, CHANNEL_ID),
        responder_commitment_number_before,
    );

    let updates = get_htlc_update_msgs(initiator, responder_id);
    assert_eq!(updates.updates.len(), 1);
}

#[test]
fn test_channel_teleport_disconnect_after_complete_ack_dequeued_before_delivery_completes_after_reconnect(
) {
    let (mut node_0, mut node_1) = create_announced_chan_between_nodes();
    let initiator = &mut node_0;
    let responder = &mut node_1;
    let initiator_id = initiator.node_id;
    let responder_id = responder.node_id;
    let new_funding_txo = test_outpoint(9, 0);
    let original_funding_txo = current_funding_txo(initiator, CHANNEL_ID);

    start_teleport(initiator, responder, CHANNEL_ID, new_funding_txo);
    get_teleport_event(responder);
    accept_teleport(initiator, responder, CHANNEL_ID);

    complete_to_responder(initiator, responder);
    assert_eq!(current_funding_txo(initiator, CHANNEL_ID), original_funding_txo);
    assert_eq!(current_funding_txo(responder, CHANNEL_ID), new_funding_txo);

    // The acknowledgement leaves, and is lost.
    assert!(matches!(
        get_event_msg(responder, initiator_id),
        Message::SendTeleportCompleteAck(_)
    ));

    disconnect(initiator, responder);

    let initiator_init = Init { features: initiator.init_features() };
    let responder_init = Init { features: responder.init_features() };
    initiator.peer_connected(responder_id, &responder_init, true).unwrap();
    let initiator_reestablish = get_event_msg(initiator, responder_id);
    responder.peer_connected(initiator_id, &initiator_init, false).unwrap();
    let responder_reestablish = get_event_msg(responder, initiator_id);
    assert!(matches!(initiator_reestablish, Message::SendChannelReestablish(_)));
    assert!(matches!(responder_reestablish, Message::SendChannelReestablish(_)));

    deliver(responder_id, initiator, &responder_reestablish);
    let _ = initiator.get_and_clear_pending_msg_events();
    deliver(initiator_id, responder, &initiator_reestablish);

    let teleport_complete_ack = responder
        .get_and_clear_pending_msg_events()
        .into_iter()
        .find_map(|event| match event.msg {
            Message::SendTeleportCompleteAck(msg) => {
                assert_eq!(event.node_id, initiator_id);
                Some(msg)
            },
            _ => None,
        })
        .expect("teleport_complete_ack should be resent on reconnect");
    initiator.handle_teleport_complete_ack(responder_id, &teleport_complete_ack);
    check_added_monitors(initiator, 1);

    assert_eq!(current_funding_txo(initiator, CHANNEL_ID), new_funding_txo);
    assert_eq!(current_funding_txo(responder, CHANNEL_ID), new_funding_txo);
}

#[test]
fn test_teleport_responder_value_removal_reduces_only_responder() {
    let (mut node_0, mut node_1) =
        create_chan_between_nodes_with_value(1_000_000, 500_000_000, STOCK);
    let initiator = &mut node_0;
    let responder = &mut node_1;
    let responder_id = responder.node_id;
    let new_funding_txo = test_outpoint(3, 1);
    let removal_sat: u64 = 50_000;

    let initiator_balance_before = value_to_self_msat(initiator, CHANNEL_ID);
    let responder_balance_before = value_to_self_msat(responder, CHANNEL_ID);
    let initiator_commitment_number_before = holder_commitment_number(initiator, CHANNEL_ID);
    let responder_commitment_number_before = holder_commitment_number(responder, CHANNEL_ID);

    initiator
        .teleport_channel(CHANNEL_ID, responder_id, new_funding_txo, removal_sat, 0)
        .unwrap();
    quiesce(initiator, responder);

    let teleport_init = get_teleport_init(initiator, responder_id);
    assert_eq!(teleport_init.responder_value_removal_sat, removal_sat);
    responder.handle_teleport_init(initiator.node_id, &teleport_init);
    match get_teleport_event(responder) {
        Event::ChannelTeleport { responder_value_removal_sat, .. } => {
            assert_eq!(responder_value_removal_sat, removal_sat);
        },
        _ => panic!(),
    }

    accept_teleport(initiator, responder, CHANNEL_ID);
    complete_to_responder(initiator, responder);
    acknowledge(initiator, responder);
    check_added_monitors(initiator, 1);

    assert_eq!(current_funding_txo(initiator, CHANNEL_ID), new_funding_txo);
    assert_eq!(current_funding_txo(responder, CHANNEL_ID), new_funding_txo);

    let initiator_balance_after = value_to_self_msat(initiator, CHANNEL_ID);
    let responder_balance_after = value_to_self_msat(responder, CHANNEL_ID);
    assert_eq!(initiator_balance_after, initiator_balance_before);
    assert_eq!(
        responder_balance_before.saturating_sub(responder_balance_after),
        removal_sat * 1000,
    );
    assert_eq!(
        holder_commitment_number(initiator, CHANNEL_ID),
        initiator_commitment_number_before,
    );
    assert_eq!(
        holder_commitment_number(responder, CHANNEL_ID),
        responder_commitment_number_before,
    );
}

#[test]
fn test_teleport_both_side_value_removals_reduce_each_side() {
    let (mut node_0, mut node_1) =
        create_chan_between_nodes_with_value(1_000_000, 500_000_000, STOCK);
    let initiator = &mut node_0;
    let responder = &mut node_1;
    let responder_id = responder.node_id;
    let new_funding_txo = test_outpoint(3, 1);
    let responder_removal_sat: u64 = 50_000;
    let initiator_removal_sat: u64 = 7_000;

    let initiator_balance_before = value_to_self_msat(initiator, CHANNEL_ID);
    let responder_balance_before = value_to_self_msat(responder, CHANNEL_ID);

    initiator
        .teleport_channel(
            CHANNEL_ID,
            responder_id,
            new_funding_txo,
            responder_removal_sat,
            initiator_removal_sat,
        )
        .unwrap();
    quiesce(initiator, responder);

    let teleport_init = get_teleport_init(initiator, responder_id);
    assert_eq!(teleport_init.responder_value_removal_sat, responder_removal_sat);
    assert_eq!(teleport_init.initiator_value_removal_sat, initiator_removal_sat);
    responder.handle_teleport_init(initiator.node_id, &teleport_init);
    match get_teleport_event(responder) {
        Event::ChannelTeleport {
            responder_value_removal_sat,
            initiator_value_removal_sat,
            ..
        } => {
            assert_eq!(responder_value_removal_sat, responder_removal_sat);
            assert_eq!(initiator_value_removal_sat, initiator_removal_sat);
        },
        _ => panic!(),
    }

    accept_teleport(initiator, responder, CHANNEL_ID);
    complete_to_responder(initiator, responder);
    acknowledge(initiator, responder);
    check_added_monitors(initiator, 1);

    assert_eq!(current_funding_txo(initiator, CHANNEL_ID), new_funding_txo);
    assert_eq!(current_funding_txo(responder, CHANNEL_ID), new_funding_txo);

    let initiator_balance_after = value_to_self_msat(initiator, CHANNEL_ID);
    let responder_balance_after = value_to_self_msat(responder, CHANNEL_ID);
    assert_eq!(
        initiator_balance_before.saturating_sub(initiator_balance_after),
        initiator_removal_sat * 1000,
    );
    assert_eq!(
        responder_balance_before.saturating_sub(responder_balance_after),
        responder_removal_sat * 1000,
    );
    // The channel shrinks by the sum.
    assert_eq!(
        initiator.entries[0].channel.funding.value_sat,
        1_000_000 - responder_removal_sat - initiator_removal_sat,
    );
}

#[test]
fn test_teleport_initiator_value_removal_rejected_at_api_when_below_reserve() {
    let (mut initiator, responder) = create_announced_chan_between_nodes();
    let new_funding_txo = test_outpoint(4, 1);

    let err = initiator
        .teleport_channel(CHANNEL_ID, responder.node_id, new_funding_txo, 0, 99_000_000)
        .unwrap_err();
    let err_str = format!("{err:?}");
    assert!(err_str.contains("initiator_value_removal_sat"), "{err_str}");
    assert!(matches!(
        err,
        APIError::ExcessiveRemoval { initiator_value_removal_sat: 99_000_000 }
    ));
    // Nothing went on the wire.
    assert_no_msgs(&mut initiator);
}

#[test]
fn test_teleport_initiator_value_removal_rejected_by_responder() {
    let (mut node_0, mut node_1) = create_announced_chan_between_nodes();
    let initiator = &mut node_0;
    let responder = &mut node_1;
    let new_funding_txo = test_outpoint(4, 1);

    initiator.teleport_channel(CHANNEL_ID, responder.node_id, new_funding_txo, 0, 0).unwrap();
    quiesce(initiator, responder);
    let honest_init = get_teleport_init(initiator, responder.node_id);

    let crafted = TeleportInit { initiator_value_removal_sat: 99_000_000, ..honest_init };
    responder.handle_teleport_init(initiator.node_id, &crafted);

    let msg_events = responder.get_and_clear_pending_msg_events();
    assert!(
        msg_events.iter().any(|e| matches!(e.msg, Message::HandleError(_))),
        "{msg_events:?}",
    );
    assert_eq!(
        responder.get_and_clear_pending_events(),
        vec![Event::ChannelClosed {
            channel_id: CHANNEL_ID,
            reason: ClosureReason::ProcessingError,
            counterparty_node_id: initiator.node_id,
            channel_capacity_sats: 100_000,
        }],
    );
    check_added_monitors(responder, 1);
}

#[test]
fn test_teleport_responder_value_removal_rejected_when_below_reserve() {
    let (mut node_0, mut node_1) = create_announced_chan_between_nodes();
    let initiator = &mut node_0;
    let responder = &mut node_1;
    let new_funding_txo = test_outpoint(4, 1);
    let removal_sat: u64 = 99_000_000;

    initiator
        .teleport_channel(CHANNEL_ID, responder.node_id, new_funding_txo, removal_sat, 0)
        .unwrap();
    quiesce(initiator, responder);

    let teleport_init = get_teleport_init(initiator, responder.node_id);
    responder.handle_teleport_init(initiator.node_id, &teleport_init);

    let msg_events = responder.get_and_clear_pending_msg_events();
    assert!(
        msg_events.iter().any(|e| matches!(e.msg, Message::HandleError(_))),
        "{msg_events:?}",
    );
    assert_eq!(
        responder.get_and_clear_pending_events(),
        vec![Event::ChannelClosed {
            channel_id: CHANNEL_ID,
            reason: ClosureReason::ProcessingError,
            counterparty_node_id: initiator.node_id,
            channel_capacity_sats: 100_000,
        }],
    );
    check_added_monitors(responder, 1);
}

#[test]
fn test_channel_teleport_persistent_state_survives_serialize_reload() {
    let (mut node_0, mut node_1) = create_announced_chan_between_nodes();
    let initiator = &mut node_0;
    let responder = &mut node_1;
    let responder_id = responder.node_id;
    let new_funding_txo = test_outpoint(11, 0);
    let original_funding_txo = current_funding_txo(initiator, CHANNEL_ID);

    let initiator_commitment_number_before = holder_commitment_number(initiator, CHANNEL_ID);
    let responder_commitment_number_before = holder_commitment_number(responder, CHANNEL_ID);

    start_teleport(initiator, responder, CHANNEL_ID, new_funding_txo);
    get_teleport_event(responder);
    accept_teleport(initiator, responder, CHANNEL_ID);
    assert_eq!(current_funding_txo(initiator, CHANNEL_ID), original_funding_txo);
    assert_eq!(current_funding_txo(responder, CHANNEL_ID), original_funding_txo);

    initiator.reload();
    responder.reload();

    assert_eq!(current_funding_txo(initiator, CHANNEL_ID), original_funding_txo);
    assert_eq!(current_funding_txo(responder, CHANNEL_ID), original_funding_txo);
    assert_eq!(
        holder_commitment_number(initiator, CHANNEL_ID),
        initiator_commitment_number_before,
    );
    assert_eq!(
        holder_commitment_number(responder, CHANNEL_ID),
        responder_commitment_number_before,
    );

    let responder_cs = teleport_reconnect_capturing_responder_cs(initiator, responder)
        .expect("reloaded responder must repeat its signature");
    assert_eq!(responder_cs.funding_txid, Some(new_funding_txo.txid));
    assert_eq!(
        initiator.peers,
        vec![Peer { node_id: responder_id, features: FEATURES, is_inbound: true }],
    );
    assert_eq!(
        responder.peers,
        vec![Peer { node_id: initiator.node_id, features: FEATURES, is_inbound: false }],
    );
    initiator.handle_commitment_signed(responder_id, &responder_cs);
    check_added_monitors(initiator, 0);
    assert_no_msgs(initiator);

    tick_past_timeout(initiator, responder);

    // Still quiescent: the payment is held.
    let payment_amount = 1_000_000;
    initiator
        .send_payment(CHANNEL_ID, responder_id, hash_of(5), payment_amount, CLTV_EXPIRY)
        .unwrap();
    check_added_monitors(initiator, 0);
    assert_no_msgs(initiator);

    complete_to_responder(initiator, responder);
    assert_eq!(current_funding_txo(initiator, CHANNEL_ID), original_funding_txo);
    assert_eq!(current_funding_txo(responder, CHANNEL_ID), new_funding_txo);
    assert_eq!(
        holder_commitment_number(responder, CHANNEL_ID),
        responder_commitment_number_before,
    );

    acknowledge(initiator, responder);
    check_added_monitors(initiator, 2);

    assert_eq!(current_funding_txo(initiator, CHANNEL_ID), new_funding_txo);
    assert_eq!(current_funding_txo(responder, CHANNEL_ID), new_funding_txo);
    assert_eq!(
        holder_commitment_number(initiator, CHANNEL_ID),
        initiator_commitment_number_before,
    );

    let update_add = get_htlc_update_msgs(initiator, responder_id);
    deliver(initiator.node_id, responder, &Message::UpdateHTLCs(update_add));
    exchange(initiator, responder);
    expect_payment_claimable(responder, 5, payment_amount);
    let responder_balance_before = value_to_self_msat(responder, CHANNEL_ID);
    responder.take_added_monitors();
    claim_payment(initiator, responder, 5, payment_amount);
    assert_eq!(
        value_to_self_msat(responder, CHANNEL_ID),
        responder_balance_before + payment_amount,
    );
}

/// Takes the initiator past the acceptance. Neither side gets the other's signature.
fn accept_without_signatures(initiator: &mut Node, responder: &mut Node) {
    responder.ack_teleport(CHANNEL_ID, initiator.node_id).unwrap();
    let responder_events = responder.get_and_clear_pending_msg_events();
    assert_eq!(responder_events.len(), 2, "{responder_events:?}");
    assert!(matches!(responder_events[1].msg, Message::UpdateHTLCs(_)));
    match &responder_events[0].msg {
        Message::SendTeleportAck(ack) => initiator.handle_teleport_ack(responder.node_id, ack),
        msg => panic!("Unexpected message {msg:?}"),
    }
    assert_eq!(get_htlc_update_msgs(initiator, responder.node_id).commitment_signed.len(), 1);
}

#[test]
fn test_channel_teleport_disconnect_mid_commitment_exchange_aborts_symmetrically() {
    let (mut node_0, mut node_1) = create_announced_chan_between_nodes();
    let initiator = &mut node_0;
    let responder = &mut node_1;
    let original_funding_txo = current_funding_txo(initiator, CHANNEL_ID);
    let replacement_funding_txo = test_outpoint(13, 0);

    start_teleport(initiator, responder, CHANNEL_ID, test_outpoint(12, 0));
    get_teleport_event(responder);
    accept_without_signatures(initiator, responder);

    disconnect(initiator, responder);
    reconnect_nodes(initiator, responder);

    tick_past_timeout(initiator, responder);

    assert_eq!(current_funding_txo(initiator, CHANNEL_ID), original_funding_txo);
    assert_eq!(current_funding_txo(responder, CHANNEL_ID), original_funding_txo);

    send_payment(initiator, responder, 1_000_000);

    start_teleport(initiator, responder, CHANNEL_ID, replacement_funding_txo);
    match get_teleport_event(responder) {
        Event::ChannelTeleport { new_funding_txo: ev_outpoint, .. } => {
            assert_eq!(ev_outpoint, replacement_funding_txo.into_bitcoin_outpoint());
        },
        _ => panic!(),
    }
    accept_teleport(initiator, responder, CHANNEL_ID);
    assert_eq!(current_funding_txo(initiator, CHANNEL_ID), original_funding_txo);
    assert_eq!(current_funding_txo(responder, CHANNEL_ID), original_funding_txo);
}

#[test]
fn test_channel_teleport_responder_retransmits_cs_on_reconnect_kept_initiator_completes() {
    let (mut node_0, mut node_1) = create_announced_chan_between_nodes();
    let initiator = &mut node_0;
    let responder = &mut node_1;
    let responder_id = responder.node_id;
    let new_funding_txo = test_outpoint(21, 0);
    let original_funding_txo = current_funding_txo(initiator, CHANNEL_ID);

    let initiator_commitment_number_before = holder_commitment_number(initiator, CHANNEL_ID);
    let responder_commitment_number_before = holder_commitment_number(responder, CHANNEL_ID);

    start_teleport(initiator, responder, CHANNEL_ID, new_funding_txo);
    get_teleport_event(responder);

    let (_held_cs, responder_updates) = ack_teleport_into_gap(initiator, responder, CHANNEL_ID);
    assert_eq!(responder_updates.len(), 1);
    check_added_monitors(initiator, 0);
    assert_eq!(current_funding_txo(initiator, CHANNEL_ID), original_funding_txo);
    assert_eq!(current_funding_txo(responder, CHANNEL_ID), original_funding_txo);

    disconnect(initiator, responder);

    let responder_cs = teleport_reconnect_capturing_responder_cs(initiator, responder)
        .expect("responder must repeat its signature");
    assert_eq!(responder_cs.funding_txid, Some(new_funding_txo.txid));

    initiator.handle_commitment_signed(responder_id, &responder_cs);
    check_added_monitors(initiator, 1);
    assert_no_msgs(initiator);

    complete_to_responder(initiator, responder);
    assert_eq!(current_funding_txo(initiator, CHANNEL_ID), original_funding_txo);
    assert_eq!(current_funding_txo(responder, CHANNEL_ID), new_funding_txo);
    assert_eq!(
        holder_commitment_number(responder, CHANNEL_ID),
        responder_commitment_number_before,
    );

    acknowledge(initiator, responder);
    check_added_monitors(initiator, 1);

    assert_eq!(current_funding_txo(initiator, CHANNEL_ID), new_funding_txo);
    assert_eq!(current_funding_txo(responder, CHANNEL_ID), new_funding_txo);
    assert_eq!(current_monitor_funding_txo(initiator, CHANNEL_ID), new_funding_txo);
    assert_eq!(current_monitor_funding_txo(responder, CHANNEL_ID), new_funding_txo);
    assert_eq!(
        holder_commitment_number(initiator, CHANNEL_ID),
        initiator_commitment_number_before,
    );

    send_payment(initiator, responder, 1_000_000);
}

#[test]
fn test_channel_teleport_duplicate_cs_tolerated_when_initiator_already_advanced() {
    let (mut node_0, mut node_1) = create_announced_chan_between_nodes();
    let initiator = &mut node_0;
    let responder = &mut node_1;
    let responder_id = responder.node_id;
    let new_funding_txo = test_outpoint(22, 0);
    let original_funding_txo = current_funding_txo(initiator, CHANNEL_ID);

    let initiator_commitment_number_before = holder_commitment_number(initiator, CHANNEL_ID);

    start_teleport(initiator, responder, CHANNEL_ID, new_funding_txo);
    get_teleport_event(responder);
    let (held_cs, responder_updates) = ack_teleport_into_gap(initiator, responder, CHANNEL_ID);
    assert_eq!(responder_updates.len(), 1);
    check_added_monitors(initiator, 0);

    initiator.handle_commitment_signed(responder_id, &held_cs);
    check_added_monitors(initiator, 1);
    assert_no_msgs(initiator);

    initiator.handle_commitment_signed(responder_id, &held_cs);
    check_added_monitors(initiator, 0);
    assert_no_msgs(initiator);
    assert_eq!(current_funding_txo(initiator, CHANNEL_ID), original_funding_txo);
    assert_eq!(
        holder_commitment_number(initiator, CHANNEL_ID),
        initiator_commitment_number_before,
    );

    complete_to_responder(initiator, responder);
    acknowledge(initiator, responder);
    check_added_monitors(initiator, 1);

    assert_eq!(current_funding_txo(initiator, CHANNEL_ID), new_funding_txo);
    assert_eq!(current_funding_txo(responder, CHANNEL_ID), new_funding_txo);
    assert_eq!(
        holder_commitment_number(initiator, CHANNEL_ID),
        initiator_commitment_number_before,
    );
}

#[test]
fn test_channel_teleport_post_promotion_commitment_signed_not_dropped_while_responder_lingers() {
    let (mut node_0, mut node_1) = create_announced_chan_between_nodes();
    let initiator = &mut node_0;
    let responder = &mut node_1;
    let initiator_id = initiator.node_id;
    let responder_id = responder.node_id;
    let new_funding_txo = test_outpoint(24, 0);

    let passage = complete_teleport_into_responder_lingering(
        initiator,
        responder,
        CHANNEL_ID,
        new_funding_txo,
    );
    let watched = vec![MonitorUpdate::RenegotiatedFunding { funding_txo: new_funding_txo }];
    assert_eq!(passage.accepted.initiator, watched);
    assert_eq!(passage.accepted.responder, watched);
    let moved = vec![MonitorUpdate::RenegotiatedFundingLocked { funding_txo: new_funding_txo }];
    assert_eq!(passage.completed.initiator, moved);
    assert_eq!(passage.completed.responder, moved);
    assert_eq!(passage.responder_events.len(), 1);
    assert!(matches!(passage.responder_events[0], Event::ChannelTeleport { .. }));
    assert_eq!(passage.responder_msgs.len(), 1);
    assert!(matches!(passage.responder_msgs[0].msg, Message::SendTeleportCompleteAck(_)));

    initiator.feerate_per_kw += 250;
    initiator.timer_tick_occurred();
    check_added_monitors(initiator, 1);
    let initiator_updates = get_htlc_update_msgs(initiator, responder_id);
    let update_fee = initiator_updates.updates[0];
    assert!(matches!(update_fee, Update::Fee { feerate_per_kw } if feerate_per_kw == FEERATE + 250));
    let commitment_signed = initiator_updates.commitment_signed[0];
    assert_eq!(commitment_signed.funding_txid, Some(new_funding_txo.txid));

    // A new feerate does not end the lingering.
    responder.handle_update(initiator_id, CHANNEL_ID, &update_fee);
    assert!(assert_responder_lingering_after_complete_ack(responder, CHANNEL_ID, new_funding_txo));

    responder.handle_commitment_signed(initiator_id, &commitment_signed);
    check_added_monitors(responder, 1);
    assert!(responder.entries[0].channel.pending_teleport.is_none());

    let responder_events = responder.get_and_clear_pending_msg_events();
    assert_eq!(responder_events.len(), 3, "{responder_events:?}");
    let responder_raa = match &responder_events[0].msg {
        Message::SendRevokeAndACK(raa) => *raa,
        msg => panic!("Unexpected message {msg:?}"),
    };
    let responder_cs = match &responder_events[1].msg {
        Message::UpdateHTLCs(updates) => {
            assert_eq!(updates.commitment_signed.len(), 1);
            updates.commitment_signed[0]
        },
        msg => panic!("Unexpected message {msg:?}"),
    };
    let redundant_complete_ack = match &responder_events[2].msg {
        Message::SendTeleportCompleteAck(ack) => *ack,
        msg => panic!("Unexpected message {msg:?}"),
    };

    initiator.handle_teleport_complete_ack(responder_id, &redundant_complete_ack);
    check_added_monitors(initiator, 0);
    assert_no_msgs(initiator);

    initiator.handle_revoke_and_ack(responder_id, &responder_raa);
    check_added_monitors(initiator, 1);
    initiator.handle_commitment_signed(responder_id, &responder_cs);
    check_added_monitors(initiator, 1);
    match get_event_msg(initiator, responder_id) {
        Message::SendRevokeAndACK(raa) => responder.handle_revoke_and_ack(initiator_id, &raa),
        msg => panic!("Unexpected message {msg:?}"),
    }
    check_added_monitors(responder, 1);

    assert_no_msgs(initiator);
    assert_no_msgs(responder);
    assert_eq!(current_funding_txo(initiator, CHANNEL_ID), new_funding_txo);
    assert_eq!(current_funding_txo(responder, CHANNEL_ID), new_funding_txo);
    assert_eq!(initiator.entries[0].channel.feerate_per_kw, FEERATE + 250);
    assert_eq!(responder.entries[0].channel.feerate_per_kw, FEERATE + 250);
    send_payment(initiator, responder, 1_000_000);
}

#[test]
fn test_channel_teleport_reconnect_aborts_when_peer_drops_teleport() {
    let (mut node_0, mut node_1) = create_announced_chan_between_nodes();
    let initiator = &mut node_0;
    let responder = &mut node_1;
    let original_funding_txo = current_funding_txo(initiator, CHANNEL_ID);

    start_teleport(initiator, responder, CHANNEL_ID, test_outpoint(23, 0));
    get_teleport_event(responder);
    accept_without_signatures(initiator, responder);

    disconnect(initiator, responder);

    let responder_cs = teleport_reconnect_capturing_responder_cs(initiator, responder);
    assert!(responder_cs.is_none());

    tick_past_timeout(initiator, responder);

    assert_eq!(current_funding_txo(initiator, CHANNEL_ID), original_funding_txo);
    assert_eq!(current_funding_txo(responder, CHANNEL_ID), original_funding_txo);

    send_payment(initiator, responder, 1_000_000);
}
