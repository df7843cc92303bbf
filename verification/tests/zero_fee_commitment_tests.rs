use bitcoin::constants::WITNESS_SCALE_FACTOR;
use bitcoin::{Script, Sequence};
use teleport::channel::{ChannelSetup, FundingScope};
use teleport::claims::{
    bump_commitment, max_coin_selection_weight, max_htlcs_per_batch, Batch, ClaimProgress,
    CoinSelection, TransactionShape, BASE_INPUT_WEIGHT, BASE_TX_SIZE, EMPTY_SCRIPT_SIG_WEIGHT,
    EMPTY_WITNESS_WEIGHT, P2WSH_TXOUT_WEIGHT, SEGWIT_MARKER_FLAG_WEIGHT, TRUC_CHILD_MAX_WEIGHT,
    TRUC_MAX_WEIGHT,
};
use teleport::commitment::inputs_disable_locktime;
use teleport::commitment_tx::{CommitmentKeys, CommitmentTransaction};
use teleport::events::{ClosureReason, Event};
use teleport::funding::{
    ChannelTerms, ChannelType, FundingEvent, FundingStage, HandshakeConfig, PendingChannel,
};
use teleport::msgs::{
    ChannelId, ErrorAction, Init, InitFeatures, Message, NodeId, PaymentHash,
};
use teleport::node::Node;
use teleport::outpoint::{test_outpoint, FundingOutPoint};
use teleport::script::{
    funding_output_script, inspect_script, is_p2wsh_and_not_p2tr, no_op_return,
    shared_anchor_script_pubkey, witness_script_pubkey,
};

const CHANNEL_ID: ChannelId = ChannelId { id: 7 };
const NODE_A: NodeId = NodeId { id: 1 };
const NODE_B: NodeId = NodeId { id: 2 };
const FEERATE: u32 = 253;
const FEATURES: InitFeatures = InitFeatures { static_remote_key: true, quiescence: true };
const CLTV_EXPIRY: u32 = 700_000;

const KEYS: CommitmentKeys = CommitmentKeys {
    revocation_key: [2; 33],
    broadcaster_htlc_key: [3; 33],
    countersignatory_htlc_key: [4; 33],
    broadcaster_delayed_key: [5; 33],
    to_self_delay: 144,
    countersignatory_payment_key: [6; 33],
    obscure_factor: 0x1234_5678_9abc,
};

fn hash_of(payment: u64) -> PaymentHash {
    let mut bytes = [0; 32];
    bytes[..8].copy_from_slice(&payment.to_le_bytes());
    PaymentHash { bytes }
}

/// Connects two nodes. The second reaches out to the first.
fn connect(a: &mut Node, b: &mut Node) {
    let init_a = Init { features: a.init_features() };
    let init_b = Init { features: b.init_features() };
    a.peer_connected(b.node_id, &init_b, true).unwrap();
    b.peer_connected(a.node_id, &init_a, false).unwrap();
}

fn setup(
    counterparty: NodeId, is_outbound: bool, value_sat: u64, value_to_self_msat: u64,
) -> ChannelSetup {
    let reserve_sat = core::cmp::max(1000, value_sat / 100);
    ChannelSetup {
        channel_id: CHANNEL_ID,
        user_channel_id: 42,
        counterparty,
        is_outbound,
        funding: FundingScope { funding_txo: test_outpoint(1, 0), value_sat, value_to_self_msat },
        holder_reserve_sat: reserve_sat,
        counterparty_reserve_sat: reserve_sat,
        dust_limit_sat: 354,
        feerate_per_kw: FEERATE,
    }
}

/// Two nodes with a channel between them that the first funded.
fn create_chan_between_nodes_with_value(
    value_sat: u64, push_msat: u64, config: HandshakeConfig,
) -> (Node, Node) {
    let terms = ChannelTerms::negotiated(&config, &config);
    let script = funding_output_script(&[2; 33], &[3; 33]);
    let mut a = Node::new(NODE_A, FEATURES, FEERATE);
    let mut b = Node::new(NODE_B, FEATURES, FEERATE);
    connect(&mut a, &mut b);
    a.add_channel(
        setup(NODE_B, true, value_sat, value_sat * 1000 - push_msat),
        terms,
        script.clone(),
    );
    b.add_channel(setup(NODE_A, false, value_sat, push_msat), terms, script);
    (a, b)
}

fn deliver(from: NodeId, to: &mut Node, msg: &Message) {
    match msg {
        Message::SendStfu(m) => to.handle_stfu(from, m),
        Message::SendTeleportInit(m) => to.handle_teleport_init(from, m),
        Message::SendTeleportAck(m) => to.handle_teleport_ack(from, m),
        Message::SendTeleportComplete(m) => to.handle_teleport_complete(from, m),
        Message::SendTeleportCompleteAck(m) => to.handle_teleport_complete_ack(from, m),
        Message::SendTeleportAbort(m) => to.handle_teleport_abort(from, m),
        Message::UpdateHTLCs(m) => {
            for update in &m.updates {
                to.handle_update(from, CHANNEL_ID, update);
            }
            for cs in &m.commitment_signed {
                to.handle_commitment_signed(from, cs);
            }
        },
        Message::SendRevokeAndACK(m) => to.handle_revoke_and_ack(from, m),
        Message::SendChannelReestablish(m) => to.handle_channel_reestablish(from, m),
        Message::SendChannelReady(_) | Message::SendAnnouncementSignatures(_) => {},
        Message::HandleError(action) => panic!("Unexpected error {action:?}"),
    }
}

/// Exchanges messages until neither node has one left.
fn exchange(a: &mut Node, b: &mut Node) {
    loop {
        let from_a = a.get_and_clear_pending_msg_events();
        for event in &from_a {
            assert_eq!(event.node_id, b.node_id);
            deliver(a.node_id, b, &event.msg);
        }
        let from_b = b.get_and_clear_pending_msg_events();
        for event in &from_b {
            assert_eq!(event.node_id, a.node_id);
            deliver(b.node_id, a, &event.msg);
        }
        if from_a.is_empty() && from_b.is_empty() {
            return;
        }
    }
}

fn expect_payment_claimable(node: &mut Node, payment_hash: u64, amount_msat: u64) {
    let payment_hash = hash_of(payment_hash);
    assert_eq!(
        node.get_and_clear_pending_events(),
        vec![Event::PaymentClaimable { channel_id: CHANNEL_ID, payment_hash, amount_msat }],
    );
}

fn expect_payment_claimed(node: &mut Node, payment_hash: u64, amount_msat: u64) {
    let payment_hash = hash_of(payment_hash);
    assert_eq!(
        node.get_and_clear_pending_events(),
        vec![Event::PaymentClaimed { channel_id: CHANNEL_ID, payment_hash, amount_msat }],
    );
}

/// Sends a payment up to the point where it can be claimed.
fn route_payment(from: &mut Node, to: &mut Node, payment_hash: u64, amount_msat: u64) {
    from
        .send_payment(CHANNEL_ID, to.node_id, hash_of(payment_hash), amount_msat, CLTV_EXPIRY)
        .unwrap();
    exchange(from, to);
    expect_payment_claimable(to, payment_hash, amount_msat);
    from.take_added_monitors();
    to.take_added_monitors();
}

const ZERO_FEE: HandshakeConfig = HandshakeConfig {
    negotiate_anchor_zero_fee_commitments: true,
    negotiate_ark_channel: false,
    ark_htlc_success_csv_delta: None,
};

fn fail_payment(from: &mut Node, to: &mut Node, payment_hash: u64) {
    to.fail_htlc_backwards(CHANNEL_ID, from.node_id, hash_of(payment_hash)).unwrap();
    exchange(from, to);
    from.take_added_monitors();
    to.take_added_monitors();
}

fn p2a_value_test(
    a: &mut Node, b: &mut Node, node_0_1_amts_msat: &[u64], node_1_0_amts_msat: &[u64],
    expected_p2a_value_sat: u64,
) {
    let mut node_0_1_hashes = Vec::new();
    let mut node_1_0_hashes = Vec::new();
    let mut payment_hash = 0;
    for amt in node_0_1_amts_msat {
        payment_hash += 1;
        route_payment(a, b, payment_hash, *amt);
        node_0_1_hashes.push(payment_hash);
    }
    for amt in node_1_0_amts_msat {
        payment_hash += 1;
        route_payment(b, a, payment_hash, *amt);
        node_1_0_hashes.push(payment_hash);
    }
    let outputs = a.entries[0].local_commitment().unwrap();
    assert_eq!(outputs.anchor_sat, expected_p2a_value_sat);
    let outputs = b.entries[0].local_commitment().unwrap();
    assert_eq!(outputs.anchor_sat, expected_p2a_value_sat);
    for hash in node_0_1_hashes {
        fail_payment(a, b, hash);
    }
    for hash in node_1_0_hashes {
        fail_payment(b, a, hash);
    }
    assert!(a.entries[0].book.htlcs.is_empty());
    assert!(b.entries[0].book.htlcs.is_empty());
}

#[test]
fn test_p2a_anchor_values_under_trims_and_rounds() {
    const CHAN_CAPACITY: u64 = 10_000_000;
    let (mut node_a, mut node_b) = create_chan_between_nodes_with_value(
        CHAN_CAPACITY,
        (CHAN_CAPACITY / 2) * 1000,
        ZERO_FEE,
    );
    let a = &mut node_a;
    let b = &mut node_b;

    p2a_value_test(a, b, &[1], &[], 1);
    p2a_value_test(a, b, &[238_000], &[], 238);
    p2a_value_test(a, b, &[238_001], &[], 239);
    p2a_value_test(a, b, &[240_000], &[], 240);
    p2a_value_test(a, b, &[240_001], &[], 240);
    p2a_value_test(a, b, &[353_000], &[], 240);
    p2a_value_test(a, b, &[353_999], &[], 240);
    p2a_value_test(a, b, &[354_000], &[], 0);
    p2a_value_test(a, b, &[354_001], &[], 1);

    p2a_value_test(a, b, &[1, 1], &[], 1);
    p2a_value_test(a, b, &[1, 999], &[], 1);
    p2a_value_test(a, b, &[1, 1000], &[], 2);
    p2a_value_test(a, b, &[354_001], &[], 1);
    p2a_value_test(a, b, &[354_001, 999], &[], 1);
    p2a_value_test(a, b, &[354_001, 1000], &[], 2);
    p2a_value_test(a, b, &[354_001, 1999], &[], 2);
    p2a_value_test(a, b, &[354_002, 1999], &[], 3);

    p2a_value_test(a, b, &[1], &[1], 2);
    p2a_value_test(a, b, &[1], &[999], 2);
    p2a_value_test(a, b, &[1], &[1000], 2);
    p2a_value_test(a, b, &[354_001], &[], 1);
    p2a_value_test(a, b, &[354_001], &[999], 2);
    p2a_value_test(a, b, &[354_001], &[1000], 2);
    p2a_value_test(a, b, &[354_001], &[1999], 3);
    p2a_value_test(a, b, &[354_002], &[1999], 3);

    p2a_value_test(a, b, &[353_000], &[353_000], 240);
    p2a_value_test(a, b, &[353_001], &[353_000], 240);
    p2a_value_test(a, b, &[353_000], &[353_001], 240);
    p2a_value_test(a, b, &[353_001], &[353_001], 240);
}

/// Asks for coins for every batch of a claim. Returns the batches that were tried, and those that
/// were broadcast.
fn run_claim(
    total: usize, max_batch: usize, wallet: impl Fn(&Batch) -> Option<CoinSelection>,
) -> (Vec<Batch>, Vec<(Batch, TransactionShape)>, ClaimProgress) {
    let mut claim = ClaimProgress::new(total, max_batch);
    let mut tried = Vec::new();
    let mut broadcast = Vec::new();
    while let Some(batch) = claim.next_batch() {
        tried.push(batch);
        match wallet(&batch) {
            Some(coins) => {
                broadcast.push((batch, batch.transaction(coins)));
                claim.answered(true);
            },
            None => claim.answered(false),
        }
    }
    (tried, broadcast, claim)
}

/// The weight of a wallet's coin as an input, and of what is left as an output of its own.
const COIN_WEIGHT: u64 = 272;
const CHANGE_WEIGHT: u64 = 124;
const CHANGE_DUST_SAT: u64 = 294;

fn fee_sat(weight: u64, feerate_per_kw: u64) -> u64 {
    (weight * feerate_per_kw + 999) / 1000
}

/// Adds coins, the most valuable first, until they pay for their own weight and for that of the
/// rest at the feerate. The coins must stay within the weight. What is left comes back if it is
/// worth an output.
fn select_coins(
    utxos_sat: &[u64], feerate_per_kw: u64, weight_to_pay: u64, max_coin_weight: u64,
) -> Option<CoinSelection> {
    let mut utxos = utxos_sat.to_vec();
    utxos.sort_unstable();
    let mut coins = CoinSelection { inputs: 0, weight: 0, has_change: false };
    let mut value_sat = 0;
    while let Some(utxo_sat) = utxos.pop() {
        coins.inputs += 1;
        coins.weight += COIN_WEIGHT;
        value_sat += utxo_sat;
        if coins.weight > max_coin_weight {
            return None;
        }
        if value_sat >= fee_sat(weight_to_pay + coins.weight, feerate_per_kw) {
            let with_change =
                fee_sat(weight_to_pay + coins.weight + CHANGE_WEIGHT, feerate_per_kw);
            coins.has_change = value_sat >= with_change + CHANGE_DUST_SAT;
            return Some(coins);
        }
    }
    None
}

/// What a claimed HTLC weighs: an input and an output. The witness has a count, an empty element,
/// two signatures, the preimage and the script, each with its length.
fn htlc_claim_weight(witness_script: &[u8]) -> u64 {
    let witness_weight = 1 + 1 + 2 * (1 + 73) + (1 + 32) + (1 + witness_script.len() as u64);
    BASE_INPUT_WEIGHT + EMPTY_SCRIPT_SIG_WEIGHT + witness_weight + P2WSH_TXOUT_WEIGHT
}

/// What is left to the wallet when a claim is first split.
const COINS_WEIGHT_BUDGET: u64 = 1000;

/// A wallet that funds a batch of claims from its coins.
fn fund_batch(
    batch: &Batch, htlc_weight: u64, utxos_sat: &[u64], feerate_per_kw: u64,
) -> Option<CoinSelection> {
    let base = BASE_TX_SIZE * WITNESS_SCALE_FACTOR as u64 + SEGWIT_MARKER_FLAG_WEIGHT;
    let weight = base + batch.size as u64 * htlc_weight;
    select_coins(utxos_sat, feerate_per_kw, weight, TRUC_MAX_WEIGHT - weight)
}

fn check_closed_broadcast(node: &mut Node, peer: NodeId) {
    let msgs = node.get_and_clear_pending_msg_events();
    assert_eq!(msgs.len(), 1, "{msgs:?}");
    assert_eq!(msgs[0].node_id, peer);
    assert!(matches!(msgs[0].msg, Message::HandleError(ErrorAction::SendErrorMessage)));
}

fn check_closed_event(node: &mut Node, reason: ClosureReason, peer: NodeId, capacity_sats: u64) {
    assert_eq!(
        node.get_and_clear_pending_events(),
        vec![Event::ChannelClosed {
            channel_id: CHANNEL_ID,
            reason,
            counterparty_node_id: peer,
            channel_capacity_sats: capacity_sats,
        }],
    );
}

#[test]
fn test_htlc_claim_chunking() {
    const CHAN_CAPACITY: u64 = 10_000_000;
    let (mut node_a, mut node_b) = create_chan_between_nodes_with_value(
        CHAN_CAPACITY,
        (CHAN_CAPACITY / 2) * 1000,
        ZERO_FEE,
    );
    let utxos = [500; 50];
    const NONDUST_HTLC_AMT_MSAT: u64 = 1_000_000;
    for payment_hash in 0..75 {
        route_payment(&mut node_a, &mut node_b, payment_hash, NONDUST_HTLC_AMT_MSAT);
    }
    let node_a_commit_tx = node_a.entries[0].local_commitment_transaction(&KEYS).unwrap();
    assert_eq!(node_a_commit_tx.outputs.len(), 75 + 2 + 1);
    let node_b_commit_tx = node_b.entries[0].local_commitment_transaction(&KEYS).unwrap();
    assert_eq!(node_b_commit_tx.outputs.len(), 75 + 2 + 1);
    assert_eq!(node_b.entries[0].local_commitment().unwrap().count(), 75 + 2 + 1);

    for payment_hash in 0..75 {
        node_b.claim_funds(CHANNEL_ID, NODE_A, hash_of(payment_hash)).unwrap();
        assert_eq!(node_b.take_added_monitors().len(), 1);
        expect_payment_claimed(&mut node_b, payment_hash, NONDUST_HTLC_AMT_MSAT);
    }
    node_a.get_and_clear_pending_msg_events();
    node_b.get_and_clear_pending_msg_events();

    // The commitment of the second node confirms.
    node_a.commitment_confirmed(CHANNEL_ID, NODE_B).unwrap();
    node_b.commitment_confirmed(CHANNEL_ID, NODE_A).unwrap();
    let claims = node_b.entries[0].htlc_claims();
    assert_eq!(claims.len(), 75);
    let htlc_weight = htlc_claim_weight(&claims[0].witness_script(&KEYS));
    for claim in &claims {
        let script = claim.witness_script(&KEYS);
        assert_eq!(htlc_claim_weight(&script), htlc_weight);
        let script_pubkey = witness_script_pubkey(&script);
        assert!(node_b_commit_tx.outputs.iter().any(|out| out.script_pubkey == script_pubkey));
    }

    let base = BASE_TX_SIZE * WITNESS_SCALE_FACTOR as u64 + SEGWIT_MARKER_FLAG_WEIGHT;
    let reserved = base + COINS_WEIGHT_BUDGET;
    let max_batch = max_htlcs_per_batch(TRUC_MAX_WEIGHT, reserved, htlc_weight) as usize;

    let (tried, htlc_claims, claim) =
        run_claim(claims.len(), max_batch, |batch| fund_batch(batch, htlc_weight, &utxos, 253));
    assert!(claim.is_done());
    assert_eq!(htlc_claims.len(), 2);
    assert_eq!(htlc_claims[0].1.inputs, 71);
    assert_eq!(htlc_claims[0].1.outputs, 51);
    assert_eq!(htlc_claims[1].1.inputs, 34);
    assert_eq!(htlc_claims[1].1.outputs, 24);

    check_closed_broadcast(&mut node_a, NODE_B);
    assert_eq!(node_a.take_added_monitors().len(), 1);
    let reason = ClosureReason::CommitmentTxConfirmed;
    check_closed_event(&mut node_a, reason.clone(), NODE_B, CHAN_CAPACITY);
    assert!(node_a.list_channels().is_empty());
    check_closed_broadcast(&mut node_b, NODE_A);
    assert_eq!(node_b.take_added_monitors().len(), 1);
    check_closed_event(&mut node_b, reason, NODE_A, CHAN_CAPACITY);
    assert!(node_b.list_channels().is_empty());
    assert!(node_a.get_and_clear_pending_events().is_empty());
    assert!(node_b.get_and_clear_pending_events().is_empty());

    // The first confirms and takes its coins. The rest is claimed again, at a higher feerate, so
    // that it takes more coins.
    let rest = claims.len() - htlc_claims[0].0.size;
    let (tried_again, fresh_htlc_claims, claim) = run_claim(rest, max_batch, |batch| {
        fund_batch(batch, htlc_weight, &utxos[20..], 253 * 5 / 4)
    });
    assert!(claim.is_done());
    assert_eq!(fresh_htlc_claims.len(), 1);
    assert_eq!(fresh_htlc_claims[0].1.inputs, 37);
    assert_eq!(fresh_htlc_claims[0].1.outputs, 25);

    let assignments: Vec<Batch> = tried.into_iter().chain(tried_again).collect();
    assert_eq!(assignments.len(), 7);
    assert_eq!(assignments.iter().filter(|batch| batch.keeps_claim_id).count(), 6);
    assert_eq!(assignments.iter().filter(|batch| !batch.keeps_claim_id).count(), 1);
    let mut batch_sizes: Vec<usize> = assignments.iter().map(|batch| batch.size).collect();
    batch_sizes.sort_unstable();
    batch_sizes.reverse();
    assert_eq!(batch_sizes.len(), 7);
    assert_eq!(batch_sizes.pop().unwrap(), 24);
    assert_eq!(batch_sizes.pop().unwrap(), 24);
    for i in (51..=59).step_by(2) {
        assert_eq!(batch_sizes.pop().unwrap(), i);
    }

    // Without coins the claim is given up.
    let (tried, htlc_claims, claim) =
        run_claim(rest, max_batch, |batch| fund_batch(batch, htlc_weight, &[], 253 * 5 / 4));
    assert!(htlc_claims.is_empty());
    assert!(claim.has_given_up());
    let sizes: Vec<usize> = tried.iter().map(|batch| batch.size).collect();
    assert_eq!(sizes, vec![24, 22, 20, 18, 16, 14, 12, 10, 8, 6, 4, 2]);
}

#[test]
fn test_anchor_tx_too_big() {
    const FEERATE: u64 = 500;
    const CHAN_CAPACITY: u64 = 10_000_000;
    let (mut node_a, mut node_b) = create_chan_between_nodes_with_value(
        CHAN_CAPACITY,
        (CHAN_CAPACITY / 2) * 1000,
        ZERO_FEE,
    );
    let utxos = [500; 50];

    const NONDUST_HTLC_AMT_MSAT: u64 = 1_000_000;
    for payment_hash in 0..50 {
        route_payment(&mut node_a, &mut node_b, payment_hash, NONDUST_HTLC_AMT_MSAT);
    }
    let commitment_tx = node_b.entries[0].local_commitment_transaction(&KEYS).unwrap();
    assert_eq!(commitment_tx.outputs.len(), 50 + 2 + 1);

    let message = "Channel force-closed".to_owned();
    node_b
        .force_close_broadcasting_latest_txn(CHANNEL_ID, NODE_A, message.clone())
        .unwrap();
    assert_eq!(node_b.take_added_monitors().len(), 1);
    check_closed_broadcast(&mut node_b, NODE_A);
    let reason =
        ClosureReason::HolderForceClosed { broadcasted_latest_txn: Some(true), message };
    check_closed_event(&mut node_b, reason, NODE_A, CHAN_CAPACITY);

    let expected_max_coin_selection_weight = TRUC_CHILD_MAX_WEIGHT
        - BASE_TX_SIZE * WITNESS_SCALE_FACTOR as u64
        - SEGWIT_MARKER_FLAG_WEIGHT
        - BASE_INPUT_WEIGHT
        - EMPTY_SCRIPT_SIG_WEIGHT
        - EMPTY_WITNESS_WEIGHT
        - P2WSH_TXOUT_WEIGHT;
    assert_eq!(max_coin_selection_weight(), expected_max_coin_selection_weight);
    assert_eq!(max_coin_selection_weight(), 3621);

    // A value, a length and a script for each output, and one input with two signatures.
    let outputs_weight: u64 = commitment_tx
        .outputs
        .iter()
        .map(|out| (8 + 1 + out.script_pubkey.len() as u64) * WITNESS_SCALE_FACTOR as u64)
        .sum();
    let commitment_weight = BASE_TX_SIZE * WITNESS_SCALE_FACTOR as u64
        + SEGWIT_MARKER_FLAG_WEIGHT
        + BASE_INPUT_WEIGHT
        + EMPTY_SCRIPT_SIG_WEIGHT
        + 222
        + outputs_weight;
    let package_weight = commitment_weight + TRUC_CHILD_MAX_WEIGHT - max_coin_selection_weight();

    // Small coins alone do not reach the feerate within the weight.
    let coins = select_coins(&utxos, FEERATE, package_weight, max_coin_selection_weight());
    assert!(coins.is_none());
    assert!(bump_commitment(coins).is_none());
    // Then the commitment is not broadcast either.
    assert!(node_b.entries[0].bump_local_commitment(&KEYS, coins).is_none());

    // Neither may coins be added that are too heavy.
    let coins = CoinSelection { inputs: 14, weight: 14 * COIN_WEIGHT, has_change: true };
    assert!(bump_commitment(Some(coins)).is_none());
    let coins = CoinSelection { weight: max_coin_selection_weight(), ..coins };
    assert!(bump_commitment(Some(coins)).is_none());

    // One large coin does.
    let utxos = [100_000_000];
    let coins = select_coins(&utxos, FEERATE, package_weight, max_coin_selection_weight());
    let (broadcast, child) = node_b.entries[0].bump_local_commitment(&KEYS, coins).unwrap();
    assert_eq!(broadcast, commitment_tx);
    // The child spends the anchor of the commitment and one coin.
    assert_eq!(
        broadcast.outputs[child.anchor_position].script_pubkey,
        shared_anchor_script_pubkey(),
    );
    assert!(child.weight < TRUC_CHILD_MAX_WEIGHT);
    assert_eq!(child.shape.inputs, 2);
    assert_eq!(child.shape.outputs, 1);
    assert_eq!(bump_commitment(coins), Some((child.shape, child.weight)));
}

const ARK: HandshakeConfig = HandshakeConfig {
    negotiate_anchor_zero_fee_commitments: false,
    negotiate_ark_channel: true,
    ark_htlc_success_csv_delta: None,
};

fn exchange_open_accept_chan(
    value_sat: u64, config: HandshakeConfig,
) -> (PendingChannel, PendingChannel) {
    let terms = ChannelTerms::negotiated(&config, &config);
    let key_a = [2; 33];
    let key_b = [3; 33];
    let a = PendingChannel::new(CHANNEL_ID, NODE_B, terms, value_sat, &key_a, &key_b, true);
    let b = PendingChannel::new(CHANNEL_ID, NODE_A, terms, value_sat, &key_b, &key_a, false);
    (a, b)
}

#[test]
fn test_ark_channel_funding_output_is_p2wsh() {
    const CHAN_VALUE: u64 = 10_000_000;
    let (mut a, mut b) = exchange_open_accept_chan(CHAN_VALUE, ARK);
    assert_eq!(a.output_script, b.output_script);

    // The funding transaction has the script verbatim.
    let txid = test_outpoint(42, 0).txid;
    let outputs = vec![(CHAN_VALUE, a.output_script.clone())];
    let funding_spk = Script::from_bytes(&outputs[0].1);
    assert!(funding_spk.is_p2wsh());
    assert!(!funding_spk.is_p2tr());
    assert!(is_p2wsh_and_not_p2tr(&outputs[0].1));
    assert_eq!(outputs[0].1[..2], [0x00, 0x20]);
    assert_eq!(a.terms.channel_type, ChannelType::ArkChannel);

    let funding_txo = a.funding_transaction_generated(txid, &outputs).unwrap();
    assert_eq!(funding_txo, FundingOutPoint { txid, index: 0 });
    assert!(matches!(
        b.handle_funding_created(funding_txo).unwrap(),
        FundingEvent::ChannelPending { counterparty_node_id: NODE_A, .. }
    ));
    let signed = a.handle_funding_signed().unwrap();
    assert_eq!(signed.broadcast, Some(txid));
    assert_eq!(signed.events.len(), 1);
    assert!(matches!(
        signed.events[0],
        FundingEvent::ChannelPending { counterparty_node_id: NODE_B, .. }
    ));

    assert!(matches!(a.funding_confirmed().unwrap(), FundingEvent::ChannelReady { .. }));
    assert!(matches!(b.funding_confirmed().unwrap(), FundingEvent::ChannelReady { .. }));
    assert!(matches!(a.stage, FundingStage::Ready { .. }));
    assert_eq!(a.terms.channel_type, ChannelType::ArkChannel);
}

/// Checks the only HTLC that the node claims on chain.
fn check_ark_descriptor(node: &Node, commitment_tx: &CommitmentTransaction, ark_delta: u16) {
    let mut checked_descriptors = 0usize;
    for descriptor in node.entries[0].htlc_claims() {
        assert!(!descriptor.htlc.offered);
        assert_eq!(descriptor.ark_htlc_success_csv_delta, Some(ark_delta));

        let witness_script = descriptor.witness_script(&KEYS);
        let inspection = inspect_script(&witness_script, ark_delta).unwrap();
        assert_eq!(inspection.csv_count, 1);
        assert!(inspection.guarded);

        // The script is what an output of the commitment pays to.
        let script_pubkey = witness_script_pubkey(&witness_script);
        let paid: Vec<u64> = commitment_tx
            .outputs
            .iter()
            .filter(|out| out.script_pubkey == script_pubkey)
            .map(|out| out.value_sat)
            .collect();
        assert_eq!(paid, vec![descriptor.htlc.amount_msat / 1000]);

        let sequence = Sequence(descriptor.sequence);
        assert!(sequence.to_consensus_u32() >= ark_delta as u32);
        checked_descriptors += 1;
    }
    assert_eq!(checked_descriptors, 1);
}

#[test]
fn test_ark_channel_htlc_success_csv_active_end_to_end() {
    const ARK_DELTA: u16 = 144;
    const CHAN_CAPACITY: u64 = 10_000_000;
    let (mut node_a, mut node_b) = create_chan_between_nodes_with_value(
        CHAN_CAPACITY,
        (CHAN_CAPACITY / 2) * 1000,
        HandshakeConfig { ark_htlc_success_csv_delta: Some(ARK_DELTA), ..ARK },
    );
    let chan_list = node_a.list_channels();
    let chan = chan_list.iter().find(|c| c.channel_id == CHANNEL_ID).expect("channel in list");
    assert_eq!(chan.channel_type, ChannelType::ArkChannel);

    const HTLC_AMT_MSAT: u64 = 1_000_000;
    route_payment(&mut node_a, &mut node_b, 5, HTLC_AMT_MSAT);
    node_b.claim_funds(CHANNEL_ID, NODE_A, hash_of(5)).unwrap();
    assert_eq!(node_b.take_added_monitors().len(), 1);
    expect_payment_claimed(&mut node_b, 5, HTLC_AMT_MSAT);
    node_a.get_and_clear_pending_msg_events();
    node_b.get_and_clear_pending_msg_events();

    let node_b_commit_tx = node_b.entries[0].local_commitment_transaction(&KEYS).unwrap();
    let message = "force-close for ark csv test".to_owned();
    node_b
        .force_close_broadcasting_latest_txn(CHANNEL_ID, NODE_A, message.clone())
        .unwrap();
    assert_eq!(node_b.take_added_monitors().len(), 1);
    check_closed_broadcast(&mut node_b, NODE_A);
    let reason =
        ClosureReason::HolderForceClosed { broadcasted_latest_txn: Some(true), message };
    check_closed_event(&mut node_b, reason, NODE_A, CHAN_CAPACITY);

    check_ark_descriptor(&node_b, &node_b_commit_tx, ARK_DELTA);
}

#[test]
fn test_ark_channel_manual_funding_lifecycle() {
    const ARK_DELTA: u16 = 144;
    const CHAN_VALUE: u64 = 10_000_000;
    let config = HandshakeConfig { ark_htlc_success_csv_delta: Some(ARK_DELTA), ..ARK };
    let (mut a, mut b) = exchange_open_accept_chan(CHAN_VALUE, config);
    let funding_outpoint = test_outpoint(42, 0);

    // Only an outpoint is named.
    let funding_txo = a.unsafe_manual_funding_transaction_generated(funding_outpoint).unwrap();
    assert!(matches!(
        b.handle_funding_created(funding_txo).unwrap(),
        FundingEvent::ChannelPending { counterparty_node_id: NODE_A, .. }
    ));
    let signed = a.handle_funding_signed().unwrap();
    assert_eq!(signed.broadcast, None);
    assert_eq!(signed.events.len(), 2);
    let mut saw_broadcast_safe = false;
    for event in &signed.events {
        match event {
            FundingEvent::FundingTxBroadcastSafe { funding_txo, .. } => {
                assert_eq!(funding_txo.txid, funding_outpoint.txid);
                assert_eq!(funding_txo.vout, u32::from(funding_outpoint.index));
                saw_broadcast_safe = true;
            },
            FundingEvent::ChannelPending { counterparty_node_id, .. } => {
                assert_eq!(*counterparty_node_id, NODE_B);
            },
            other => panic!("unexpected pending event: {other:?}"),
        }
    }
    assert!(saw_broadcast_safe);

    assert!(matches!(a.funding_confirmed().unwrap(), FundingEvent::ChannelReady { .. }));
    assert!(matches!(b.funding_confirmed().unwrap(), FundingEvent::ChannelReady { .. }));
    assert!(matches!(a.stage, FundingStage::Ready { .. }));
    assert_eq!(a.terms.channel_type, ChannelType::ArkChannel);

    let mut node_a = Node::new(NODE_A, FEATURES, FEERATE);
    let mut node_b = Node::new(NODE_B, FEATURES, FEERATE);
    connect(&mut node_a, &mut node_b);
    let mut setup_a = setup(NODE_B, true, CHAN_VALUE, CHAN_VALUE * 1000);
    let mut setup_b = setup(NODE_A, false, CHAN_VALUE, 0);
    setup_a.funding.funding_txo = funding_outpoint;
    setup_b.funding.funding_txo = funding_outpoint;
    node_a.add_channel(setup_a, a.terms, a.output_script.clone());
    node_b.add_channel(setup_b, b.terms, b.output_script.clone());
    let chan_list = node_a.list_channels();
    let chan = chan_list.iter().find(|c| c.channel_id == CHANNEL_ID).expect("channel in list");
    assert_eq!(chan.channel_type, ChannelType::ArkChannel);

    const HTLC_AMT_MSAT: u64 = 1_000_000;
    route_payment(&mut node_a, &mut node_b, 5, HTLC_AMT_MSAT);
    node_b.claim_funds(CHANNEL_ID, NODE_A, hash_of(5)).unwrap();
    assert_eq!(node_b.take_added_monitors().len(), 1);
    expect_payment_claimed(&mut node_b, 5, HTLC_AMT_MSAT);
    node_a.get_and_clear_pending_msg_events();
    node_b.get_and_clear_pending_msg_events();

    // The commitment has a balance, the HTLC and the anchor; none of them carries data, and its
    // input has no relative lock time.
    let node_b_commit_tx = node_b.entries[0].local_commitment_transaction(&KEYS).unwrap();
    assert_eq!(node_b_commit_tx.funding_txo, funding_outpoint);
    assert_eq!(node_b_commit_tx.outputs.len(), 3);
    for (idx, out) in node_b_commit_tx.outputs.iter().enumerate() {
        assert!(!Script::from_bytes(&out.script_pubkey).is_op_return(), "output #{idx}");
    }
    let scripts: Vec<Vec<u8>> =
        node_b_commit_tx.outputs.iter().map(|out| out.script_pubkey.clone()).collect();
    assert!(no_op_return(&scripts));
    assert_eq!(scripts[2], shared_anchor_script_pubkey());
    let sequence = node_b_commit_tx.sequence;
    assert!(Sequence(sequence).to_consensus_u32() & 0x8000_0000 != 0);
    assert!(inputs_disable_locktime(&vec![sequence]));

    let message = "force-close for M5 manual-funding lifecycle test".to_owned();
    node_b
        .force_close_broadcasting_latest_txn(CHANNEL_ID, NODE_A, message.clone())
        .unwrap();
    assert_eq!(node_b.take_added_monitors().len(), 1);
    check_closed_broadcast(&mut node_b, NODE_A);
    let reason =
        ClosureReason::HolderForceClosed { broadcasted_latest_txn: Some(true), message };
    check_closed_event(&mut node_b, reason, NODE_A, CHAN_VALUE);

    check_ark_descriptor(&node_b, &node_b_commit_tx, ARK_DELTA);
}
