use bitcoin::opcodes::all as op;
use bitcoin::{Script, ScriptBuf, WPubkeyHash, WScriptHash};
use teleport::commitment::{
    inputs_disable_locktime, make_commitment_lock_time, make_commitment_sequence,
};
use teleport::commitment_tx::CommitmentKeys;
use teleport::funding::{
    ChannelTerms, ChannelType, FundingError, FundingStage, HandshakeConfig, PendingChannel,
};
use teleport::htlc_script::HtlcTerms;
use teleport::htlcs::Htlc;
use teleport::msgs::{ChannelId, NodeId, PaymentHash};
use teleport::outpoint::{test_outpoint, BitcoinOutPoint, FundingOutPoint, Txid};
use teleport::script::{
    encode_script, funding_output_script, inspect_instructions, inspect_script,
    is_p2wsh_and_not_p2tr, make_funding_script, no_op_return, shared_anchor_script_pubkey,
    witness_script_pubkey, CsvInspection, ScriptInstruction, OP_CSV, OP_DROP,
};

#[test]
fn outpoint_repeats_its_byte() {
    let outpoint = test_outpoint(3, 1);
    assert_eq!(outpoint, FundingOutPoint { txid: Txid { bytes: [3; 32] }, index: 1 });
    assert_eq!(
        outpoint.into_bitcoin_outpoint(),
        BitcoinOutPoint { txid: Txid { bytes: [3; 32] }, vout: 1 },
    );
    assert_ne!(outpoint, test_outpoint(3, 0));
    assert_ne!(outpoint, test_outpoint(4, 1));
    assert_eq!(test_outpoint(0, u16::MAX).into_bitcoin_outpoint().vout, 65_535);
}

#[test]
fn funding_script_is_shared_and_sorted() {
    let mut low = [2; 33];
    low[32] = 1;
    let high = [2; 33];
    let script = make_funding_script(&low, &high);
    assert_eq!(script, make_funding_script(&high, &low));
    let mut expected = vec![0x52, 33];
    expected.extend_from_slice(&low);
    expected.push(33);
    expected.extend_from_slice(&high);
    expected.extend_from_slice(&[0x52, 0xae]);
    assert_eq!(script, expected);
    assert_eq!(Script::from_bytes(&script).instructions().count(), 5);
}

#[test]
fn funding_output_pays_to_the_hash_of_the_script() {
    let script = make_funding_script(&[2; 33], &[3; 33]);
    let output = funding_output_script(&[3; 33], &[2; 33]);
    let mut expected = vec![0x00, 0x20];
    let hash: WScriptHash = Script::from_bytes(&script).wscript_hash();
    expected.extend_from_slice(hash.as_ref());
    assert_eq!(output, expected);
    assert_eq!(witness_script_pubkey(&script), expected);
    assert!(is_p2wsh_and_not_p2tr(&output));
}

#[test]
fn other_outputs_are_not_p2wsh() {
    let mut taproot = vec![0x51, 0x20];
    taproot.extend_from_slice(&[7; 32]);
    assert!(Script::from_bytes(&taproot).is_p2tr());
    assert!(!is_p2wsh_and_not_p2tr(&taproot));
    assert!(!is_p2wsh_and_not_p2tr(&vec![]));
    assert!(!is_p2wsh_and_not_p2tr(&shared_anchor_script_pubkey()));
}

#[test]
fn anchor_script_is_the_anchor_program() {
    assert_eq!(shared_anchor_script_pubkey(), vec![0x51, 0x02, 0x4e, 0x73]);
}

#[test]
fn op_return_is_found_anywhere() {
    let data = vec![0x6a, 0x01, 0x00];
    assert!(no_op_return(&vec![]));
    assert!(no_op_return(&vec![vec![], vec![0x51]]));
    assert!(!no_op_return(&vec![vec![0x51], data.clone()]));
    assert!(!no_op_return(&vec![data, vec![0x51]]));
}

#[test]
fn relative_lock_times_are_counted_and_guarded() {
    let script = vec![
        ScriptInstruction::PushBytes(vec![0x90, 0x00]),
        ScriptInstruction::Op(OP_CSV),
        ScriptInstruction::Op(OP_DROP),
        ScriptInstruction::Op(0x51),
        ScriptInstruction::Op(OP_CSV),
    ];
    assert_eq!(
        inspect_instructions(&script, 144),
        CsvInspection { csv_count: 2, guarded: true },
    );
    assert_eq!(
        inspect_instructions(&script, 145),
        CsvInspection { csv_count: 2, guarded: false },
    );
    // Something between the push and the check breaks the guard.
    let script = vec![
        ScriptInstruction::PushBytes(vec![0x90, 0x00]),
        ScriptInstruction::Op(OP_DROP),
        ScriptInstruction::Op(OP_CSV),
    ];
    assert_eq!(
        inspect_instructions(&script, 144),
        CsvInspection { csv_count: 1, guarded: false },
    );
    assert_eq!(inspect_instructions(&vec![], 0), CsvInspection { csv_count: 0, guarded: false });
}

#[test]
fn scripts_are_taken_apart_before_they_are_inspected() {
    // The byte of the check inside a push is no check.
    let pushed = vec![0x01, OP_CSV];
    assert_eq!(
        inspect_script(&pushed, 144).unwrap(),
        CsvInspection { csv_count: 0, guarded: false },
    );
    let checked = vec![0x02, 0x90, 0x00, OP_CSV];
    assert_eq!(
        inspect_script(&checked, 144).unwrap(),
        CsvInspection { csv_count: 1, guarded: true },
    );
    // A push that runs past the end.
    assert!(inspect_script(&vec![0x02, 0x90], 144).is_none());
}

#[test]
fn long_pushes_name_their_length() {
    // One, two and four bytes of length, the low byte first, and a lock time check behind each.
    for prefix in [vec![0x4c, 2], vec![0x4d, 2, 0], vec![0x4e, 2, 0, 0, 0]] {
        let mut script = prefix.clone();
        script.extend_from_slice(&[0x90, 0x00, OP_CSV]);
        assert_eq!(
            inspect_script(&script, 144).unwrap(),
            CsvInspection { csv_count: 1, guarded: true },
        );
        // The length runs past the end, or is cut off itself.
        script.truncate(prefix.len() + 1);
        assert!(inspect_script(&script, 144).is_none());
        script.truncate(prefix.len() - 1);
        assert!(inspect_script(&script, 144).is_none());
    }
    // A lock time check within a push is none.
    let mut script = vec![0x4d, 0, 1];
    script.extend_from_slice(&[OP_CSV; 256]);
    assert_eq!(
        inspect_script(&script, 144).unwrap(),
        CsvInspection { csv_count: 0, guarded: false },
    );
    assert_eq!(
        inspect_script(&vec![], 144).unwrap(),
        CsvInspection { csv_count: 0, guarded: false },
    );
}

fn keys() -> CommitmentKeys {
    CommitmentKeys {
        revocation_key: [2; 33],
        broadcaster_htlc_key: [3; 33],
        countersignatory_htlc_key: [4; 33],
        broadcaster_delayed_key: [5; 33],
        to_self_delay: 144,
        countersignatory_payment_key: [6; 33],
        obscure_factor: 0x1234_5678_9abc,
    }
}

fn hash160(bytes: &[u8]) -> [u8; 20] {
    let hash: bitcoin::hashes::hash160::Hash = bitcoin::hashes::Hash::hash(bytes);
    bitcoin::hashes::Hash::to_byte_array(hash)
}

#[test]
fn balances_are_paid_to_their_keys() {
    let expected: ScriptBuf = bitcoin::script::Builder::new()
        .push_opcode(op::OP_IF)
        .push_slice([2; 33])
        .push_opcode(op::OP_ELSE)
        .push_int(144)
        .push_opcode(op::OP_CSV)
        .push_opcode(op::OP_DROP)
        .push_slice([5; 33])
        .push_opcode(op::OP_ENDIF)
        .push_opcode(op::OP_CHECKSIG)
        .into_script();
    assert_eq!(keys().to_holder_script(), expected.into_bytes());
    let key_hash = WPubkeyHash::from_raw_hash(bitcoin::hashes::Hash::hash(&[6; 33]));
    assert_eq!(
        keys().to_counterparty_script_pubkey(),
        ScriptBuf::new_p2wpkh(&key_hash).into_bytes(),
    );
}

#[test]
fn htlc_scripts_hash_the_keys_and_the_payment() {
    let payment_hash: bitcoin::hashes::ripemd160::Hash = bitcoin::hashes::Hash::hash(&[9; 32]);
    let expected = HtlcTerms {
        offered: false,
        revocation_key_hash: hash160(&[2; 33]),
        countersignatory_htlc_key: [4; 33],
        broadcaster_htlc_key: [3; 33],
        payment_hash160: bitcoin::hashes::Hash::to_byte_array(payment_hash),
        cltv_expiry: 700_000,
        success_csv_delta: Some(144),
    };
    let htlc = Htlc {
        htlc_id: 0,
        payment_hash: PaymentHash { bytes: [9; 32] },
        amount_msat: 1_000_000,
        cltv_expiry: 700_000,
        offered: false,
    };
    let script = keys().htlc_script(&htlc, Some(144));
    assert_eq!(script, expected.witness_script());
    assert_ne!(script, keys().htlc_script(&Htlc { offered: true, ..htlc }, Some(144)));
}

#[test]
fn offered_htlc_script_is_the_one_that_a_builder_makes() {
    let expected: ScriptBuf = bitcoin::script::Builder::new()
        .push_opcode(op::OP_DUP)
        .push_opcode(op::OP_HASH160)
        .push_slice([0xa1; 20])
        .push_opcode(op::OP_EQUAL)
        .push_opcode(op::OP_IF)
        .push_opcode(op::OP_CHECKSIG)
        .push_opcode(op::OP_ELSE)
        .push_slice([2; 33])
        .push_opcode(op::OP_SWAP)
        .push_opcode(op::OP_SIZE)
        .push_int(32)
        .push_opcode(op::OP_EQUAL)
        .push_opcode(op::OP_NOTIF)
        .push_opcode(op::OP_DROP)
        .push_int(2)
        .push_opcode(op::OP_SWAP)
        .push_slice([3; 33])
        .push_int(2)
        .push_opcode(op::OP_CHECKMULTISIG)
        .push_opcode(op::OP_ELSE)
        .push_opcode(op::OP_HASH160)
        .push_slice([0xb2; 20])
        .push_opcode(op::OP_EQUALVERIFY)
        .push_opcode(op::OP_CHECKSIG)
        .push_opcode(op::OP_ENDIF)
        .push_opcode(op::OP_ENDIF)
        .into_script();
    let offered = HtlcTerms { offered: true, ..terms(None, 700_000) };
    assert_eq!(offered.witness_script(), expected.into_bytes());
    let locked = HtlcTerms { offered: true, ..terms(Some(144), 700_000) };
    assert_eq!(
        inspect_script(&locked.witness_script(), 144).unwrap(),
        CsvInspection { csv_count: 1, guarded: true },
    );
}

fn terms(success_csv_delta: Option<u16>, cltv_expiry: u32) -> HtlcTerms {
    HtlcTerms {
        offered: false,
        revocation_key_hash: [0xa1; 20],
        countersignatory_htlc_key: [2; 33],
        broadcaster_htlc_key: [3; 33],
        payment_hash160: [0xb2; 20],
        cltv_expiry,
        success_csv_delta,
    }
}

#[test]
fn only_the_success_branch_is_locked() {
    for delta in [128, 144, 255, 256, 1008, 32_767] {
        let script = terms(Some(delta), 700_000).witness_script();
        assert_eq!(
            inspect_script(&script, delta).unwrap(),
            CsvInspection { csv_count: 1, guarded: true },
        );
    }
    let script = terms(None, 700_000).witness_script();
    assert_eq!(
        inspect_script(&script, 144).unwrap(),
        CsvInspection { csv_count: 0, guarded: false },
    );
    // The number of a small delta is an opcode of its own, and a large one takes three bytes.
    for delta in [16, 127, 32_768] {
        let script = terms(Some(delta), 700_000).witness_script();
        assert_eq!(
            inspect_script(&script, delta).unwrap(),
            CsvInspection { csv_count: 1, guarded: false },
        );
    }
}

#[test]
fn the_lock_stands_behind_the_number_of_any_delta() {
    for delta in [0, 1, 16, 17, 127, 128, 255, 256, 32_767, 32_768, u16::MAX] {
        for offered in [false, true] {
            let script = HtlcTerms { offered, ..terms(Some(delta), 700_000) }.witness_script();
            let lock: ScriptBuf = bitcoin::script::Builder::new()
                .push_int(i64::from(delta))
                .push_opcode(op::OP_CSV)
                .push_opcode(op::OP_DROP)
                .into_script();
            let lock = lock.into_bytes();
            let places = script.windows(lock.len()).filter(|part| *part == lock.as_slice());
            assert_eq!(places.count(), 1, "{delta}");
            assert_eq!(inspect_script(&script, delta).unwrap().csv_count, 1);
        }
    }
}

#[test]
fn htlc_script_is_the_one_that_a_builder_makes() {
    for cltv in [0, 1, 16, 17, 127, 128, 700_000, 0x7fff_ffff, u32::MAX] {
        let expected: ScriptBuf = bitcoin::script::Builder::new()
            .push_opcode(op::OP_DUP)
            .push_opcode(op::OP_HASH160)
            .push_slice([0xa1; 20])
            .push_opcode(op::OP_EQUAL)
            .push_opcode(op::OP_IF)
            .push_opcode(op::OP_CHECKSIG)
            .push_opcode(op::OP_ELSE)
            .push_slice([2; 33])
            .push_opcode(op::OP_SWAP)
            .push_opcode(op::OP_SIZE)
            .push_int(32)
            .push_opcode(op::OP_EQUAL)
            .push_opcode(op::OP_IF)
            .push_int(144)
            .push_opcode(op::OP_CSV)
            .push_opcode(op::OP_DROP)
            .push_opcode(op::OP_HASH160)
            .push_slice([0xb2; 20])
            .push_opcode(op::OP_EQUALVERIFY)
            .push_int(2)
            .push_opcode(op::OP_SWAP)
            .push_slice([3; 33])
            .push_int(2)
            .push_opcode(op::OP_CHECKMULTISIG)
            .push_opcode(op::OP_ELSE)
            .push_opcode(op::OP_DROP)
            .push_int(cltv as i64)
            .push_opcode(op::OP_CLTV)
            .push_opcode(op::OP_DROP)
            .push_opcode(op::OP_CHECKSIG)
            .push_opcode(op::OP_ENDIF)
            .push_opcode(op::OP_ENDIF)
            .into_script();
        assert_eq!(terms(Some(144), cltv).witness_script(), expected.into_bytes());
    }
}

#[test]
fn instructions_are_written_in_order() {
    let script = vec![
        ScriptInstruction::Op(0x52),
        ScriptInstruction::PushBytes(vec![1, 2, 3]),
        ScriptInstruction::PushBytes(vec![]),
    ];
    assert_eq!(encode_script(&script), vec![0x52, 3, 1, 2, 3, 0]);
}

#[test]
fn commitment_sequence_holds_the_upper_half_of_the_number() {
    assert_eq!(make_commitment_sequence(0), 0x8000_0000);
    assert_eq!(make_commitment_sequence(0x1234_5678_9abc), 0x8012_3456);
    assert_eq!(make_commitment_lock_time(0), 0x2000_0000);
    assert_eq!(make_commitment_lock_time(0x1234_5678_9abc), 0x2078_9abc);
    assert!(inputs_disable_locktime(&vec![0x8000_0000, 0xffff_ffff]));
    assert!(!inputs_disable_locktime(&vec![0x8000_0000, 144]));
    assert!(inputs_disable_locktime(&vec![]));
}

fn config(zero_fee: bool, ark: bool, delta: Option<u16>) -> HandshakeConfig {
    HandshakeConfig {
        negotiate_anchor_zero_fee_commitments: zero_fee,
        negotiate_ark_channel: ark,
        ark_htlc_success_csv_delta: delta,
    }
}

#[test]
fn both_sides_must_want_a_channel_type() {
    let ark = config(true, true, Some(144));
    let zero_fee = config(true, false, Some(144));
    let stock = config(false, false, None);
    let terms = ChannelTerms::negotiated(&ark, &ark);
    assert_eq!(terms.channel_type, ChannelType::ArkChannel);
    assert_eq!(terms.ark_htlc_success_csv_delta, Some(144));
    let terms = ChannelTerms::negotiated(&ark, &zero_fee);
    assert_eq!(terms.channel_type, ChannelType::ZeroFeeCommitments);
    assert_eq!(terms.ark_htlc_success_csv_delta, None);
    let terms = ChannelTerms::negotiated(&ark, &stock);
    assert_eq!(terms.channel_type, ChannelType::Stock);
    assert_eq!(terms.ark_htlc_success_csv_delta, None);
}

fn pending_channel(is_funder: bool) -> PendingChannel {
    let terms = ChannelTerms::negotiated(&config(false, true, None), &config(false, true, None));
    PendingChannel::new(
        ChannelId { id: 7 },
        NodeId { id: 2 },
        terms,
        1000,
        &[2; 33],
        &[3; 33],
        is_funder,
    )
}

#[test]
fn funding_transaction_must_pay_once() {
    let mut channel = pending_channel(true);
    let script = channel.output_script.clone();
    let txid = test_outpoint(9, 0).txid;

    let err = channel.funding_transaction_generated(txid, &vec![(999, script.clone())]);
    assert_eq!(err.unwrap_err(), FundingError::NoFundingOutput);
    let err = channel.funding_transaction_generated(txid, &vec![(1000, vec![0x51])]);
    assert_eq!(err.unwrap_err(), FundingError::NoFundingOutput);
    let twice = vec![(1000, script.clone()), (1000, script.clone())];
    let err = channel.funding_transaction_generated(txid, &twice);
    assert_eq!(err.unwrap_err(), FundingError::SeveralFundingOutputs);
    let mut far = vec![(0, vec![]); 65_536];
    far.push((1000, script.clone()));
    let err = channel.funding_transaction_generated(txid, &far);
    assert_eq!(err.unwrap_err(), FundingError::IndexTooLarge);

    let outputs = vec![(5, vec![0x51]), (1000, script)];
    let txo = channel.funding_transaction_generated(txid, &outputs).unwrap();
    assert_eq!(txo, FundingOutPoint { txid, index: 1 });
    let again = channel.funding_transaction_generated(txid, &outputs);
    assert_eq!(again.unwrap_err(), FundingError::WrongStage);
}

#[test]
fn opening_steps_belong_to_their_stage() {
    let txo = test_outpoint(9, 0);
    let mut funder = pending_channel(true);
    assert_eq!(funder.handle_funding_created(txo).unwrap_err(), FundingError::WrongStage);
    assert_eq!(funder.handle_funding_signed().unwrap_err(), FundingError::WrongStage);
    assert_eq!(funder.funding_confirmed().unwrap_err(), FundingError::WrongStage);
    assert!(matches!(funder.stage, FundingStage::AwaitingFunding));

    let mut other = pending_channel(false);
    let err = other.unsafe_manual_funding_transaction_generated(txo).unwrap_err();
    assert_eq!(err, FundingError::WrongStage);
    other.handle_funding_created(txo).unwrap();
    assert!(matches!(other.stage, FundingStage::AwaitingConfirmation { .. }));
    other.funding_confirmed().unwrap();
    assert!(matches!(other.stage, FundingStage::Ready { .. }));
    assert_eq!(other.funding_confirmed().unwrap_err(), FundingError::WrongStage);
}
