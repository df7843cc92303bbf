//! The transaction of a commitment: what its outputs pay to, and how its input and its lock time
//! carry the number of the commitment.

use crate::channel::INITIAL_COMMITMENT_NUMBER;
use crate::commitment::{
    commitment_lock_time, commitment_sequence, disables_locktime, make_commitment_lock_time,
    make_commitment_sequence, CommitmentOutputsView,
};
use crate::entry::{ChannelEntry, ChannelEntryView};
use crate::htlc_script::{
    lemma_number_reads_back, number_push, push_bytes, push_number, push_op, HtlcTerms,
    HtlcTermsView,
};
use crate::htlcs::Htlc;
use crate::outpoint::FundingOutPoint;
use crate::script::{
    anchor_script, encode_script, instructions_view, op_return_shape, p2wsh_of,
    parsed_script, script_bytes, shared_anchor_script_pubkey, witness_script_pubkey,
    ScriptInstruction, ScriptInstructionView, OP_CHECKSIG, OP_CSV, OP_DROP, OP_ELSE, OP_ENDIF,
    OP_IF,
};
use vstd::prelude::*;

verus! {

/// The hash that `bitcoin::hashes::hash160::Hash::hash` makes.
pub uninterp spec fn hash160_of(bytes: Seq<u8>) -> Seq<u8>;

/// Calls `bitcoin::hashes::hash160::Hash::hash`.
///
/// Claims that the twenty bytes of the hash depend on the hashed bytes alone. Which bytes they are
/// is not stated.
#[verifier::external_body]
fn hash160(bytes: &[u8]) -> (hash: [u8; 20])
    ensures
        hash@ == hash160_of(bytes@),
{
    let hash: bitcoin::hashes::hash160::Hash = bitcoin::hashes::Hash::hash(bytes);
    bitcoin::hashes::Hash::to_byte_array(hash)
}

/// The hash that `bitcoin::hashes::ripemd160::Hash::hash` makes.
pub uninterp spec fn ripemd160_of(bytes: Seq<u8>) -> Seq<u8>;

/// Calls `bitcoin::hashes::ripemd160::Hash::hash`.
///
/// Claims that the twenty bytes of the hash depend on the hashed bytes alone. Which bytes they are
/// is not stated.
#[verifier::external_body]
fn ripemd160(bytes: &[u8]) -> (hash: [u8; 20])
    ensures
        hash@ == ripemd160_of(bytes@),
{
    let hash: bitcoin::hashes::ripemd160::Hash = bitcoin::hashes::Hash::hash(bytes);
    bitcoin::hashes::Hash::to_byte_array(hash)
}

/// The keys of one commitment, and what else both sides have agreed on for it.
#[derive(Clone, Copy, Debug)]
pub struct CommitmentKeys {
    pub revocation_key: [u8; 33],
    pub broadcaster_htlc_key: [u8; 33],
    pub countersignatory_htlc_key: [u8; 33],
    /// What the holder is paid to, once it has waited.
    pub broadcaster_delayed_key: [u8; 33],
    /// How long the holder waits.
    pub to_self_delay: u16,
    /// What the counterparty is paid to.
    pub countersignatory_payment_key: [u8; 33],
    /// What the number of the commitment is hidden with.
    pub obscure_factor: u64,
}

/// An output of a transaction.
#[derive(Clone, PartialEq, Eq, Debug)]
pub struct TxOut {
    pub value_sat: u64,
    pub script_pubkey: Vec<u8>,
}

/// The contents of a [`TxOut`].
#[verifier::ext_equal]
pub struct TxOutView {
    pub value_sat: u64,
    pub script_pubkey: Seq<u8>,
}

impl View for TxOut {
    type V = TxOutView;

    open spec fn view(&self) -> TxOutView {
        TxOutView { value_sat: self.value_sat, script_pubkey: self.script_pubkey@ }
    }
}

/// The contents of outputs.
pub open spec fn txouts_view(outputs: Seq<TxOut>) -> Seq<TxOutView> {
    outputs.map_values(|o: TxOut| o@)
}

/// A commitment, before it is signed and its outputs are put in the order of the chain. It spends
/// the funding output and nothing else.
#[derive(Clone, PartialEq, Eq, Debug)]
pub struct CommitmentTransaction {
    pub funding_txo: FundingOutPoint,
    /// The sequence of the input.
    pub sequence: u32,
    pub lock_time: u32,
    pub outputs: Vec<TxOut>,
}

/// The contents of a [`CommitmentTransaction`].
#[verifier::ext_equal]
pub struct CommitmentTransactionView {
    pub funding_txo: FundingOutPoint,
    pub sequence: u32,
    pub lock_time: u32,
    pub outputs: Seq<TxOutView>,
}

impl View for CommitmentTransaction {
    type V = CommitmentTransactionView;

    open spec fn view(&self) -> CommitmentTransactionView {
        CommitmentTransactionView {
            funding_txo: self.funding_txo,
            sequence: self.sequence,
            lock_time: self.lock_time,
            outputs: txouts_view(self.outputs@),
        }
    }
}

/// The script that pays the holder of a commitment: at once to the counterparty if the commitment
/// was revoked, else to the holder after the delay.
pub open spec fn to_holder_instructions(keys: CommitmentKeys) -> Seq<ScriptInstructionView> {
    seq![
        ScriptInstructionView::Op(OP_IF),
        ScriptInstructionView::PushBytes(keys.revocation_key@),
        ScriptInstructionView::Op(OP_ELSE),
        number_push(keys.to_self_delay as nat),
        ScriptInstructionView::Op(OP_CSV),
        ScriptInstructionView::Op(OP_DROP),
        ScriptInstructionView::PushBytes(keys.broadcaster_delayed_key@),
        ScriptInstructionView::Op(OP_ENDIF),
        ScriptInstructionView::Op(OP_CHECKSIG),
    ]
}

/// The output script of version zero that pays to a key.
pub open spec fn p2wpkh_script(key: Seq<u8>) -> Seq<u8> {
    seq![0x00u8, 0x14u8] + hash160_of(key)
}

/// What the script of an HTLC of the commitment commits to.
pub open spec fn htlc_terms(keys: CommitmentKeys, htlc: Htlc, delta: Option<u16>) -> HtlcTermsView {
    HtlcTermsView {
        offered: htlc.offered,
        revocation_key_hash: hash160_of(keys.revocation_key@),
        countersignatory_htlc_key: keys.countersignatory_htlc_key@,
        broadcaster_htlc_key: keys.broadcaster_htlc_key@,
        payment_hash160: ripemd160_of(htlc.payment_hash.bytes@),
        cltv_expiry: htlc.cltv_expiry,
        success_csv_delta: delta,
    }
}

/// The output of an HTLC.
pub open spec fn htlc_output(keys: CommitmentKeys, htlc: Htlc, delta: Option<u16>) -> TxOutView {
    TxOutView {
        value_sat: htlc.amount_msat / 1000,
        script_pubkey: p2wsh_of(htlc_terms(keys, htlc, delta).script()),
    }
}

/// The output for a balance, if there is one.
pub open spec fn balance_outputs(value_sat: Option<u64>, script_pubkey: Seq<u8>) -> Seq<TxOutView> {
    match value_sat {
        Some(value_sat) => seq![TxOutView { value_sat, script_pubkey }],
        None => seq![],
    }
}

impl CommitmentOutputsView {
    /// The outputs with what they pay to: the balance of the holder, that of the counterparty, the
    /// HTLCs and the shared anchor.
    pub open spec fn txouts(self, keys: CommitmentKeys, delta: Option<u16>) -> Seq<TxOutView> {
        balance_outputs(
            self.to_holder_sat,
            p2wsh_of(script_bytes(to_holder_instructions(keys))),
        ) + balance_outputs(
            self.to_counterparty_sat,
            p2wpkh_script(keys.countersignatory_payment_key@),
        ) + self.htlcs.map_values(|h: Htlc| htlc_output(keys, h, delta)) + seq![
            TxOutView { value_sat: self.anchor_sat, script_pubkey: anchor_script() },
        ]
    }
}

impl ChannelEntryView {
    /// The number of the holder's commitment, hidden.
    pub open spec fn obscured_number(self, keys: CommitmentKeys) -> u64 {
        keys.obscure_factor ^ (INITIAL_COMMITMENT_NUMBER - self.channel.holder_commitment_number)
            as u64
    }

    /// The transaction of the holder's current commitment.
    pub open spec fn holder_transaction(self, keys: CommitmentKeys) -> Option<
        CommitmentTransactionView,
    > {
        match self.holder_commitment() {
            Some(outputs) => Some(
                CommitmentTransactionView {
                    funding_txo: self.channel.funding.funding_txo,
                    sequence: commitment_sequence(self.obscured_number(keys)),
                    lock_time: commitment_lock_time(self.obscured_number(keys)),
                    outputs: outputs.txouts(keys, self.terms.ark_htlc_success_csv_delta),
                },
            ),
            None => None,
        }
    }
}

impl CommitmentKeys {
    /// Writes the witness script of an HTLC of the commitment down.
    pub fn htlc_script(&self, htlc: &Htlc, delta: Option<u16>) -> (script: Vec<u8>)
        ensures
            script@ == htlc_terms(*self, *htlc, delta).script(),
            parsed_script(script@) == Some(htlc_terms(*self, *htlc, delta).instructions()),
    {
        let terms = HtlcTerms {
            offered: htlc.offered,
            revocation_key_hash: hash160(self.revocation_key.as_slice()),
            countersignatory_htlc_key: self.countersignatory_htlc_key,
            broadcaster_htlc_key: self.broadcaster_htlc_key,
            payment_hash160: ripemd160(htlc.payment_hash.bytes.as_slice()),
            cltv_expiry: htlc.cltv_expiry,
            success_csv_delta: delta,
        };
        assert(terms@ == htlc_terms(*self, *htlc, delta));
        terms.witness_script()
    }

    /// Writes the witness script that pays the holder down.
    pub fn to_holder_script(&self) -> (script: Vec<u8>)
        ensures
            script@ == script_bytes(to_holder_instructions(*self)),
    {
        let mut script: Vec<ScriptInstruction> = Vec::new();
        push_op(&mut script, OP_IF);
        push_bytes(&mut script, self.revocation_key.as_slice());
        push_op(&mut script, OP_ELSE);
        push_number(&mut script, self.to_self_delay as u32);
        push_op(&mut script, OP_CSV);
        push_op(&mut script, OP_DROP);
        push_bytes(&mut script, self.broadcaster_delayed_key.as_slice());
        push_op(&mut script, OP_ENDIF);
        push_op(&mut script, OP_CHECKSIG);
        let ghost all = to_holder_instructions(*self);
        assert(instructions_view(script@) =~= all);
        proof {
            lemma_number_reads_back(self.to_self_delay as nat);
            assert forall|i: int| 0 <= i < script.len() implies (
            #[trigger] script@[i])@.is_direct() by {
                assert(instructions_view(script@)[i] == script@[i]@);
                assert(all[i].reads_back());
            }
        }
        encode_script(&script)
    }

    /// Makes the output script that pays the counterparty.
    pub fn to_counterparty_script_pubkey(&self) -> (script: Vec<u8>)
        ensures
            script@ == p2wpkh_script(self.countersignatory_payment_key@),
    {
        let hash = hash160(self.countersignatory_payment_key.as_slice());
        let mut script: Vec<u8> = Vec::new();
        script.push(0x00);
        script.push(0x14);
        script.extend_from_slice(hash.as_slice());
        assert(script@ =~= p2wpkh_script(self.countersignatory_payment_key@));
        script
    }
}

fn push_txout(outputs: &mut Vec<TxOut>, value_sat: u64, script_pubkey: Vec<u8>)
    requires
        !op_return_shape(script_pubkey@),
        forall|i: int|
            0 <= i < old(outputs).len() ==> !op_return_shape(
                (#[trigger] old(outputs)@[i]).script_pubkey@,
            ),
    ensures
        txouts_view(final(outputs)@) == txouts_view(old(outputs)@).push(
            TxOutView { value_sat, script_pubkey: script_pubkey@ },
        ),
        forall|i: int|
            0 <= i < final(outputs).len() ==> !op_return_shape(
                (#[trigger] final(outputs)@[i]).script_pubkey@,
            ),
{
    let ghost view = TxOutView { value_sat, script_pubkey: script_pubkey@ };
    outputs.push(TxOut { value_sat, script_pubkey });
    assert(txouts_view(outputs@) =~= txouts_view(old(outputs)@).push(view));
}

impl ChannelEntry {
    /// Makes the transaction of this side's current commitment. There is none only if the updates
    /// in it contradict each other. No output carries data, and the input has no relative lock
    /// time.
    pub fn local_commitment_transaction(&self, keys: &CommitmentKeys) -> (tx: Option<
        CommitmentTransaction,
    >)
        requires
            self.inv(),
        ensures
            match tx {
                Some(t) => {
                    &&& self@.holder_transaction(*keys) == Some(t@)
                    &&& disables_locktime(t.sequence)
                    &&& forall|i: int|
                        0 <= i < t.outputs.len() ==> !op_return_shape(
                            (#[trigger] t.outputs@[i]).script_pubkey@,
                        )
                },
                None => self@.holder_transaction(*keys) is None && self@.holder_ledger() is None,
            },
    {
        let delta = self.terms.ark_htlc_success_csv_delta;
        let made = match self.local_commitment() {
            Some(made) => made,
            None => {
                return None;
            },
        };
        let mut outputs: Vec<TxOut> = Vec::new();
        assert(txouts_view(outputs@) =~= seq![]);
        if let Some(value_sat) = made.to_holder_sat {
            let script_pubkey = witness_script_pubkey(&keys.to_holder_script());
            push_txout(&mut outputs, value_sat, script_pubkey);
        }
        let ghost holder = balance_outputs(
            made@.to_holder_sat,
            p2wsh_of(script_bytes(to_holder_instructions(*keys))),
        );
        assert(txouts_view(outputs@) =~= holder);
        if let Some(value_sat) = made.to_counterparty_sat {
            push_txout(&mut outputs, value_sat, keys.to_counterparty_script_pubkey());
        }
        let ghost balances = holder + balance_outputs(
            made@.to_counterparty_sat,
            p2wpkh_script(keys.countersignatory_payment_key@),
        );
        assert(txouts_view(outputs@) =~= balances);
        let ghost each = |h: Htlc| htlc_output(*keys, h, delta);
        assert(txouts_view(outputs@) =~= balances + made.htlcs@.take(0).map_values(each));
        let mut i: usize = 0;
        while i < made.htlcs.len()
            invariant
                i <= made.htlcs.len(),
                each == (|h: Htlc| htlc_output(*keys, h, delta)),
                txouts_view(outputs@) == balances + made.htlcs@.take(i as int).map_values(each),
                forall|k: int|
                    0 <= k < outputs.len() ==> !op_return_shape(
                        (#[trigger] outputs@[k]).script_pubkey@,
                    ),
            decreases made.htlcs.len() - i,
        {
            let htlc = made.htlcs[i];
            let script_pubkey = witness_script_pubkey(&keys.htlc_script(&htlc, delta));
            push_txout(&mut outputs, htlc.amount_msat / 1000, script_pubkey);
            assert(made.htlcs@.take(i + 1).map_values(each) =~= made.htlcs@.take(
                i as int,
            ).map_values(each).push(each(htlc)));
            assert(txouts_view(outputs@) =~= balances + made.htlcs@.take(i + 1).map_values(each));
            i = i + 1;
        }
        assert(made.htlcs@.take(made.htlcs.len() as int) =~= made.htlcs@);
        push_txout(&mut outputs, made.anchor_sat, shared_anchor_script_pubkey());
        assert(txouts_view(outputs@) =~= made@.txouts(*keys, delta));
        let obscured: u64 = keys.obscure_factor ^ (INITIAL_COMMITMENT_NUMBER
            - self.channel.holder_commitment_number);
        Some(
            CommitmentTransaction {
                funding_txo: self.channel.funding.funding_txo,
                sequence: make_commitment_sequence(obscured),
                lock_time: make_commitment_lock_time(obscured),
                outputs,
            },
        )
    }
}

} // verus!
