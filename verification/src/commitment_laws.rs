//! What a commitment pays to whom, said in balances, amounts and keys.

use crate::commitment::{
    commitment_lock_time, commitment_sequence, disables_locktime, htlc_sats, P2A_MAX_VALUE_SAT,
};
use crate::commitment_tx::{hash160_of, htlc_output, ripemd160_of, CommitmentKeys, TxOutView};
use crate::entry::ChannelEntryView;
use crate::htlc_script::{number_push, HtlcTermsView};
use crate::htlcs::{htlc_total, Htlc, InboundStage, Ledger};
use crate::script::{anchor_script, p2wsh_of, script_bytes, ScriptInstructionView};
use vstd::prelude::*;

verus! {

/// The outputs of HTLCs are worth the whole satoshis of each of them, added up.
pub proof fn law_htlc_outputs_add_up(a: Seq<Htlc>, h: Htlc, b: Seq<Htlc>)
    ensures
        htlc_sats(a + seq![h] + b) == htlc_sats(a) + h.amount_msat / 1000 + htlc_sats(b),
        htlc_sats(Seq::<Htlc>::empty()) == 0,
    decreases b.len(),
{
    if b.len() == 0 {
        assert(a + seq![h] + b =~= a.push(h));
        assert(a.push(h).drop_last() =~= a);
    } else {
        assert((a + seq![h] + b).drop_last() =~= a + seq![h] + b.drop_last());
        law_htlc_outputs_add_up(a, h, b.drop_last());
    }
}

/// A commitment pays each side the whole satoshis that are left of its balance beside its HTLCs,
/// and has an output for each HTLC, but for what is below the dust limit. The shared anchor takes
/// what that leaves of the channel's value, up to 240 satoshis.
pub proof fn law_commitment_pays_what_is_owed(l: Ledger, value_sat: u64, dust_limit_sat: u64)
    requires
        htlc_total(l.htlcs, true) <= l.value_to_self_msat,
        htlc_total(l.htlcs, false) <= value_sat * 1000 - l.value_to_self_msat,
    ensures
        ({
            let o = l.outputs(value_sat, dust_limit_sat);
            let holder_sat = (l.value_to_self_msat - htlc_total(l.htlcs, true)) / 1000;
            let other_sat = (value_sat * 1000 - l.value_to_self_msat - htlc_total(l.htlcs, false))
                / 1000;
            let paid_holder = match o.to_holder_sat {
                Some(sat) => sat as int,
                None => 0,
            };
            let paid_other = match o.to_counterparty_sat {
                Some(sat) => sat as int,
                None => 0,
            };
            let rest = value_sat - paid_holder - paid_other - htlc_sats(o.htlcs);
            &&& o.to_holder_sat is Some <==> holder_sat >= dust_limit_sat
            &&& o.to_holder_sat is Some ==> o.to_holder_sat->Some_0 == holder_sat
            &&& o.to_counterparty_sat is Some <==> other_sat >= dust_limit_sat
            &&& o.to_counterparty_sat is Some ==> o.to_counterparty_sat->Some_0 == other_sat
            &&& o.htlcs == l.htlcs.filter(|h: Htlc| h.amount_msat / 1000 >= dust_limit_sat)
            &&& rest >= 0
            &&& o.anchor_sat == (if rest < 240 {
                rest
            } else {
                240
            })
            &&& o.count() == o.htlcs.len() + 1 + (if o.to_holder_sat is Some {
                1int
            } else {
                0
            }) + (if o.to_counterparty_sat is Some {
                1int
            } else {
                0
            })
            &&& P2A_MAX_VALUE_SAT == 240
        }),
{
    crate::commitment::law_commitment_stays_within_channel(l, value_sat, dust_limit_sat);
    crate::commitment::lemma_sats_within_totals(l.htlcs, dust_limit_sat);
}

/// A side's own commitment carries the HTLCs of the channel, together with the counterparty's
/// updates once this side holds a signature for them: all of them, and before that none. It exists
/// exactly if those updates fit together and the balances cover the HTLCs.
pub proof fn law_own_commitment_carries_what_is_signed(e: ChannelEntryView)
    ensures
        ({
            let ledger = Ledger {
                value_to_self_msat: e.channel.funding.value_to_self_msat,
                feerate_per_kw: e.channel.feerate_per_kw,
                htlcs: e.book.htlcs,
            };
            let value_sat = e.channel.funding.value_sat;
            let signed = e.book.inbound_stage == InboundStage::LocalCommitted
                || e.book.inbound_stage == InboundStage::Acked;
            let carried = if signed {
                ledger.apply_all(e.book.inbound, false, value_sat * 1000)
            } else {
                Some(ledger)
            };
            let covered = carried is Some && {
                let l = carried->Some_0;
                &&& htlc_total(l.htlcs, true) <= l.value_to_self_msat
                &&& htlc_total(l.htlcs, false) <= value_sat * 1000 - l.value_to_self_msat
            };
            &&& e.holder_commitment() is Some <==> covered
            &&& covered ==> e.holder_commitment()->Some_0 == carried->Some_0.outputs(
                value_sat,
                e.channel.dust_limit_sat,
            )
        }),
{
}

/// A commitment hides its number in its sequence and its lock time, three bytes in each, from which
/// it can be read back. The first byte of the sequence switches its relative lock time off, and
/// that of the lock time makes it a time that is long past.
pub proof fn law_number_is_read_back(obscured_number: u64)
    requires
        obscured_number < 0x1_0000_0000_0000,
    ensures
        ({
            let sequence = commitment_sequence(obscured_number);
            let lock_time = commitment_lock_time(obscured_number);
            &&& (sequence % 0x100_0000) * 0x100_0000 + lock_time % 0x100_0000 == obscured_number
            &&& sequence / 0x100_0000 == 0x80
            &&& lock_time / 0x100_0000 == 0x20
        }),
{
    let upper = ((obscured_number / 0x100_0000) % 0x100_0000) as u32;
    let lower = (obscured_number % 0x100_0000) as u32;
    assert((0x8000_0000u32 | upper) == 0x8000_0000u32 + upper) by (bit_vector)
        requires
            upper < 0x100_0000u32,
    ;
    assert((0x2000_0000u32 | lower) == 0x2000_0000u32 + lower) by (bit_vector)
        requires
            lower < 0x100_0000u32,
    ;
}

/// A sequence switches the relative lock time off exactly if its highest bit is set, and that of a
/// commitment does.
pub proof fn law_highest_bit_disables_the_lock(sequence: u32, obscured_number: u64)
    ensures
        disables_locktime(sequence) <==> sequence >= 0x8000_0000,
        disables_locktime(commitment_sequence(obscured_number)),
{
    assert(sequence & 0x8000_0000u32 != 0 <==> sequence >= 0x8000_0000u32) by (bit_vector);
    let upper = ((obscured_number / 0x100_0000) % 0x100_0000) as u32;
    assert((0x8000_0000u32 | upper) & 0x8000_0000u32 != 0) by (bit_vector);
}

/// Two commitments of one channel that have different numbers are told apart by what they hide.
pub proof fn law_numbers_stay_apart(a: ChannelEntryView, b: ChannelEntryView, keys: CommitmentKeys)
    requires
        a.channel.inv(),
        b.channel.inv(),
        a.channel.holder_commitment_number != b.channel.holder_commitment_number,
    ensures
        a.obscured_number(keys) != b.obscured_number(keys),
        a.obscured_number(keys) ^ keys.obscure_factor == 0xffff_ffff_ffff
            - a.channel.holder_commitment_number,
{
    let f = keys.obscure_factor;
    let x = (0xffff_ffff_ffff - a.channel.holder_commitment_number) as u64;
    let y = (0xffff_ffff_ffff - b.channel.holder_commitment_number) as u64;
    assert((f ^ x) ^ f == x) by (bit_vector);
    assert((f ^ y) ^ f == y) by (bit_vector);
}

/// The transaction of a commitment spends the output that the channel is on. Its outputs are those
/// of the commitment, in a fixed order, each with its value and paid to what it belongs to: the
/// holder's after a delay or at once with the revocation key, the counterparty's to its key, each
/// HTLC's to the script of that very HTLC with the channel's delta, the anchor's to anyone.
pub proof fn law_transaction_pays_to_the_right_keys(e: ChannelEntryView, keys: CommitmentKeys)
    requires
        e.holder_commitment() is Some,
    ensures
        ({
            let o = e.holder_commitment()->Some_0;
            let tx = e.holder_transaction(keys);
            let outputs = tx->Some_0.outputs;
            let h: int = if o.to_holder_sat is Some {
                1
            } else {
                0
            };
            let c: int = if o.to_counterparty_sat is Some {
                1
            } else {
                0
            };
            &&& tx is Some
            &&& tx->Some_0.funding_txo == e.channel.funding.funding_txo
            &&& tx->Some_0.sequence == commitment_sequence(e.obscured_number(keys))
            &&& tx->Some_0.lock_time == commitment_lock_time(e.obscured_number(keys))
            &&& outputs.len() == h + c + o.htlcs.len() + 1
            &&& o.to_holder_sat is Some ==> outputs[0] == (TxOutView {
                value_sat: o.to_holder_sat->Some_0,
                script_pubkey: p2wsh_of(
                    script_bytes(
                        seq![
                            ScriptInstructionView::Op(0x63),
                            ScriptInstructionView::PushBytes(keys.revocation_key@),
                            ScriptInstructionView::Op(0x67),
                            number_push(keys.to_self_delay as nat),
                            ScriptInstructionView::Op(0xb2),
                            ScriptInstructionView::Op(0x75),
                            ScriptInstructionView::PushBytes(keys.broadcaster_delayed_key@),
                            ScriptInstructionView::Op(0x68),
                            ScriptInstructionView::Op(0xac),
                        ],
                    ),
                ),
            })
            &&& o.to_counterparty_sat is Some ==> outputs[h] == (TxOutView {
                value_sat: o.to_counterparty_sat->Some_0,
                script_pubkey: seq![0x00u8, 0x14u8] + hash160_of(
                    keys.countersignatory_payment_key@,
                ),
            })
            &&& forall|k: int|
                0 <= k < o.htlcs.len() ==> outputs[h + c + k] == (TxOutView {
                    value_sat: (#[trigger] o.htlcs[k]).amount_msat / 1000,
                    script_pubkey: p2wsh_of(
                        HtlcTermsView {
                            offered: o.htlcs[k].offered,
                            revocation_key_hash: hash160_of(keys.revocation_key@),
                            countersignatory_htlc_key: keys.countersignatory_htlc_key@,
                            broadcaster_htlc_key: keys.broadcaster_htlc_key@,
                            payment_hash160: ripemd160_of(o.htlcs[k].payment_hash.bytes@),
                            cltv_expiry: o.htlcs[k].cltv_expiry,
                            success_csv_delta: e.terms.ark_htlc_success_csv_delta,
                        }.script(),
                    ),
                })
            &&& outputs.last() == (TxOutView {
                value_sat: o.anchor_sat,
                script_pubkey: anchor_script(),
            })
        }),
{
    let o = e.holder_commitment()->Some_0;
    let delta = e.terms.ark_htlc_success_csv_delta;
    let each = |h: Htlc| htlc_output(keys, h, delta);
    assert forall|k: int| 0 <= k < o.htlcs.len() implies o.htlcs.map_values(each)[k]
        == htlc_output(keys, #[trigger] o.htlcs[k], delta) by {}
}

} // verus!
