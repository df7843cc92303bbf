//! Claiming on chain: which HTLCs of a confirmed commitment this side can take, and in which
//! transactions.
//!
//! A claim transaction must stay under a weight limit, so a claim is split into batches. What the
//! wallet can add to a batch is known only once it has been asked. A batch that the wallet cannot
//! fund within the limit is made two HTLCs smaller and tried again, until nothing is left of it.

use crate::commitment_tx::{
    balance_outputs, hash160_of, htlc_output, htlc_terms, p2wpkh_script, ripemd160_of,
    to_holder_instructions, CommitmentKeys, CommitmentTransaction, CommitmentTransactionView,
    TxOutView,
};
use crate::entry::{ChannelEntry, ChannelEntryView};
use crate::htlc_script::{
    law_only_the_success_branch_is_locked, lemma_holds_lock, HtlcTermsView,
};
use crate::htlcs::Htlc;
use crate::msgs::PaymentHash;
use crate::script::{anchor_script, csv_count, p2wsh_of, parsed_script, script_bytes};
use vstd::prelude::*;

verus! {

/// The heaviest transaction of its version that is relayed.
pub const TRUC_MAX_WEIGHT: u64 = 40_000;

/// The heaviest such transaction that is relayed if it spends an unconfirmed one.
pub const TRUC_CHILD_MAX_WEIGHT: u64 = 4_000;

/// Version, lock time and the two counts, in bytes.
pub const BASE_TX_SIZE: u64 = 10;

pub const SEGWIT_MARKER_FLAG_WEIGHT: u64 = 2;

/// Outpoint and sequence of an input.
pub const BASE_INPUT_WEIGHT: u64 = 160;

pub const EMPTY_SCRIPT_SIG_WEIGHT: u64 = 4;

pub const EMPTY_WITNESS_WEIGHT: u64 = 1;

pub const P2WSH_TXOUT_WEIGHT: u64 = 172;

/// How many HTLCs a batch loses when it cannot be funded.
pub const BATCH_REDUCTION: usize = 2;

/// Reads `bitcoin::constants::WITNESS_SCALE_FACTOR`.
///
/// Claims that a byte outside the witness weighs four units.
#[verifier::external_body]
fn witness_scale_factor() -> (factor: u64)
    ensures
        factor == 4,
{
    bitcoin::constants::WITNESS_SCALE_FACTOR as u64
}

/// What a transaction weighs that spends the shared anchor of a commitment into one output, without
/// what the wallet adds.
pub open spec fn anchor_base_weight() -> int {
    BASE_TX_SIZE * 4 + SEGWIT_MARKER_FLAG_WEIGHT + BASE_INPUT_WEIGHT + EMPTY_SCRIPT_SIG_WEIGHT
        + EMPTY_WITNESS_WEIGHT + P2WSH_TXOUT_WEIGHT
}

/// The most that the coins may weigh which the wallet adds to a transaction that spends the shared
/// anchor.
pub fn max_coin_selection_weight() -> (weight: u64)
    ensures
        weight == TRUC_CHILD_MAX_WEIGHT - anchor_base_weight(),
        weight == 3621,
{
    TRUC_CHILD_MAX_WEIGHT - BASE_TX_SIZE * witness_scale_factor() - SEGWIT_MARKER_FLAG_WEIGHT
        - BASE_INPUT_WEIGHT - EMPTY_SCRIPT_SIG_WEIGHT - EMPTY_WITNESS_WEIGHT - P2WSH_TXOUT_WEIGHT
}

/// The coins that the wallet adds to a transaction.
#[derive(Clone, Copy, Debug)]
pub struct CoinSelection {
    /// The number of coins.
    pub inputs: u32,
    /// What the coins weigh as inputs.
    pub weight: u64,
    /// Whether some of their value comes back in an output of its own.
    pub has_change: bool,
}

/// The shape of a transaction.
#[derive(Clone, Copy, PartialEq, Eq, Structural, Debug)]
pub struct TransactionShape {
    pub inputs: u64,
    pub outputs: u64,
}

/// The transaction that bumps the fee of a commitment: it spends the shared anchor and the wallet's
/// coins into one output. It stays below the limit. There is none if the wallet found no coins, or
/// only such as would make the transaction too heavy.
pub fn bump_commitment(coins: Option<CoinSelection>) -> (bump: Option<(TransactionShape, u64)>)
    ensures
        match coins {
            Some(c) if anchor_base_weight() + c.weight < TRUC_CHILD_MAX_WEIGHT => {
                &&& bump is Some
                &&& bump->Some_0.0.inputs == c.inputs + 1
                &&& bump->Some_0.0.outputs == 1
                &&& bump->Some_0.1 == anchor_base_weight() + c.weight
            },
            _ => bump is None,
        },
        bump is Some ==> bump->Some_0.1 < TRUC_CHILD_MAX_WEIGHT,
{
    let max: u64 = max_coin_selection_weight();
    match coins {
        Some(c) => if c.weight < max {
            Some(
                (
                    TransactionShape { inputs: c.inputs as u64 + 1, outputs: 1 },
                    TRUC_CHILD_MAX_WEIGHT - max + c.weight,
                ),
            )
        } else {
            None
        },
        None => None,
    }
}

/// The transaction that bumps a commitment. Its first input is the shared anchor of the commitment,
/// the others are the wallet's coins.
#[derive(Clone, Copy, PartialEq, Eq, Structural, Debug)]
pub struct AnchorChild {
    /// The position of the anchor among the outputs of the commitment.
    pub anchor_position: usize,
    pub shape: TransactionShape,
    pub weight: u64,
}

impl ChannelEntryView {
    /// The holder's commitment and the child that bumps it, which are broadcast together. There is
    /// nothing to broadcast without a commitment, and none without coins that keep the child below
    /// the limit.
    pub open spec fn bumped_commitment(
        self,
        keys: CommitmentKeys,
        coins: Option<CoinSelection>,
    ) -> Option<(CommitmentTransactionView, AnchorChild)> {
        match (self.holder_transaction(keys), coins) {
            (Some(tx), Some(c)) if anchor_base_weight() + c.weight < TRUC_CHILD_MAX_WEIGHT => Some(
                (
                    tx,
                    AnchorChild {
                        anchor_position: (tx.outputs.len() - 1) as usize,
                        shape: TransactionShape { inputs: (c.inputs + 1) as u64, outputs: 1 },
                        weight: (anchor_base_weight() + c.weight) as u64,
                    },
                ),
            ),
            _ => None,
        }
    }
}

impl ChannelEntry {
    /// Makes what is broadcast to close the channel with this side's current commitment: the
    /// commitment, and a child that spends its anchor and pays for both. Without coins for the
    /// child the commitment is not broadcast either.
    pub fn bump_local_commitment(&self, keys: &CommitmentKeys, coins: Option<CoinSelection>)
        -> (package: Option<(CommitmentTransaction, AnchorChild)>)
        requires
            self.inv(),
        ensures
            match package {
                Some((tx, child)) => {
                    &&& self@.bumped_commitment(*keys, coins) == Some((tx@, child))
                    &&& child.anchor_position < tx.outputs.len()
                    &&& tx@.outputs[child.anchor_position as int].script_pubkey == anchor_script()
                    &&& child.weight < TRUC_CHILD_MAX_WEIGHT
                },
                None => self@.bumped_commitment(*keys, coins) is None,
            },
    {
        let (shape, weight): (TransactionShape, u64) = match bump_commitment(coins) {
            Some(bump) => bump,
            None => {
                return None;
            },
        };
        match self.local_commitment_transaction(keys) {
            Some(tx) => {
                let anchor_position: usize = tx.outputs.len() - 1;
                Some((tx, AnchorChild { anchor_position, shape, weight }))
            },
            None => None,
        }
    }
}

/// A commitment is broadcast exactly if there is one and the wallet found coins that weigh less
/// than 3621. Then it goes out as it is, with a child that spends its last output, which is the
/// anchor, and the coins into one output, and weighs 379 more than the coins: less than 4000.
pub proof fn law_commitment_is_broadcast_with_its_child(
    e: ChannelEntryView,
    keys: CommitmentKeys,
    coins: Option<CoinSelection>,
)
    ensures
        ({
            let package = e.bumped_commitment(keys, coins);
            &&& package is Some <==> e.holder_transaction(keys) is Some && coins is Some
                && coins->Some_0.weight < 3621
            &&& package is Some ==> {
                let (tx, child) = package->Some_0;
                &&& Some(tx) == e.holder_transaction(keys)
                &&& tx.outputs.len() <= usize::MAX ==> child.anchor_position == tx.outputs.len() - 1
                &&& tx.outputs.last().script_pubkey == anchor_script()
                &&& child.shape.inputs == coins->Some_0.inputs + 1
                &&& child.shape.outputs == 1
                &&& child.weight == coins->Some_0.weight + 379
                &&& child.weight < 4000
            }
        }),
{
}

/// How many HTLCs of the given weight fit under a limit beside what is reserved for the rest of the
/// transaction.
pub fn max_htlcs_per_batch(max_weight: u64, reserved_weight: u64, htlc_weight: u64) -> (max: u64)
    requires
        reserved_weight <= max_weight,
        htlc_weight > 0,
    ensures
        reserved_weight + max * htlc_weight <= max_weight,
        reserved_weight + (max + 1) * htlc_weight > max_weight,
{
    let room: u64 = max_weight - reserved_weight;
    let max: u64 = room / htlc_weight;
    assert(max * htlc_weight <= room && (max + 1) * htlc_weight > room) by (nonlinear_arith)
        requires
            max == room / htlc_weight,
            htlc_weight > 0,
    ;
    max
}

/// An HTLC that this side can take with a preimage.
#[derive(Clone, Copy, Debug)]
pub struct HtlcDescriptor {
    pub htlc: Htlc,
    /// The lock on the success branch of the HTLC's script.
    pub ark_htlc_success_csv_delta: Option<u16>,
    /// The sequence of the input that spends the HTLC. It waits for the lock.
    pub sequence: u32,
}

impl HtlcDescriptor {
    /// What the script of the HTLC commits to.
    pub open spec fn terms(self, keys: CommitmentKeys) -> HtlcTermsView {
        htlc_terms(keys, self.htlc, self.ark_htlc_success_csv_delta)
    }

    /// Writes the witness script of the HTLC down. If there is an Ark delta, whoever reads the
    /// script finds one relative lock time, directly behind the number of the delta.
    pub fn witness_script(&self, keys: &CommitmentKeys) -> (script: Vec<u8>)
        ensures
            script@ == self.terms(*keys).script(),
            parsed_script(script@) == Some(self.terms(*keys).instructions()),
            match self.ark_htlc_success_csv_delta {
                Some(delta) => self.terms(*keys).holds_lock(delta),
                None => csv_count(self.terms(*keys).instructions()) == 0,
            },
    {
        proof {
            law_only_the_success_branch_is_locked(self.terms(*keys));
            if self.ark_htlc_success_csv_delta is Some {
                lemma_holds_lock(self.terms(*keys));
            }
        }
        keys.htlc_script(&self.htlc, self.ark_htlc_success_csv_delta)
    }
}

impl ChannelEntryView {
    /// Whether this side received the HTLC and its monitor knows the preimage.
    pub open spec fn can_claim(self, htlc: Htlc) -> bool {
        !htlc.offered && self.monitor.preimages.contains(htlc.payment_hash)
    }

    /// How this side spends an HTLC of its confirmed commitment.
    pub open spec fn descriptor(self, htlc: Htlc) -> HtlcDescriptor {
        HtlcDescriptor {
            htlc,
            ark_htlc_success_csv_delta: self.terms.ark_htlc_success_csv_delta,
            sequence: match self.terms.ark_htlc_success_csv_delta {
                Some(delta) => delta as u32,
                None => 0,
            },
        }
    }

    /// The HTLCs that this side can take with a preimage once its commitment is confirmed: those
    /// among the outputs of the commitment.
    pub open spec fn htlc_claims(self) -> Seq<HtlcDescriptor> {
        match self.holder_commitment() {
            Some(outputs) => outputs.htlcs.filter(|h: Htlc| self.can_claim(h)).map_values(
                |h: Htlc| self.descriptor(h),
            ),
            None => seq![],
        }
    }
}

fn knows_preimage(preimages: &Vec<PaymentHash>, payment_hash: PaymentHash) -> (r: bool)
    ensures
        r == preimages@.contains(payment_hash),
{
    let mut i: usize = 0;
    while i < preimages.len()
        invariant
            i <= preimages.len(),
            forall|j: int| 0 <= j < i ==> #[trigger] preimages@[j] != payment_hash,
        decreases preimages.len() - i,
    {
        if preimages[i] == payment_hash {
            assert(preimages@[i as int] == payment_hash);
            return true;
        }
        i = i + 1;
    }
    false
}

impl ChannelEntry {
    /// Lists the HTLCs that this side can take with a preimage once its commitment is confirmed.
    pub fn htlc_claims(&self) -> (descriptors: Vec<HtlcDescriptor>)
        requires
            self.inv(),
        ensures
            descriptors@ == self@.htlc_claims(),
            forall|i: int|
                0 <= i < descriptors.len() ==> {
                    &&& !(#[trigger] descriptors@[i]).htlc.offered
                    &&& descriptors@[i].ark_htlc_success_csv_delta
                        == self.terms.ark_htlc_success_csv_delta
                    &&& match self.terms.ark_htlc_success_csv_delta {
                        Some(delta) => descriptors@[i].sequence == delta,
                        None => descriptors@[i].sequence == 0,
                    }
                },
    {
        let kept = match self.local_commitment() {
            Some(outputs) => outputs.htlcs,
            None => Vec::new(),
        };
        let ghost all = kept@;
        let ghost can = |h: Htlc| self@.can_claim(h);
        let ghost describe = |h: Htlc| self@.descriptor(h);
        let mut descriptors: Vec<HtlcDescriptor> = Vec::new();
        let sequence: u32 = match self.terms.ark_htlc_success_csv_delta {
            Some(delta) => delta as u32,
            None => 0,
        };
        proof {
            reveal(Seq::filter);
            assert(descriptors@ =~= all.take(0).filter(can).map_values(describe));
        }
        let mut i: usize = 0;
        while i < kept.len()
            invariant
                i <= kept.len(),
                all == kept@,
                can == (|h: Htlc| self@.can_claim(h)),
                describe == (|h: Htlc| self@.descriptor(h)),
                sequence == match self.terms.ark_htlc_success_csv_delta {
                    Some(delta) => delta as u32,
                    None => 0,
                },
                descriptors@ == all.take(i as int).filter(can).map_values(describe),
                forall|k: int|
                    0 <= k < descriptors.len() ==> {
                        &&& !(#[trigger] descriptors@[k]).htlc.offered
                        &&& descriptors@[k].ark_htlc_success_csv_delta
                            == self.terms.ark_htlc_success_csv_delta
                        &&& descriptors@[k].sequence == sequence
                    },
            decreases kept.len() - i,
        {
            let ghost earlier = all.take(i as int).filter(can);
            proof {
                reveal(Seq::filter);
                assert(all.take(i + 1).drop_last() =~= all.take(i as int));
                assert(all.take(i + 1).last() == all[i as int]);
            }
            let htlc = kept[i];
            if !htlc.offered && knows_preimage(&self.monitor.preimages, htlc.payment_hash) {
                let ghost before = descriptors@;
                descriptors.push(
                    HtlcDescriptor {
                        htlc,
                        ark_htlc_success_csv_delta: self.terms.ark_htlc_success_csv_delta,
                        sequence,
                    },
                );
                assert(all.take(i + 1).filter(can) =~= earlier.push(htlc));
                assert(descriptors@ =~= all.take(i + 1).filter(can).map_values(describe));
            }
            i = i + 1;
        }
        assert(all.take(all.len() as int) =~= all);
        assert(descriptors@ =~= self@.htlc_claims());
        descriptors
    }
}

/// A descriptor is of the HTLC that it names: its script is that of this HTLC, with these keys and
/// with the delta of the descriptor.
pub proof fn law_descriptor_names_its_script(d: HtlcDescriptor, keys: CommitmentKeys)
    ensures
        d.terms(keys) == (HtlcTermsView {
            offered: d.htlc.offered,
            revocation_key_hash: hash160_of(keys.revocation_key@),
            countersignatory_htlc_key: keys.countersignatory_htlc_key@,
            broadcaster_htlc_key: keys.broadcaster_htlc_key@,
            payment_hash160: ripemd160_of(d.htlc.payment_hash.bytes@),
            cltv_expiry: d.htlc.cltv_expiry,
            success_csv_delta: d.ark_htlc_success_csv_delta,
        }),
{
}

/// The Ark delta of the channel reaches the chain: each HTLC that this side can take is an output
/// of its commitment, the script that the output pays to has the delta in its only relative lock
/// time, and the input that spends the output waits for it. That holds of every delta whose number
/// takes two bytes.
pub proof fn law_ark_delta_reaches_every_claim(e: ChannelEntryView, keys: CommitmentKeys, i: int)
    requires
        0 <= i < e.htlc_claims().len(),
        e.terms.ark_htlc_success_csv_delta is Some,
    ensures
        ({
            let delta = e.terms.ark_htlc_success_csv_delta->Some_0;
            let claim = e.htlc_claims()[i];
            let instructions = claim.terms(keys).instructions();
            &&& e.holder_transaction(keys) is Some
            &&& e.holder_transaction(keys)->Some_0.outputs.contains(
                TxOutView {
                    value_sat: claim.htlc.amount_msat / 1000,
                    script_pubkey: p2wsh_of(script_bytes(instructions)),
                },
            )
            &&& claim.terms(keys).holds_lock(delta)
            &&& claim.ark_htlc_success_csv_delta == Some(delta)
            &&& claim.sequence == delta
        }),
{
    let delta = e.terms.ark_htlc_success_csv_delta;
    let outputs = e.holder_commitment()->Some_0;
    let claimed = outputs.htlcs.filter(|h: Htlc| e.can_claim(h));
    let claim = e.htlc_claims()[i];
    assert(claim == e.descriptor(claimed[i]));
    lemma_filter_keeps(outputs.htlcs, |h: Htlc| e.can_claim(h), i);
    let k = choose|k: int| 0 <= k < outputs.htlcs.len() && outputs.htlcs[k] == claimed[i];
    let balances = balance_outputs(
        outputs.to_holder_sat,
        p2wsh_of(script_bytes(to_holder_instructions(keys))),
    ) + balance_outputs(
        outputs.to_counterparty_sat,
        p2wpkh_script(keys.countersignatory_payment_key@),
    );
    let n = balances.len() as int;
    assert(outputs.txouts(keys, delta)[n + k] == htlc_output(keys, claimed[i], delta));
    lemma_holds_lock(claim.terms(keys));
}

proof fn lemma_filter_keeps(htlcs: Seq<Htlc>, keeps: spec_fn(Htlc) -> bool, i: int)
    requires
        0 <= i < htlcs.filter(keeps).len(),
    ensures
        exists|k: int| 0 <= k < htlcs.len() && htlcs[k] == htlcs.filter(keeps)[i],
    decreases htlcs.len(),
{
    reveal(Seq::filter);
    if htlcs.len() > 0 {
        let earlier = htlcs.drop_last().filter(keeps);
        if i < earlier.len() {
            lemma_filter_keeps(htlcs.drop_last(), keeps, i);
            let k = choose|k: int|
                0 <= k < htlcs.drop_last().len() && htlcs.drop_last()[k] == earlier[i];
            assert(htlcs[k] == earlier[i]);
        } else {
            assert(htlcs[htlcs.len() - 1] == htlcs.filter(keeps)[i]);
        }
    }
}

proof fn lemma_filter_finds(htlcs: Seq<Htlc>, keeps: spec_fn(Htlc) -> bool, k: int)
    requires
        0 <= k < htlcs.len(),
        keeps(htlcs[k]),
    ensures
        exists|i: int| 0 <= i < htlcs.filter(keeps).len() && htlcs.filter(keeps)[i] == htlcs[k],
    decreases htlcs.len(),
{
    reveal(Seq::filter);
    let last = htlcs.len() - 1;
    let earlier = htlcs.drop_last().filter(keeps);
    if k == last {
        assert(htlcs.filter(keeps)[earlier.len() as int] == htlcs[k]);
    } else {
        lemma_filter_finds(htlcs.drop_last(), keeps, k);
        let i = choose|i: int| 0 <= i < earlier.len() && earlier[i] == htlcs.drop_last()[k];
        assert(htlcs.filter(keeps)[i] == htlcs[k]);
    }
}

proof fn lemma_filter_only_keeps(htlcs: Seq<Htlc>, keeps: spec_fn(Htlc) -> bool)
    ensures
        htlcs.filter(keeps).len() <= htlcs.len(),
        forall|i: int|
            0 <= i < htlcs.filter(keeps).len() ==> keeps(#[trigger] htlcs.filter(keeps)[i]),
    decreases htlcs.len(),
{
    reveal(Seq::filter);
    if htlcs.len() > 0 {
        lemma_filter_only_keeps(htlcs.drop_last(), keeps);
    }
}

/// What is claimed is what can be claimed. Each descriptor is for a received HTLC among the outputs
/// of the commitment whose preimage the monitor knows, it describes that HTLC with the channel's
/// delta, and it waits for the delta. Each such HTLC has a descriptor. There are no more
/// descriptors than HTLCs, and without a preimage there is none.
pub proof fn law_claims_need_their_preimages(e: ChannelEntryView)
    ensures
        forall|i: int|
            0 <= i < e.htlc_claims().len() ==> {
                let claim = #[trigger] e.htlc_claims()[i];
                &&& e.monitor.preimages.contains(claim.htlc.payment_hash)
                &&& !claim.htlc.offered
                &&& e.holder_commitment() is Some
                &&& e.holder_commitment()->Some_0.htlcs.contains(claim.htlc)
                &&& claim.ark_htlc_success_csv_delta == e.terms.ark_htlc_success_csv_delta
                &&& claim.sequence == match e.terms.ark_htlc_success_csv_delta {
                    Some(delta) => delta as int,
                    None => 0,
                }
            },
        e.holder_commitment() is Some ==> forall|k: int|
            0 <= k < e.holder_commitment()->Some_0.htlcs.len() && !(
            #[trigger] e.holder_commitment()->Some_0.htlcs[k]).offered
                && e.monitor.preimages.contains(
                e.holder_commitment()->Some_0.htlcs[k].payment_hash,
            ) ==> exists|i: int|
                0 <= i < e.htlc_claims().len() && (#[trigger] e.htlc_claims()[i]).htlc
                    == e.holder_commitment()->Some_0.htlcs[k],
        e.holder_commitment() is Some ==> e.htlc_claims().len()
            <= e.holder_commitment()->Some_0.htlcs.len(),
        e.monitor.preimages.len() == 0 ==> e.htlc_claims().len() == 0,
        e.holder_commitment() is Some ==> e.htlc_claims().map_values(|d: HtlcDescriptor| d.htlc)
            == e.holder_commitment()->Some_0.htlcs.filter(
            |h: Htlc| !h.offered && e.monitor.preimages.contains(h.payment_hash),
        ),
        e.holder_commitment() is None ==> e.htlc_claims().len() == 0,
{
    let can = |h: Htlc| e.can_claim(h);
    if let Some(outputs) = e.holder_commitment() {
        let claimed = outputs.htlcs.filter(can);
        lemma_filter_only_keeps(outputs.htlcs, can);
        assert(e.htlc_claims() =~= claimed.map_values(|h: Htlc| e.descriptor(h)));
        assert forall|i: int| 0 <= i < e.htlc_claims().len() implies {
            let claim = #[trigger] e.htlc_claims()[i];
            &&& e.monitor.preimages.contains(claim.htlc.payment_hash)
            &&& !claim.htlc.offered
            &&& outputs.htlcs.contains(claim.htlc)
        } by {
            assert(can(claimed[i]));
            lemma_filter_keeps(outputs.htlcs, can, i);
        }
        assert forall|k: int|
            0 <= k < outputs.htlcs.len() && !(#[trigger] outputs.htlcs[k]).offered
                && e.monitor.preimages.contains(outputs.htlcs[k].payment_hash) implies exists|i: int|
            0 <= i < e.htlc_claims().len() && (#[trigger] e.htlc_claims()[i]).htlc
                == outputs.htlcs[k] by {
            lemma_filter_finds(outputs.htlcs, can, k);
            let i = choose|i: int| 0 <= i < claimed.len() && claimed[i] == outputs.htlcs[k];
            assert(e.htlc_claims()[i].htlc == outputs.htlcs[k]);
        }
        let known = |h: Htlc| !h.offered && e.monitor.preimages.contains(h.payment_hash);
        assert(known =~= can);
        assert(e.htlc_claims().map_values(|d: HtlcDescriptor| d.htlc) =~= claimed);
        if e.monitor.preimages.len() == 0 && e.htlc_claims().len() > 0 {
            assert(e.monitor.preimages.contains(e.htlc_claims()[0].htlc.payment_hash));
        }
    }
}

/// A batch of HTLCs of one claim.
#[derive(Clone, Copy, PartialEq, Eq, Structural, Debug)]
pub struct Batch {
    /// The first HTLC of the batch.
    pub from: usize,
    /// The number of HTLCs in the batch.
    pub size: usize,
    /// Whether the batch goes under the id of the whole claim. The first one does.
    pub keeps_claim_id: bool,
}

impl Batch {
    /// The transaction that claims the batch: an input and an output for each HTLC, and what the
    /// wallet adds.
    pub fn transaction(&self, coins: CoinSelection) -> (shape: TransactionShape)
        requires
            self.size + coins.inputs <= u64::MAX,
            coins.has_change ==> self.size + 1 <= u64::MAX,
        ensures
            shape.inputs == self.size + coins.inputs,
            shape.outputs == self.size + if coins.has_change {
                1int
            } else {
                0
            },
    {
        TransactionShape {
            inputs: self.size as u64 + coins.inputs as u64,
            outputs: if coins.has_change {
                self.size as u64 + 1
            } else {
                self.size as u64
            },
        }
    }
}

/// How far a claim has come.
#[derive(Clone, Copy, Debug)]
pub struct ClaimProgress {
    /// The number of HTLCs to claim.
    pub total: usize,
    /// The number of HTLCs in batches that were broadcast.
    pub broadcast: usize,
    /// The number of HTLCs in the batch that is being funded.
    pub batch_size: usize,
    /// The most HTLCs that a batch can have.
    pub max_batch: usize,
}

/// The smaller of two numbers.
pub open spec fn least(a: int, b: int) -> int {
    if a < b {
        a
    } else {
        b
    }
}

impl ClaimProgress {
    /// What holds between two steps.
    pub open spec fn inv(self) -> bool {
        &&& self.broadcast + self.batch_size <= self.total
        &&& self.batch_size <= self.max_batch
    }

    /// Whether all HTLCs are in batches that were broadcast.
    pub open spec fn spec_is_done(self) -> bool {
        self.broadcast == self.total
    }

    /// Whether the claim was given up with HTLCs left.
    pub open spec fn spec_has_given_up(self) -> bool {
        self.broadcast < self.total && self.batch_size == 0
    }

    /// The start of a claim.
    pub open spec fn spec_new(total: usize, max_batch: usize) -> ClaimProgress {
        ClaimProgress {
            total,
            broadcast: 0,
            batch_size: least(total as int, max_batch as int) as usize,
            max_batch,
        }
    }

    /// The batch to fund next.
    pub open spec fn spec_next_batch(self) -> Option<Batch> {
        if self.batch_size == 0 {
            None
        } else {
            Some(
                Batch {
                    from: self.broadcast,
                    size: self.batch_size,
                    keeps_claim_id: self.broadcast == 0,
                },
            )
        }
    }

    /// The claim after the wallet was asked to fund the batch: a funded batch is broadcast and the
    /// rest follows; one that was not funded is made smaller.
    pub open spec fn spec_answered(self, funded: bool) -> ClaimProgress {
        if funded {
            ClaimProgress {
                broadcast: (self.broadcast + self.batch_size) as usize,
                batch_size: least(
                    self.total - self.broadcast - self.batch_size,
                    self.max_batch as int,
                ) as usize,
                ..self
            }
        } else {
            ClaimProgress {
                batch_size: if self.batch_size > BATCH_REDUCTION {
                    (self.batch_size - BATCH_REDUCTION) as usize
                } else {
                    0
                },
                ..self
            }
        }
    }

    /// Starts a claim.
    pub fn new(total: usize, max_batch: usize) -> (claim: ClaimProgress)
        ensures
            claim == ClaimProgress::spec_new(total, max_batch),
            claim.inv(),
    {
        ClaimProgress {
            total,
            broadcast: 0,
            batch_size: if total < max_batch {
                total
            } else {
                max_batch
            },
            max_batch,
        }
    }

    /// Whether all HTLCs are in batches that were broadcast.
    pub fn is_done(&self) -> (done: bool)
        ensures
            done == self.spec_is_done(),
    {
        self.broadcast == self.total
    }

    /// Whether the claim was given up with HTLCs left.
    pub fn has_given_up(&self) -> (given_up: bool)
        ensures
            given_up == self.spec_has_given_up(),
    {
        self.broadcast < self.total && self.batch_size == 0
    }

    /// The batch to fund next, if there is one.
    pub fn next_batch(&self) -> (batch: Option<Batch>)
        ensures
            batch == self.spec_next_batch(),
    {
        if self.batch_size == 0 {
            None
        } else {
            Some(
                Batch {
                    from: self.broadcast,
                    size: self.batch_size,
                    keeps_claim_id: self.broadcast == 0,
                },
            )
        }
    }

    /// Takes in whether the wallet could fund the batch.
    pub fn answered(&mut self, funded: bool)
        requires
            old(self).inv(),
        ensures
            final(self).inv(),
            *final(self) == old(self).spec_answered(funded),
    {
        if funded {
            self.broadcast = self.broadcast + self.batch_size;
            let rest: usize = self.total - self.broadcast;
            self.batch_size = if rest < self.max_batch {
                rest
            } else {
                self.max_batch
            };
        } else if self.batch_size > BATCH_REDUCTION {
            self.batch_size = self.batch_size - BATCH_REDUCTION;
        } else {
            self.batch_size = 0;
        }
    }

    /// The claim after several answers of the wallet.
    pub open spec fn after(self, answers: Seq<bool>) -> ClaimProgress
        decreases answers.len(),
    {
        if answers.len() == 0 {
            self
        } else {
            self.after(answers.drop_last()).spec_answered(answers.last())
        }
    }

    /// The batches that were broadcast after several answers of the wallet.
    pub open spec fn broadcasts(self, answers: Seq<bool>) -> Seq<Batch>
        decreases answers.len(),
    {
        if answers.len() == 0 {
            seq![]
        } else {
            let earlier = self.broadcasts(answers.drop_last());
            match self.after(answers.drop_last()).spec_next_batch() {
                Some(batch) if answers.last() => earlier.push(batch),
                _ => earlier,
            }
        }
    }
}

/// Where the batch after the last of these starts.
pub open spec fn batches_end(batches: Seq<Batch>) -> int {
    if batches.len() == 0 {
        0
    } else {
        batches.last().from + batches.last().size
    }
}

/// Whatever the wallet answers, the batches that are broadcast follow each other without a gap or
/// an overlap, none exceeds the limit, only the first keeps the id of the claim, and together they
/// are the HTLCs that count as broadcast.
pub proof fn law_batches_partition_the_claim(total: usize, max_batch: usize, answers: Seq<bool>)
    ensures
        ({
            let claim = ClaimProgress::spec_new(total, max_batch);
            let batches = claim.broadcasts(answers);
            &&& claim.after(answers).inv()
            &&& batches_end(batches) == claim.after(answers).broadcast
            &&& forall|i: int|
                0 <= i < batches.len() ==> {
                    &&& 0 < (#[trigger] batches[i]).size <= max_batch
                    &&& batches[i].from == batches_end(batches.take(i))
                    &&& batches[i].keeps_claim_id == (i == 0)
                }
        }),
    decreases answers.len(),
{
    let claim = ClaimProgress::spec_new(total, max_batch);
    if answers.len() > 0 {
        let before = answers.drop_last();
        law_batches_partition_the_claim(total, max_batch, before);
        let earlier = claim.broadcasts(before);
        let batches = claim.broadcasts(answers);
        lemma_settings_stay(claim, before);
        if earlier.len() > 0 {
            assert(earlier[earlier.len() - 1].size > 0);
        }
        assert forall|i: int| 0 <= i < batches.len() implies {
            &&& 0 < (#[trigger] batches[i]).size <= max_batch
            &&& batches[i].from == batches_end(batches.take(i))
            &&& batches[i].keeps_claim_id == (i == 0)
        } by {
            if i < earlier.len() {
                assert(batches[i] == earlier[i]);
                assert(batches.take(i) =~= earlier.take(i));
            } else {
                assert(batches.take(i) =~= earlier);
            }
        }
    }
}

/// No batch makes its transaction too heavy, if the largest one would not.
pub proof fn law_batches_stay_under_the_limit(
    total: usize,
    max_batch: usize,
    answers: Seq<bool>,
    reserved_weight: int,
    htlc_weight: int,
    max_weight: int,
)
    requires
        htlc_weight >= 0,
        reserved_weight + max_batch * htlc_weight <= max_weight,
    ensures
        forall|i: int|
            0 <= i < ClaimProgress::spec_new(total, max_batch).broadcasts(answers).len()
                ==> reserved_weight + (#[trigger] ClaimProgress::spec_new(
                total,
                max_batch,
            ).broadcasts(answers)[i]).size * htlc_weight <= max_weight,
{
    let batches = ClaimProgress::spec_new(total, max_batch).broadcasts(answers);
    law_batches_partition_the_claim(total, max_batch, answers);
    assert forall|i: int| 0 <= i < batches.len() implies reserved_weight + (
    #[trigger] batches[i]).size * htlc_weight <= max_weight by {
        let size = batches[i].size as int;
        assert(size * htlc_weight <= max_batch * htlc_weight) by (nonlinear_arith)
            requires
                0 <= size <= max_batch,
                htlc_weight >= 0,
        ;
    }
}

proof fn lemma_settings_stay(claim: ClaimProgress, answers: Seq<bool>)
    requires
        claim.inv(),
    ensures
        claim.after(answers).inv(),
        claim.after(answers).total == claim.total,
        claim.after(answers).max_batch == claim.max_batch,
        claim.after(answers).broadcast >= claim.broadcast,
    decreases answers.len(),
{
    if answers.len() > 0 {
        lemma_settings_stay(claim, answers.drop_last());
    }
}

/// A batch that the wallet keeps refusing loses two HTLCs each time, and is given up once that
/// leaves nothing of it. What was broadcast before stays.
pub proof fn law_refusals_shrink_the_batch(claim: ClaimProgress, refusals: nat)
    ensures
        ({
            let answers = Seq::new(refusals, |i: int| false);
            let left = claim.batch_size - BATCH_REDUCTION * refusals;
            &&& claim.after(answers).broadcast == claim.broadcast
            &&& claim.after(answers).total == claim.total
            &&& claim.after(answers).batch_size == if left > 0 {
                left
            } else {
                0
            }
        }),
    decreases refusals,
{
    if refusals > 0 {
        let answers = Seq::new(refusals, |i: int| false);
        assert(answers.drop_last() =~= Seq::new((refusals - 1) as nat, |i: int| false));
        law_refusals_shrink_the_batch(claim, (refusals - 1) as nat);
    }
}

/// A claim goes on as long as the wallet funds it. After a funded batch all HTLCs are broadcast, or
/// the next batch stands directly behind it and is as large as the limit and the rest allow. A
/// claim whose batches can hold anything is not given up then.
pub proof fn law_funded_batch_is_followed_by_the_rest(claim: ClaimProgress)
    requires
        claim.inv(),
        claim.max_batch > 0,
        claim.spec_next_batch() is Some,
    ensures
        ({
            let batch = claim.spec_next_batch()->Some_0;
            let after = claim.spec_answered(true);
            let rest = claim.total - claim.broadcast - batch.size;
            &&& after.total == claim.total
            &&& after.max_batch == claim.max_batch
            &&& after.broadcast == claim.broadcast + batch.size
            &&& !after.spec_has_given_up()
            &&& rest == 0 <==> after.spec_is_done()
            &&& rest == 0 <==> after.spec_next_batch() is None
            &&& rest > 0 ==> {
                let next = after.spec_next_batch()->Some_0;
                &&& next.from == batch.from + batch.size
                &&& next.size == (if rest < claim.max_batch {
                    rest
                } else {
                    claim.max_batch as int
                })
                &&& !next.keeps_claim_id
            }
        }),
{
}

/// A batch that the wallet refuses loses its last two HTLCs and is tried again from the same first
/// one. It is given up exactly if two or fewer were left of it.
pub proof fn law_refused_batch_loses_two(claim: ClaimProgress)
    requires
        claim.inv(),
        claim.spec_next_batch() is Some,
    ensures
        ({
            let batch = claim.spec_next_batch()->Some_0;
            let after = claim.spec_answered(false);
            &&& after.total == claim.total
            &&& after.broadcast == claim.broadcast
            &&& after.max_batch == claim.max_batch
            &&& batch.size > 2 ==> after.spec_next_batch() == Some(
                Batch {
                    from: batch.from,
                    size: (batch.size - 2) as usize,
                    keeps_claim_id: batch.keeps_claim_id,
                },
            )
            &&& batch.size > 2 ==> !after.spec_has_given_up()
            &&& batch.size <= 2 ==> after.spec_next_batch() is None && after.spec_has_given_up()
        }),
{
}

/// A claim starts with a batch that is as large as the limit and the HTLCs allow, from the first on
/// and under the id of the claim.
pub proof fn law_claim_starts_with_the_first(total: usize, max_batch: usize)
    ensures
        ({
            let claim = ClaimProgress::spec_new(total, max_batch);
            let size = if total < max_batch {
                total
            } else {
                max_batch
            };
            &&& claim.total == total
            &&& claim.max_batch == max_batch
            &&& claim.broadcast == 0
            &&& size == 0 ==> claim.spec_next_batch() is None
            &&& size > 0 ==> claim.spec_next_batch() == Some(
                Batch { from: 0, size, keeps_claim_id: true },
            )
            &&& claim.spec_is_done() <==> total == 0
            &&& claim.spec_has_given_up() <==> total > 0 && max_batch == 0
        }),
{
}

/// A wallet that funds every batch gets all HTLCs broadcast: after `n` batches as many are out as
/// `n` full batches hold, up to all of them.
pub proof fn law_willing_wallet_gets_everything(total: usize, max_batch: usize, n: nat)
    requires
        max_batch > 0,
    ensures
        ({
            let claim = ClaimProgress::spec_new(total, max_batch);
            let after = claim.after(Seq::new(n, |i: int| true));
            &&& after.inv()
            &&& after.total == total
            &&& after.max_batch == max_batch
            &&& after.broadcast == (if n * max_batch < total {
                n * max_batch
            } else {
                total as int
            })
            &&& after.batch_size == (if total - after.broadcast < max_batch {
                total - after.broadcast
            } else {
                max_batch as int
            })
            &&& n * max_batch >= total ==> after.spec_is_done()
            &&& !after.spec_has_given_up()
        }),
    decreases n,
{
    let answers = Seq::new(n, |i: int| true);
    if n > 0 {
        let before = (n - 1) as nat;
        assert(answers.drop_last() =~= Seq::new(before, |i: int| true));
        law_willing_wallet_gets_everything(total, max_batch, before);
        assert(n * max_batch == before * max_batch + max_batch) by (nonlinear_arith)
            requires
                n == before + 1,
        ;
    }
}

/// A claim comes to its end: every answer of the wallet broadcasts HTLCs or shrinks the batch,
/// until all are broadcast or the claim is given up.
pub proof fn law_every_answer_makes_progress(claim: ClaimProgress, funded: bool)
    requires
        claim.inv(),
        !claim.spec_is_done(),
        !claim.spec_has_given_up(),
    ensures
        claim.spec_next_batch() is Some,
        funded ==> claim.spec_answered(funded).broadcast > claim.broadcast,
        !funded ==> claim.spec_answered(funded).broadcast == claim.broadcast
            && claim.spec_answered(funded).batch_size < claim.batch_size,
{
}

} // verus!
