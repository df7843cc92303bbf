//! Commitment transactions of channels whose commitments pay no fee.
//!
//! Such a commitment has one anchor output that anyone can spend. It takes what trimming and
//! rounding leave over, up to a limit; what is beyond that goes to the miners.

use crate::entry::{ChannelEntry, ChannelEntryView};
use crate::htlcs::{
    apply_updates, copy_htlcs, htlc_total, lemma_apply_all_slack, sum_htlcs, Htlc, InboundStage,
    Ledger,
};
use vstd::prelude::*;

verus! {

/// The most that the shared anchor takes.
pub const P2A_MAX_VALUE_SAT: u64 = 240;

/// The bit of an input's sequence that switches its relative lock time off.
pub const LOCKTIME_DISABLE_FLAG: u32 = 0x8000_0000;

/// The bit of a lock time that marks it as one of a commitment.
pub const COMMITMENT_LOCK_TIME: u32 = 0x2000_0000;

/// The outputs of a commitment.
#[derive(Debug)]
pub struct CommitmentOutputs {
    /// What the holder gets, if it is enough for an output.
    pub to_holder_sat: Option<u64>,
    /// What the counterparty gets, if it is enough for an output.
    pub to_counterparty_sat: Option<u64>,
    /// The HTLCs that are large enough for an output.
    pub htlcs: Vec<Htlc>,
    /// The value of the shared anchor, which is always there.
    pub anchor_sat: u64,
}

/// The contents of [`CommitmentOutputs`].
#[verifier::ext_equal]
pub struct CommitmentOutputsView {
    pub to_holder_sat: Option<u64>,
    pub to_counterparty_sat: Option<u64>,
    pub htlcs: Seq<Htlc>,
    pub anchor_sat: u64,
}

impl View for CommitmentOutputs {
    type V = CommitmentOutputsView;

    open spec fn view(&self) -> CommitmentOutputsView {
        CommitmentOutputsView {
            to_holder_sat: self.to_holder_sat,
            to_counterparty_sat: self.to_counterparty_sat,
            htlcs: self.htlcs@,
            anchor_sat: self.anchor_sat,
        }
    }
}

/// The HTLCs that are large enough for an output.
pub open spec fn nondust_htlcs(htlcs: Seq<Htlc>, dust_limit_sat: u64) -> Seq<Htlc> {
    htlcs.filter(|h: Htlc| h.amount_msat / 1000 >= dust_limit_sat)
}

/// The value of the outputs of the HTLCs, each rounded down to whole satoshis.
pub open spec fn htlc_sats(htlcs: Seq<Htlc>) -> nat
    decreases htlcs.len(),
{
    if htlcs.len() == 0 {
        0
    } else {
        htlc_sats(htlcs.drop_last()) + (htlcs.last().amount_msat / 1000) as nat
    }
}

/// The output for a balance, if it is large enough for one. Fractions of a satoshi are dropped.
pub open spec fn balance_output(balance_msat: int, dust_limit_sat: u64) -> Option<u64> {
    if balance_msat / 1000 >= dust_limit_sat {
        Some((balance_msat / 1000) as u64)
    } else {
        None
    }
}

/// The value of an output that may have been trimmed.
pub open spec fn output_sat(output: Option<u64>) -> int {
    match output {
        Some(sat) => sat as int,
        None => 0,
    }
}

impl Ledger {
    /// Whether both balances cover the HTLCs of their side.
    pub open spec fn covers_htlcs(self, value_sat: u64) -> bool {
        &&& htlc_total(self.htlcs, true) <= self.value_to_self_msat
        &&& htlc_total(self.htlcs, false) <= value_sat * 1000 - self.value_to_self_msat
    }

    /// What is left for the holder beside the HTLCs.
    pub open spec fn holder_msat(self) -> int {
        self.value_to_self_msat - htlc_total(self.htlcs, true)
    }

    /// What is left for the counterparty beside the HTLCs.
    pub open spec fn counterparty_msat(self, value_sat: u64) -> int {
        value_sat * 1000 - self.value_to_self_msat - htlc_total(self.htlcs, false)
    }

    /// What the outputs other than the anchor take.
    pub open spec fn spoken_for_sat(self, value_sat: u64, dust_limit_sat: u64) -> int {
        output_sat(balance_output(self.holder_msat(), dust_limit_sat)) + output_sat(
            balance_output(self.counterparty_msat(value_sat), dust_limit_sat),
        ) + htlc_sats(nondust_htlcs(self.htlcs, dust_limit_sat))
    }

    /// The outputs of the commitment that this ledger describes.
    pub open spec fn outputs(self, value_sat: u64, dust_limit_sat: u64) -> CommitmentOutputsView {
        let rest = value_sat - self.spoken_for_sat(value_sat, dust_limit_sat);
        CommitmentOutputsView {
            to_holder_sat: balance_output(self.holder_msat(), dust_limit_sat),
            to_counterparty_sat: balance_output(self.counterparty_msat(value_sat), dust_limit_sat),
            htlcs: nondust_htlcs(self.htlcs, dust_limit_sat),
            anchor_sat: if rest < P2A_MAX_VALUE_SAT {
                rest as u64
            } else {
                P2A_MAX_VALUE_SAT
            },
        }
    }
}

impl CommitmentOutputsView {
    /// The value of all outputs together.
    pub open spec fn total_sat(self) -> int {
        output_sat(self.to_holder_sat) + output_sat(self.to_counterparty_sat) + htlc_sats(
            self.htlcs,
        ) + self.anchor_sat
    }

    /// The number of outputs.
    pub open spec fn count(self) -> int {
        self.htlcs.len() + 1 + if self.to_holder_sat is Some {
            1int
        } else {
            0
        } + if self.to_counterparty_sat is Some {
            1int
        } else {
            0
        }
    }
}

impl ChannelEntryView {
    /// The ledger of the holder's current commitment: updates of the counterparty are in it once
    /// this side holds the signature for them.
    pub open spec fn holder_ledger(self) -> Option<Ledger> {
        if self.book.inbound_stage is LocalCommitted || self.book.inbound_stage is Acked {
            self.ledger().apply_all(self.book.inbound, false, self.channel.funding.value_sat * 1000)
        } else {
            Some(self.ledger())
        }
    }

    /// The outputs of the holder's current commitment. There are none to speak of if the updates in
    /// it contradict each other or overdraw a balance.
    pub open spec fn holder_commitment(self) -> Option<CommitmentOutputsView> {
        match self.holder_ledger() {
            Some(l) if l.covers_htlcs(self.channel.funding.value_sat) => Some(
                l.outputs(self.channel.funding.value_sat, self.channel.dust_limit_sat),
            ),
            _ => None,
        }
    }
}

pub(crate) proof fn lemma_sats_within_totals(htlcs: Seq<Htlc>, dust_limit_sat: u64)
    ensures
        1000 * htlc_sats(nondust_htlcs(htlcs, dust_limit_sat)) <= htlc_total(htlcs, true)
            + htlc_total(htlcs, false),
    decreases htlcs.len(),
{
    reveal(Seq::filter);
    if htlcs.len() > 0 {
        lemma_sats_within_totals(htlcs.drop_last(), dust_limit_sat);
        let earlier = nondust_htlcs(htlcs.drop_last(), dust_limit_sat);
        if htlcs.last().amount_msat / 1000 >= dust_limit_sat {
            assert(nondust_htlcs(htlcs, dust_limit_sat) =~= earlier.push(htlcs.last()));
            assert(earlier.push(htlcs.last()).drop_last() =~= earlier);
        }
    }
}

/// No satoshi is paid out twice: the outputs of a commitment stay within the value of the channel,
/// and what they leave is what the anchor could not take.
pub proof fn law_commitment_stays_within_channel(l: Ledger, value_sat: u64, dust_limit_sat: u64)
    requires
        l.covers_htlcs(value_sat),
    ensures
        l.outputs(value_sat, dust_limit_sat).anchor_sat <= P2A_MAX_VALUE_SAT,
        l.outputs(value_sat, dust_limit_sat).total_sat() <= value_sat,
        l.outputs(value_sat, dust_limit_sat).total_sat() < value_sat ==> l.outputs(
            value_sat,
            dust_limit_sat,
        ).anchor_sat == P2A_MAX_VALUE_SAT,
{
    lemma_sats_within_totals(l.htlcs, dust_limit_sat);
}

/// The two sides of a channel see the same anchor, balances exchanged, if they hold the same HTLCs
/// and trim alike.
pub proof fn law_both_sides_see_the_same_anchor(
    a: Ledger,
    b: Ledger,
    value_sat: u64,
    dust_limit_sat: u64,
)
    requires
        a.value_to_self_msat + b.value_to_self_msat == value_sat * 1000,
        a.htlcs.len() == b.htlcs.len(),
        forall|i: int|
            0 <= i < a.htlcs.len() ==> (#[trigger] a.htlcs[i]).amount_msat
                == b.htlcs[i].amount_msat && a.htlcs[i].offered == !b.htlcs[i].offered,
    ensures
        a.outputs(value_sat, dust_limit_sat).anchor_sat == b.outputs(
            value_sat,
            dust_limit_sat,
        ).anchor_sat,
        a.outputs(value_sat, dust_limit_sat).to_holder_sat == b.outputs(
            value_sat,
            dust_limit_sat,
        ).to_counterparty_sat,
{
    lemma_mirrored_htlcs(a.htlcs, b.htlcs, dust_limit_sat);
}

proof fn lemma_mirrored_htlcs(a: Seq<Htlc>, b: Seq<Htlc>, dust_limit_sat: u64)
    requires
        a.len() == b.len(),
        forall|i: int|
            0 <= i < a.len() ==> (#[trigger] a[i]).amount_msat == b[i].amount_msat && a[i].offered
                == !b[i].offered,
    ensures
        htlc_total(a, true) == htlc_total(b, false),
        htlc_total(a, false) == htlc_total(b, true),
        htlc_sats(nondust_htlcs(a, dust_limit_sat)) == htlc_sats(nondust_htlcs(b, dust_limit_sat)),
    decreases a.len(),
{
    reveal(Seq::filter);
    if a.len() > 0 {
        let n = a.len() - 1;
        assert(a[n].amount_msat == b[n].amount_msat);
        lemma_mirrored_htlcs(a.drop_last(), b.drop_last(), dust_limit_sat);
        let ea = nondust_htlcs(a.drop_last(), dust_limit_sat);
        let eb = nondust_htlcs(b.drop_last(), dust_limit_sat);
        if a[n].amount_msat / 1000 >= dust_limit_sat {
            assert(ea.push(a.last()).drop_last() =~= ea);
            assert(eb.push(b.last()).drop_last() =~= eb);
        }
    }
}

fn trim(balance_msat: u128, dust_limit_sat: u64) -> (output: Option<u64>)
    requires
        balance_msat <= u64::MAX * 1000,
    ensures
        output == balance_output(balance_msat as int, dust_limit_sat),
{
    let sat: u64 = (balance_msat / 1000) as u64;
    if sat >= dust_limit_sat {
        Some(sat)
    } else {
        None
    }
}

fn keep_nondust(htlcs: &Vec<Htlc>, dust_limit_sat: u64) -> (kept: (Vec<Htlc>, u128))
    ensures
        kept.0@ == nondust_htlcs(htlcs@, dust_limit_sat),
        kept.1 == htlc_sats(nondust_htlcs(htlcs@, dust_limit_sat)),
{
    let ghost all = htlcs@;
    let mut kept: Vec<Htlc> = Vec::new();
    let mut total: u128 = 0;
    proof {
        reveal(Seq::filter);
        assert(kept@ =~= nondust_htlcs(all.take(0), dust_limit_sat));
    }
    let mut i: usize = 0;
    while i < htlcs.len()
        invariant
            i <= htlcs.len(),
            all == htlcs@,
            kept@ == nondust_htlcs(all.take(i as int), dust_limit_sat),
            total == htlc_sats(kept@),
            total <= i * (u64::MAX as int),
        decreases htlcs.len() - i,
    {
        proof {
            reveal(Seq::filter);
            assert(all.take(i + 1).drop_last() =~= all.take(i as int));
            assert(all.take(i + 1).last() == all[i as int]);
            assert((i + 1) * (u64::MAX as int) == i * (u64::MAX as int) + u64::MAX as int)
                by (nonlinear_arith);
            assert((i + 1) * (u64::MAX as int) <= usize::MAX * (u64::MAX as int))
                by (nonlinear_arith)
                requires
                    i + 1 <= usize::MAX,
            ;
        }
        if htlcs[i].amount_msat / 1000 >= dust_limit_sat {
            let ghost before = kept@;
            kept.push(htlcs[i]);
            assert(kept@.drop_last() =~= before);
            total = total + (htlcs[i].amount_msat / 1000) as u128;
        }
        i = i + 1;
    }
    assert(all.take(all.len() as int) =~= all);
    (kept, total)
}

/// Makes the outputs of a commitment.
pub fn commitment_outputs(
    value_sat: u64,
    value_to_self_msat: u64,
    htlcs: &Vec<Htlc>,
    dust_limit_sat: u64,
) -> (outputs: Option<CommitmentOutputs>)
    requires
        value_to_self_msat <= value_sat * 1000,
    ensures
        ({
            let l = Ledger { value_to_self_msat, feerate_per_kw: 0, htlcs: htlcs@ };
            match outputs {
                Some(o) => l.covers_htlcs(value_sat) && o@ == l.outputs(value_sat, dust_limit_sat),
                None => !l.covers_htlcs(value_sat),
            }
        }),
{
    let offered: u128 = sum_htlcs(htlcs, true);
    let received: u128 = sum_htlcs(htlcs, false);
    let own: u128 = value_to_self_msat as u128;
    let other: u128 = value_sat as u128 * 1000 - own;
    if offered > own || received > other {
        return None;
    }
    let to_holder_sat = trim(own - offered, dust_limit_sat);
    let to_counterparty_sat = trim(other - received, dust_limit_sat);
    let (kept, kept_sat): (Vec<Htlc>, u128) = keep_nondust(htlcs, dust_limit_sat);
    proof {
        lemma_sats_within_totals(htlcs@, dust_limit_sat);
    }
    let holder: u128 = match to_holder_sat {
        Some(sat) => sat as u128,
        None => 0,
    };
    let counterparty: u128 = match to_counterparty_sat {
        Some(sat) => sat as u128,
        None => 0,
    };
    let rest: u128 = value_sat as u128 - holder - counterparty - kept_sat;
    let anchor_sat: u64 = if rest < P2A_MAX_VALUE_SAT as u128 {
        rest as u64
    } else {
        P2A_MAX_VALUE_SAT
    };
    Some(CommitmentOutputs { to_holder_sat, to_counterparty_sat, htlcs: kept, anchor_sat })
}

impl CommitmentOutputs {
    /// The number of outputs.
    pub fn count(&self) -> (count: usize)
        requires
            self.htlcs.len() <= usize::MAX - 3,
        ensures
            count == self@.count(),
    {
        let mut count: usize = self.htlcs.len() + 1;
        if self.to_holder_sat.is_some() {
            count = count + 1;
        }
        if self.to_counterparty_sat.is_some() {
            count = count + 1;
        }
        count
    }
}

impl ChannelEntry {
    /// Makes the outputs of this side's current commitment. There are none only if the updates in
    /// it contradict each other.
    pub fn local_commitment(&self) -> (outputs: Option<CommitmentOutputs>)
        requires
            self.inv(),
        ensures
            match outputs {
                Some(o) => self@.holder_commitment() == Some(o@),
                None => self@.holder_commitment() is None && self@.holder_ledger() is None,
            },
    {
        let mut value: u64 = self.channel.funding.value_to_self_msat;
        let mut feerate: u32 = self.channel.feerate_per_kw;
        let mut htlcs = copy_htlcs(&self.book.htlcs);
        if self.book.inbound_stage == InboundStage::LocalCommitted || self.book.inbound_stage
            == InboundStage::Acked {
            if !apply_updates(
                &mut value,
                &mut feerate,
                &mut htlcs,
                &self.book.inbound,
                false,
                self.channel.funding.value_sat,
            ) {
                return None;
            }
            proof {
                lemma_apply_all_slack(
                    self@.ledger(),
                    self.book.inbound@,
                    false,
                    self.channel.funding.value_sat * 1000,
                );
            }
        }
        commitment_outputs(
            self.channel.funding.value_sat,
            value,
            &htlcs,
            self.channel.dust_limit_sat,
        )
    }
}

/// The sequence of a commitment's input: the upper half of the obscured commitment number, with the
/// relative lock time switched off.
pub open spec fn commitment_sequence(obscured_number: u64) -> u32 {
    LOCKTIME_DISABLE_FLAG | (((obscured_number / 0x100_0000) % 0x100_0000) as u32)
}

/// The lock time of a commitment: the lower half of the obscured commitment number, marked as a
/// time long past.
pub open spec fn commitment_lock_time(obscured_number: u64) -> u32 {
    COMMITMENT_LOCK_TIME | ((obscured_number % 0x100_0000) as u32)
}

/// Makes the lock time of a commitment.
pub fn make_commitment_lock_time(obscured_number: u64) -> (lock_time: u32)
    ensures
        lock_time == commitment_lock_time(obscured_number),
{
    COMMITMENT_LOCK_TIME | ((obscured_number % 0x100_0000) as u32)
}

/// Whether the sequence switches the relative lock time of its input off.
pub open spec fn disables_locktime(sequence: u32) -> bool {
    sequence & LOCKTIME_DISABLE_FLAG != 0
}

/// Makes the sequence of a commitment's input.
pub fn make_commitment_sequence(obscured_number: u64) -> (sequence: u32)
    ensures
        sequence == commitment_sequence(obscured_number),
        disables_locktime(sequence),
{
    let upper: u32 = ((obscured_number / 0x100_0000) % 0x100_0000) as u32;
    assert((0x8000_0000u32 | upper) & 0x8000_0000u32 != 0) by (bit_vector);
    LOCKTIME_DISABLE_FLAG | upper
}

/// Whether no input has a relative lock time.
pub fn inputs_disable_locktime(sequences: &Vec<u32>) -> (r: bool)
    ensures
        r == forall|i: int|
            0 <= i < sequences.len() ==> disables_locktime(#[trigger] sequences@[i]),
{
    let mut i: usize = 0;
    while i < sequences.len()
        invariant
            i <= sequences.len(),
            forall|k: int| 0 <= k < i ==> disables_locktime(#[trigger] sequences@[k]),
        decreases sequences.len() - i,
    {
        if sequences[i] & LOCKTIME_DISABLE_FLAG == 0 {
            assert(!disables_locktime(sequences@[i as int]));
            return false;
        }
        i = i + 1;
    }
    true
}

} // verus!
