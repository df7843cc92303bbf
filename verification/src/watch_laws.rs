//! What a monitor watches and knows, said of every outpoint.

use crate::entry::ChannelEntryView;
use crate::monitor::{script_at, watched_script, ChannelMonitorView, MonitorUpdate};
use crate::msgs::{ChannelId, PaymentHash};
use crate::outpoint::{FundingOutPoint, Txid};
use vstd::prelude::*;

verus! {

/// The script of an output is that of the first output with its index.
pub proof fn law_script_is_found_by_index(outputs: Seq<(u32, Seq<u8>)>, index: u32, i: int)
    requires
        0 <= i < outputs.len(),
        outputs[i].0 == index,
        forall|j: int| 0 <= j < i ==> (#[trigger] outputs[j]).0 != index,
    ensures
        script_at(outputs, index) == Some(outputs[i].1),
    decreases i,
{
    if i > 0 {
        let rest = outputs.drop_first();
        assert forall|j: int| 0 <= j < i - 1 implies (#[trigger] rest[j]).0 != index by {
            assert(rest[j] == outputs[j + 1]);
        }
        law_script_is_found_by_index(rest, index, i - 1);
    }
}

/// Without an output of that index there is no script.
pub proof fn law_no_script_without_the_index(outputs: Seq<(u32, Seq<u8>)>, index: u32)
    requires
        forall|j: int| 0 <= j < outputs.len() ==> (#[trigger] outputs[j]).0 != index,
    ensures
        script_at(outputs, index) is None,
    decreases outputs.len(),
{
    if outputs.len() > 0 {
        let rest = outputs.drop_first();
        assert forall|j: int| 0 <= j < rest.len() implies (#[trigger] rest[j]).0 != index by {
            assert(rest[j] == outputs[j + 1]);
        }
        law_no_script_without_the_index(rest, index);
    }
}

/// What is watched stays watched, under the same script, whatever the monitor takes in. A
/// renegotiated output is watched too, under the script that all funding outputs of the channel
/// have. No other outpoint is watched because of it.
pub proof fn law_watched_outputs_stay_watched(
    m: ChannelMonitorView,
    update: MonitorUpdate,
    txo: FundingOutPoint,
)
    ensures
        ({
            let before = watched_script(m.outputs_to_watch, txo);
            let after = watched_script(m.apply(update).outputs_to_watch, txo);
            let is_new = match update {
                MonitorUpdate::RenegotiatedFunding { funding_txo } => funding_txo == txo,
                _ => false,
            };
            &&& before is Some ==> after == before
            &&& before is None && is_new ==> after == Some(m.funding_script)
            &&& before is None && !is_new ==> after is None
        }),
{
    if let MonitorUpdate::RenegotiatedFunding { funding_txo } = update {
        lemma_watched_push(m.outputs_to_watch, funding_txo, m.funding_script, txo);
    }
}

proof fn lemma_watched_push(
    watched: Seq<(Txid, Seq<(u32, Seq<u8>)>)>,
    added: FundingOutPoint,
    script: Seq<u8>,
    txo: FundingOutPoint,
)
    ensures
        ({
            let after = watched_script(
                watched.push((added.txid, seq![(added.index as u32, script)])),
                txo,
            );
            let before = watched_script(watched, txo);
            &&& before is Some ==> after == before
            &&& before is None && added == txo ==> after == Some(script)
            &&& before is None && added != txo ==> after is None
        }),
    decreases watched.len(),
{
    let entry = (added.txid, seq![(added.index as u32, script)]);
    if watched.len() == 0 {
        reveal_with_fuel(script_at, 2);
        reveal_with_fuel(watched_script, 2);
        assert(watched.push(entry)[0] == entry);
        assert(watched.push(entry).drop_first() =~= watched);
        assert(entry.1.drop_first() =~= seq![]);
        assert(entry.1[0] == (added.index as u32, script));
    } else {
        assert(watched.push(entry).drop_first() =~= watched.drop_first().push(entry));
        lemma_watched_push(watched.drop_first(), added, script, txo);
    }
}

/// Only a locked renegotiation moves what the monitor guards, and it moves it there. Only a
/// preimage adds to the payments that can be claimed, and it adds its own. What is known stays
/// known. The channel and the script stay.
pub proof fn law_monitor_takes_in_what_it_is_told(m: ChannelMonitorView, update: MonitorUpdate)
    ensures
        ({
            let after = m.apply(update);
            &&& after.channel_id == m.channel_id
            &&& after.funding_script == m.funding_script
            &&& after.funding_txo == match update {
                MonitorUpdate::RenegotiatedFundingLocked { funding_txo } => funding_txo,
                _ => m.funding_txo,
            }
            &&& after.preimages == match update {
                MonitorUpdate::PaymentPreimage { payment_hash, .. } => m.preimages.push(
                    payment_hash,
                ),
                _ => m.preimages,
            }
            &&& forall|hash: PaymentHash|
                #[trigger]
                after.preimages.contains(hash) <==> m.preimages.contains(hash) || (update matches
                    MonitorUpdate::PaymentPreimage { payment_hash, .. } && payment_hash == hash)
        }),
{
    if let MonitorUpdate::PaymentPreimage { payment_hash, .. } = update {
        let after = m.preimages.push(payment_hash);
        assert forall|hash: PaymentHash|
            #[trigger]
            after.contains(hash) <==> m.preimages.contains(hash) || payment_hash == hash by {
            if m.preimages.contains(hash) {
                let i = choose|i: int| 0 <= i < m.preimages.len() && m.preimages[i] == hash;
                assert(after[i] == hash);
            }
            if payment_hash == hash {
                assert(after[m.preimages.len() as int] == hash);
            }
            if after.contains(hash) {
                let i = choose|i: int| 0 <= i < after.len() && after[i] == hash;
                if i < m.preimages.len() {
                    assert(m.preimages[i] == hash);
                }
            }
        }
    }
}

/// A new monitor guards and watches the output that funds its channel, under its script, watches no
/// other, and knows no preimage.
pub proof fn law_new_monitor_watches_the_funding_output(
    channel_id: ChannelId,
    funding_txo: FundingOutPoint,
    funding_script: Seq<u8>,
    txo: FundingOutPoint,
)
    ensures
        ({
            let m = ChannelMonitorView::new(channel_id, funding_txo, funding_script);
            &&& m.channel_id == channel_id
            &&& m.funding_txo == funding_txo
            &&& m.funding_script == funding_script
            &&& m.preimages.len() == 0
            &&& watched_script(m.outputs_to_watch, txo) == if txo == funding_txo {
                Some(funding_script)
            } else {
                None
            }
        }),
{
    let none = Seq::<(Txid, Seq<(u32, Seq<u8>)>)>::empty();
    lemma_watched_push(none, funding_txo, funding_script, txo);
    assert(none.push((funding_txo.txid, seq![(funding_txo.index as u32, funding_script)]))
        =~= ChannelMonitorView::new(channel_id, funding_txo, funding_script).outputs_to_watch);
}

/// A claimed payment can be claimed on chain from then on: the monitor knows its preimage, whatever
/// it takes in later.
pub proof fn law_claimed_payment_stays_claimable(
    e: ChannelEntryView,
    payment_hash: PaymentHash,
    updates: Seq<MonitorUpdate>,
)
    requires
        e.resolve_payment(payment_hash, true) is Ok,
    ensures
        e.resolve_payment(payment_hash, true)->Ok_0.entry.monitor.after_all(
            updates,
        ).preimages.contains(payment_hash),
    decreases updates.len(),
{
    let m = e.resolve_payment(payment_hash, true)->Ok_0.entry.monitor;
    if updates.len() == 0 {
        crate::laws::law_claim_is_reported_once(e, payment_hash);
        assert(m.preimages[e.monitor.preimages.len() as int] == payment_hash);
    } else {
        law_claimed_payment_stays_claimable(e, payment_hash, updates.drop_last());
        law_monitor_takes_in_what_it_is_told(m.after_all(updates.drop_last()), updates.last());
    }
}

impl ChannelMonitorView {
    /// The monitor after several updates.
    pub open spec fn after_all(self, updates: Seq<MonitorUpdate>) -> ChannelMonitorView
        decreases updates.len(),
    {
        if updates.len() == 0 {
            self
        } else {
            self.after_all(updates.drop_last()).apply(updates.last())
        }
    }
}

} // verus!
