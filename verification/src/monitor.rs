//! The chain monitor of a channel: which funding output it guards and which outputs it watches.

use crate::msgs::{ChannelId, PaymentHash};
use crate::outpoint::{FundingOutPoint, Txid};
use vstd::prelude::*;

verus! {

/// A step that a channel reports to its monitor before it goes on.
#[derive(Clone, Copy, PartialEq, Eq, Debug)]
pub enum MonitorUpdate {
    /// A new commitment of this side.
    LatestHolderCommitment,
    /// A new commitment of the counterparty.
    LatestCounterpartyCommitment,
    /// The counterparty revoked a commitment.
    CommitmentSecret,
    /// A signed commitment on one more funding output.
    RenegotiatedFunding { funding_txo: FundingOutPoint },
    /// The channel moved to that funding output.
    RenegotiatedFundingLocked { funding_txo: FundingOutPoint },
    /// The preimage of a received payment, and with it a new commitment of the counterparty if the
    /// claim was signed for at once.
    PaymentPreimage { payment_hash: PaymentHash, with_commitment: bool },
    /// The channel is closed.
    ChannelForceClosed,
}

/// Guards the funding output of one channel.
#[derive(Debug)]
pub struct ChannelMonitor {
    pub channel_id: ChannelId,
    pub funding_txo: FundingOutPoint,
    /// The script of every funding output of the channel: they share their keys.
    pub funding_script: Vec<u8>,
    /// The watched outputs of each transaction, with their scripts.
    pub outputs_to_watch: Vec<(Txid, Vec<(u32, Vec<u8>)>)>,
    /// The payments whose preimages are known.
    pub preimages: Vec<PaymentHash>,
}

/// The contents of a [`ChannelMonitor`].
#[verifier::ext_equal]
pub struct ChannelMonitorView {
    pub channel_id: ChannelId,
    pub funding_txo: FundingOutPoint,
    pub funding_script: Seq<u8>,
    pub outputs_to_watch: Seq<(Txid, Seq<(u32, Seq<u8>)>)>,
    pub preimages: Seq<PaymentHash>,
}

/// The contents of the watched outputs of one transaction.
pub open spec fn outputs_view(outputs: Seq<(u32, Vec<u8>)>) -> Seq<(u32, Seq<u8>)> {
    outputs.map_values(|o: (u32, Vec<u8>)| (o.0, o.1@))
}

/// The contents of all watched outputs.
pub open spec fn watched_view(watched: Seq<(Txid, Vec<(u32, Vec<u8>)>)>) -> Seq<
    (Txid, Seq<(u32, Seq<u8>)>),
> {
    watched.map_values(|w: (Txid, Vec<(u32, Vec<u8>)>)| (w.0, outputs_view(w.1@)))
}

impl View for ChannelMonitor {
    type V = ChannelMonitorView;

    open spec fn view(&self) -> ChannelMonitorView {
        ChannelMonitorView {
            channel_id: self.channel_id,
            funding_txo: self.funding_txo,
            funding_script: self.funding_script@,
            outputs_to_watch: watched_view(self.outputs_to_watch@),
            preimages: self.preimages@,
        }
    }
}

/// The script of the first output with this index.
pub open spec fn script_at(outputs: Seq<(u32, Seq<u8>)>, index: u32) -> Option<Seq<u8>>
    decreases outputs.len(),
{
    if outputs.len() == 0 {
        None
    } else if outputs[0].0 == index {
        Some(outputs[0].1)
    } else {
        script_at(outputs.drop_first(), index)
    }
}

/// The script under which the outpoint is watched, if it is: that of the first transaction with its
/// id that has such an output.
pub open spec fn watched_script(
    watched: Seq<(Txid, Seq<(u32, Seq<u8>)>)>,
    txo: FundingOutPoint,
) -> Option<Seq<u8>>
    decreases watched.len(),
{
    if watched.len() == 0 {
        None
    } else if watched[0].0 == txo.txid && script_at(watched[0].1, txo.index as u32) is Some {
        script_at(watched[0].1, txo.index as u32)
    } else {
        watched_script(watched.drop_first(), txo)
    }
}

impl ChannelMonitorView {
    /// The monitor of a channel that was just funded.
    pub open spec fn new(
        channel_id: ChannelId,
        funding_txo: FundingOutPoint,
        funding_script: Seq<u8>,
    ) -> ChannelMonitorView {
        ChannelMonitorView {
            channel_id,
            funding_txo,
            funding_script,
            outputs_to_watch: seq![
                (funding_txo.txid, seq![(funding_txo.index as u32, funding_script)]),
            ],
            preimages: seq![],
        }
    }

    /// The monitor after an update. A renegotiated funding output is watched beside the current
    /// one, and becomes the current one when it is locked. Preimages are kept.
    pub open spec fn apply(self, update: MonitorUpdate) -> ChannelMonitorView {
        match update {
            MonitorUpdate::RenegotiatedFunding { funding_txo } => ChannelMonitorView {
                outputs_to_watch: self.outputs_to_watch.push(
                    (funding_txo.txid, seq![(funding_txo.index as u32, self.funding_script)]),
                ),
                ..self
            },
            MonitorUpdate::RenegotiatedFundingLocked { funding_txo } => ChannelMonitorView {
                funding_txo,
                ..self
            },
            MonitorUpdate::PaymentPreimage { payment_hash, .. } => ChannelMonitorView {
                preimages: self.preimages.push(payment_hash),
                ..self
            },
            _ => self,
        }
    }
}

pub(crate) fn copy_bytes(bytes: &Vec<u8>) -> (copy: Vec<u8>)
    ensures
        copy@ == bytes@,
{
    let copy = bytes.clone();
    assert(copy@ =~= bytes@);
    copy
}

impl ChannelMonitor {
    /// The monitor of a channel that was just funded.
    pub fn new(channel_id: ChannelId, funding_txo: FundingOutPoint, funding_script: Vec<u8>) -> (m:
        ChannelMonitor)
        ensures
            m@ == ChannelMonitorView::new(channel_id, funding_txo, funding_script@),
    {
        let mut m = ChannelMonitor {
            channel_id,
            funding_txo,
            funding_script,
            outputs_to_watch: Vec::new(),
            preimages: Vec::new(),
        };
        m.watch(funding_txo);
        assert(m@.outputs_to_watch =~= ChannelMonitorView::new(
            channel_id,
            funding_txo,
            funding_script@,
        ).outputs_to_watch);
        m
    }

    /// Watches one more funding output.
    fn watch(&mut self, funding_txo: FundingOutPoint)
        ensures
            final(self)@ == (ChannelMonitorView {
                outputs_to_watch: old(self)@.outputs_to_watch.push(
                    (funding_txo.txid, seq![(funding_txo.index as u32, old(self)@.funding_script)]),
                ),
                ..old(self)@
            }),
    {
        let mut outputs: Vec<(u32, Vec<u8>)> = Vec::new();
        outputs.push((funding_txo.index as u32, copy_bytes(&self.funding_script)));
        assert(outputs_view(outputs@) =~= seq![(funding_txo.index as u32, self@.funding_script)]);
        self.outputs_to_watch.push((funding_txo.txid, outputs));
        assert(self@.outputs_to_watch =~= old(self)@.outputs_to_watch.push(
            (funding_txo.txid, seq![(funding_txo.index as u32, old(self)@.funding_script)]),
        ));
    }

    /// Takes an update in.
    pub fn update(&mut self, update: MonitorUpdate)
        ensures
            final(self)@ == old(self)@.apply(update),
    {
        match update {
            MonitorUpdate::RenegotiatedFunding { funding_txo } => self.watch(funding_txo),
            MonitorUpdate::RenegotiatedFundingLocked { funding_txo } => {
                self.funding_txo = funding_txo;
            },
            MonitorUpdate::PaymentPreimage { payment_hash, .. } => {
                self.preimages.push(payment_hash);
            },
            _ => {},
        }
    }

    /// The funding output that the monitor guards.
    pub fn get_funding_txo(&self) -> (txo: FundingOutPoint)
        ensures
            txo == self@.funding_txo,
    {
        self.funding_txo
    }

    /// The watched outputs of each transaction.
    pub fn get_outputs_to_watch(&self) -> (watched: &Vec<(Txid, Vec<(u32, Vec<u8>)>)>)
        ensures
            watched_view(watched@) == self@.outputs_to_watch,
    {
        &self.outputs_to_watch
    }
}

/// Looks the script of an output up by the output's index.
pub(crate) fn find_output(outputs: &Vec<(u32, Vec<u8>)>, index: u32) -> (found: Option<usize>)
    ensures
        match found {
            Some(i) => i < outputs.len() && script_at(outputs_view(outputs@), index) == Some(
                outputs@[i as int].1@,
            ),
            None => script_at(outputs_view(outputs@), index) is None,
        },
{
    let ghost all = outputs_view(outputs@);
    let mut i: usize = 0;
    assert(all.skip(0) =~= all);
    while i < outputs.len()
        invariant
            i <= outputs.len(),
            all == outputs_view(outputs@),
            script_at(all, index) == script_at(all.skip(i as int), index),
        decreases outputs.len() - i,
    {
        assert(all.skip(i as int)[0] == all[i as int]);
        assert(all.skip(i as int).drop_first() =~= all.skip(i + 1));
        if outputs[i].0 == index {
            return Some(i);
        }
        i = i + 1;
    }
    None
}

/// Looks the script up under which an outpoint is watched.
pub(crate) fn find_watched(watched: &Vec<(Txid, Vec<(u32, Vec<u8>)>)>, txo: FundingOutPoint) -> (
    found: Option<(usize, usize)>)
    ensures
        match found {
            Some((k, j)) => {
                &&& k < watched.len()
                &&& j < watched@[k as int].1.len()
                &&& watched_script(watched_view(watched@), txo) == Some(
                    watched@[k as int].1@[j as int].1@,
                )
            },
            None => watched_script(watched_view(watched@), txo) is None,
        },
{
    let ghost all = watched_view(watched@);
    let mut k: usize = 0;
    assert(all.skip(0) =~= all);
    while k < watched.len()
        invariant
            k <= watched.len(),
            all == watched_view(watched@),
            watched_script(all, txo) == watched_script(all.skip(k as int), txo),
        decreases watched.len() - k,
    {
        assert(all.skip(k as int)[0] == all[k as int]);
        assert(all.skip(k as int).drop_first() =~= all.skip(k + 1));
        if watched[k].0 == txo.txid {
            if let Some(j) = find_output(&watched[k].1, txo.index as u32) {
                return Some((k, j));
            }
        }
        k = k + 1;
    }
    None
}

} // verus!
