//! Opening a channel: its type, its funding output and the way to readiness.
//!
//! The funder either hands its funding transaction over, which is then checked and broadcast, or
//! only names an outpoint that it funds by other means. In the second case nothing is checked, and
//! the funder is told when it may broadcast.

use crate::msgs::{ChannelId, NodeId};
use crate::outpoint::{BitcoinOutPoint, FundingOutPoint, Txid};
use crate::script::{funding_output_script, funding_script, p2wsh_of};
use vstd::prelude::*;

verus! {

/// The type of a channel.
#[derive(Clone, Copy, PartialEq, Eq, Structural, Debug)]
pub enum ChannelType {
    /// Commitments pay a fee that the funder sets.
    Stock,
    /// Commitments pay no fee and have one shared anchor.
    ZeroFeeCommitments,
    /// Like zero fee commitments, with an optional lock on the success branch of HTLCs.
    ArkChannel,
}

/// What a node wants its channels to be like.
#[derive(Clone, Copy, Debug)]
pub struct HandshakeConfig {
    pub negotiate_anchor_zero_fee_commitments: bool,
    pub negotiate_ark_channel: bool,
    pub ark_htlc_success_csv_delta: Option<u16>,
}

/// What the two sides of a channel agreed on.
#[derive(Clone, Copy, Debug)]
pub struct ChannelTerms {
    pub channel_type: ChannelType,
    /// How long the success branch of an HTLC is locked. Only Ark channels have one.
    pub ark_htlc_success_csv_delta: Option<u16>,
}

impl ChannelTerms {
    /// The terms of a channel whose sides want `own` and `other`, as the first sees them: the most
    /// demanding type that both want, with the lock of the first if it is an Ark channel.
    pub open spec fn spec_negotiated(own: HandshakeConfig, other: HandshakeConfig) -> ChannelTerms {
        if own.negotiate_ark_channel && other.negotiate_ark_channel {
            ChannelTerms {
                channel_type: ChannelType::ArkChannel,
                ark_htlc_success_csv_delta: own.ark_htlc_success_csv_delta,
            }
        } else if own.negotiate_anchor_zero_fee_commitments
            && other.negotiate_anchor_zero_fee_commitments {
            ChannelTerms {
                channel_type: ChannelType::ZeroFeeCommitments,
                ark_htlc_success_csv_delta: None,
            }
        } else {
            ChannelTerms { channel_type: ChannelType::Stock, ark_htlc_success_csv_delta: None }
        }
    }

    /// Settles the terms of a channel.
    pub fn negotiated(own: &HandshakeConfig, other: &HandshakeConfig) -> (terms: ChannelTerms)
        ensures
            terms == ChannelTerms::spec_negotiated(*own, *other),
            terms.channel_type is ArkChannel <==> own.negotiate_ark_channel
                && other.negotiate_ark_channel,
            terms.channel_type is ArkChannel ==> terms.ark_htlc_success_csv_delta
                == own.ark_htlc_success_csv_delta,
            terms.channel_type !is ArkChannel ==> terms.ark_htlc_success_csv_delta is None,
            terms.channel_type is ZeroFeeCommitments <==> !(own.negotiate_ark_channel
                && other.negotiate_ark_channel) && own.negotiate_anchor_zero_fee_commitments
                && other.negotiate_anchor_zero_fee_commitments,
    {
        if own.negotiate_ark_channel && other.negotiate_ark_channel {
            ChannelTerms {
                channel_type: ChannelType::ArkChannel,
                ark_htlc_success_csv_delta: own.ark_htlc_success_csv_delta,
            }
        } else if own.negotiate_anchor_zero_fee_commitments
            && other.negotiate_anchor_zero_fee_commitments {
            ChannelTerms {
                channel_type: ChannelType::ZeroFeeCommitments,
                ark_htlc_success_csv_delta: None,
            }
        } else {
            ChannelTerms { channel_type: ChannelType::Stock, ark_htlc_success_csv_delta: None }
        }
    }
}

/// An Ark channel comes about exactly if both sides want one, and has the lock that is configured,
/// whatever it is: two sides that name the same delta both get that delta. Without an Ark channel
/// there is no lock; two sides that want zero fee commitments get those. Both sides see the same
/// type.
pub proof fn law_negotiation_gives_what_both_want(a: HandshakeConfig, b: HandshakeConfig)
    ensures
        ({
            let at_a = ChannelTerms::spec_negotiated(a, b);
            let at_b = ChannelTerms::spec_negotiated(b, a);
            let ark = a.negotiate_ark_channel && b.negotiate_ark_channel;
            let zero_fee = a.negotiate_anchor_zero_fee_commitments
                && b.negotiate_anchor_zero_fee_commitments;
            &&& at_a.channel_type == at_b.channel_type
            &&& ark ==> {
                &&& at_a.channel_type is ArkChannel
                &&& at_a.ark_htlc_success_csv_delta == a.ark_htlc_success_csv_delta
                &&& at_b.ark_htlc_success_csv_delta == b.ark_htlc_success_csv_delta
            }
            &&& ark && a.ark_htlc_success_csv_delta == b.ark_htlc_success_csv_delta ==> at_a == at_b
            &&& !ark ==> {
                &&& at_a.ark_htlc_success_csv_delta is None
                &&& at_b.ark_htlc_success_csv_delta is None
                &&& at_a.channel_type !is ArkChannel
                &&& at_a.channel_type is ZeroFeeCommitments <==> zero_fee
                &&& at_a.channel_type is Stock <==> !zero_fee
            }
        }),
{
}

/// How far one side has come in opening a channel.
#[derive(Clone, Copy, Debug)]
pub enum FundingStage {
    /// Funder: the user has to fund the channel.
    AwaitingFunding,
    /// Funder: has named the funding output and waits for the signature on its commitment.
    AwaitingFundingSigned { funding_txo: FundingOutPoint, is_manual: bool },
    /// Other side: waits for the funding output to be named.
    AwaitingFundingCreated,
    /// Either side: waits for the funding output to be deep enough.
    AwaitingConfirmation { funding_txo: FundingOutPoint },
    /// The channel can be used.
    Ready { funding_txo: FundingOutPoint },
}

/// What a side tells its user while a channel is opened.
#[derive(Clone, Copy, Debug)]
pub enum FundingEvent {
    /// The user may now broadcast the transaction that funds the channel.
    FundingTxBroadcastSafe { channel_id: ChannelId, funding_txo: BitcoinOutPoint },
    /// Both sides have signed.
    ChannelPending { channel_id: ChannelId, counterparty_node_id: NodeId },
    /// The channel can be used.
    ChannelReady { channel_id: ChannelId, counterparty_node_id: NodeId },
}

/// Why a step of the opening was refused.
#[derive(Clone, Copy, PartialEq, Eq, Structural, Debug)]
pub enum FundingError {
    /// The step does not belong to this stage.
    WrongStage,
    /// No output of the transaction funds the channel.
    NoFundingOutput,
    /// Several outputs of the transaction fund the channel.
    SeveralFundingOutputs,
    /// The funding output stands too far back in the transaction.
    IndexTooLarge,
}

/// What a finished step of the funder leads to.
#[derive(Debug)]
pub struct FundingSigned {
    /// The funding transaction to broadcast, if the funder handed it over.
    pub broadcast: Option<Txid>,
    pub events: Vec<FundingEvent>,
}

/// One side of a channel that is being opened.
#[derive(Debug)]
pub struct PendingChannel {
    pub channel_id: ChannelId,
    pub counterparty: NodeId,
    pub terms: ChannelTerms,
    pub value_sat: u64,
    /// The script that the funding output must have.
    pub output_script: Vec<u8>,
    pub stage: FundingStage,
}

/// An output of a transaction: its value and its script.
pub type Output = (u64, Vec<u8>);

/// Whether the output has this value and this script.
pub open spec fn output_matches(output: Output, value_sat: u64, script: Seq<u8>) -> bool {
    output.0 == value_sat && output.1@ == script
}

fn same_bytes(a: &Vec<u8>, b: &Vec<u8>) -> (r: bool)
    ensures
        r == (a@ == b@),
{
    if a.len() != b.len() {
        return false;
    }
    let mut i: usize = 0;
    while i < a.len()
        invariant
            i <= a.len(),
            a.len() == b.len(),
            forall|k: int| 0 <= k < i ==> a@[k] == b@[k],
        decreases a.len() - i,
    {
        if a[i] != b[i] {
            return false;
        }
        i = i + 1;
    }
    assert(a@ =~= b@);
    true
}

impl PendingChannel {
    /// A channel that both sides agreed to open. The funding output pays to a two-of-two witness
    /// script, whatever the type of the channel.
    pub fn new(
        channel_id: ChannelId,
        counterparty: NodeId,
        terms: ChannelTerms,
        value_sat: u64,
        own_key: &[u8; 33],
        other_key: &[u8; 33],
        is_funder: bool,
    ) -> (channel: PendingChannel)
        ensures
            channel.channel_id == channel_id,
            channel.counterparty == counterparty,
            channel.terms == terms,
            channel.value_sat == value_sat,
            channel.output_script@ == p2wsh_of(funding_script(own_key@, other_key@)),
            channel.stage == if is_funder {
                FundingStage::AwaitingFunding
            } else {
                FundingStage::AwaitingFundingCreated
            },
    {
        let output_script = funding_output_script(own_key, other_key);
        let stage = if is_funder {
            FundingStage::AwaitingFunding
        } else {
            FundingStage::AwaitingFundingCreated
        };
        PendingChannel { channel_id, counterparty, terms, value_sat, output_script, stage }
    }

    /// Whether the output at `i` funds this channel.
    pub open spec fn funds(&self, outputs: Seq<Output>, i: int) -> bool {
        0 <= i < outputs.len() && output_matches(
            outputs[i],
            self.value_sat,
            self.output_script@,
        )
    }

    /// Whether several outputs fund this channel.
    pub open spec fn funded_by_several(&self, outputs: Seq<Output>) -> bool {
        exists|j: int, k: int|
            #[trigger] self.funds(outputs, j) && #[trigger] self.funds(outputs, k) && j < k
    }

    /// Whether only the stage differs.
    pub open spec fn same_but_stage(&self, other: &PendingChannel) -> bool {
        &&& self.channel_id == other.channel_id
        &&& self.counterparty == other.counterparty
        &&& self.terms == other.terms
        &&& self.value_sat == other.value_sat
        &&& self.output_script == other.output_script
    }

    /// Looks for the only output that funds this channel.
    fn find_funding_output(&self, outputs: &Vec<Output>) -> (res: Result<usize, FundingError>)
        ensures
            match res {
                Ok(i) => self.funds(outputs@, i as int) && forall|k: int|
                    #[trigger] self.funds(outputs@, k) ==> k == i,
                Err(FundingError::NoFundingOutput) => forall|k: int|
                    !#[trigger] self.funds(outputs@, k),
                Err(FundingError::SeveralFundingOutputs) => self.funded_by_several(outputs@),
                Err(_) => false,
            },
    {
        let mut found: Option<usize> = None;
        let mut i: usize = 0;
        while i < outputs.len()
            invariant
                i <= outputs.len(),
                match found {
                    Some(j) => j < i && self.funds(outputs@, j as int) && forall|k: int|
                        #[trigger] self.funds(outputs@, k) && k < i ==> k == j,
                    None => forall|k: int| #[trigger] self.funds(outputs@, k) ==> k >= i,
                },
            decreases outputs.len() - i,
        {
            if outputs[i].0 == self.value_sat && same_bytes(&outputs[i].1, &self.output_script) {
                assert(self.funds(outputs@, i as int));
                if found.is_some() {
                    return Err(FundingError::SeveralFundingOutputs);
                }
                found = Some(i);
            } else {
                assert(!self.funds(outputs@, i as int));
            }
            i = i + 1;
        }
        match found {
            Some(j) => Ok(j),
            None => Err(FundingError::NoFundingOutput),
        }
    }

    /// Funder: takes the funding transaction. One of its outputs, and only one, must have the value
    /// and the script of the channel.
    pub fn funding_transaction_generated(&mut self, txid: Txid, outputs: &Vec<Output>) -> (res:
        Result<FundingOutPoint, FundingError>)
        ensures
            final(self).same_but_stage(old(self)),
            match res {
                Ok(txo) => {
                    &&& old(self).stage is AwaitingFunding
                    &&& txo.txid == txid
                    &&& old(self).funds(outputs@, txo.index as int)
                    &&& forall|k: int|
                        #[trigger] old(self).funds(outputs@, k) ==> k == txo.index
                    &&& final(self).stage == (FundingStage::AwaitingFundingSigned {
                        funding_txo: txo,
                        is_manual: false,
                    })
                },
                Err(e) => final(self).stage == old(self).stage && match e {
                    FundingError::WrongStage => !(old(self).stage is AwaitingFunding),
                    FundingError::NoFundingOutput => {
                        &&& old(self).stage is AwaitingFunding
                        &&& forall|k: int| !#[trigger] old(self).funds(outputs@, k)
                    },
                    FundingError::SeveralFundingOutputs => {
                        &&& old(self).stage is AwaitingFunding
                        &&& old(self).funded_by_several(outputs@)
                    },
                    FundingError::IndexTooLarge => {
                        &&& old(self).stage is AwaitingFunding
                        &&& !old(self).funded_by_several(outputs@)
                        &&& exists|k: int| #[trigger] old(self).funds(outputs@, k) && k > u16::MAX
                    },
                },
            },
    {
        if let FundingStage::AwaitingFunding = self.stage {
            match self.find_funding_output(outputs) {
                Ok(i) => {
                    if i > u16::MAX as usize {
                        assert(self.funds(outputs@, i as int));
                        return Err(FundingError::IndexTooLarge);
                    }
                    let txo = FundingOutPoint { txid, index: i as u16 };
                    self.stage =
                    FundingStage::AwaitingFundingSigned { funding_txo: txo, is_manual: false };
                    Ok(txo)
                },
                Err(e) => Err(e),
            }
        } else {
            Err(FundingError::WrongStage)
        }
    }

    /// Funder: takes an outpoint that is funded by other means. Nothing is checked.
    pub fn unsafe_manual_funding_transaction_generated(&mut self, funding_txo: FundingOutPoint)
        -> (res: Result<FundingOutPoint, FundingError>)
        ensures
            final(self).same_but_stage(old(self)),
            old(self).stage is AwaitingFunding ==> res == Ok::<FundingOutPoint, FundingError>(
                funding_txo,
            ) && final(self).stage == (FundingStage::AwaitingFundingSigned {
                funding_txo,
                is_manual: true,
            }),
            !(old(self).stage is AwaitingFunding) ==> res == Err::<FundingOutPoint, FundingError>(
                FundingError::WrongStage,
            ) && final(self).stage == old(self).stage,
    {
        if let FundingStage::AwaitingFunding = self.stage {
            self.stage = FundingStage::AwaitingFundingSigned { funding_txo, is_manual: true };
            Ok(funding_txo)
        } else {
            Err(FundingError::WrongStage)
        }
    }

    /// Other side: the funding output is named. Its user learns that the channel is pending.
    pub fn handle_funding_created(&mut self, funding_txo: FundingOutPoint) -> (res: Result<
        FundingEvent,
        FundingError,
    >)
        ensures
            final(self).same_but_stage(old(self)),
            old(self).stage is AwaitingFundingCreated ==> res == Ok::<FundingEvent, FundingError>(
                FundingEvent::ChannelPending {
                    channel_id: old(self).channel_id,
                    counterparty_node_id: old(self).counterparty,
                },
            ) && final(self).stage == (FundingStage::AwaitingConfirmation { funding_txo }),
            !(old(self).stage is AwaitingFundingCreated) ==> res == Err::<
                FundingEvent,
                FundingError,
            >(FundingError::WrongStage) && final(self).stage == old(self).stage,
    {
        if let FundingStage::AwaitingFundingCreated = self.stage {
            self.stage = FundingStage::AwaitingConfirmation { funding_txo };
            Ok(
                FundingEvent::ChannelPending {
                    channel_id: self.channel_id,
                    counterparty_node_id: self.counterparty,
                },
            )
        } else {
            Err(FundingError::WrongStage)
        }
    }

    /// Funder: the other side has signed. A transaction that was handed over is broadcast;
    /// otherwise the user is told that it may broadcast.
    pub fn handle_funding_signed(&mut self) -> (res: Result<FundingSigned, FundingError>)
        ensures
            final(self).same_but_stage(old(self)),
            match old(self).stage {
                FundingStage::AwaitingFundingSigned { funding_txo, is_manual } => {
                    let pending = FundingEvent::ChannelPending {
                        channel_id: old(self).channel_id,
                        counterparty_node_id: old(self).counterparty,
                    };
                    let safe = FundingEvent::FundingTxBroadcastSafe {
                        channel_id: old(self).channel_id,
                        funding_txo: funding_txo.spec_into_bitcoin_outpoint(),
                    };
                    &&& final(self).stage == (FundingStage::AwaitingConfirmation { funding_txo })
                    &&& res is Ok
                    &&& is_manual ==> res->Ok_0.broadcast is None && res->Ok_0.events@ == seq![
                        safe,
                        pending,
                    ]
                    &&& !is_manual ==> res->Ok_0.broadcast == Some(funding_txo.txid)
                        && res->Ok_0.events@ == seq![pending]
                },
                _ => res is Err && res->Err_0 is WrongStage && final(self).stage == old(self).stage,
            },
    {
        if let FundingStage::AwaitingFundingSigned { funding_txo, is_manual } = self.stage {
            self.stage = FundingStage::AwaitingConfirmation { funding_txo };
            let mut events: Vec<FundingEvent> = Vec::new();
            let pending = FundingEvent::ChannelPending {
                channel_id: self.channel_id,
                counterparty_node_id: self.counterparty,
            };
            if is_manual {
                events.push(
                    FundingEvent::FundingTxBroadcastSafe {
                        channel_id: self.channel_id,
                        funding_txo: funding_txo.into_bitcoin_outpoint(),
                    },
                );
                events.push(pending);
                Ok(FundingSigned { broadcast: None, events })
            } else {
                events.push(pending);
                Ok(FundingSigned { broadcast: Some(funding_txo.txid), events })
            }
        } else {
            Err(FundingError::WrongStage)
        }
    }

    /// The funding output is deep enough.
    pub fn funding_confirmed(&mut self) -> (res: Result<FundingEvent, FundingError>)
        ensures
            final(self).same_but_stage(old(self)),
            match old(self).stage {
                FundingStage::AwaitingConfirmation { funding_txo } => res == Ok::<
                    FundingEvent,
                    FundingError,
                >(
                    FundingEvent::ChannelReady {
                        channel_id: old(self).channel_id,
                        counterparty_node_id: old(self).counterparty,
                    },
                ) && final(self).stage == (FundingStage::Ready { funding_txo }),
                _ => {
                    &&& res == Err::<FundingEvent, FundingError>(FundingError::WrongStage)
                    &&& final(self).stage == old(self).stage
                },
            },
    {
        if let FundingStage::AwaitingConfirmation { funding_txo } = self.stage {
            self.stage = FundingStage::Ready { funding_txo };
            Ok(
                FundingEvent::ChannelReady {
                    channel_id: self.channel_id,
                    counterparty_node_id: self.counterparty,
                },
            )
        } else {
            Err(FundingError::WrongStage)
        }
    }
}

/// An output funds a channel exactly if it has the channel's value, to the satoshi, and its script,
/// to the byte. Several do exactly if two different ones do. While a channel is opened only its
/// stage moves.
pub proof fn law_funding_output_fits_exactly(
    channel: PendingChannel,
    later: PendingChannel,
    outputs: Seq<Output>,
    i: int,
    j: int,
)
    ensures
        channel.funds(outputs, i) <==> {
            &&& 0 <= i < outputs.len()
            &&& outputs[i].0 == channel.value_sat
            &&& outputs[i].1@ == channel.output_script@
        },
        channel.funds(outputs, i) && channel.funds(outputs, j) && i != j
            ==> channel.funded_by_several(outputs),
        channel.funded_by_several(outputs) ==> exists|a: int, b: int|
            a < b && #[trigger] channel.funds(outputs, a) && #[trigger] channel.funds(outputs, b),
        later.same_but_stage(&channel) ==> {
            &&& later.channel_id == channel.channel_id
            &&& later.counterparty == channel.counterparty
            &&& later.terms == channel.terms
            &&& later.value_sat == channel.value_sat
            &&& later.output_script == channel.output_script
        },
{
    if channel.funds(outputs, i) && channel.funds(outputs, j) && i != j {
        if i < j {
            assert(channel.funds(outputs, i) && channel.funds(outputs, j) && i < j);
        } else {
            assert(channel.funds(outputs, j) && channel.funds(outputs, i) && j < i);
        }
    }
}

} // verus!
