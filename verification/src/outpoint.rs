//! Transaction ids and outpoints.

use vstd::prelude::*;

verus! {

/// A transaction id, as the bytes of its hash in the order in which they are hashed.
#[derive(Clone, Copy, Eq, Debug)]
pub struct Txid {
    pub bytes: [u8; 32],
}

/// The output that funds a channel.
#[derive(Clone, Copy, Eq, Debug)]
pub struct FundingOutPoint {
    pub txid: Txid,
    pub index: u16,
}

/// An outpoint as it stands in a transaction, with the wide output index.
#[derive(Clone, Copy, Eq, Debug)]
pub struct BitcoinOutPoint {
    pub txid: Txid,
    pub vout: u32,
}

pub(crate) fn same_bytes32(a: &[u8; 32], b: &[u8; 32]) -> (r: bool)
    ensures
        r == (*a == *b),
{
    let mut i: usize = 0;
    while i < 32
        invariant
            i <= 32,
            forall|j: int| 0 <= j < i ==> a[j] == b[j],
        decreases 32 - i,
    {
        if a[i] != b[i] {
            return false;
        }
        i = i + 1;
    }
    assert(*a =~= *b);
    true
}

impl PartialEq for Txid {
    fn eq(&self, other: &Self) -> (r: bool) {
        same_bytes32(&self.bytes, &other.bytes)
    }
}

impl vstd::std_specs::cmp::PartialEqSpecImpl for Txid {
    open spec fn obeys_eq_spec() -> bool {
        true
    }

    open spec fn eq_spec(&self, other: &Self) -> bool {
        *self == *other
    }
}

impl PartialEq for FundingOutPoint {
    fn eq(&self, other: &Self) -> (r: bool) {
        self.txid == other.txid && self.index == other.index
    }
}

impl vstd::std_specs::cmp::PartialEqSpecImpl for FundingOutPoint {
    open spec fn obeys_eq_spec() -> bool {
        true
    }

    open spec fn eq_spec(&self, other: &Self) -> bool {
        *self == *other
    }
}

impl PartialEq for BitcoinOutPoint {
    fn eq(&self, other: &Self) -> (r: bool) {
        self.txid == other.txid && self.vout == other.vout
    }
}

impl vstd::std_specs::cmp::PartialEqSpecImpl for BitcoinOutPoint {
    open spec fn obeys_eq_spec() -> bool {
        true
    }

    open spec fn eq_spec(&self, other: &Self) -> bool {
        *self == *other
    }
}

/// Calls `bitcoin::Txid::from_byte_array`, and `to_byte_array` to read the id back.
///
/// Claims that the id holds the given bytes, in the given order.
#[verifier::external_body]
fn txid_from_byte_array(bytes: [u8; 32]) -> (txid: Txid)
    ensures
        txid.bytes == bytes,
{
    let txid: bitcoin::Txid = bitcoin::hashes::Hash::from_byte_array(bytes);
    Txid { bytes: bitcoin::hashes::Hash::to_byte_array(txid) }
}

/// The outpoint `vout` of the transaction whose id is `byte` thirty-two times over.
pub fn test_outpoint(byte: u8, vout: u16) -> (outpoint: FundingOutPoint)
    ensures
        outpoint.txid.bytes@ =~= Seq::new(32, |i: int| byte),
        outpoint.index == vout,
{
    FundingOutPoint { txid: txid_from_byte_array([byte; 32]), index: vout }
}

impl FundingOutPoint {
    /// The same outpoint with its index widened.
    pub open spec fn spec_into_bitcoin_outpoint(self) -> BitcoinOutPoint {
        BitcoinOutPoint { txid: self.txid, vout: self.index as u32 }
    }

    /// The same outpoint with its index widened.
    pub fn into_bitcoin_outpoint(self) -> (outpoint: BitcoinOutPoint)
        ensures
            outpoint == self.spec_into_bitcoin_outpoint(),
            outpoint.txid == self.txid,
            outpoint.vout == self.index,
    {
        BitcoinOutPoint { txid: self.txid, vout: self.index as u32 }
    }
}

/// Whether `named` names exactly `txid`.
pub(crate) fn names_txid(named: &Option<Txid>, txid: &Txid) -> (r: bool)
    ensures
        r == (*named == Some(*txid)),
{
    match named {
        Some(t) => *t == *txid,
        None => false,
    }
}

} // verus!
