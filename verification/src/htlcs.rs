//! The payments of a channel: HTLCs that both commitments carry, and updates on their way there.

use crate::channel::LockedValue;
use crate::events::Event;
use crate::msgs::{ChannelId, PaymentHash, Update};
use vstd::prelude::*;

verus! {

/// A payment that both commitments carry.
#[derive(Clone, Copy, Debug)]
pub struct Htlc {
    pub htlc_id: u64,
    pub payment_hash: PaymentHash,
    pub amount_msat: u64,
    /// The height from which on the sender can take the HTLC back.
    pub cltv_expiry: u32,
    /// Whether this side offered it.
    pub offered: bool,
}

/// How far this side's own updates have come.
#[derive(Clone, Copy, PartialEq, Eq, Structural, Debug)]
pub enum OutboundStage {
    /// There are none.
    Idle,
    /// Signed for, the counterparty has to revoke.
    Sent,
    /// In the counterparty's commitment, not in this side's.
    RemoteCommitted,
}

/// How far the counterparty's updates have come.
#[derive(Clone, Copy, PartialEq, Eq, Structural, Debug)]
pub enum InboundStage {
    /// There are none.
    Idle,
    /// Received, not signed for.
    Received,
    /// In this side's commitment, not in the counterparty's.
    LocalCommitted,
    /// Signed for, the counterparty has to revoke.
    Acked,
}

/// What updates change: this side's balance, the feerate and the HTLCs.
#[verifier::ext_equal]
pub struct Ledger {
    pub value_to_self_msat: u64,
    pub feerate_per_kw: u32,
    pub htlcs: Seq<Htlc>,
}

/// The position of the first HTLC with this id and direction, or -1.
pub open spec fn find_htlc(htlcs: Seq<Htlc>, htlc_id: u64, offered: bool) -> int
    decreases htlcs.len(),
{
    if htlcs.len() == 0 {
        -1
    } else {
        let earlier = find_htlc(htlcs.drop_last(), htlc_id, offered);
        if earlier >= 0 {
            earlier
        } else if htlcs.last().htlc_id == htlc_id && htlcs.last().offered == offered {
            htlcs.len() - 1
        } else {
            -1
        }
    }
}

proof fn lemma_find_htlc_bounds(htlcs: Seq<Htlc>, htlc_id: u64, offered: bool)
    ensures
        -1 <= find_htlc(htlcs, htlc_id, offered) < htlcs.len(),
        find_htlc(htlcs, htlc_id, offered) >= 0 ==> htlcs[find_htlc(
            htlcs,
            htlc_id,
            offered,
        )].htlc_id == htlc_id && htlcs[find_htlc(htlcs, htlc_id, offered)].offered == offered,
    decreases htlcs.len(),
{
    if htlcs.len() > 0 {
        lemma_find_htlc_bounds(htlcs.drop_last(), htlc_id, offered);
    }
}

proof fn lemma_find_htlc_prefix(htlcs: Seq<Htlc>, n: int, htlc_id: u64, offered: bool)
    requires
        0 <= n <= htlcs.len(),
        find_htlc(htlcs.take(n), htlc_id, offered) >= 0,
    ensures
        find_htlc(htlcs, htlc_id, offered) == find_htlc(htlcs.take(n), htlc_id, offered),
    decreases htlcs.len() - n,
{
    if n == htlcs.len() {
        assert(htlcs.take(n) =~= htlcs);
    } else {
        assert(htlcs.take(n + 1).drop_last() =~= htlcs.take(n));
        lemma_find_htlc_prefix(htlcs, n + 1, htlc_id, offered);
    }
}

/// Looks an HTLC up.
pub(crate) fn position_of_htlc(htlcs: &Vec<Htlc>, htlc_id: u64, offered: bool) -> (pos: Option<
    usize,
>)
    ensures
        match pos {
            Some(i) => i < htlcs.len() && i == find_htlc(htlcs@, htlc_id, offered),
            None => find_htlc(htlcs@, htlc_id, offered) == -1,
        },
{
    let mut i: usize = 0;
    while i < htlcs.len()
        invariant
            i <= htlcs.len(),
            find_htlc(htlcs@.take(i as int), htlc_id, offered) == -1,
        decreases htlcs.len() - i,
    {
        assert(htlcs@.take(i + 1).drop_last() =~= htlcs@.take(i as int));
        if htlcs[i].htlc_id == htlc_id && htlcs[i].offered == offered {
            proof {
                lemma_find_htlc_prefix(htlcs@, i + 1, htlc_id, offered);
            }
            return Some(i);
        }
        i = i + 1;
    }
    assert(htlcs@.take(htlcs.len() as int) =~= htlcs@);
    None
}

impl Ledger {
    /// The ledger after one update of this side, or of the counterparty. A preimage moves the value
    /// of an HTLC to the side that shows it. `None` says that there is no such HTLC or that a
    /// balance would leave the range from nothing to `limit_msat`.
    pub open spec fn apply(self, update: Update, by_holder: bool, limit_msat: int) -> Option<
        Ledger,
    > {
        match update {
            Update::AddHtlc { htlc_id, payment_hash, amount_msat, cltv_expiry } => Some(
                Ledger {
                    htlcs: self.htlcs.push(
                        Htlc {
                            htlc_id,
                            payment_hash,
                            amount_msat,
                            cltv_expiry,
                            offered: by_holder,
                        },
                    ),
                    ..self
                },
            ),
            Update::FulfillHtlc { htlc_id } => {
                let pos = find_htlc(self.htlcs, htlc_id, !by_holder);
                let amount = self.htlcs[pos].amount_msat;
                let value = if by_holder {
                    self.value_to_self_msat + amount
                } else {
                    self.value_to_self_msat - amount
                };
                if pos < 0 || value < 0 || value > limit_msat || value > u64::MAX {
                    None
                } else {
                    Some(
                        Ledger {
                            value_to_self_msat: value as u64,
                            htlcs: self.htlcs.remove(pos),
                            ..self
                        },
                    )
                }
            },
            Update::FailHtlc { htlc_id } => {
                let pos = find_htlc(self.htlcs, htlc_id, !by_holder);
                if pos < 0 {
                    None
                } else {
                    Some(Ledger { htlcs: self.htlcs.remove(pos), ..self })
                }
            },
            Update::Fee { feerate_per_kw } => Some(Ledger { feerate_per_kw, ..self }),
        }
    }

    /// The ledger after several updates, in order.
    pub open spec fn apply_all(self, updates: Seq<Update>, by_holder: bool, limit_msat: int)
        -> Option<Ledger>
        decreases updates.len(),
    {
        if updates.len() == 0 {
            Some(self)
        } else {
            match self.apply_all(updates.drop_last(), by_holder, limit_msat) {
                Some(l) => l.apply(updates.last(), by_holder, limit_msat),
                None => None,
            }
        }
    }
}

proof fn lemma_apply_all_fails(
    l: Ledger,
    updates: Seq<Update>,
    n: int,
    by_holder: bool,
    limit_msat: int,
)
    requires
        0 <= n <= updates.len(),
        l.apply_all(updates.take(n), by_holder, limit_msat) is None,
    ensures
        l.apply_all(updates, by_holder, limit_msat) is None,
    decreases updates.len() - n,
{
    if n == updates.len() {
        assert(updates.take(n) =~= updates);
    } else {
        assert(updates.take(n + 1).drop_last() =~= updates.take(n));
        lemma_apply_all_fails(l, updates, n + 1, by_holder, limit_msat);
    }
}

/// Applies updates to a balance, a feerate and HTLCs. Says whether all could be applied; if not,
/// the three are left partly changed.
pub(crate) fn apply_updates(
    value_to_self_msat: &mut u64,
    feerate_per_kw: &mut u32,
    htlcs: &mut Vec<Htlc>,
    updates: &Vec<Update>,
    by_holder: bool,
    value_sat: u64,
) -> (done: bool)
    requires
        *old(value_to_self_msat) <= value_sat * 1000,
    ensures
        ({
            let before = Ledger {
                value_to_self_msat: *old(value_to_self_msat),
                feerate_per_kw: *old(feerate_per_kw),
                htlcs: old(htlcs)@,
            };
            let after = Ledger {
                value_to_self_msat: *final(value_to_self_msat),
                feerate_per_kw: *final(feerate_per_kw),
                htlcs: final(htlcs)@,
            };
            if done {
                before.apply_all(updates@, by_holder, value_sat * 1000) == Some(after)
            } else {
                before.apply_all(updates@, by_holder, value_sat * 1000) is None
            }
        }),
        *final(value_to_self_msat) <= value_sat * 1000,
{
    let ghost before = Ledger {
        value_to_self_msat: *value_to_self_msat,
        feerate_per_kw: *feerate_per_kw,
        htlcs: htlcs@,
    };
    let mut i: usize = 0;
    while i < updates.len()
        invariant
            i <= updates.len(),
            *value_to_self_msat <= value_sat * 1000,
            before == (Ledger {
                value_to_self_msat: *old(value_to_self_msat),
                feerate_per_kw: *old(feerate_per_kw),
                htlcs: old(htlcs)@,
            }),
            before.apply_all(updates@.take(i as int), by_holder, value_sat * 1000) == Some(
                Ledger {
                    value_to_self_msat: *value_to_self_msat,
                    feerate_per_kw: *feerate_per_kw,
                    htlcs: htlcs@,
                },
            ),
        decreases updates.len() - i,
    {
        proof {
            assert(updates@.take(i + 1).drop_last() =~= updates@.take(i as int));
            assert(updates@.take(i + 1).last() == updates@[i as int]);
        }
        let ghost now = before.apply_all(updates@.take(i as int), by_holder, value_sat * 1000)->Some_0;
        match updates[i] {
            Update::AddHtlc { htlc_id, payment_hash, amount_msat, cltv_expiry } => {
                htlcs.push(
                    Htlc { htlc_id, payment_hash, amount_msat, cltv_expiry, offered: by_holder },
                );
            },
            Update::FulfillHtlc { htlc_id } => {
                let fits: bool = match position_of_htlc(htlcs, htlc_id, !by_holder) {
                    None => false,
                    Some(pos) => {
                        let amount: u64 = htlcs[pos].amount_msat;
                        let limit: u128 = (value_sat as u128) * 1000;
                        if by_holder {
                            let value: u128 = (*value_to_self_msat as u128) + (amount as u128);
                            if value <= limit && value <= u64::MAX as u128 {
                                *value_to_self_msat = value as u64;
                                let _ = htlcs.remove(pos);
                                true
                            } else {
                                false
                            }
                        } else if amount <= *value_to_self_msat {
                            *value_to_self_msat = *value_to_self_msat - amount;
                            let _ = htlcs.remove(pos);
                            true
                        } else {
                            false
                        }
                    },
                };
                if !fits {
                    assert(now.apply(updates@[i as int], by_holder, value_sat * 1000) is None);
                    proof {
                        lemma_apply_all_fails(
                            before,
                            updates@,
                            i + 1,
                            by_holder,
                            value_sat * 1000,
                        );
                    }
                    return false;
                }
            },
            Update::FailHtlc { htlc_id } => match position_of_htlc(htlcs, htlc_id, !by_holder) {
                None => {
                    proof {
                        lemma_apply_all_fails(
                            before,
                            updates@,
                            i + 1,
                            by_holder,
                            value_sat * 1000,
                        );
                    }
                    return false;
                },
                Some(pos) => {
                    let _ = htlcs.remove(pos);
                },
            },
            Update::Fee { feerate_per_kw: rate } => {
                *feerate_per_kw = rate;
            },
        }
        i = i + 1;
    }
    assert(updates@.take(updates.len() as int) =~= updates@);
    true
}

/// The value of the HTLCs of one direction.
pub open spec fn htlc_total(htlcs: Seq<Htlc>, offered: bool) -> nat
    decreases htlcs.len(),
{
    if htlcs.len() == 0 {
        0
    } else {
        htlc_total(htlcs.drop_last(), offered) + if htlcs.last().offered == offered {
            htlcs.last().amount_msat as nat
        } else {
            0
        }
    }
}

/// The value of the HTLCs that updates add.
pub open spec fn added_total(updates: Seq<Update>) -> nat
    decreases updates.len(),
{
    if updates.len() == 0 {
        0
    } else {
        added_total(updates.drop_last()) + match updates.last() {
            Update::AddHtlc { amount_msat, .. } => amount_msat as nat,
            _ => 0,
        }
    }
}

/// Adds up the HTLCs of one direction.
pub(crate) fn sum_htlcs(htlcs: &Vec<Htlc>, offered: bool) -> (total: u128)
    ensures
        total == htlc_total(htlcs@, offered),
{
    let mut total: u128 = 0;
    let mut i: usize = 0;
    while i < htlcs.len()
        invariant
            i <= htlcs.len(),
            total == htlc_total(htlcs@.take(i as int), offered),
            total <= i * (u64::MAX as int),
        decreases htlcs.len() - i,
    {
        assert(htlcs@.take(i + 1).drop_last() =~= htlcs@.take(i as int));
        assert(htlcs@.take(i + 1).last() == htlcs@[i as int]);
        assert((i + 1) * (u64::MAX as int) == i * (u64::MAX as int) + u64::MAX as int)
            by (nonlinear_arith);
        assert((i + 1) * (u64::MAX as int) <= usize::MAX * (u64::MAX as int)) by (nonlinear_arith)
            requires
                i + 1 <= usize::MAX,
        ;
        if htlcs[i].offered == offered {
            total = total + htlcs[i].amount_msat as u128;
        }
        i = i + 1;
    }
    assert(htlcs@.take(htlcs.len() as int) =~= htlcs@);
    total
}

/// Adds up the HTLCs that updates add.
pub(crate) fn sum_added(updates: &Vec<Update>) -> (total: u128)
    ensures
        total == added_total(updates@),
{
    let mut total: u128 = 0;
    let mut i: usize = 0;
    while i < updates.len()
        invariant
            i <= updates.len(),
            total == added_total(updates@.take(i as int)),
            total <= i * (u64::MAX as int),
        decreases updates.len() - i,
    {
        assert(updates@.take(i + 1).drop_last() =~= updates@.take(i as int));
        assert(updates@.take(i + 1).last() == updates@[i as int]);
        assert((i + 1) * (u64::MAX as int) == i * (u64::MAX as int) + u64::MAX as int)
            by (nonlinear_arith);
        assert((i + 1) * (u64::MAX as int) <= usize::MAX * (u64::MAX as int)) by (nonlinear_arith)
            requires
                i + 1 <= usize::MAX,
        ;
        if let Update::AddHtlc { amount_msat, .. } = updates[i] {
            total = total + amount_msat as u128;
        }
        i = i + 1;
    }
    assert(updates@.take(updates.len() as int) =~= updates@);
    total
}

/// Whether the four totals and the amount together stay within the balance.
pub(crate) fn affordable(balance: u128, a: u128, b: u128, c: u128, d: u128, amount: u64) -> (r:
    bool)
    ensures
        r == (a + b + c + d + amount <= balance),
{
    if a > balance {
        return false;
    }
    let rest: u128 = balance - a;
    if b > rest {
        return false;
    }
    let rest: u128 = rest - b;
    if c > rest {
        return false;
    }
    let rest: u128 = rest - c;
    if d > rest {
        return false;
    }
    let rest: u128 = rest - d;
    amount as u128 <= rest
}

/// The payments of a channel.
#[derive(Debug)]
pub struct HtlcBook {
    /// Carried by both commitments.
    pub htlcs: Vec<Htlc>,
    /// This side's own updates on their way into both commitments.
    pub outbound: Vec<Update>,
    pub outbound_stage: OutboundStage,
    /// The counterparty's updates on their way into both commitments.
    pub inbound: Vec<Update>,
    pub inbound_stage: InboundStage,
    /// Whether a signature of this side waits for the revocation that answers it.
    pub awaits_revocation: bool,
    /// Updates that wait until the channel can carry them.
    pub holding_cell: Vec<Update>,
    pub next_htlc_id: u64,
}

/// The contents of an [`HtlcBook`].
#[verifier::ext_equal]
pub struct HtlcBookView {
    pub htlcs: Seq<Htlc>,
    pub outbound: Seq<Update>,
    pub outbound_stage: OutboundStage,
    pub inbound: Seq<Update>,
    pub inbound_stage: InboundStage,
    pub awaits_revocation: bool,
    pub holding_cell: Seq<Update>,
    pub next_htlc_id: u64,
}

impl View for HtlcBook {
    type V = HtlcBookView;

    open spec fn view(&self) -> HtlcBookView {
        HtlcBookView {
            htlcs: self.htlcs@,
            outbound: self.outbound@,
            outbound_stage: self.outbound_stage,
            inbound: self.inbound@,
            inbound_stage: self.inbound_stage,
            awaits_revocation: self.awaits_revocation,
            holding_cell: self.holding_cell@,
            next_htlc_id: self.next_htlc_id,
        }
    }
}

impl HtlcBookView {
    /// What holds of every book between two calls: a side without an update in flight has none
    /// noted.
    pub open spec fn inv(self) -> bool {
        &&& self.outbound_stage is Idle ==> self.outbound.len() == 0
        &&& self.inbound_stage is Idle ==> self.inbound.len() == 0
    }

    /// Whether both commitments carry the same, and no signature is unanswered.
    pub open spec fn is_idle(self) -> bool {
        &&& self.outbound_stage is Idle
        &&& self.inbound_stage is Idle
        &&& !self.awaits_revocation
    }

    /// What the HTLCs hold back from the two balances.
    pub open spec fn locked(self) -> LockedValue {
        LockedValue {
            offered_msat: htlc_total(self.htlcs, true) as u128,
            received_msat: htlc_total(self.htlcs, false) as u128,
        }
    }

    /// A book without payments.
    pub open spec fn empty() -> HtlcBookView {
        HtlcBookView {
            htlcs: seq![],
            outbound: seq![],
            outbound_stage: OutboundStage::Idle,
            inbound: seq![],
            inbound_stage: InboundStage::Idle,
            awaits_revocation: false,
            holding_cell: seq![],
            next_htlc_id: 0,
        }
    }
}

impl HtlcBook {
    /// A book without payments.
    pub fn new() -> (book: HtlcBook)
        ensures
            book@ == HtlcBookView::empty(),
            book.htlcs@.len() == 0,
            book.outbound@.len() == 0,
            book.inbound@.len() == 0,
            book.holding_cell@.len() == 0,
            book.outbound_stage is Idle,
            book.inbound_stage is Idle,
            !book.awaits_revocation,
            book.next_htlc_id == 0,
    {
        HtlcBook {
            htlcs: Vec::new(),
            outbound: Vec::new(),
            outbound_stage: OutboundStage::Idle,
            inbound: Vec::new(),
            inbound_stage: InboundStage::Idle,
            awaits_revocation: false,
            holding_cell: Vec::new(),
            next_htlc_id: 0,
        }
    }

    /// Whether both commitments carry the same, and no signature is unanswered.
    pub fn is_idle(&self) -> (idle: bool)
        ensures
            idle == self@.is_idle(),
    {
        self.outbound_stage == OutboundStage::Idle && self.inbound_stage == InboundStage::Idle
            && !self.awaits_revocation
    }

    /// What the HTLCs hold back from the two balances.
    pub fn locked(&self) -> (locked: LockedValue)
        ensures
            locked == self@.locked(),
    {
        LockedValue {
            offered_msat: sum_htlcs(&self.htlcs, true),
            received_msat: sum_htlcs(&self.htlcs, false),
        }
    }
}

pub(crate) fn copy_htlcs(htlcs: &Vec<Htlc>) -> (copy: Vec<Htlc>)
    ensures
        copy@ == htlcs@,
{
    let copy = htlcs.clone();
    assert(copy@ =~= htlcs@);
    copy
}

/// The updates that a side can still send if it has this much left for new HTLCs. An HTLC that asks
/// for more than the ones before it leave is passed over.
pub open spec fn carried(updates: Seq<Update>, room_msat: int) -> Seq<Update>
    decreases updates.len(),
{
    if updates.len() == 0 {
        seq![]
    } else {
        let earlier = carried(updates.drop_last(), room_msat);
        if added_total(earlier) + added_amount(updates.last()) > room_msat {
            earlier
        } else {
            earlier.push(updates.last())
        }
    }
}

/// The value of the HTLC that an update adds, if it adds one.
pub open spec fn added_amount(update: Update) -> nat {
    match update {
        Update::AddHtlc { amount_msat, .. } => amount_msat as nat,
        _ => 0,
    }
}

/// The payments whose HTLCs are passed over.
pub open spec fn passed_over(channel_id: ChannelId, updates: Seq<Update>, room_msat: int) -> Seq<
    Event,
>
    decreases updates.len(),
{
    if updates.len() == 0 {
        seq![]
    } else {
        let earlier = passed_over(channel_id, updates.drop_last(), room_msat);
        match updates.last() {
            Update::AddHtlc { payment_hash, amount_msat, .. } if added_total(
                carried(updates.drop_last(), room_msat),
            ) + amount_msat > room_msat => earlier.push(
                Event::PaymentFailed { channel_id, payment_hash, amount_msat },
            ),
            _ => earlier,
        }
    }
}

pub(crate) proof fn lemma_added_one(update: Update)
    ensures
        added_total(seq![update]) == added_amount(update),
{
    reveal_with_fuel(added_total, 2);
    assert(seq![update].drop_last() =~= seq![]);
}

/// What is sent adds up to no more than there is room for.
pub(crate) proof fn lemma_carried_fits(updates: Seq<Update>, room_msat: int)
    requires
        0 <= room_msat,
    ensures
        added_total(carried(updates, room_msat)) <= room_msat,
    decreases updates.len(),
{
    if updates.len() > 0 {
        lemma_carried_fits(updates.drop_last(), room_msat);
        let earlier = carried(updates.drop_last(), room_msat);
        assert(earlier.push(updates.last()).drop_last() =~= earlier);
    }
}

/// Where there is room for all, nothing is passed over.
pub(crate) proof fn lemma_all_carried(
    channel_id: ChannelId,
    updates: Seq<Update>,
    room_msat: int,
)
    requires
        added_total(updates) <= room_msat,
    ensures
        carried(updates, room_msat) == updates,
        passed_over(channel_id, updates, room_msat) == Seq::<Event>::empty(),
    decreases updates.len(),
{
    if updates.len() == 0 {
        assert(updates =~= seq![]);
    } else {
        lemma_all_carried(channel_id, updates.drop_last(), room_msat);
        assert(updates.drop_last().push(updates.last()) =~= updates);
    }
}

/// Splits held updates into those that can be sent and the payments that are passed over.
pub(crate) fn split_carried(channel_id: ChannelId, updates: &Vec<Update>, room_msat: u128) -> (
    split: (Vec<Update>, Vec<Event>))
    ensures
        split.0@ == carried(updates@, room_msat as int),
        split.1@ == passed_over(channel_id, updates@, room_msat as int),
{
    let ghost all = updates@;
    let mut kept: Vec<Update> = Vec::new();
    let mut failed: Vec<Event> = Vec::new();
    let mut left: u128 = room_msat;
    assert(kept@ =~= carried(all.take(0), room_msat as int));
    assert(failed@ =~= passed_over(channel_id, all.take(0), room_msat as int));
    let mut i: usize = 0;
    while i < updates.len()
        invariant
            i <= updates.len(),
            all == updates@,
            kept@ == carried(all.take(i as int), room_msat as int),
            failed@ == passed_over(channel_id, all.take(i as int), room_msat as int),
            left == room_msat - added_total(kept@),
        decreases updates.len() - i,
    {
        let ghost before = kept@;
        assert(all.take(i + 1).drop_last() =~= all.take(i as int));
        assert(all.take(i + 1).last() == all[i as int]);
        match updates[i] {
            Update::AddHtlc { payment_hash, amount_msat, .. } => {
                if amount_msat as u128 > left {
                    failed.push(Event::PaymentFailed { channel_id, payment_hash, amount_msat });
                } else {
                    kept.push(updates[i]);
                    assert(kept@.drop_last() =~= before);
                    left = left - amount_msat as u128;
                }
            },
            _ => {
                kept.push(updates[i]);
                assert(kept@.drop_last() =~= before);
            },
        }
        i = i + 1;
    }
    assert(all.take(all.len() as int) =~= all);
    (kept, failed)
}

pub(crate) proof fn lemma_total_remove(htlcs: Seq<Htlc>, pos: int, offered: bool)
    requires
        0 <= pos < htlcs.len(),
    ensures
        htlc_total(htlcs.remove(pos), offered) == htlc_total(htlcs, offered) - if htlcs[pos].offered
            == offered {
            htlcs[pos].amount_msat as int
        } else {
            0
        },
    decreases htlcs.len(),
{
    let after = htlcs.remove(pos);
    if pos == htlcs.len() - 1 {
        assert(after =~= htlcs.drop_last());
    } else {
        assert(after.drop_last() =~= htlcs.drop_last().remove(pos));
        assert(after.last() == htlcs.last());
        lemma_total_remove(htlcs.drop_last(), pos, offered);
    }
}

impl Ledger {
    /// What this side has left beside its HTLCs.
    pub open spec fn own_slack(self) -> int {
        self.value_to_self_msat - htlc_total(self.htlcs, true)
    }

    /// What the counterparty has left beside its HTLCs.
    pub open spec fn other_slack(self, limit_msat: int) -> int {
        limit_msat - self.value_to_self_msat - htlc_total(self.htlcs, false)
    }
}

/// Updates take from what their side has left no more than the HTLCs that they add, and nothing
/// from what the other side has left.
pub(crate) proof fn lemma_apply_all_slack(
    l: Ledger,
    updates: Seq<Update>,
    by_holder: bool,
    limit_msat: int,
)
    requires
        l.apply_all(updates, by_holder, limit_msat) is Some,
    ensures
        ({
            let after = l.apply_all(updates, by_holder, limit_msat)->Some_0;
            let own = if by_holder {
                added_total(updates) as int
            } else {
                0
            };
            let other = if by_holder {
                0
            } else {
                added_total(updates) as int
            };
            &&& after.own_slack() >= l.own_slack() - own
            &&& after.other_slack(limit_msat) >= l.other_slack(limit_msat) - other
        }),
    decreases updates.len(),
{
    if updates.len() > 0 {
        lemma_apply_all_slack(l, updates.drop_last(), by_holder, limit_msat);
        let before = l.apply_all(updates.drop_last(), by_holder, limit_msat)->Some_0;
        let after = before.apply(updates.last(), by_holder, limit_msat)->Some_0;
        match updates.last() {
            Update::AddHtlc { .. } => {
                assert(after.htlcs.drop_last() =~= before.htlcs);
            },
            Update::FulfillHtlc { htlc_id } => {
                let pos = find_htlc(before.htlcs, htlc_id, !by_holder);
                lemma_find_htlc_bounds(before.htlcs, htlc_id, !by_holder);
                lemma_total_remove(before.htlcs, pos, true);
                lemma_total_remove(before.htlcs, pos, false);
            },
            Update::FailHtlc { htlc_id } => {
                let pos = find_htlc(before.htlcs, htlc_id, !by_holder);
                lemma_find_htlc_bounds(before.htlcs, htlc_id, !by_holder);
                lemma_total_remove(before.htlcs, pos, true);
                lemma_total_remove(before.htlcs, pos, false);
            },
            Update::Fee { .. } => {},
        }
    }
}

} // verus!
