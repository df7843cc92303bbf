//! The witness scripts of the HTLCs of a commitment.
//!
//! An Ark channel adds a relative lock time to the branch that the preimage opens. Its commitments
//! have one shared anchor, so no other branch of the script has a relative lock time.

use crate::script::{
    csv_count, csv_guarded, csv_only_behind, delta_push, encode_script, instructions_view,
    law_script_reads_back, parsed_script, script_bytes, ScriptInstruction, ScriptInstructionView,
    OP_CHECKMULTISIG, OP_CHECKSIG, OP_CLTV, OP_CSV, OP_DROP, OP_DUP, OP_ELSE, OP_ENDIF, OP_EQUAL,
    OP_EQUALVERIFY, OP_HASH160, OP_IF, OP_NOTIF, OP_PUSHNUM_2, OP_SIZE, OP_SWAP,
};
use vstd::prelude::*;

verus! {

/// What the witness script of an HTLC commits to.
#[derive(Clone, Copy, Debug)]
pub struct HtlcTerms {
    /// Whether the holder of the commitment offered the HTLC.
    pub offered: bool,
    pub revocation_key_hash: [u8; 20],
    pub countersignatory_htlc_key: [u8; 33],
    pub broadcaster_htlc_key: [u8; 33],
    pub payment_hash160: [u8; 20],
    /// The height from which on the sender can take a received HTLC back.
    pub cltv_expiry: u32,
    /// How long the branch of the preimage is locked.
    pub success_csv_delta: Option<u16>,
}

/// The contents of [`HtlcTerms`].
#[verifier::ext_equal]
pub struct HtlcTermsView {
    pub offered: bool,
    pub revocation_key_hash: Seq<u8>,
    pub countersignatory_htlc_key: Seq<u8>,
    pub broadcaster_htlc_key: Seq<u8>,
    pub payment_hash160: Seq<u8>,
    pub cltv_expiry: u32,
    pub success_csv_delta: Option<u16>,
}

impl View for HtlcTerms {
    type V = HtlcTermsView;

    open spec fn view(&self) -> HtlcTermsView {
        HtlcTermsView {
            offered: self.offered,
            revocation_key_hash: self.revocation_key_hash@,
            countersignatory_htlc_key: self.countersignatory_htlc_key@,
            broadcaster_htlc_key: self.broadcaster_htlc_key@,
            payment_hash160: self.payment_hash160@,
            cltv_expiry: self.cltv_expiry,
            success_csv_delta: self.success_csv_delta,
        }
    }
}

/// A number in the shortest form that a script reads back: the low byte first, and the highest bit
/// of the last byte clear.
pub open spec fn number_bytes(n: nat) -> Seq<u8>
    decreases n,
{
    if n < 128 {
        seq![n as u8]
    } else {
        seq![(n % 256) as u8] + number_bytes(n / 256)
    }
}

/// The instruction that puts a number on the stack.
pub open spec fn number_push(n: nat) -> ScriptInstructionView {
    if n == 0 {
        ScriptInstructionView::PushBytes(seq![])
    } else if n <= 16 {
        ScriptInstructionView::Op((0x50 + n) as u8)
    } else {
        ScriptInstructionView::PushBytes(number_bytes(n))
    }
}

impl HtlcTermsView {
    /// Whether the pushes of the script are short enough for direct ones.
    pub open spec fn is_sized(self) -> bool {
        &&& self.revocation_key_hash.len() == 20
        &&& self.countersignatory_htlc_key.len() == 33
        &&& self.broadcaster_htlc_key.len() == 33
        &&& self.payment_hash160.len() == 20
    }

    /// The script up to the test for a preimage.
    pub open spec fn head(self) -> Seq<ScriptInstructionView> {
        seq![
            ScriptInstructionView::Op(OP_DUP),
            ScriptInstructionView::Op(OP_HASH160),
            ScriptInstructionView::PushBytes(self.revocation_key_hash),
            ScriptInstructionView::Op(OP_EQUAL),
            ScriptInstructionView::Op(OP_IF),
            ScriptInstructionView::Op(OP_CHECKSIG),
            ScriptInstructionView::Op(OP_ELSE),
            ScriptInstructionView::PushBytes(self.countersignatory_htlc_key),
            ScriptInstructionView::Op(OP_SWAP),
            ScriptInstructionView::Op(OP_SIZE),
            number_push(32),
            ScriptInstructionView::Op(OP_EQUAL),
        ]
    }

    /// The script from there to the branch that the preimage opens. The branch by which the holder
    /// takes an HTLC back that it offered comes first.
    pub open spec fn branch(self) -> Seq<ScriptInstructionView> {
        if self.offered {
            seq![
                ScriptInstructionView::Op(OP_NOTIF),
                ScriptInstructionView::Op(OP_DROP),
                ScriptInstructionView::Op(OP_PUSHNUM_2),
                ScriptInstructionView::Op(OP_SWAP),
                ScriptInstructionView::PushBytes(self.broadcaster_htlc_key),
                ScriptInstructionView::Op(OP_PUSHNUM_2),
                ScriptInstructionView::Op(OP_CHECKMULTISIG),
                ScriptInstructionView::Op(OP_ELSE),
            ]
        } else {
            seq![ScriptInstructionView::Op(OP_IF)]
        }
    }

    /// The relative lock time of the branch that the preimage opens.
    pub open spec fn success_lock(self) -> Seq<ScriptInstructionView> {
        match self.success_csv_delta {
            Some(delta) => seq![
                number_push(delta as nat),
                ScriptInstructionView::Op(OP_CSV),
                ScriptInstructionView::Op(OP_DROP),
            ],
            None => seq![],
        }
    }

    /// The rest of the script.
    pub open spec fn tail(self) -> Seq<ScriptInstructionView> {
        if self.offered {
            seq![
                ScriptInstructionView::Op(OP_HASH160),
                ScriptInstructionView::PushBytes(self.payment_hash160),
                ScriptInstructionView::Op(OP_EQUALVERIFY),
                ScriptInstructionView::Op(OP_CHECKSIG),
                ScriptInstructionView::Op(OP_ENDIF),
                ScriptInstructionView::Op(OP_ENDIF),
            ]
        } else {
            seq![
                ScriptInstructionView::Op(OP_HASH160),
                ScriptInstructionView::PushBytes(self.payment_hash160),
                ScriptInstructionView::Op(OP_EQUALVERIFY),
                ScriptInstructionView::Op(OP_PUSHNUM_2),
                ScriptInstructionView::Op(OP_SWAP),
                ScriptInstructionView::PushBytes(self.broadcaster_htlc_key),
                ScriptInstructionView::Op(OP_PUSHNUM_2),
                ScriptInstructionView::Op(OP_CHECKMULTISIG),
                ScriptInstructionView::Op(OP_ELSE),
                ScriptInstructionView::Op(OP_DROP),
                number_push(self.cltv_expiry as nat),
                ScriptInstructionView::Op(OP_CLTV),
                ScriptInstructionView::Op(OP_DROP),
                ScriptInstructionView::Op(OP_CHECKSIG),
                ScriptInstructionView::Op(OP_ENDIF),
                ScriptInstructionView::Op(OP_ENDIF),
            ]
        }
    }

    /// The whole script.
    pub open spec fn instructions(self) -> Seq<ScriptInstructionView> {
        self.head() + self.branch() + self.success_lock() + self.tail()
    }

    /// The bytes of the script.
    pub open spec fn script(self) -> Seq<u8> {
        script_bytes(self.instructions())
    }
}

pub(crate) fn push_op(script: &mut Vec<ScriptInstruction>, op: u8)
    ensures
        instructions_view(final(script)@) == instructions_view(old(script)@).push(
            ScriptInstructionView::Op(op),
        ),
{
    script.push(ScriptInstruction::Op(op));
    assert(instructions_view(script@) =~= instructions_view(old(script)@).push(
        ScriptInstructionView::Op(op),
    ));
}

pub(crate) fn push_bytes(script: &mut Vec<ScriptInstruction>, bytes: &[u8])
    ensures
        instructions_view(final(script)@) == instructions_view(old(script)@).push(
            ScriptInstructionView::PushBytes(bytes@),
        ),
{
    let mut copy: Vec<u8> = Vec::new();
    copy.extend_from_slice(bytes);
    assert(copy@ =~= bytes@);
    script.push(ScriptInstruction::PushBytes(copy));
    assert(instructions_view(script@) =~= instructions_view(old(script)@).push(
        ScriptInstructionView::PushBytes(bytes@),
    ));
}

pub(crate) proof fn lemma_number_reads_back(n: nat)
    requires
        n <= u32::MAX,
    ensures
        number_push(n).reads_back(),
{
    reveal_with_fuel(number_bytes, 6);
}

pub(crate) fn push_number(script: &mut Vec<ScriptInstruction>, n: u32)
    ensures
        instructions_view(final(script)@) == instructions_view(old(script)@).push(
            number_push(n as nat),
        ),
{
    if n == 0 {
        let none: [u8; 0] = [];
        push_bytes(script, none.as_slice());
        assert(none@ =~= seq![]);
    } else if n <= 16 {
        push_op(script, (0x50 + n) as u8);
    } else {
        let mut bytes: Vec<u8> = Vec::new();
        let mut rest: u32 = n;
        while rest >= 128
            invariant
                bytes@ + number_bytes(rest as nat) == number_bytes(n as nat),
            decreases rest,
        {
            let ghost before = bytes@;
            bytes.push((rest % 256) as u8);
            assert(bytes@ + number_bytes((rest / 256) as nat) =~= before + number_bytes(
                rest as nat,
            ));
            rest = rest / 256;
        }
        let ghost before = bytes@;
        bytes.push(rest as u8);
        assert(bytes@ =~= before + number_bytes(rest as nat));
        push_bytes(script, bytes.as_slice());
    }
}

impl HtlcTerms {
    fn push_head(&self, script: &mut Vec<ScriptInstruction>)
        requires
            old(script)@.len() == 0,
        ensures
            instructions_view(final(script)@) == self@.head(),
    {
        push_op(script, OP_DUP);
        push_op(script, OP_HASH160);
        push_bytes(script, self.revocation_key_hash.as_slice());
        push_op(script, OP_EQUAL);
        push_op(script, OP_IF);
        push_op(script, OP_CHECKSIG);
        push_op(script, OP_ELSE);
        push_bytes(script, self.countersignatory_htlc_key.as_slice());
        push_op(script, OP_SWAP);
        push_op(script, OP_SIZE);
        push_number(script, 32);
        push_op(script, OP_EQUAL);
        assert(instructions_view(script@) =~= self@.head());
    }

    fn push_branch(&self, script: &mut Vec<ScriptInstruction>)
        ensures
            instructions_view(final(script)@) == instructions_view(old(script)@) + self@.branch(),
    {
        if self.offered {
            push_op(script, OP_NOTIF);
            push_op(script, OP_DROP);
            push_op(script, OP_PUSHNUM_2);
            push_op(script, OP_SWAP);
            push_bytes(script, self.broadcaster_htlc_key.as_slice());
            push_op(script, OP_PUSHNUM_2);
            push_op(script, OP_CHECKMULTISIG);
            push_op(script, OP_ELSE);
        } else {
            push_op(script, OP_IF);
        }
        assert(instructions_view(script@) =~= instructions_view(old(script)@) + self@.branch());
    }

    fn push_tail(&self, script: &mut Vec<ScriptInstruction>)
        ensures
            instructions_view(final(script)@) == instructions_view(old(script)@) + self@.tail(),
    {
        push_op(script, OP_HASH160);
        push_bytes(script, self.payment_hash160.as_slice());
        push_op(script, OP_EQUALVERIFY);
        if !self.offered {
            push_op(script, OP_PUSHNUM_2);
            push_op(script, OP_SWAP);
            push_bytes(script, self.broadcaster_htlc_key.as_slice());
            push_op(script, OP_PUSHNUM_2);
            push_op(script, OP_CHECKMULTISIG);
            push_op(script, OP_ELSE);
            push_op(script, OP_DROP);
            push_number(script, self.cltv_expiry);
            push_op(script, OP_CLTV);
            push_op(script, OP_DROP);
        }
        push_op(script, OP_CHECKSIG);
        push_op(script, OP_ENDIF);
        push_op(script, OP_ENDIF);
        assert(instructions_view(script@) =~= instructions_view(old(script)@) + self@.tail());
    }

    /// Puts the script together.
    pub fn make_instructions(&self) -> (script: Vec<ScriptInstruction>)
        ensures
            instructions_view(script@) == self@.instructions(),
    {
        let mut script: Vec<ScriptInstruction> = Vec::new();
        self.push_head(&mut script);
        self.push_branch(&mut script);
        let ghost before = instructions_view(script@);
        if let Some(delta) = self.success_csv_delta {
            push_number(&mut script, delta as u32);
            push_op(&mut script, OP_CSV);
            push_op(&mut script, OP_DROP);
        }
        assert(instructions_view(script@) =~= before + self@.success_lock());
        self.push_tail(&mut script);
        script
    }

    /// Writes the script down.
    pub fn witness_script(&self) -> (script: Vec<u8>)
        ensures
            script@ == self@.script(),
            parsed_script(script@) == Some(self@.instructions()),
    {
        let instructions = self.make_instructions();
        proof {
            lemma_reads_back(self@);
            law_script_reads_back(self@.instructions());
            assert forall|i: int| 0 <= i < instructions.len() implies (
            #[trigger] instructions@[i])@.is_direct() by {
                assert(instructions_view(instructions@)[i] == instructions@[i]@);
                assert(self@.instructions()[i].reads_back());
            }
        }
        encode_script(&instructions)
    }
}

proof fn lemma_reads_back(terms: HtlcTermsView)
    requires
        terms.is_sized(),
    ensures
        forall|i: int|
            0 <= i < terms.instructions().len() ==> (
            #[trigger] terms.instructions()[i]).reads_back(),
{
    lemma_number_reads_back(32);
    lemma_number_reads_back(terms.cltv_expiry as nat);
    if let Some(delta) = terms.success_csv_delta {
        lemma_number_reads_back(delta as nat);
    }
    assert forall|i: int| 0 <= i < terms.instructions().len() implies (
    #[trigger] terms.instructions()[i]).reads_back() by {
        let h = terms.head().len() as int;
        let b = h + terms.branch().len() as int;
        let l = b + terms.success_lock().len() as int;
        if i < h {
            assert(terms.instructions()[i] == terms.head()[i]);
        } else if i < b {
            assert(terms.instructions()[i] == terms.branch()[i - h]);
        } else if i < l {
            assert(terms.instructions()[i] == terms.success_lock()[i - b]);
        } else {
            assert(terms.instructions()[i] == terms.tail()[i - l]);
        }
    }
}

proof fn lemma_csv_count_sum(a: Seq<ScriptInstructionView>, b: Seq<ScriptInstructionView>)
    ensures
        csv_count(a + b) == csv_count(a) + csv_count(b),
    decreases b.len(),
{
    if b.len() == 0 {
        assert(a + b =~= a);
    } else {
        assert((a + b).drop_last() =~= a + b.drop_last());
        lemma_csv_count_sum(a, b.drop_last());
    }
}

proof fn lemma_csv_count_none(a: Seq<ScriptInstructionView>)
    requires
        forall|i: int| 0 <= i < a.len() ==> #[trigger] a[i] != ScriptInstructionView::Op(OP_CSV),
    ensures
        csv_count(a) == 0,
    decreases a.len(),
{
    if a.len() > 0 {
        assert(a.last() == a[a.len() - 1]);
        lemma_csv_count_none(a.drop_last());
    }
}

/// The script of an HTLC has one relative lock time if the channel has an Ark delta, and none if it
/// has not.
pub proof fn law_only_the_success_branch_is_locked(terms: HtlcTermsView)
    ensures
        csv_count(terms.instructions()) == if terms.success_csv_delta is Some {
            1nat
        } else {
            0
        },
{
    lemma_csv_count_sum(terms.head() + terms.branch() + terms.success_lock(), terms.tail());
    lemma_csv_count_sum(terms.head() + terms.branch(), terms.success_lock());
    lemma_csv_count_sum(terms.head(), terms.branch());
    lemma_csv_count_none(terms.head());
    lemma_csv_count_none(terms.branch());
    lemma_csv_count_none(terms.tail());
    if let Some(delta) = terms.success_csv_delta {
        let lock = terms.success_lock();
        assert(lock =~= seq![lock[0]] + (seq![lock[1]] + seq![lock[2]]));
        lemma_csv_count_sum(seq![lock[0]], seq![lock[1]] + seq![lock[2]]);
        lemma_csv_count_sum(seq![lock[1]], seq![lock[2]]);
        lemma_csv_count_none(seq![lock[0]]);
        lemma_csv_count_none(seq![lock[2]]);
        assert(csv_count(seq![lock[1]]) == 1) by {
            reveal_with_fuel(csv_count, 2);
        }
    }
}

/// The only relative lock time of the script stands directly behind the number of the Ark delta,
/// whatever the delta is.
pub proof fn law_success_lock_takes_the_delta(terms: HtlcTermsView)
    requires
        terms.success_csv_delta is Some,
    ensures
        csv_count(terms.instructions()) == 1,
        csv_only_behind(
            terms.instructions(),
            number_push(terms.success_csv_delta->Some_0 as nat),
        ),
{
    law_only_the_success_branch_is_locked(terms);
    let delta = terms.success_csv_delta->Some_0;
    let h = terms.head().len() as int;
    let b = h + terms.branch().len() as int;
    let l = b + terms.success_lock().len() as int;
    assert forall|i: int|
        0 <= i < terms.instructions().len() && #[trigger] terms.instructions()[i]
            == ScriptInstructionView::Op(OP_CSV) implies i > 0 && terms.instructions()[i - 1]
        == number_push(delta as nat) by {
        if i < h {
            assert(terms.instructions()[i] == terms.head()[i]);
        } else if i < b {
            assert(terms.instructions()[i] == terms.branch()[i - h]);
        } else if i < l {
            assert(terms.instructions()[i] == terms.success_lock()[i - b]);
            assert(terms.instructions()[b] == terms.success_lock()[0]);
        } else {
            assert(terms.instructions()[i] == terms.tail()[i - l]);
        }
    }
}

/// The relative lock time of the success branch stands directly behind the two bytes of the Ark
/// delta, for every delta whose number takes two bytes.
pub proof fn law_success_lock_is_guarded(terms: HtlcTermsView)
    requires
        terms.success_csv_delta is Some,
        128 <= terms.success_csv_delta->Some_0 <= 32767,
    ensures
        csv_guarded(terms.instructions(), terms.success_csv_delta->Some_0),
{
    let delta = terms.success_csv_delta->Some_0;
    reveal_with_fuel(number_bytes, 3);
    assert(number_bytes(delta as nat) =~= delta_push(delta));
    let h = (terms.head() + terms.branch()).len() as int;
    assert(terms.instructions()[h] == terms.success_lock()[0]);
    assert(terms.instructions()[h + 1] == terms.success_lock()[1]);
}

/// Whoever reads the bytes of an HTLC's script finds its instructions.
pub proof fn law_script_is_read_back(terms: HtlcTermsView)
    requires
        terms.is_sized(),
    ensures
        parsed_script(terms.script()) == Some(terms.instructions()),
{
    lemma_reads_back(terms);
    law_script_reads_back(terms.instructions());
}

/// Whoever reads the bytes of an HTLC's script finds exactly one relative lock time, directly
/// behind the number of the Ark delta. If that number takes two bytes, they are the two bytes of
/// the delta.
pub proof fn law_script_bytes_hold_the_lock(terms: HtlcTermsView)
    requires
        terms.is_sized(),
        terms.success_csv_delta is Some,
    ensures
        parsed_script(terms.script()) == Some(terms.instructions()),
        terms.holds_lock(terms.success_csv_delta->Some_0),
{
    lemma_reads_back(terms);
    law_script_reads_back(terms.instructions());
    lemma_holds_lock(terms);
}

impl HtlcTermsView {
    /// Whether the script has one relative lock time, directly behind the number of the delta,
    /// which is its two bytes if it takes two.
    pub open spec fn holds_lock(self, delta: u16) -> bool {
        &&& csv_count(self.instructions()) == 1
        &&& csv_only_behind(self.instructions(), number_push(delta as nat))
        &&& 128 <= delta <= 32767 ==> csv_guarded(self.instructions(), delta)
    }
}

/// The script of an HTLC of an Ark channel holds the lock.
pub(crate) proof fn lemma_holds_lock(terms: HtlcTermsView)
    requires
        terms.success_csv_delta is Some,
    ensures
        terms.holds_lock(terms.success_csv_delta->Some_0),
{
    law_success_lock_takes_the_delta(terms);
    if 128 <= terms.success_csv_delta->Some_0 <= 32767 {
        law_success_lock_is_guarded(terms);
    }
}

} // verus!
