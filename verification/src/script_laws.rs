//! What scripts say, read back from them.

use crate::htlc_script::{law_script_is_read_back, number_bytes, number_push, HtlcTermsView};
use crate::script::{
    csv_count, csv_guarded, delta_push, funding_script, key_precedes, le_number, script_bytes,
    ScriptInstructionView, OP_CSV,
};
use vstd::prelude::*;

verus! {

/// A number that is put into a script is read back from its bytes, the low one first. The last byte
/// has its highest bit clear, so that the number is not negative, and no byte is there in vain.
pub proof fn law_numbers_are_read_back(n: nat)
    ensures
        ({
            let bytes = number_bytes(n);
            &&& bytes.len() > 0
            &&& le_number(bytes) == n
            &&& bytes.last() < 128
            &&& bytes.len() > 1 ==> bytes.last() != 0 || bytes[bytes.len() - 2] >= 128
        }),
    decreases n,
{
    let bytes = number_bytes(n);
    if n < 128 {
        reveal_with_fuel(le_number, 2);
        assert(bytes.drop_first() =~= seq![]);
    } else {
        let rest = number_bytes(n / 256);
        law_numbers_are_read_back(n / 256);
        assert(bytes.drop_first() =~= rest);
        assert(bytes.last() == rest.last());
        if rest.len() == 1 {
            assert(bytes[bytes.len() - 2] == n % 256);
            assert(le_number(rest) == rest[0]) by {
                reveal_with_fuel(le_number, 2);
                assert(rest.drop_first() =~= seq![]);
            }
        } else {
            assert(bytes[bytes.len() - 2] == rest[rest.len() - 2]);
        }
    }
}

/// Different numbers are put on the stack by different instructions, none of which is a lock time
/// check or a hash. Nothing and the numbers up to sixteen have instructions of their own.
pub proof fn law_numbers_have_their_instructions(m: nat, n: nat)
    ensures
        m != n ==> number_push(m) != number_push(n),
        n == 0 ==> number_push(n) == ScriptInstructionView::PushBytes(seq![]),
        1 <= n <= 16 ==> number_push(n) == ScriptInstructionView::Op((0x50 + n) as u8),
        n > 16 ==> number_push(n) == ScriptInstructionView::PushBytes(number_bytes(n)),
        number_push(n) matches ScriptInstructionView::Op(op) ==> 0x51 <= op <= 0x60,
{
    law_numbers_are_read_back(m);
    law_numbers_are_read_back(n);
}

/// The two bytes of a delta are read back as the delta.
pub proof fn law_delta_is_read_back(delta: u16)
    ensures
        delta_push(delta).len() == 2,
        le_number(delta_push(delta)) == delta,
{
    let bytes = delta_push(delta);
    reveal_with_fuel(le_number, 3);
    assert(bytes.drop_first() =~= seq![bytes[1]]);
    assert(bytes.drop_first().drop_first() =~= seq![]);
}

/// The lock time checks of a script are those instructions of it that are one.
pub proof fn law_every_lock_is_counted(instructions: Seq<ScriptInstructionView>)
    ensures
        csv_count(instructions) == instructions.filter(
            |i: ScriptInstructionView| i == ScriptInstructionView::Op(OP_CSV),
        ).len(),
        OP_CSV == 0xb2,
    decreases instructions.len(),
{
    reveal(Seq::filter);
    if instructions.len() > 0 {
        law_every_lock_is_counted(instructions.drop_last());
    }
}

/// The script of an HTLC, instruction by instruction. Whoever has the revocation key can spend it
/// at once. The preimage of the payment opens the branch behind the lock, if there is one. The
/// other branch is that of the side that offered the HTLC: an own one needs both signatures, a
/// received one the counterparty's after the expiry.
pub proof fn law_htlc_script_instruction_by_instruction(terms: HtlcTermsView)
    ensures
        ({
            let head = seq![
                ScriptInstructionView::Op(0x76),
                ScriptInstructionView::Op(0xa9),
                ScriptInstructionView::PushBytes(terms.revocation_key_hash),
                ScriptInstructionView::Op(0x87),
                ScriptInstructionView::Op(0x63),
                ScriptInstructionView::Op(0xac),
                ScriptInstructionView::Op(0x67),
                ScriptInstructionView::PushBytes(terms.countersignatory_htlc_key),
                ScriptInstructionView::Op(0x7c),
                ScriptInstructionView::Op(0x82),
                ScriptInstructionView::PushBytes(seq![32u8]),
                ScriptInstructionView::Op(0x87),
            ];
            let lock = match terms.success_csv_delta {
                Some(delta) => seq![
                    number_push(delta as nat),
                    ScriptInstructionView::Op(0xb2),
                    ScriptInstructionView::Op(0x75),
                ],
                None => seq![],
            };
            terms.instructions() =~= if terms.offered {
                head + seq![
                    ScriptInstructionView::Op(0x64),
                    ScriptInstructionView::Op(0x75),
                    ScriptInstructionView::Op(0x52),
                    ScriptInstructionView::Op(0x7c),
                    ScriptInstructionView::PushBytes(terms.broadcaster_htlc_key),
                    ScriptInstructionView::Op(0x52),
                    ScriptInstructionView::Op(0xae),
                    ScriptInstructionView::Op(0x67),
                ] + lock + seq![
                    ScriptInstructionView::Op(0xa9),
                    ScriptInstructionView::PushBytes(terms.payment_hash160),
                    ScriptInstructionView::Op(0x88),
                    ScriptInstructionView::Op(0xac),
                    ScriptInstructionView::Op(0x68),
                    ScriptInstructionView::Op(0x68),
                ]
            } else {
                head + seq![ScriptInstructionView::Op(0x63)] + lock + seq![
                    ScriptInstructionView::Op(0xa9),
                    ScriptInstructionView::PushBytes(terms.payment_hash160),
                    ScriptInstructionView::Op(0x88),
                    ScriptInstructionView::Op(0x52),
                    ScriptInstructionView::Op(0x7c),
                    ScriptInstructionView::PushBytes(terms.broadcaster_htlc_key),
                    ScriptInstructionView::Op(0x52),
                    ScriptInstructionView::Op(0xae),
                    ScriptInstructionView::Op(0x67),
                    ScriptInstructionView::Op(0x75),
                    number_push(terms.cltv_expiry as nat),
                    ScriptInstructionView::Op(0xb1),
                    ScriptInstructionView::Op(0x75),
                    ScriptInstructionView::Op(0xac),
                    ScriptInstructionView::Op(0x68),
                    ScriptInstructionView::Op(0x68),
                ]
            }
        }),
{
    reveal_with_fuel(number_bytes, 2);
    assert(number_bytes(32) =~= seq![32u8]);
}

/// A script is its instructions one after the other: an opcode is its own byte, and a push is the
/// number of its bytes and then the bytes.
pub proof fn law_script_is_its_instructions(
    instructions: Seq<ScriptInstructionView>,
    instruction: ScriptInstructionView,
)
    ensures
        script_bytes(Seq::<ScriptInstructionView>::empty()).len() == 0,
        script_bytes(instructions.push(instruction)) == script_bytes(instructions) + match instruction {
            ScriptInstructionView::Op(op) => seq![op],
            ScriptInstructionView::PushBytes(bytes) => seq![bytes.len() as u8] + bytes,
        },
{
    assert(instructions.push(instruction).drop_last() =~= instructions);
}

/// A delta guards a lock time check exactly if its two bytes, the low one first, are pushed
/// directly before the check. No other delta guards a script whose only check it guards.
pub proof fn law_guard_is_the_push_before_the_lock(
    instructions: Seq<ScriptInstructionView>,
    delta: u16,
    other: u16,
)
    ensures
        csv_guarded(instructions, delta) <==> exists|i: int|
            0 < i < instructions.len() && #[trigger] instructions[i] == ScriptInstructionView::Op(
                0xb2,
            ) && instructions[i - 1] == ScriptInstructionView::PushBytes(
                seq![(delta % 256) as u8, (delta / 256) as u8],
            ),
        csv_count(instructions) == 1 && csv_guarded(instructions, delta) && csv_guarded(
            instructions,
            other,
        ) ==> delta == other,
{
    if csv_count(instructions) == 1 && csv_guarded(instructions, delta) && csv_guarded(
        instructions,
        other,
    ) {
        let i = choose|i: int|
            0 < i < instructions.len() && #[trigger] instructions[i] == ScriptInstructionView::Op(
                OP_CSV,
            ) && instructions[i - 1] == ScriptInstructionView::PushBytes(delta_push(delta));
        let j = choose|j: int|
            0 < j < instructions.len() && #[trigger] instructions[j] == ScriptInstructionView::Op(
                OP_CSV,
            ) && instructions[j - 1] == ScriptInstructionView::PushBytes(delta_push(other));
        if i != j {
            lemma_two_locks(instructions, i, j);
        }
        law_delta_is_read_back(delta);
        law_delta_is_read_back(other);
    }
}

proof fn lemma_one_lock(instructions: Seq<ScriptInstructionView>, i: int)
    requires
        0 <= i < instructions.len(),
        instructions[i] == ScriptInstructionView::Op(OP_CSV),
    ensures
        csv_count(instructions) >= 1,
    decreases instructions.len(),
{
    if i < instructions.len() - 1 {
        lemma_one_lock(instructions.drop_last(), i);
    }
}

proof fn lemma_two_locks(instructions: Seq<ScriptInstructionView>, i: int, j: int)
    requires
        0 <= i < instructions.len(),
        0 <= j < instructions.len(),
        i != j,
        instructions[i] == ScriptInstructionView::Op(OP_CSV),
        instructions[j] == ScriptInstructionView::Op(OP_CSV),
    ensures
        csv_count(instructions) >= 2,
    decreases instructions.len(),
{
    let last = instructions.len() - 1;
    if i == last {
        lemma_one_lock(instructions.drop_last(), j);
    } else if j == last {
        lemma_one_lock(instructions.drop_last(), i);
    } else {
        lemma_two_locks(instructions.drop_last(), i, j);
    }
}

/// Keys are ordered by the first byte in which they differ.
pub proof fn law_keys_are_ordered_by_their_first_difference(a: Seq<u8>, b: Seq<u8>, i: int)
    requires
        0 <= i < a.len(),
        i < b.len(),
        a.take(i) == b.take(i),
        a[i] != b[i],
    ensures
        key_precedes(a, b) == (a[i] < b[i]),
    decreases i,
{
    if i > 0 {
        assert(a.take(i)[0] == a[0] && b.take(i)[0] == b[0]);
        assert(a[0] == b[0]);
        let (x, y) = (a.drop_first(), b.drop_first());
        assert(x.take(i - 1) =~= a.take(i).drop_first());
        assert(y.take(i - 1) =~= b.take(i).drop_first());
        assert(x[i - 1] == a[i] && y[i - 1] == b[i]);
        law_keys_are_ordered_by_their_first_difference(x, y, i - 1);
    }
}

/// The funding script holds both keys, the lower one first, and nothing else is between the two
/// counts: both must sign.
pub proof fn law_funding_script_holds_both_keys(a: Seq<u8>, b: Seq<u8>)
    requires
        a.len() == 33,
        b.len() == 33,
    ensures
        ({
            let script = funding_script(a, b);
            let (first, second) = (script.subrange(2, 35), script.subrange(36, 69));
            &&& script.len() == 71
            &&& script[0] == 0x52
            &&& script[1] == 33
            &&& script[35] == 33
            &&& script[69] == 0x52
            &&& script[70] == 0xae
            &&& key_precedes(b, a) ==> first == b && second == a
            &&& !key_precedes(b, a) ==> first == a && second == b
            &&& !key_precedes(second, first)
        }),
{
    let script = funding_script(a, b);
    let (low, high) = if key_precedes(b, a) {
        (b, a)
    } else {
        (a, b)
    };
    assert(script.subrange(2, 35) =~= low);
    assert(script.subrange(36, 69) =~= high);
    crate::script::lemma_precedes_is_total(a, b);
}

/// The script of an HTLC says all that it depends on: who offered the HTLC, the hash of the
/// revocation key, both HTLC keys, the hash of the payment, the lock of the success branch, and, if
/// it was received, its expiry. Two HTLCs that differ in any of these have different scripts.
pub proof fn law_htlc_script_says_its_terms(a: HtlcTermsView, b: HtlcTermsView)
    requires
        a.is_sized(),
        b.is_sized(),
        a.script() == b.script(),
    ensures
        a.offered == b.offered,
        a.revocation_key_hash == b.revocation_key_hash,
        a.countersignatory_htlc_key == b.countersignatory_htlc_key,
        a.broadcaster_htlc_key == b.broadcaster_htlc_key,
        a.payment_hash160 == b.payment_hash160,
        a.success_csv_delta == b.success_csv_delta,
        !a.offered ==> a.cltv_expiry == b.cltv_expiry,
{
    law_script_is_read_back(a);
    law_script_is_read_back(b);
    let (x, y) = (a.instructions(), b.instructions());
    assert(x == y);
    assert(x[2] == a.head()[2] && y[2] == b.head()[2]);
    assert(x[7] == a.head()[7] && y[7] == b.head()[7]);
    assert(x[12] == a.branch()[0] && y[12] == b.branch()[0]);
    assert(a.offered == b.offered);
    let l: int = if a.offered {
        20
    } else {
        13
    };
    if a.offered {
        assert(x[16] == a.branch()[4] && y[16] == b.branch()[4]);
    }
    let da: int = if a.success_csv_delta is Some {
        3
    } else {
        0
    };
    let db: int = if b.success_csv_delta is Some {
        3
    } else {
        0
    };
    let na = a.success_csv_delta->Some_0 as nat;
    let nb = b.success_csv_delta->Some_0 as nat;
    law_numbers_have_their_instructions(na, nb);
    law_numbers_have_their_instructions(nb, na);
    if da == 3 {
        assert(x[l] == a.success_lock()[0]);
    } else {
        assert(x[l] == a.tail()[0]);
    }
    if db == 3 {
        assert(y[l] == b.success_lock()[0]);
    } else {
        assert(y[l] == b.tail()[0]);
    }
    assert(da == db);
    assert(x[l + da + 1] == a.tail()[1] && y[l + da + 1] == b.tail()[1]);
    if !a.offered {
        assert(x[l + da + 5] == a.tail()[5] && y[l + da + 5] == b.tail()[5]);
        assert(x[l + da + 10] == a.tail()[10] && y[l + da + 10] == b.tail()[10]);
        law_numbers_have_their_instructions(a.cltv_expiry as nat, b.cltv_expiry as nat);
    }
}

} // verus!
