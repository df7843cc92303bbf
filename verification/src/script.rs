//! Scripts: the funding output, the HTLC output of an Ark channel, and how a script is inspected.

use vstd::prelude::*;

verus! {

/// Pushes as many bytes as the next byte says.
pub const OP_PUSHDATA1: u8 = 0x4c;

/// Pushes as many bytes as the next two bytes say.
pub const OP_PUSHDATA2: u8 = 0x4d;

/// Pushes as many bytes as the next four bytes say.
pub const OP_PUSHDATA4: u8 = 0x4e;

pub const OP_PUSHNUM_1: u8 = 0x51;

pub const OP_PUSHNUM_2: u8 = 0x52;

pub const OP_IF: u8 = 0x63;

pub const OP_NOTIF: u8 = 0x64;

pub const OP_ELSE: u8 = 0x67;

pub const OP_ENDIF: u8 = 0x68;

pub const OP_RETURN: u8 = 0x6a;

pub const OP_DROP: u8 = 0x75;

pub const OP_DUP: u8 = 0x76;

pub const OP_SWAP: u8 = 0x7c;

pub const OP_SIZE: u8 = 0x82;

pub const OP_EQUAL: u8 = 0x87;

pub const OP_EQUALVERIFY: u8 = 0x88;

pub const OP_HASH160: u8 = 0xa9;

pub const OP_CHECKSIG: u8 = 0xac;

pub const OP_CHECKMULTISIG: u8 = 0xae;

pub const OP_CLTV: u8 = 0xb1;

/// Checks a relative lock time.
pub const OP_CSV: u8 = 0xb2;

/// The longest push whose length is its own opcode.
pub const MAX_DIRECT_PUSH: usize = 75;

/// One instruction of a script.
#[derive(Clone, Debug)]
pub enum ScriptInstruction {
    /// Pushes bytes on the stack.
    PushBytes(Vec<u8>),
    /// Any other opcode.
    Op(u8),
}

/// The contents of a [`ScriptInstruction`].
#[verifier::ext_equal]
pub enum ScriptInstructionView {
    PushBytes(Seq<u8>),
    Op(u8),
}

impl View for ScriptInstruction {
    type V = ScriptInstructionView;

    open spec fn view(&self) -> ScriptInstructionView {
        match *self {
            ScriptInstruction::PushBytes(b) => ScriptInstructionView::PushBytes(b@),
            ScriptInstruction::Op(op) => ScriptInstructionView::Op(op),
        }
    }
}

/// The contents of instructions.
pub open spec fn instructions_view(instructions: Seq<ScriptInstruction>) -> Seq<
    ScriptInstructionView,
> {
    instructions.map_values(|i: ScriptInstruction| i@)
}

impl ScriptInstructionView {
    /// The bytes of this instruction, if its push is short enough for a direct one.
    pub open spec fn bytes(self) -> Seq<u8> {
        match self {
            ScriptInstructionView::PushBytes(b) => seq![b.len() as u8] + b,
            ScriptInstructionView::Op(op) => seq![op],
        }
    }

    /// Whether this is no push, or a direct one.
    pub open spec fn is_direct(self) -> bool {
        self matches ScriptInstructionView::PushBytes(b) ==> b.len() <= MAX_DIRECT_PUSH
    }

    /// Whether the bytes of this instruction are read back as this instruction: a direct push, or
    /// an opcode that pushes no bytes.
    pub open spec fn reads_back(self) -> bool {
        match self {
            ScriptInstructionView::PushBytes(b) => b.len() <= MAX_DIRECT_PUSH,
            ScriptInstructionView::Op(op) => op > OP_PUSHDATA4,
        }
    }
}

/// The bytes of a script.
pub open spec fn script_bytes(instructions: Seq<ScriptInstructionView>) -> Seq<u8>
    decreases instructions.len(),
{
    if instructions.len() == 0 {
        seq![]
    } else {
        script_bytes(instructions.drop_last()) + instructions.last().bytes()
    }
}

/// Writes a script down.
pub fn encode_script(instructions: &Vec<ScriptInstruction>) -> (bytes: Vec<u8>)
    requires
        forall|i: int|
            0 <= i < instructions.len() ==> (#[trigger] instructions@[i])@.is_direct(),
    ensures
        bytes@ == script_bytes(instructions_view(instructions@)),
{
    let ghost all = instructions_view(instructions@);
    let mut bytes: Vec<u8> = Vec::new();
    assert(bytes@ =~= script_bytes(all.take(0)));
    let mut i: usize = 0;
    while i < instructions.len()
        invariant
            i <= instructions.len(),
            all == instructions_view(instructions@),
            forall|k: int|
                0 <= k < instructions.len() ==> (#[trigger] instructions@[k])@.is_direct(),
            bytes@ == script_bytes(all.take(i as int)),
        decreases instructions.len() - i,
    {
        assert(all.take(i + 1).drop_last() =~= all.take(i as int));
        assert(all.take(i + 1).last() == instructions@[i as int]@);
        let ghost before = bytes@;
        match &instructions[i] {
            ScriptInstruction::PushBytes(b) => {
                bytes.push(b.len() as u8);
                bytes.extend_from_slice(b.as_slice());
                assert(bytes@ =~= before + instructions@[i as int]@.bytes());
            },
            ScriptInstruction::Op(op) => {
                bytes.push(*op);
                assert(bytes@ =~= before + instructions@[i as int]@.bytes());
            },
        }
        i = i + 1;
    }
    assert(all.take(all.len() as int) =~= all);
    bytes
}

/// A number, the low byte first.
pub open spec fn le_number(bytes: Seq<u8>) -> nat
    decreases bytes.len(),
{
    if bytes.len() == 0 {
        0
    } else {
        bytes[0] as nat + 256 * le_number(bytes.drop_first())
    }
}

/// How many bytes behind an opcode say how much it pushes.
pub open spec fn length_width(op: u8) -> int {
    if op == OP_PUSHDATA1 {
        1
    } else if op == OP_PUSHDATA2 {
        2
    } else if op == OP_PUSHDATA4 {
        4
    } else {
        0
    }
}

/// The instructions of a script, or nothing if the script ends within a push.
pub open spec fn parsed_script(script: Seq<u8>) -> Option<Seq<ScriptInstructionView>>
    decreases script.len(),
{
    if script.len() == 0 {
        Some(seq![])
    } else if script[0] > OP_PUSHDATA4 {
        match parsed_script(script.skip(1)) {
            Some(rest) => Some(seq![ScriptInstructionView::Op(script[0])] + rest),
            None => None,
        }
    } else {
        let start = 1 + length_width(script[0]);
        let end = if start == 1 {
            start + script[0]
        } else {
            start + le_number(script.subrange(1, start))
        };
        if script.len() < start || script.len() < end {
            None
        } else {
            match parsed_script(script.skip(end)) {
                Some(rest) => Some(
                    seq![ScriptInstructionView::PushBytes(script.subrange(start, end))] + rest,
                ),
                None => None,
            }
        }
    }
}

proof fn lemma_first_instruction(instructions: Seq<ScriptInstructionView>)
    requires
        instructions.len() > 0,
    ensures
        script_bytes(instructions) == instructions[0].bytes() + script_bytes(
            instructions.drop_first(),
        ),
    decreases instructions.len(),
{
    if instructions.len() == 1 {
        assert(instructions.drop_last() =~= seq![]);
        assert(instructions.drop_first() =~= seq![]);
        reveal_with_fuel(script_bytes, 2);
        assert(script_bytes(instructions) =~= instructions[0].bytes());
        assert(instructions[0].bytes() + script_bytes(instructions.drop_first())
            =~= instructions[0].bytes());
    } else {
        lemma_first_instruction(instructions.drop_last());
        assert(instructions.drop_last().drop_first() =~= instructions.drop_first().drop_last());
        assert(script_bytes(instructions) =~= instructions[0].bytes() + script_bytes(
            instructions.drop_first(),
        ));
    }
}

/// A script that is written down is read back as it was, if its pushes are direct ones.
pub proof fn law_script_reads_back(instructions: Seq<ScriptInstructionView>)
    requires
        forall|i: int| 0 <= i < instructions.len() ==> (#[trigger] instructions[i]).reads_back(),
    ensures
        parsed_script(script_bytes(instructions)) == Some(instructions),
    decreases instructions.len(),
{
    let bytes = script_bytes(instructions);
    if instructions.len() == 0 {
        assert(instructions =~= seq![]);
    } else {
        let rest = instructions.drop_first();
        lemma_first_instruction(instructions);
        assert forall|i: int| 0 <= i < rest.len() implies (#[trigger] rest[i]).reads_back() by {
            assert(rest[i] == instructions[i + 1]);
        }
        law_script_reads_back(rest);
        let first = instructions[0];
        assert(bytes.skip(first.bytes().len() as int) =~= script_bytes(rest));
        match first {
            ScriptInstructionView::PushBytes(b) => {
                assert(bytes[0] == b.len());
                assert(bytes.subrange(1, 1 + bytes[0]) =~= b);
            },
            ScriptInstructionView::Op(op) => {
                assert(bytes[0] == op);
            },
        }
        assert(seq![first] + rest =~= instructions);
    }
}

/// Calls `bitcoin::Script::instructions` and collects what it yields.
///
/// Claims that the function takes a script apart as [`parsed_script`] says: an opcode up to 75
/// pushes that many bytes, the three opcodes behind it push as many as the one, two or four bytes
/// after them say, every other opcode stands for itself, and a script that ends within a push is an
/// error.
#[verifier::external_body]
fn parse_script(script: &Vec<u8>) -> (parsed: Option<Vec<ScriptInstruction>>)
    ensures
        match parsed {
            Some(instructions) => parsed_script(script@) == Some(instructions_view(instructions@)),
            None => parsed_script(script@) is None,
        },
{
    bitcoin::Script::from_bytes(script)
        .instructions()
        .map(|instruction| match instruction {
            Ok(bitcoin::script::Instruction::PushBytes(b)) => {
                Ok(ScriptInstruction::PushBytes(b.as_bytes().to_vec()))
            },
            Ok(bitcoin::script::Instruction::Op(op)) => Ok(ScriptInstruction::Op(op.to_u8())),
            Err(e) => Err(e),
        })
        .collect::<Result<Vec<ScriptInstruction>, bitcoin::script::Error>>()
        .ok()
}

/// Calls `bitcoin::Script::is_p2wsh`.
///
/// Claims that the function recognises exactly the scripts of version zero with a program of
/// thirty-two bytes.
#[verifier::external_body]
fn script_is_p2wsh(script: &Vec<u8>) -> (r: bool)
    ensures
        r == p2wsh_shape(script@),
{
    bitcoin::Script::from_bytes(script).is_p2wsh()
}

/// Calls `bitcoin::Script::is_p2tr`.
///
/// Claims that the function recognises exactly the scripts of version one with a program of
/// thirty-two bytes.
#[verifier::external_body]
fn script_is_p2tr(script: &Vec<u8>) -> (r: bool)
    ensures
        r == p2tr_shape(script@),
{
    bitcoin::Script::from_bytes(script).is_p2tr()
}

/// Calls `bitcoin::Script::is_op_return`.
///
/// Claims that the function recognises exactly the scripts that start with `OP_RETURN`.
#[verifier::external_body]
fn script_is_op_return(script: &Vec<u8>) -> (r: bool)
    ensures
        r == op_return_shape(script@),
{
    bitcoin::Script::from_bytes(script).is_op_return()
}

/// The output script that `bitcoin::Script::to_p2wsh` makes of a witness script.
pub uninterp spec fn p2wsh_of(witness_script: Seq<u8>) -> Seq<u8>;

/// Calls `bitcoin::Script::to_p2wsh`.
///
/// Claims that the output script depends on the witness script alone, and that it is of version
/// zero with a program of thirty-two bytes. Which bytes the program holds, the hash of the witness
/// script, is not stated.
#[verifier::external_body]
fn script_to_p2wsh(witness_script: &Vec<u8>) -> (script: Vec<u8>)
    ensures
        script@ == p2wsh_of(witness_script@),
        p2wsh_shape(script@),
{
    bitcoin::Script::from_bytes(witness_script).to_p2wsh().into_bytes()
}

/// Calls `bitcoin::ScriptBuf::new_p2a`.
///
/// Claims that the script is of version one with the two bytes of the anchor program.
#[verifier::external_body]
fn script_new_p2a() -> (script: Vec<u8>)
    ensures
        script@ == anchor_script(),
{
    bitcoin::ScriptBuf::new_p2a().into_bytes()
}

/// The output script of an anchor that anyone can spend.
pub open spec fn anchor_script() -> Seq<u8> {
    seq![OP_PUSHNUM_1, 0x02u8, 0x4eu8, 0x73u8]
}

/// Whether this is an output script of version zero that pays to a witness script.
pub open spec fn p2wsh_shape(script: Seq<u8>) -> bool {
    script.len() == 34 && script[0] == 0x00 && script[1] == 0x20
}

/// Whether this is an output script of version one that pays to a taproot key.
pub open spec fn p2tr_shape(script: Seq<u8>) -> bool {
    script.len() == 34 && script[0] == OP_PUSHNUM_1 && script[1] == 0x20
}

/// Whether this is an output script that carries data and cannot be spent.
pub open spec fn op_return_shape(script: Seq<u8>) -> bool {
    script.len() > 0 && script[0] == OP_RETURN
}

/// Whether an output script pays to a witness script and not to a taproot key.
pub fn is_p2wsh_and_not_p2tr(script: &Vec<u8>) -> (r: bool)
    ensures
        r == p2wsh_shape(script@),
{
    script_is_p2wsh(script) && !script_is_p2tr(script)
}

/// The output script of an anchor that anyone can spend.
pub fn shared_anchor_script_pubkey() -> (script: Vec<u8>)
    ensures
        script@ == anchor_script(),
{
    script_new_p2a()
}

/// The output script that pays to a witness script.
pub fn witness_script_pubkey(witness_script: &Vec<u8>) -> (script: Vec<u8>)
    ensures
        script@ == p2wsh_of(witness_script@),
        p2wsh_shape(script@),
{
    script_to_p2wsh(witness_script)
}

/// Whether none of the output scripts carries data.
pub fn no_op_return(scripts: &Vec<Vec<u8>>) -> (r: bool)
    ensures
        r == (forall|i: int| 0 <= i < scripts.len() ==> !op_return_shape(#[trigger] scripts@[i]@)),
{
    let mut i: usize = 0;
    while i < scripts.len()
        invariant
            i <= scripts.len(),
            forall|k: int| 0 <= k < i ==> !op_return_shape(#[trigger] scripts@[k]@),
        decreases scripts.len() - i,
    {
        if script_is_op_return(&scripts[i]) {
            assert(op_return_shape(scripts@[i as int]@));
            return false;
        }
        i = i + 1;
    }
    true
}

/// The number of relative lock time checks in a script.
pub open spec fn csv_count(instructions: Seq<ScriptInstructionView>) -> nat
    decreases instructions.len(),
{
    if instructions.len() == 0 {
        0
    } else {
        csv_count(instructions.drop_last()) + if instructions.last()
            == ScriptInstructionView::Op(OP_CSV) {
            1nat
        } else {
            0
        }
    }
}

/// The two bytes that push a delta.
pub open spec fn delta_push(delta: u16) -> Seq<u8> {
    seq![(delta % 256) as u8, (delta / 256) as u8]
}

/// Whether a relative lock time check stands directly behind a push of the delta.
pub open spec fn csv_guarded(instructions: Seq<ScriptInstructionView>, delta: u16) -> bool {
    exists|i: int|
        0 < i < instructions.len() && #[trigger] instructions[i] == ScriptInstructionView::Op(
            OP_CSV,
        ) && instructions[i - 1] == ScriptInstructionView::PushBytes(delta_push(delta))
}

/// Whether every relative lock time check stands directly behind this push.
pub open spec fn csv_only_behind(
    instructions: Seq<ScriptInstructionView>,
    push: ScriptInstructionView,
) -> bool {
    forall|i: int|
        0 <= i < instructions.len() && #[trigger] instructions[i] == ScriptInstructionView::Op(
            OP_CSV,
        ) ==> i > 0 && instructions[i - 1] == push
}

/// What a script says of relative lock times.
#[derive(Clone, Copy, PartialEq, Eq, Structural, Debug)]
pub struct CsvInspection {
    /// The number of relative lock time checks.
    pub csv_count: usize,
    /// Whether one of them stands directly behind a push of the delta.
    pub guarded: bool,
}

fn is_delta_push(bytes: &Vec<u8>, delta: u16) -> (r: bool)
    ensures
        r == (bytes@ == delta_push(delta)),
{
    let r: bool = bytes.len() == 2 && bytes[0] == (delta % 256) as u8 && bytes[1] == (delta / 256)
        as u8;
    assert(r ==> bytes@ =~= delta_push(delta));
    r
}

/// Looks for relative lock time checks, and for one that the delta guards.
pub fn inspect_instructions(instructions: &Vec<ScriptInstruction>, delta: u16) -> (inspection:
    CsvInspection)
    ensures
        inspection.csv_count == csv_count(instructions_view(instructions@)),
        inspection.guarded == csv_guarded(instructions_view(instructions@), delta),
{
    let ghost all = instructions_view(instructions@);
    let mut count: usize = 0;
    let mut guarded: bool = false;
    let mut after_push: bool = false;
    let mut i: usize = 0;
    while i < instructions.len()
        invariant
            i <= instructions.len(),
            all == instructions_view(instructions@),
            count <= i,
            count == csv_count(all.take(i as int)),
            guarded == csv_guarded(all.take(i as int), delta),
            after_push == (i > 0 && all[i - 1] == ScriptInstructionView::PushBytes(
                delta_push(delta),
            )),
        decreases instructions.len() - i,
    {
        let ghost shorter = all.take(i as int);
        let ghost longer = all.take(i + 1);
        assert(longer.drop_last() =~= shorter);
        assert(longer.last() == instructions@[i as int]@);
        assert(csv_guarded(shorter, delta) ==> csv_guarded(longer, delta)) by {
            if csv_guarded(shorter, delta) {
                let k = choose|k: int|
                    0 < k < shorter.len() && #[trigger] shorter[k] == ScriptInstructionView::Op(
                        OP_CSV,
                    ) && shorter[k - 1] == ScriptInstructionView::PushBytes(delta_push(delta));
                assert(longer[k] == shorter[k] && longer[k - 1] == shorter[k - 1]);
            }
        }
        match &instructions[i] {
            ScriptInstruction::PushBytes(b) => {
                after_push = is_delta_push(b, delta);
            },
            ScriptInstruction::Op(op) => {
                if *op == OP_CSV {
                    count = count + 1;
                    if after_push {
                        assert(longer[i as int] == ScriptInstructionView::Op(OP_CSV));
                        guarded = true;
                    }
                }
                after_push = false;
            },
        }
        assert(csv_guarded(longer, delta) ==> guarded) by {
            if csv_guarded(longer, delta) {
                let k = choose|k: int|
                    0 < k < longer.len() && #[trigger] longer[k] == ScriptInstructionView::Op(
                        OP_CSV,
                    ) && longer[k - 1] == ScriptInstructionView::PushBytes(delta_push(delta));
                if k < i {
                    assert(shorter[k] == longer[k] && shorter[k - 1] == longer[k - 1]);
                }
            }
        }
        i = i + 1;
    }
    assert(all.take(all.len() as int) =~= all);
    CsvInspection { csv_count: count, guarded }
}

/// Looks for relative lock time checks in the bytes of a script. There is no answer if the script
/// ends early.
pub fn inspect_script(script: &Vec<u8>, delta: u16) -> (inspection: Option<CsvInspection>)
    ensures
        match parsed_script(script@) {
            Some(instructions) => inspection is Some && inspection->Some_0.csv_count == csv_count(
                instructions,
            ) && inspection->Some_0.guarded == csv_guarded(instructions, delta),
            None => inspection is None,
        },
{
    match parse_script(script) {
        Some(instructions) => Some(inspect_instructions(&instructions, delta)),
        None => None,
    }
}

/// Whether the first key comes before the second, byte by byte.
pub open spec fn key_precedes(a: Seq<u8>, b: Seq<u8>) -> bool
    decreases a.len(),
{
    if a.len() == 0 || b.len() == 0 {
        false
    } else if a[0] != b[0] {
        a[0] < b[0]
    } else {
        key_precedes(a.drop_first(), b.drop_first())
    }
}

/// The witness script of a funding output: both keys must sign. The keys stand in their order, so
/// that both sides write the same script.
pub open spec fn funding_script(a: Seq<u8>, b: Seq<u8>) -> Seq<u8> {
    let (first, second) = if key_precedes(b, a) {
        (b, a)
    } else {
        (a, b)
    };
    seq![OP_PUSHNUM_2] + seq![33u8] + first + seq![33u8] + second + seq![
        OP_PUSHNUM_2,
        OP_CHECKMULTISIG,
    ]
}

fn precedes(a: &[u8; 33], b: &[u8; 33]) -> (r: bool)
    ensures
        r == key_precedes(a@, b@),
{
    let mut i: usize = 0;
    assert(a@.skip(0) =~= a@);
    assert(b@.skip(0) =~= b@);
    while i < 33
        invariant
            i <= 33,
            key_precedes(a@, b@) == key_precedes(a@.skip(i as int), b@.skip(i as int)),
        decreases 33 - i,
    {
        assert(a@.skip(i as int).drop_first() =~= a@.skip(i + 1));
        assert(b@.skip(i as int).drop_first() =~= b@.skip(i + 1));
        if a[i] != b[i] {
            return a[i] < b[i];
        }
        i = i + 1;
    }
    false
}

/// Writes the witness script of a funding output down.
pub fn make_funding_script(a: &[u8; 33], b: &[u8; 33]) -> (script: Vec<u8>)
    ensures
        script@ == funding_script(a@, b@),
{
    let swapped: bool = precedes(b, a);
    let (first, second): (&[u8; 33], &[u8; 33]) = if swapped {
        (b, a)
    } else {
        (a, b)
    };
    let mut script: Vec<u8> = Vec::new();
    script.push(OP_PUSHNUM_2);
    script.push(33);
    script.extend_from_slice(first.as_slice());
    script.push(33);
    script.extend_from_slice(second.as_slice());
    script.push(OP_PUSHNUM_2);
    script.push(OP_CHECKMULTISIG);
    assert(script@ =~= funding_script(a@, b@));
    script
}

/// The output script of a funding output. It pays to the witness script, never to a taproot key.
pub fn funding_output_script(a: &[u8; 33], b: &[u8; 33]) -> (script: Vec<u8>)
    ensures
        script@ == p2wsh_of(funding_script(a@, b@)),
        p2wsh_shape(script@),
        !p2tr_shape(script@),
{
    let witness_script = make_funding_script(a, b);
    script_to_p2wsh(&witness_script)
}

pub(crate) proof fn lemma_precedes_is_total(a: Seq<u8>, b: Seq<u8>)
    requires
        a.len() == b.len(),
    ensures
        !key_precedes(a, b) && !key_precedes(b, a) ==> a == b,
        !(key_precedes(a, b) && key_precedes(b, a)),
    decreases a.len(),
{
    if a.len() == 0 {
        assert(a =~= b);
    } else if a[0] == b[0] {
        lemma_precedes_is_total(a.drop_first(), b.drop_first());
        if a.drop_first() == b.drop_first() {
            assert(a =~= seq![a[0]] + a.drop_first());
            assert(b =~= seq![b[0]] + b.drop_first());
        }
    }
}

/// Both sides of a channel write the same funding script, whichever key each counts as its own.
pub proof fn law_funding_script_is_shared(a: Seq<u8>, b: Seq<u8>)
    requires
        a.len() == b.len(),
    ensures
        funding_script(a, b) == funding_script(b, a),
{
    lemma_precedes_is_total(a, b);
}

} // verus!
