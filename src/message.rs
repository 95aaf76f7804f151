//! Message assembly and its canonical byte serialization.
use vstd::prelude::*;

use crate::bytes::flag_byte;
use crate::bytes::le_u64;
use crate::bytes::push_all;
use crate::bytes::push_flag;
use crate::bytes::push_u64_le;
use crate::instruction::AccountMeta;
use crate::instruction::Instruction;
use crate::types::Address;

verus! {

/// A message: the fee payer, the checkpoint it is bound to, its
/// instructions, and every account they reference, deduplicated in
/// first-seen order with the fee payer first.
#[derive(Debug)]
pub struct Message {
    pub fee_payer: Address,
    pub checkpoint: [u8; 32],
    pub instructions: Vec<Instruction>,
    pub account_keys: Vec<AccountMeta>,
}

/// Why a message could not be assembled.
#[derive(Clone, Copy, Debug, PartialEq, Eq, Structural)]
pub enum AssembleError {
    EmptyInstructionList,
}

/// Whether `keys` holds `a`.
pub open spec fn holds_address(keys: Seq<AccountMeta>, a: Seq<u8>) -> bool {
    exists|i: int| 0 <= i < keys.len() && keys[i].address@ == a
}

/// No address occurs twice in `keys`.
pub open spec fn distinct_addresses(keys: Seq<AccountMeta>) -> bool {
    forall|i: int, j: int|
        0 <= i < keys.len() && 0 <= j < keys.len() && i != j ==> keys[i].address@ != keys[j].address@
}

/// Adds one account reference to a deduplicated list: an address already
/// present keeps its place and gains the new flags, a new one goes last.
pub open spec fn merge_meta(keys: Seq<AccountMeta>, m: AccountMeta) -> Seq<AccountMeta> {
    if holds_address(keys, m.address@) {
        let i = choose|i: int| 0 <= i < keys.len() && keys[i].address@ == m.address@;
        keys.update(
            i,
            AccountMeta {
                address: keys[i].address,
                is_signer: keys[i].is_signer || m.is_signer,
                is_writable: keys[i].is_writable || m.is_writable,
            },
        )
    } else {
        keys.push(m)
    }
}

/// Adds a run of account references, in order.
pub open spec fn merge_metas(keys: Seq<AccountMeta>, metas: Seq<AccountMeta>) -> Seq<AccountMeta>
    decreases metas.len(),
{
    if metas.len() == 0 {
        keys
    } else {
        merge_meta(merge_metas(keys, metas.drop_last()), metas.last())
    }
}

/// The reference an instruction makes to its own program: read-only, not a signer.
pub open spec fn program_meta(ins: Instruction) -> AccountMeta {
    AccountMeta { address: ins.program_id, is_signer: false, is_writable: false }
}

/// The fee payer's entry: a writable signer.
pub open spec fn payer_meta(payer: Address) -> AccountMeta {
    AccountMeta { address: payer, is_signer: true, is_writable: true }
}

/// The account list of a message: the fee payer, then each instruction's
/// accounts followed by its program, deduplicated in first-seen order.
pub open spec fn message_accounts(payer: Address, ins: Seq<Instruction>) -> Seq<AccountMeta>
    decreases ins.len(),
{
    if ins.len() == 0 {
        seq![payer_meta(payer)]
    } else {
        let prev = message_accounts(payer, ins.drop_last());
        merge_meta(merge_metas(prev, ins.last().accounts@), program_meta(ins.last()))
    }
}

/// The wire form of one account entry: its address, then its signer and
/// writable flags.
pub open spec fn meta_bytes(m: AccountMeta) -> Seq<u8> {
    m.address@ + seq![flag_byte(m.is_signer), flag_byte(m.is_writable)]
}

/// The wire form of a run of account entries.
pub open spec fn metas_bytes(s: Seq<AccountMeta>) -> Seq<u8>
    decreases s.len(),
{
    if s.len() == 0 {
        Seq::empty()
    } else {
        metas_bytes(s.drop_last()) + meta_bytes(s.last())
    }
}

/// The wire form of an instruction: program, account count, accounts, data
/// length, data.
pub open spec fn instruction_bytes(ins: Instruction) -> Seq<u8> {
    ins.program_id@ + le_u64(ins.accounts@.len() as u64) + metas_bytes(ins.accounts@) + le_u64(
        ins.data@.len() as u64,
    ) + ins.data@
}

/// The wire form of a run of instructions.
pub open spec fn instructions_bytes(s: Seq<Instruction>) -> Seq<u8>
    decreases s.len(),
{
    if s.len() == 0 {
        Seq::empty()
    } else {
        instructions_bytes(s.drop_last()) + instruction_bytes(s.last())
    }
}

/// The canonical bytes of a message, over which signatures are computed:
/// account count, accounts, checkpoint, instruction count, instructions.
pub open spec fn message_bytes(m: Message) -> Seq<u8> {
    le_u64(m.account_keys@.len() as u64) + metas_bytes(m.account_keys@) + m.checkpoint@ + le_u64(
        m.instructions@.len() as u64,
    ) + instructions_bytes(m.instructions@)
}

proof fn lemma_merge_meta_distinct(keys: Seq<AccountMeta>, m: AccountMeta)
    requires
        distinct_addresses(keys),
    ensures
        distinct_addresses(merge_meta(keys, m)),
        holds_address(merge_meta(keys, m), m.address@),
{
    let r = merge_meta(keys, m);
    if holds_address(keys, m.address@) {
        let i = choose|i: int| 0 <= i < keys.len() && keys[i].address@ == m.address@;
        assert(r[i].address@ == m.address@);
    } else {
        assert(r[keys.len() as int].address@ == m.address@);
    }
}

/// Adds `m` to the deduplicated list `keys`.
fn add_meta(keys: &mut Vec<AccountMeta>, m: AccountMeta)
    requires
        distinct_addresses(old(keys)@),
    ensures
        final(keys)@ == merge_meta(old(keys)@, m),
        distinct_addresses(final(keys)@),
        final(keys)@.len() >= old(keys)@.len(),
        forall|j: int| 0 <= j < old(keys)@.len() ==> final(keys)@[j].address == old(keys)@[j].address,
{
    proof {
        lemma_merge_meta_distinct(keys@, m);
    }
    let mut i: usize = 0;
    while i < keys.len()
        invariant
            0 <= i <= keys@.len(),
            keys@ == old(keys)@,
            distinct_addresses(keys@),
            forall|j: int| 0 <= j < i ==> keys@[j].address@ != m.address@,
        decreases keys@.len() - i,
    {
        if keys[i].address.same_as(&m.address) {
            let k = keys[i];
            let merged = AccountMeta {
                address: k.address,
                is_signer: k.is_signer || m.is_signer,
                is_writable: k.is_writable || m.is_writable,
            };
            proof {
                let c = choose|c: int| 0 <= c < keys@.len() && keys@[c].address@ == m.address@;
                assert(keys@[c].address@ == keys@[i as int].address@);
                assert(c == i);
            }
            keys.set(i, merged);
            return;
        }
        i = i + 1;
    }
    keys.push(m);
}

/// Assembles a message from instructions, a fee payer and a checkpoint.
/// Account references are deduplicated in first-seen order, with the fee
/// payer first; an address referenced more than once keeps the union of its
/// flags.
pub fn assemble(instructions: Vec<Instruction>, fee_payer: &Address, checkpoint: &[u8; 32]) -> (r:
    Result<Message, AssembleError>)
    ensures
        instructions@.len() == 0 <==> r == Err::<Message, AssembleError>(
            AssembleError::EmptyInstructionList,
        ),
        r is Ok ==> {
            let m = r->Ok_0;
            &&& m.fee_payer == *fee_payer
            &&& m.checkpoint@ == checkpoint@
            &&& m.instructions@ == instructions@
            &&& m.account_keys@ == message_accounts(*fee_payer, instructions@)
            &&& distinct_addresses(m.account_keys@)
            &&& m.account_keys@[0].address == *fee_payer
        },
{
    if instructions.len() == 0 {
        return Err(AssembleError::EmptyInstructionList);
    }
    Ok(build_message(instructions, fee_payer, checkpoint))
}

/// The message of a non-empty instruction list.
pub(crate) fn build_message(instructions: Vec<Instruction>, fee_payer: &Address, checkpoint: &[u8; 32]) -> (m: Message)
    ensures
        m.fee_payer == *fee_payer,
        m.checkpoint@ == checkpoint@,
        m.instructions@ == instructions@,
        m.account_keys@ == message_accounts(*fee_payer, instructions@),
        distinct_addresses(m.account_keys@),
        m.account_keys@.len() > 0 && m.account_keys@[0].address == *fee_payer,
{
    let mut keys: Vec<AccountMeta> = Vec::new();
    keys.push(AccountMeta { address: *fee_payer, is_signer: true, is_writable: true });
    assert(keys@ =~= message_accounts(*fee_payer, instructions@.take(0)));
    let mut i: usize = 0;
    while i < instructions.len()
        invariant
            0 <= i <= instructions@.len(),
            keys@ == message_accounts(*fee_payer, instructions@.take(i as int)),
            distinct_addresses(keys@),
            keys@.len() > 0 && keys@[0].address == *fee_payer,
        decreases instructions@.len() - i,
    {
        let ins = &instructions[i];
        let ghost start = keys@;
        let mut j: usize = 0;
        while j < ins.accounts.len()
            invariant
                0 <= j <= ins.accounts@.len(),
                keys@ == merge_metas(start, ins.accounts@.take(j as int)),
                distinct_addresses(keys@),
                keys@.len() > 0 && keys@[0].address == *fee_payer,
            decreases ins.accounts@.len() - j,
        {
            add_meta(&mut keys, ins.accounts[j]);
            proof {
                assert(ins.accounts@.take(j + 1).drop_last() =~= ins.accounts@.take(j as int));
            }
            j = j + 1;
        }
        assert(ins.accounts@.take(j as int) =~= ins.accounts@);
        add_meta(&mut keys, AccountMeta { address: ins.program_id, is_signer: false, is_writable: false });
        proof {
            assert(instructions@.take(i + 1).drop_last() =~= instructions@.take(i as int));
        }
        i = i + 1;
    }
    assert(instructions@.take(i as int) =~= instructions@);
    Message { fee_payer: *fee_payer, checkpoint: *checkpoint, instructions, account_keys: keys }
}

/// Appends the wire form of a run of account entries.
fn push_metas(out: &mut Vec<u8>, metas: &Vec<AccountMeta>)
    ensures
        final(out)@ == old(out)@ + metas_bytes(metas@),
{
    let ghost start = out@;
    let mut i: usize = 0;
    while i < metas.len()
        invariant
            0 <= i <= metas@.len(),
            out@ == start + metas_bytes(metas@.take(i as int)),
        decreases metas@.len() - i,
    {
        let m = metas[i];
        push_all(out, m.address.bytes.as_slice());
        push_flag(out, m.is_signer);
        push_flag(out, m.is_writable);
        proof {
            let t = metas@.take(i + 1);
            assert(t.drop_last() =~= metas@.take(i as int));
            assert(out@ =~= start + metas_bytes(t));
        }
        i = i + 1;
    }
    assert(metas@.take(i as int) =~= metas@);
}

/// Appends the wire form of one instruction.
fn push_instruction(out: &mut Vec<u8>, ins: &Instruction)
    ensures
        final(out)@ == old(out)@ + instruction_bytes(*ins),
{
    let ghost start = out@;
    push_all(out, ins.program_id.bytes.as_slice());
    push_u64_le(out, ins.accounts.len() as u64);
    push_metas(out, &ins.accounts);
    push_u64_le(out, ins.data.len() as u64);
    push_all(out, ins.data.as_slice());
    assert(out@ =~= start + instruction_bytes(*ins));
}

impl Message {
    /// The canonical bytes of the message: the same message always gives the
    /// same bytes, and signatures are computed over exactly these.
    pub fn to_bytes(&self) -> (r: Vec<u8>)
        ensures
            r@ == message_bytes(*self),
    {
        let mut out: Vec<u8> = Vec::new();
        push_u64_le(&mut out, self.account_keys.len() as u64);
        push_metas(&mut out, &self.account_keys);
        push_all(&mut out, self.checkpoint.as_slice());
        push_u64_le(&mut out, self.instructions.len() as u64);
        let ghost head = out@;
        let mut i: usize = 0;
        while i < self.instructions.len()
            invariant
                0 <= i <= self.instructions@.len(),
                out@ == head + instructions_bytes(self.instructions@.take(i as int)),
            decreases self.instructions@.len() - i,
        {
            push_instruction(&mut out, &self.instructions[i]);
            proof {
                let t = self.instructions@.take(i + 1);
                assert(t.drop_last() =~= self.instructions@.take(i as int));
                assert(out@ =~= head + instructions_bytes(t));
            }
            i = i + 1;
        }
        assert(self.instructions@.take(i as int) =~= self.instructions@);
        assert(out@ =~= message_bytes(*self));
        out
    }
}

/// Two instruction lists that agree on every program, account list and
/// payload.
pub open spec fn same_instructions(a: Seq<Instruction>, b: Seq<Instruction>) -> bool {
    &&& a.len() == b.len()
    &&& forall|i: int|
        0 <= i < a.len() ==> {
            &&& a[i].program_id == b[i].program_id
            &&& a[i].accounts@ == b[i].accounts@
            &&& a[i].data@ == b[i].data@
        }
}

/// Two instruction lists that agree on every program and account list,
/// whatever their payloads.
pub open spec fn same_account_shape(a: Seq<Instruction>, b: Seq<Instruction>) -> bool {
    &&& a.len() == b.len()
    &&& forall|i: int|
        0 <= i < a.len() ==> a[i].program_id == b[i].program_id && a[i].accounts@ == b[i].accounts@
}

/// The account list of a message depends on the programs and accounts of
/// its instructions only: rebuilding the instructions with other payloads
/// (an adjusted amount) keeps the same accounts in the same order.
pub proof fn lemma_accounts_ignore_payloads(payer: Address, a: Seq<Instruction>, b: Seq<Instruction>)
    requires
        same_account_shape(a, b),
    ensures
        message_accounts(payer, a) == message_accounts(payer, b),
    decreases a.len(),
{
    if a.len() > 0 {
        assert(same_account_shape(a.drop_last(), b.drop_last()));
        lemma_accounts_ignore_payloads(payer, a.drop_last(), b.drop_last());
        assert(a.last().accounts@ == b.last().accounts@);
        assert(program_meta(a.last()) == program_meta(b.last()));
    }
}

proof fn lemma_instructions_bytes_same(a: Seq<Instruction>, b: Seq<Instruction>)
    requires
        same_instructions(a, b),
    ensures
        instructions_bytes(a) == instructions_bytes(b),
    decreases a.len(),
{
    if a.len() > 0 {
        assert(same_instructions(a.drop_last(), b.drop_last()));
        lemma_instructions_bytes_same(a.drop_last(), b.drop_last());
        assert(instruction_bytes(a.last()) == instruction_bytes(b.last()));
    }
}

/// Assembling twice from the same instructions, fee payer and checkpoint
/// gives byte-identical serializations.
pub proof fn lemma_reassembly_identical(m1: Message, m2: Message)
    requires
        m1.fee_payer == m2.fee_payer,
        m1.checkpoint@ == m2.checkpoint@,
        same_instructions(m1.instructions@, m2.instructions@),
        m1.account_keys@ == message_accounts(m1.fee_payer, m1.instructions@),
        m2.account_keys@ == message_accounts(m2.fee_payer, m2.instructions@),
    ensures
        message_bytes(m1) == message_bytes(m2),
{
    lemma_accounts_ignore_payloads(m1.fee_payer, m1.instructions@, m2.instructions@);
    lemma_instructions_bytes_same(m1.instructions@, m2.instructions@);
}

} // verus!
