//! Instructions: a target program, the accounts it touches, and an opaque
//! payload.
use vstd::prelude::*;

use crate::bytes::le_u64;
use crate::bytes::push_u64_le;
use crate::types::Address;

verus! {

/// One account that an instruction reads or writes.
#[derive(Clone, Copy, Debug)]
pub struct AccountMeta {
    pub address: Address,
    pub is_signer: bool,
    pub is_writable: bool,
}

/// An atomic operation: the program that runs it, its accounts in order, and
/// its encoded arguments.
#[derive(Debug)]
pub struct Instruction {
    pub program_id: Address,
    pub accounts: Vec<AccountMeta>,
    pub data: Vec<u8>,
}

/// The opcode of a value transfer in the system program.
pub const TRANSFER_OPCODE: u8 = 2;

/// The system program's address: 32 zero bytes.
pub open spec fn system_program_spec() -> Seq<u8> {
    Seq::new(32, |i: int| 0u8)
}

/// The payload of a transfer: the opcode as a little-endian `u32`, then the
/// amount as a little-endian `u64`.
pub open spec fn transfer_payload(lamports: u64) -> Seq<u8> {
    seq![TRANSFER_OPCODE, 0u8, 0u8, 0u8] + le_u64(lamports)
}

/// The address of the system program.
pub fn system_program_id() -> (r: Address)
    ensures
        r@ == system_program_spec(),
{
    let r = Address { bytes: [0u8; 32] };
    assert(r@ =~= system_program_spec());
    r
}

/// Builds a transfer of `lamports` smallest value units from `from` to `to`:
/// `from` is a writable signer, `to` a writable non-signer.
pub fn build_transfer(from: &Address, to: &Address, lamports: u64) -> (r: Instruction)
    ensures
        r.program_id@ == system_program_spec(),
        r.accounts@ == seq![
            AccountMeta { address: *from, is_signer: true, is_writable: true },
            AccountMeta { address: *to, is_signer: false, is_writable: true },
        ],
        r.data@ == transfer_payload(lamports),
{
    let mut accounts: Vec<AccountMeta> = Vec::new();
    accounts.push(AccountMeta { address: *from, is_signer: true, is_writable: true });
    accounts.push(AccountMeta { address: *to, is_signer: false, is_writable: true });
    let mut data: Vec<u8> = Vec::new();
    data.push(TRANSFER_OPCODE);
    data.push(0);
    data.push(0);
    data.push(0);
    push_u64_le(&mut data, lamports);
    assert(data@ =~= transfer_payload(lamports));
    let r = Instruction { program_id: system_program_id(), accounts, data };
    assert(r.accounts@ =~= seq![
        AccountMeta { address: *from, is_signer: true, is_writable: true },
        AccountMeta { address: *to, is_signer: false, is_writable: true },
    ]);
    r
}

} // verus!
