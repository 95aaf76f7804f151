//! The two-pass transfer protocol: the fee depends on the message and the
//! amount on the fee, so a transfer is first assembled with a provisional
//! amount, priced, then rebuilt with the fee deducted.
use vstd::prelude::*;

use crate::instruction::build_transfer;
use crate::instruction::system_program_spec;
use crate::instruction::transfer_payload;
use crate::instruction::AccountMeta;
use crate::instruction::Instruction;
use crate::message::build_message;
use crate::message::message_accounts;
use crate::message::Message;
use crate::types::Address;

verus! {

/// Why a transfer could not be built.
#[derive(Clone, Copy, Debug, PartialEq, Eq, Structural)]
pub enum TransferError {
    /// The fee exceeds the amount it is taken from.
    InvalidAmount,
}

/// `m` is a one-instruction message that moves `lamports` from `from` to
/// `to`, paid for by `from` and bound to `checkpoint`.
pub open spec fn is_transfer_message(m: Message, from: Address, to: Address, lamports: u64, checkpoint: Seq<u8>) -> bool {
    &&& m.fee_payer == from
    &&& m.checkpoint@ == checkpoint
    &&& m.instructions@.len() == 1
    &&& m.instructions@[0].program_id@ == system_program_spec()
    &&& m.instructions@[0].accounts@ == seq![
        AccountMeta { address: from, is_signer: true, is_writable: true },
        AccountMeta { address: to, is_signer: false, is_writable: true },
    ]
    &&& m.instructions@[0].data@ == transfer_payload(lamports)
    &&& m.account_keys@ == message_accounts(from, m.instructions@)
}

/// First pass: the message of a transfer of `lamports`, to be priced.
pub fn build_transfer_message(from: &Address, to: &Address, lamports: u64, checkpoint: &[u8; 32]) -> (r: Message)
    ensures
        is_transfer_message(r, *from, *to, lamports, checkpoint@),
{
    let mut instructions: Vec<Instruction> = Vec::new();
    instructions.push(build_transfer(from, to, lamports));
    build_message(instructions, from, checkpoint)
}

/// The amount left once `fee` is taken from `amount`; `InvalidAmount` when
/// the fee is larger.
pub fn amount_after_fee(amount: u64, fee: u64) -> (r: Result<u64, TransferError>)
    ensures
        r is Ok <==> fee <= amount,
        r is Ok ==> r->Ok_0 == amount - fee,
        r is Err ==> r == Err::<u64, TransferError>(TransferError::InvalidAmount),
{
    if fee > amount {
        Err(TransferError::InvalidAmount)
    } else {
        Ok(amount - fee)
    }
}

/// Second pass: the transfer of `amount` less `fee`, where `fee` is what the
/// first pass's message costs. Its accounts are those of the first pass.
pub fn build_fee_adjusted_transfer(
    from: &Address,
    to: &Address,
    amount: u64,
    fee: u64,
    checkpoint: &[u8; 32],
) -> (r: Result<Message, TransferError>)
    ensures
        r is Ok <==> fee <= amount,
        r is Ok ==> is_transfer_message(r->Ok_0, *from, *to, (amount - fee) as u64, checkpoint@),
        r is Err ==> r->Err_0 == TransferError::InvalidAmount,
{
    match amount_after_fee(amount, fee) {
        Ok(net) => Ok(build_transfer_message(from, to, net, checkpoint)),
        Err(e) => Err(e),
    }
}

} // verus!
