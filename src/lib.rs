//! A small client core for a distributed ledger: key encodings, instruction
//! building, message assembly and serialization, signing, and program-derived
//! addresses.
use vstd::prelude::*;

pub mod bytes;
pub mod codec;
pub mod crypto;
pub mod derive;
pub mod explorer;
pub mod instruction;
pub mod literal;
pub mod message;
pub mod signer;
pub mod transfer;
pub mod types;
