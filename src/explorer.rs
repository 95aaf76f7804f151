//! Links to confirmed transactions in the network explorer.
use vstd::prelude::*;

verus! {

/// The explorer page of a transaction on the development network:
/// `https://explorer.solana.com/tx/<signature>?cluster=devnet`.
pub fn get_transaction_url(signature: &str) -> (r: String)
    ensures
        r@ == "https://explorer.solana.com/tx/"@ + signature@ + "?cluster=devnet"@,
{
    let mut url = String::from_str("https://explorer.solana.com/tx/");
    url.append(signature);
    url.append("?cluster=devnet");
    url
}

} // verus!
