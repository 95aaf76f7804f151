//! Program-derived addresses: addresses computed from a program and seed
//! bytes that lie off the Ed25519 curve, so that no private key exists for
//! them.
use vstd::prelude::*;

use crate::bytes::push_all;
use crate::crypto::is_curve_point;
use crate::crypto::on_curve;
use crate::crypto::sha256;
use crate::crypto::sha256_of;
use crate::types::Address;

verus! {

/// The longest seed accepted, in bytes.
pub const MAX_SEED_LEN: usize = 32;

/// Why no address could be derived.
#[derive(Clone, Copy, Debug, PartialEq, Eq, Structural)]
pub enum DeriveError {
    /// A seed is longer than `MAX_SEED_LEN`.
    SeedTooLong,
    /// No bump from 255 down to 1 gives an address off the curve.
    DerivationExhausted,
}

/// The seeds, concatenated in order.
pub open spec fn seeds_bytes(seeds: Seq<Vec<u8>>) -> Seq<u8>
    decreases seeds.len(),
{
    if seeds.len() == 0 {
        Seq::empty()
    } else {
        seeds_bytes(seeds.drop_last()) + seeds.last()@
    }
}

/// The domain marker appended to every derivation: "ProgramDerivedAddress".
pub open spec fn pda_marker() -> Seq<u8> {
    seq![
        80u8, 114u8, 111u8, 103u8, 114u8, 97u8, 109u8, 68u8, 101u8, 114u8, 105u8, 118u8, 101u8,
        100u8, 65u8, 100u8, 100u8, 114u8, 101u8, 115u8, 115u8,
    ]
}

/// The candidate address for one bump: the SHA-256 digest of the seeds, the
/// bump byte, the program address and the marker.
pub open spec fn candidate(seeds: Seq<Vec<u8>>, bump: u8, program: Seq<u8>) -> Seq<u8> {
    sha256_of(seeds_bytes(seeds) + seq![bump] + program + pda_marker())
}

/// The highest bump in `1..=bump` whose candidate lies off the curve.
pub open spec fn first_valid_bump(seeds: Seq<Vec<u8>>, program: Seq<u8>, bump: u8) -> Option<u8>
    decreases bump,
{
    if bump == 0 {
        None
    } else if !is_curve_point(candidate(seeds, bump, program)) {
        Some(bump)
    } else {
        first_valid_bump(seeds, program, (bump - 1) as u8)
    }
}

/// Some seed is longer than `MAX_SEED_LEN`.
pub open spec fn has_long_seed(seeds: Seq<Vec<u8>>) -> bool {
    exists|i: int| 0 <= i < seeds.len() && seeds[i]@.len() > MAX_SEED_LEN
}

fn push_marker(out: &mut Vec<u8>)
    ensures
        final(out)@ == old(out)@ + pda_marker(),
{
    let marker: [u8; 21] = [
        80, 114, 111, 103, 114, 97, 109, 68, 101, 114, 105, 118, 101, 100, 65, 100, 100, 114, 101,
        115, 115,
    ];
    assert(marker@ =~= pda_marker());
    push_all(out, marker.as_slice());
}

/// Finds the derived address of `program_id` for `seeds`: the candidate of
/// the highest bump, from 255 down to 1, that lies off the curve, with that
/// bump. The same inputs always give the same address.
pub fn find_program_address(seeds: &Vec<Vec<u8>>, program_id: &Address) -> (r: Result<
    (Address, u8),
    DeriveError,
>)
    ensures
        has_long_seed(seeds@) <==> r == Err::<(Address, u8), DeriveError>(DeriveError::SeedTooLong),
        !has_long_seed(seeds@) ==> match first_valid_bump(seeds@, program_id@, 255) {
            None => r == Err::<(Address, u8), DeriveError>(DeriveError::DerivationExhausted),
            Some(b) => r is Ok && r->Ok_0.1 == b && r->Ok_0.0@ == candidate(seeds@, b, program_id@),
        },
{
    let mut base: Vec<u8> = Vec::new();
    let mut i: usize = 0;
    while i < seeds.len()
        invariant
            0 <= i <= seeds@.len(),
            base@ == seeds_bytes(seeds@.take(i as int)),
            forall|j: int| 0 <= j < i ==> seeds@[j]@.len() <= MAX_SEED_LEN,
        decreases seeds@.len() - i,
    {
        if seeds[i].len() > MAX_SEED_LEN {
            return Err(DeriveError::SeedTooLong);
        }
        push_all(&mut base, seeds[i].as_slice());
        assert(seeds@.take(i + 1).drop_last() =~= seeds@.take(i as int));
        i = i + 1;
    }
    assert(seeds@.take(i as int) =~= seeds@);
    let mut bump: u8 = 255;
    while bump > 0
        invariant
            base@ == seeds_bytes(seeds@),
            !has_long_seed(seeds@),
            first_valid_bump(seeds@, program_id@, 255) == first_valid_bump(seeds@, program_id@, bump),
        decreases bump,
    {
        let mut data: Vec<u8> = Vec::new();
        push_all(&mut data, base.as_slice());
        data.push(bump);
        push_all(&mut data, program_id.bytes.as_slice());
        push_marker(&mut data);
        assert(data@ =~= seeds_bytes(seeds@) + seq![bump] + program_id@ + pda_marker());
        let hash = sha256(&data);
        if !on_curve(&hash) {
            return Ok((Address { bytes: hash }, bump));
        }
        bump = bump - 1;
    }
    Err(DeriveError::DerivationExhausted)
}

} // verus!
