use vstd::prelude::*;
use anchor_lang::prelude::Pubkey;
use vstd::bytes::{spec_u64_to_le_bytes, u64_to_le_bytes};
use crate::key::Key;

verus! {

/// The address that `Pubkey::create_program_address` derives from `seeds`
/// under `program`: `Some` with its bytes where the call returns `Ok`, `None`
/// where it returns an error (seeds that are too many or too long, or a hash
/// that lies on the curve).
pub uninterp spec fn program_address(seeds: Seq<Seq<u8>>, program: Seq<u8>) -> Option<Seq<u8>>;

/// The byte strings that a list of seeds holds.
pub open spec fn seeds_view(seeds: Seq<Vec<u8>>) -> Seq<Seq<u8>> {
    Seq::new(seeds.len(), |i: int| seeds[i]@)
}

/// `seeds` followed by a one-byte seed that holds `bump`.
pub open spec fn with_bump(seeds: Seq<Seq<u8>>, bump: u8) -> Seq<Seq<u8>> {
    seeds.push(seq![bump])
}

/// The search for a bump, from `bump` downwards and stopping above zero: the
/// first bump under which `seeds` derive an address, with that address.
pub open spec fn find_from(seeds: Seq<Seq<u8>>, program: Seq<u8>, bump: nat) -> Option<
    (Seq<u8>, u8),
>
    decreases bump,
{
    if bump == 0 || bump > 255 {
        None
    } else {
        match program_address(with_bump(seeds, bump as u8), program) {
            Some(address) => Some((address, bump as u8)),
            None => find_from(seeds, program, (bump - 1) as nat),
        }
    }
}

/// The address and bump that the search from 255 downwards finds.
pub open spec fn found_address(seeds: Seq<Seq<u8>>, program: Seq<u8>) -> Option<(Seq<u8>, u8)> {
    find_from(seeds, program, 255)
}

/// What a search found derives, under its bump, the address it found.
pub proof fn lemma_found_derives(seeds: Seq<Seq<u8>>, program: Seq<u8>, bump: nat)
    ensures
        find_from(seeds, program, bump) matches Some(found) ==> program_address(
            with_bump(seeds, found.1),
            program,
        ) == Some(found.0),
    decreases bump,
{
    if bump == 0 || bump > 255 {
    } else if program_address(with_bump(seeds, bump as u8), program) is None {
        lemma_found_derives(seeds, program, (bump - 1) as nat);
    }
}

/// Calls `Pubkey::create_program_address`. Trusted: the result is `Some` with
/// the derived address where that call returns `Ok`, and `None` where it
/// returns an error; this is what `program_address` names.
#[verifier::external_body]
pub(crate) fn create_program_address(seeds: &Vec<Vec<u8>>, program: &Key) -> (r: Option<Key>)
    ensures
        match r {
            Some(address) => program_address(seeds_view(seeds@), program@) == Some(address@),
            None => program_address(seeds_view(seeds@), program@) is None,
        },
{
    let parts: Vec<&[u8]> = seeds.iter().map(|s| s.as_slice()).collect();
    match Pubkey::create_program_address(&parts, &Pubkey::new_from_array(program.bytes)) {
        Ok(address) => Some(Key { bytes: address.to_bytes() }),
        Err(_) => None,
    }
}

/// Calls `Pubkey::try_find_program_address`. Trusted: that function tries the
/// bumps 255, 254, down to 1, appends each as a one-byte seed, and returns the
/// first address that `Pubkey::create_program_address` derives, with its bump;
/// it returns `None` where no bump derives one.
#[verifier::external_body]
pub(crate) fn try_find_program_address(seeds: &Vec<Vec<u8>>, program: &Key) -> (r: Option<
    (Key, u8),
>)
    ensures
        match r {
            Some(found) => found_address(seeds_view(seeds@), program@) == Some(
                (found.0@, found.1),
            ),
            None => found_address(seeds_view(seeds@), program@) is None,
        },
{
    let parts: Vec<&[u8]> = seeds.iter().map(|s| s.as_slice()).collect();
    match Pubkey::try_find_program_address(&parts, &Pubkey::new_from_array(program.bytes)) {
        Some((address, bump)) => Some((Key { bytes: address.to_bytes() }, bump)),
        None => None,
    }
}

/// The namespace under which records are derived: the bytes of `escrow`.
pub open spec fn namespace() -> Seq<u8> {
    seq![101u8, 115u8, 99u8, 114u8, 111u8, 119u8]
}

/// The seeds of the offer that `maker` opens under `seed`: the namespace, the
/// maker, and the seed as eight little-endian bytes.
pub open spec fn escrow_seeds(maker: Seq<u8>, seed: u64) -> Seq<Seq<u8>> {
    seq![namespace(), maker, spec_u64_to_le_bytes(seed)]
}

/// The seeds with which a record signs for its vault: those of the offer,
/// then the bump.
pub open spec fn signer_seeds(maker: Seq<u8>, seed: u64, bump: u8) -> Seq<Seq<u8>> {
    with_bump(escrow_seeds(maker, seed), bump)
}

/// The address of the record that `maker` and `seed` derive under `bump`.
pub open spec fn escrow_address(program: Seq<u8>, maker: Seq<u8>, seed: u64, bump: u8) -> Option<
    Seq<u8>,
> {
    program_address(signer_seeds(maker, seed, bump), program)
}

/// The address and bump of the record that `maker` and `seed` derive.
pub open spec fn escrow_authority(program: Seq<u8>, maker: Seq<u8>, seed: u64) -> Option<
    (Seq<u8>, u8),
> {
    found_address(escrow_seeds(maker, seed), program)
}

/// The authority found for a maker and a seed is the address that they derive
/// under the bump found with it.
pub proof fn lemma_authority_is_address(program: Seq<u8>, maker: Seq<u8>, seed: u64)
    ensures
        escrow_authority(program, maker, seed) matches Some(found) ==> escrow_address(
            program,
            maker,
            seed,
            found.1,
        ) == Some(found.0),
{
    lemma_found_derives(escrow_seeds(maker, seed), program, 255);
}

/// The seeds of the offer that `maker` opens under `seed`.
pub fn offer_seeds(maker: &Key, seed: u64) -> (seeds: Vec<Vec<u8>>)
    ensures
        seeds@.len() == 3,
        seeds_view(seeds@) == escrow_seeds(maker@, seed),
{
    let mut seeds: Vec<Vec<u8>> = Vec::new();
    seeds.push(vec![101u8, 115u8, 99u8, 114u8, 111u8, 119u8]);
    seeds.push(maker.to_vec());
    seeds.push(u64_to_le_bytes(seed));
    assert(seeds@[0]@ =~= namespace());
    assert(seeds_view(seeds@) =~= escrow_seeds(maker@, seed));
    seeds
}

/// The seeds with which the record of `maker` and `seed` signs under `bump`.
pub fn offer_signer_seeds(maker: &Key, seed: u64, bump: u8) -> (seeds: Vec<Vec<u8>>)
    ensures
        seeds@.len() == 4,
        seeds_view(seeds@) == signer_seeds(maker@, seed, bump),
{
    let mut seeds = offer_seeds(maker, seed);
    let ghost before = seeds@;
    seeds.push(vec![bump]);
    assert(seeds@[3]@ =~= seq![bump]);
    assert(seeds_view(seeds@) =~= seeds_view(before).push(seq![bump]));
    seeds
}

/// Derives the address of the record of `maker` and `seed` under `bump`;
/// `None` where they derive none.
pub fn derive_escrow(program: &Key, maker: &Key, seed: u64, bump: u8) -> (r: Option<Key>)
    ensures
        match r {
            Some(address) => escrow_address(program@, maker@, seed, bump) == Some(address@),
            None => escrow_address(program@, maker@, seed, bump) is None,
        },
{
    let seeds = offer_signer_seeds(maker, seed, bump);
    create_program_address(&seeds, program)
}

/// Finds the address and bump of the record of `maker` and `seed`; `None`
/// where no bump derives an address.
pub fn find_escrow(program: &Key, maker: &Key, seed: u64) -> (r: Option<(Key, u8)>)
    ensures
        match r {
            Some(found) => escrow_authority(program@, maker@, seed) == Some((found.0@, found.1)),
            None => escrow_authority(program@, maker@, seed) is None,
        },
{
    let seeds = offer_seeds(maker, seed);
    try_find_program_address(&seeds, program)
}

} // verus!
