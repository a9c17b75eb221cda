//! Addresses derived from seeds: where an offer lives, and how the escrow
//! proves that it speaks for it.
use vstd::prelude::*;
use vstd::bytes::{spec_u64_to_le_bytes, u64_to_le_bytes};
use crate::address::{lemma_address_eq, Address};
use anchor_lang::prelude::Pubkey;
use anchor_lang::solana_program::pubkey::PubkeyError;

verus! {

/// The error of `Pubkey::create_program_address`. Nothing is read from it:
/// any error means that the seeds derive no address.
#[verifier::external_type_specification]
#[verifier::external_body]
pub struct ExPubkeyError(PubkeyError);

/// The byte strings that a list of seeds holds.
pub open spec fn seed_bytes(seeds: Seq<Vec<u8>>) -> Seq<Seq<u8>> {
    Seq::new(seeds.len(), |i: int| seeds[i]@)
}

/// The address that `Pubkey::create_program_address` derives for a program
/// from a list of seeds, or `None` where it derives none.
pub uninterp spec fn program_address(seeds: Seq<Seq<u8>>, program: Seq<u8>) -> Option<Seq<u8>>;

/// The address derived from the seeds followed by a one-byte bump seed.
pub open spec fn bump_address(seeds: Seq<Seq<u8>>, program: Seq<u8>, bump: u8) -> Option<
    Seq<u8>,
> {
    program_address(seeds.push(seq![bump]), program)
}

/// `bump` is the largest bump seed, from 255 down to 1, with which the seeds
/// derive an address, and `address` is the address so derived.
pub open spec fn is_found(seeds: Seq<Seq<u8>>, program: Seq<u8>, address: Seq<u8>, bump: u8) -> bool {
    &&& bump >= 1
    &&& bump_address(seeds, program, bump) == Some(address)
    &&& forall|above: u8| above > bump ==> #[trigger] bump_address(seeds, program, above) is None
}

/// No bump seed from 255 down to 1 makes the seeds derive an address.
pub open spec fn none_found(seeds: Seq<Seq<u8>>, program: Seq<u8>) -> bool {
    forall|bump: u8| bump >= 1 ==> #[trigger] bump_address(seeds, program, bump) is None
}

/// The address and bump seed found for the seeds, if any bump seed serves.
pub open spec fn found_address(seeds: Seq<Seq<u8>>, program: Address) -> Option<(Address, u8)> {
    if exists|p: (Address, u8)| is_found(seeds, program@, p.0@, p.1) {
        Some(choose|p: (Address, u8)| is_found(seeds, program@, p.0@, p.1))
    } else {
        None
    }
}

/// What is found is found in one way only.
pub proof fn lemma_found_unique(seeds: Seq<Seq<u8>>, program: Address, address: Address, bump: u8)
    requires
        is_found(seeds, program@, address@, bump),
    ensures
        found_address(seeds, program) == Some((address, bump)),
{
    let p = (address, bump);
    assert(is_found(seeds, program@, p.0@, p.1));
    let q = choose|q: (Address, u8)| is_found(seeds, program@, q.0@, q.1);
    assert(is_found(seeds, program@, q.0@, q.1));
    if q.1 > bump {
        assert(bump_address(seeds, program@, q.1) is None);
    }
    if bump > q.1 {
        assert(bump_address(seeds, program@, bump) is None);
    }
    lemma_address_eq(q.0, address);
}

/// What was found is derived again from the seeds and the bump seed.
pub proof fn lemma_found_derives(seeds: Seq<Seq<u8>>, program: Address, address: Address, bump: u8)
    requires
        found_address(seeds, program) == Some((address, bump)),
    ensures
        is_found(seeds, program@, address@, bump),
        program_address(seeds.push(seq![bump]), program@) == Some(address@),
{
}

/// Calls `Pubkey::create_program_address`. `Ok` holds the address that the
/// seeds derive for the program; an error means that they derive none.
#[verifier::external_body]
pub(crate) fn create_program_address(seeds: &Vec<Vec<u8>>, program: &Address) -> (r: Result<
    Address,
    PubkeyError,
>)
    ensures
        r is Ok <==> program_address(seed_bytes(seeds@), program@) is Some,
        r matches Ok(address) ==> program_address(seed_bytes(seeds@), program@) == Some(address@),
{
    let parts: Vec<&[u8]> = seeds.iter().map(|s| s.as_slice()).collect();
    let key = Pubkey::create_program_address(&parts, &Pubkey::new_from_array(program.bytes))?;
    Ok(Address { bytes: key.to_bytes() })
}

/// Calls `Pubkey::try_find_program_address`, which tries the bump seeds from
/// 255 down to 1 and returns the first address that
/// `Pubkey::create_program_address` derives from the seeds followed by the
/// bump seed, together with that bump seed, or `None` where none serves.
/// Seeds that are too many or too long end the search at once: they derive
/// no address with any bump seed.
#[verifier::external_body]
pub(crate) fn try_find_program_address(seeds: &Vec<Vec<u8>>, program: &Address) -> (r: Option<
    (Address, u8),
>)
    ensures
        r matches Some(p) ==> is_found(seed_bytes(seeds@), program@, p.0@, p.1),
        r is None ==> none_found(seed_bytes(seeds@), program@),
{
    let parts: Vec<&[u8]> = seeds.iter().map(|s| s.as_slice()).collect();
    let (key, bump) = Pubkey::try_find_program_address(
        &parts,
        &Pubkey::new_from_array(program.bytes),
    )?;
    Some((Address { bytes: key.to_bytes() }, bump))
}

/// Finds the address that the seeds derive for the program, and the bump seed
/// that makes them derive it.
pub fn find_program_address(seeds: &Vec<Vec<u8>>, program: &Address) -> (r: Option<(Address, u8)>)
    ensures
        r == found_address(seed_bytes(seeds@), *program),
{
    let r = try_find_program_address(seeds, program);
    proof {
        match r {
            Some(p) => {
                lemma_found_unique(seed_bytes(seeds@), *program, p.0, p.1);
            },
            None => {
                assert forall|p: (Address, u8)|
                    !is_found(seed_bytes(seeds@), program@, p.0@, p.1) by {
                    if p.1 >= 1 {
                        assert(bump_address(seed_bytes(seeds@), program@, p.1) is None);
                    }
                }
            },
        }
    }
    r
}

/// The address that the seeds derive for the program, as they stand.
pub open spec fn derived_address(seeds: Seq<Seq<u8>>, program: Address) -> Option<Address> {
    if exists|address: Address| program_address(seeds, program@) == Some(address@) {
        Some(choose|address: Address| program_address(seeds, program@) == Some(address@))
    } else {
        None
    }
}

/// Derives the address of the seeds as they stand, without a search.
pub fn derive_program_address(seeds: &Vec<Vec<u8>>, program: &Address) -> (r: Option<Address>)
    ensures
        r == derived_address(seed_bytes(seeds@), *program),
{
    match create_program_address(seeds, program) {
        Ok(address) => {
            proof {
                let chosen = choose|a: Address|
                    program_address(seed_bytes(seeds@), program@) == Some(a@);
                lemma_address_eq(chosen, address);
            }
            Some(address)
        },
        Err(_) => None,
    }
}

/// The tag that every offer's seeds begin with: the bytes of `offer`.
pub open spec fn spec_offer_tag() -> Seq<u8> {
    seq![111u8, 102u8, 102u8, 101u8, 114u8]
}

/// The seeds of the offer `id` of `maker`: the tag, the maker's address and
/// the identifier as eight little-endian bytes.
pub open spec fn spec_offer_seeds(maker: Address, id: u64) -> Seq<Seq<u8>> {
    seq![spec_offer_tag(), maker@, spec_u64_to_le_bytes(id)]
}

/// The seeds with which the escrow speaks for an offer: the offer's seeds
/// followed by its bump seed.
pub open spec fn spec_signer_seeds(maker: Address, id: u64, bump: u8) -> Seq<Seq<u8>> {
    spec_offer_seeds(maker, id).push(seq![bump])
}

/// The address for which the seeds of an offer and its bump seed speak.
pub open spec fn spec_signer_address(program: Address, maker: Address, id: u64, bump: u8) -> Option<
    Address,
> {
    derived_address(spec_signer_seeds(maker, id, bump), program)
}

/// The address of the offer `id` of `maker` under `program`, with its bump
/// seed.
pub open spec fn spec_offer_address(program: Address, maker: Address, id: u64) -> Option<
    (Address, u8),
> {
    found_address(spec_offer_seeds(maker, id), program)
}

fn address_bytes(address: &Address) -> (bytes: Vec<u8>)
    ensures
        bytes@ == address@,
{
    let mut bytes: Vec<u8> = Vec::new();
    let mut i: usize = 0;
    while i < 32
        invariant
            i <= 32,
            bytes@ == address@.take(i as int),
        decreases 32 - i,
    {
        bytes.push(address.bytes[i]);
        assert(address@.take(i + 1) =~= address@.take(i as int).push(address@[i as int]));
        i += 1;
    }
    assert(address@.take(32) =~= address@);
    bytes
}

/// Builds the seeds of the offer `id` of `maker`.
pub fn offer_seeds(maker: &Address, id: u64) -> (seeds: Vec<Vec<u8>>)
    ensures
        seed_bytes(seeds@) == spec_offer_seeds(*maker, id),
{
    let tag: Vec<u8> = vec![111u8, 102u8, 102u8, 101u8, 114u8];
    assert(tag@ =~= spec_offer_tag());
    let mut seeds: Vec<Vec<u8>> = Vec::new();
    seeds.push(tag);
    seeds.push(address_bytes(maker));
    seeds.push(u64_to_le_bytes(id));
    assert(seed_bytes(seeds@) =~= spec_offer_seeds(*maker, id));
    seeds
}

/// Builds the seeds with which the escrow speaks for an offer.
pub fn signer_seeds(maker: &Address, id: u64, bump: u8) -> (seeds: Vec<Vec<u8>>)
    ensures
        seed_bytes(seeds@) == spec_signer_seeds(*maker, id, bump),
{
    let mut seeds = offer_seeds(maker, id);
    let last: Vec<u8> = vec![bump];
    assert(last@ =~= seq![bump]);
    seeds.push(last);
    assert(seed_bytes(seeds@) =~= spec_signer_seeds(*maker, id, bump));
    seeds
}

/// Finds the address of the offer `id` of `maker` under `program`, with its
/// bump seed.
pub fn offer_address(program: &Address, maker: &Address, id: u64) -> (r: Option<(Address, u8)>)
    ensures
        r == spec_offer_address(*program, *maker, id),
{
    let seeds = offer_seeds(maker, id);
    find_program_address(&seeds, program)
}

/// Derives the address for which the seeds of an offer and its bump seed
/// speak.
pub fn signer_address(program: &Address, maker: &Address, id: u64, bump: u8) -> (r: Option<
    Address,
>)
    ensures
        r == spec_signer_address(*program, *maker, id, bump),
{
    let seeds = signer_seeds(maker, id, bump);
    derive_program_address(&seeds, program)
}

/// The bump seed found for an offer makes its signer seeds derive the
/// offer's address.
pub proof fn lemma_offer_signer(program: Address, maker: Address, id: u64, address: Address, bump: u8)
    requires
        spec_offer_address(program, maker, id) == Some((address, bump)),
    ensures
        spec_signer_address(program, maker, id, bump) == Some(address),
{
    lemma_found_derives(spec_offer_seeds(maker, id), program, address, bump);
    let seeds = spec_signer_seeds(maker, id, bump);
    let chosen = choose|a: Address| program_address(seeds, program@) == Some(a@);
    lemma_address_eq(chosen, address);
}

} // verus!
