use vstd::prelude::*;
use vstd::slice::slice_to_vec;
use anchor_lang::prelude::Pubkey;
use crate::state::{byte_len, Address};

verus! {

/// The greatest number of bytes that one seed of an address may have.
pub const MAX_SEED_LEN: usize = 32;

/// The greatest number of seeds that an address may be derived from, the
/// salt included.
pub const MAX_SEEDS: usize = 16;

/// The address that the ledger's runtime derives for a program from a list of
/// seeds, with the salt that makes the address one that no key pair owns;
/// `None` where no salt does.
pub uninterp spec fn program_address(seeds: Seq<Seq<u8>>, program_id: Seq<u8>) -> Option<
    (Seq<u8>, u8),
>;

/// The bytes of each seed in a list of seeds.
pub open spec fn seed_bytes(seeds: Seq<Vec<u8>>) -> Seq<Seq<u8>> {
    Seq::new(seeds.len(), |i: int| seeds[i]@)
}

/// What was found, with the address taken as its bytes.
pub open spec fn in_bytes(found: Option<(Address, u8)>) -> Option<(Seq<u8>, u8)> {
    match found {
        Some((address, bump)) => Some((address@, bump)),
        None => None,
    }
}

/// Calls `Pubkey::try_find_program_address` of `anchor_lang`.
///
/// The search is a function of the seeds and of the program's address alone,
/// so its answer is named by [`program_address`]. Nothing else is claimed of
/// it. Lists that the search does not take, of sixteen seeds or more or with
/// a seed of more than thirty-two bytes, are kept away from it.
#[verifier::external_body]
fn find_program_address(seeds: &Vec<Vec<u8>>, program_id: &Address) -> (found: Option<
    (Address, u8),
>)
    requires
        seeds@.len() < MAX_SEEDS,
        forall|i: int| 0 <= i < seeds@.len() ==> seeds@[i]@.len() <= MAX_SEED_LEN,
    ensures
        in_bytes(found) == program_address(seed_bytes(seeds@), program_id@),
{
    let slices: Vec<&[u8]> = seeds.iter().map(|seed| seed.as_slice()).collect();
    let program = Pubkey::new_from_array(program_id.bytes);
    match Pubkey::try_find_program_address(&slices, &program) {
        Some((key, bump)) => Some((Address { bytes: key.to_bytes() }, bump)),
        None => None,
    }
}

/// The tag that opens the seeds of a politician's address.
pub open spec fn politician_tag() -> Seq<u8> {
    vstd::utf8::encode_utf8("politician"@)
}

/// The tag that opens the seeds of a vote record's address.
pub open spec fn vote_tag() -> Seq<u8> {
    vstd::utf8::encode_utf8("vote"@)
}

/// Both tags are plain text of one byte for each character.
proof fn lemma_tag_lengths()
    ensures
        politician_tag().len() == 10,
        vote_tag().len() == 4,
{
    reveal_strlit("politician");
    reveal_strlit("vote");
    vstd::utf8::is_ascii_chars_encode_utf8("politician"@);
    vstd::utf8::is_ascii_chars_encode_utf8("vote"@);
}

/// The seeds of the address of the politician registered under `name`.
pub open spec fn politician_seeds(name: Seq<char>) -> Seq<Seq<u8>> {
    seq![politician_tag(), vstd::utf8::encode_utf8(name)]
}

/// The seeds of the address of the record of `voter`'s vote on the
/// politician whose record is at `politician`.
pub open spec fn vote_record_seeds(politician: Address, voter: Address) -> Seq<Seq<u8>> {
    seq![vote_tag(), politician@, voter@]
}

/// The bytes of a list of seeds, one seed after the other. A derivation
/// reads its seeds as this one run of bytes, so two lists with the same run
/// share their address.
pub open spec fn seed_stream(seeds: Seq<Seq<u8>>) -> Seq<u8> {
    seeds.flatten()
}

/// The run of bytes of a politician's seeds is the tag and then the name.
proof fn lemma_politician_stream(name: Seq<char>)
    ensures
        seed_stream(politician_seeds(name)) == politician_tag() + vstd::utf8::encode_utf8(name),
{
    let seeds = politician_seeds(name);
    assert(seeds.drop_first() =~= seq![vstd::utf8::encode_utf8(name)]);
    assert(seeds.drop_first().drop_first() =~= Seq::<Seq<u8>>::empty());
    reveal_with_fuel(Seq::flatten, 3);
    assert(seeds.flatten() =~= politician_tag() + vstd::utf8::encode_utf8(name));
}

/// The run of bytes of a vote record's seeds is the tag, then the
/// politician's address, then the voter's.
proof fn lemma_vote_record_stream(politician: Address, voter: Address)
    ensures
        seed_stream(vote_record_seeds(politician, voter)) == vote_tag() + politician@ + voter@,
{
    let seeds = vote_record_seeds(politician, voter);
    assert(seeds.drop_first() =~= seq![politician@, voter@]);
    assert(seeds.drop_first().drop_first() =~= seq![voter@]);
    assert(seeds.drop_first().drop_first().drop_first() =~= Seq::<Seq<u8>>::empty());
    reveal_with_fuel(Seq::flatten, 4);
    assert(seeds.flatten() =~= vote_tag() + politician@ + voter@);
}

/// Politicians of different names have different seeds, read as one run of
/// bytes: no two names are derived to one address but by an accident of the
/// derivation itself.
pub proof fn lemma_seeds_tell_names_apart(name: Seq<char>, other: Seq<char>)
    requires
        seed_stream(politician_seeds(name)) == seed_stream(politician_seeds(other)),
    ensures
        name == other,
{
    lemma_politician_stream(name);
    lemma_politician_stream(other);
    let tag = politician_tag();
    let bytes = vstd::utf8::encode_utf8(name);
    let other_bytes = vstd::utf8::encode_utf8(other);
    assert(bytes =~= (tag + bytes).subrange(tag.len() as int, (tag + bytes).len() as int));
    assert(other_bytes =~= (tag + other_bytes).subrange(
        tag.len() as int,
        (tag + other_bytes).len() as int,
    ));
    vstd::utf8::encode_utf8_decode_utf8(name);
    vstd::utf8::encode_utf8_decode_utf8(other);
}

/// The votes of different voters, or on different politicians, have
/// different seeds, read as one run of bytes.
pub proof fn lemma_seeds_tell_votes_apart(
    politician: Address,
    voter: Address,
    other_politician: Address,
    other_voter: Address,
)
    requires
        seed_stream(vote_record_seeds(politician, voter)) == seed_stream(
            vote_record_seeds(other_politician, other_voter),
        ),
    ensures
        politician == other_politician,
        voter == other_voter,
{
    lemma_vote_record_stream(politician, voter);
    lemma_vote_record_stream(other_politician, other_voter);
    let tag = vote_tag();
    let stream = tag + politician@ + voter@;
    let other_stream = tag + other_politician@ + other_voter@;
    let start = tag.len() as int;
    assert(politician@ =~= stream.subrange(start, start + 32));
    assert(other_politician@ =~= other_stream.subrange(start, start + 32));
    assert(voter@ =~= stream.subrange(start + 32, start + 64));
    assert(other_voter@ =~= other_stream.subrange(start + 32, start + 64));
    assert(politician.bytes =~= other_politician.bytes);
    assert(voter.bytes =~= other_voter.bytes);
}

/// The seeds of a politician and the seeds of a vote record, each read as
/// one run of bytes, are never the same: their tags differ in the first
/// byte.
pub proof fn lemma_seeds_tell_kinds_apart(name: Seq<char>, politician: Address, voter: Address)
    ensures
        seed_stream(politician_seeds(name)) != seed_stream(vote_record_seeds(politician, voter)),
{
    lemma_politician_stream(name);
    lemma_vote_record_stream(politician, voter);
    reveal_strlit("politician");
    reveal_strlit("vote");
    vstd::utf8::is_ascii_chars_encode_utf8("politician"@);
    vstd::utf8::is_ascii_chars_encode_utf8("vote"@);
    assert((politician_tag() + vstd::utf8::encode_utf8(name))[0] == 0x70u8);
    assert((vote_tag() + politician@ + voter@)[0] == 0x76u8);
}

/// Derives the address of the record of the politician registered under
/// `name`, together with its salt.
///
/// A name of more than thirty-two bytes cannot serve as a seed and has no
/// address.
pub fn politician_address(name: &str, program_id: &Address) -> (found: Option<(Address, u8)>)
    ensures
        byte_len(name@) > MAX_SEED_LEN ==> found is None,
        byte_len(name@) <= MAX_SEED_LEN ==> in_bytes(found) == program_address(
            politician_seeds(name@),
            program_id@,
        ),
{
    let name_bytes = name.as_bytes();
    if name_bytes.len() > MAX_SEED_LEN {
        return None;
    }
    let tag = "politician".as_bytes();
    let mut seeds: Vec<Vec<u8>> = Vec::new();
    seeds.push(slice_to_vec(tag));
    seeds.push(slice_to_vec(name_bytes));
    proof {
        lemma_tag_lengths();
    }
    assert(seed_bytes(seeds@) =~= politician_seeds(name@));
    find_program_address(&seeds, program_id)
}

/// Derives the address of the record of `voter`'s vote on the politician
/// whose record is at `politician`, together with its salt.
pub fn vote_record_address(politician: &Address, voter: &Address, program_id: &Address) -> (found:
    Option<(Address, u8)>)
    ensures
        in_bytes(found) == program_address(vote_record_seeds(*politician, *voter), program_id@),
{
    let mut seeds: Vec<Vec<u8>> = Vec::new();
    seeds.push(slice_to_vec("vote".as_bytes()));
    seeds.push(slice_to_vec(politician.bytes.as_slice()));
    seeds.push(slice_to_vec(voter.bytes.as_slice()));
    proof {
        lemma_tag_lengths();
    }
    assert(seed_bytes(seeds@) =~= vote_record_seeds(*politician, *voter));
    find_program_address(&seeds, program_id)
}

/// Whether a derivation found the address `key` with the salt `bump`.
pub fn found_at(found: &Option<(Address, u8)>, key: &Address, bump: u8) -> (yes: bool)
    ensures
        yes == (in_bytes(*found) == Some((key@, bump))),
{
    match found {
        Some((address, salt)) => *address == *key && *salt == bump,
        None => false,
    }
}

/// Whether `key` is where the record of the politician registered under
/// `name` belongs, with `bump` as the salt of that address.
pub fn is_politician_address(key: &Address, bump: u8, name: &str, program_id: &Address) -> (yes:
    bool)
    ensures
        yes == (byte_len(name@) <= MAX_SEED_LEN && program_address(
            politician_seeds(name@),
            program_id@,
        ) == Some((key@, bump))),
{
    let found = politician_address(name, program_id);
    found_at(&found, key, bump)
}

/// Whether `key` is where the record of `voter`'s vote on the politician at
/// `politician` belongs, with `bump` as the salt of that address.
pub fn is_vote_record_address(
    key: &Address,
    bump: u8,
    politician: &Address,
    voter: &Address,
    program_id: &Address,
) -> (yes: bool)
    ensures
        yes == (program_address(vote_record_seeds(*politician, *voter), program_id@) == Some(
            (key@, bump),
        )),
{
    let found = vote_record_address(politician, voter, program_id);
    found_at(&found, key, bump)
}

} // verus!
