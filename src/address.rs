use vstd::prelude::*;
use anchor_lang::prelude::Pubkey;
use crate::identity::{Identity, le_bytes, le_bytes_of, lemma_le_bytes_injective};

verus! {

/// What `Pubkey::try_find_program_address` returns for the given seeds and
/// program: the first off-curve address found, searching the bump from 255 down.
pub uninterp spec fn pda_search(seeds: Seq<Seq<u8>>, program: Seq<u8>) -> Option<(Seq<u8>, u8)>;

/// What `Pubkey::create_program_address` returns for the given seeds (the bump
/// included) and program, with its error taken as `None`.
pub uninterp spec fn pda_of(seeds: Seq<Seq<u8>>, program: Seq<u8>) -> Option<Seq<u8>>;

pub open spec fn seeds_view(seeds: Seq<Vec<u8>>) -> Seq<Seq<u8>> {
    seeds.map_values(|s: Vec<u8>| s@)
}

pub open spec fn opt_view(r: Option<(Identity, u8)>) -> Option<(Seq<u8>, u8)> {
    match r {
        Some(p) => Some((p.0@, p.1)),
        None => None,
    }
}

/// Relies on `Pubkey::try_find_program_address` (solana-program, through
/// anchor-lang): a function of the seeds and the program id alone, which on
/// success returns an address that `create_program_address` gives back for the
/// seeds with the returned bump appended.
#[verifier::external_body]
fn try_find_address(seeds: &Vec<Vec<u8>>, program: &Identity) -> (r: Option<(Identity, u8)>)
    ensures
        opt_view(r) == pda_search(seeds_view(seeds@), program@),
        r matches Some(p) ==> pda_of(seeds_view(seeds@).push(seq![p.1]), program@) == Some(p.0@),
{
    let s: Vec<&[u8]> = seeds.iter().map(|v| v.as_slice()).collect();
    Pubkey::try_find_program_address(&s, &Pubkey::new_from_array(program.bytes)).map(
        |(k, b)| (Identity { bytes: k.to_bytes() }, b),
    )
}

/// Relies on `Pubkey::create_program_address` (solana-program, through
/// anchor-lang): a function of the seeds and the program id alone.
#[verifier::external_body]
fn create_address(seeds: &Vec<Vec<u8>>, program: &Identity) -> (r: Option<Identity>)
    ensures
        match r {
            Some(k) => pda_of(seeds_view(seeds@), program@) == Some(k@),
            None => pda_of(seeds_view(seeds@), program@) is None,
        },
{
    let s: Vec<&[u8]> = seeds.iter().map(|v| v.as_slice()).collect();
    Pubkey::create_program_address(&s, &Pubkey::new_from_array(program.bytes)).ok().map(
        |k| Identity { bytes: k.to_bytes() },
    )
}

/// The domain tag `b"wall"` that prefixes every wall's seeds.
pub open spec fn wall_tag() -> Seq<u8> {
    seq![119u8, 97u8, 108u8, 108u8]
}

/// The seeds of the wall of `owner` numbered `wall_id`:
/// `b"wall"`, the owner's 32 bytes, the id's eight little-endian bytes.
pub open spec fn wall_seeds(owner: Seq<u8>, wall_id: u64) -> Seq<Seq<u8>> {
    seq![wall_tag(), owner, le_bytes(wall_id)]
}

/// The seeds of a wall with its recorded bump appended.
pub open spec fn wall_seeds_with_bump(owner: Seq<u8>, wall_id: u64, bump: u8) -> Seq<Seq<u8>> {
    wall_seeds(owner, wall_id).push(seq![bump])
}

/// The derived address and bump of the wall of `owner` numbered `wall_id`.
pub open spec fn derive_spec(program: Seq<u8>, owner: Seq<u8>, wall_id: u64) -> Option<(Seq<u8>, u8)> {
    pda_search(wall_seeds(owner, wall_id), program)
}

fn wall_seed_vecs(owner: &Identity, wall_id: u64) -> (r: Vec<Vec<u8>>)
    ensures
        seeds_view(r@) == wall_seeds(owner@, wall_id),
{
    let mut r: Vec<Vec<u8>> = Vec::new();
    r.push(vec![119u8, 97u8, 108u8, 108u8]);
    r.push(owner.to_vec());
    r.push(le_bytes_of(wall_id));
    assert(seeds_view(r@) =~= wall_seeds(owner@, wall_id));
    r
}

/// Derives the address of the wall of `owner` numbered `wall_id` under
/// `program`, with the bump that places it off the curve.
pub fn derive_address(program: &Identity, owner: &Identity, wall_id: u64) -> (r: Option<(Identity, u8)>)
    ensures
        opt_view(r) == derive_spec(program@, owner@, wall_id),
        r matches Some(p) ==> pda_of(wall_seeds_with_bump(owner@, wall_id, p.1), program@) == Some(
            p.0@,
        ),
{
    let seeds = wall_seed_vecs(owner, wall_id);
    try_find_address(&seeds, program)
}

/// Recomputes the address of a wall from its owner, id and recorded bump, with
/// no search, and tells whether it is `address`.
pub fn address_matches(program: &Identity, owner: &Identity, wall_id: u64, bump: u8, address: &Identity) -> (r: bool)
    ensures
        r == (pda_of(wall_seeds_with_bump(owner@, wall_id, bump), program@) == Some(address@)),
{
    let mut seeds = wall_seed_vecs(owner, wall_id);
    let tail: Vec<u8> = vec![bump];
    assert(tail@ =~= seq![bump]);
    let ghost before = seeds@;
    seeds.push(tail);
    assert(seeds_view(seeds@) =~= seeds_view(before).push(seq![bump]));
    assert(seeds_view(seeds@) =~= wall_seeds_with_bump(owner@, wall_id, bump));
    match create_address(&seeds, program) {
        Some(k) => k.same_as(address),
        None => false,
    }
}

/// Derivation is a function of its inputs: two derivations of one
/// (program, owner, wall id) agree.
pub proof fn lemma_derive_deterministic(
    program: Seq<u8>,
    owner: Seq<u8>,
    wall_id: u64,
    r1: Option<(Seq<u8>, u8)>,
    r2: Option<(Seq<u8>, u8)>,
)
    requires
        r1 == derive_spec(program, owner, wall_id),
        r2 == derive_spec(program, owner, wall_id),
    ensures
        r1 == r2,
{
}

/// Distinct (owner, wall id) pairs are hashed from distinct seeds, and from
/// distinct concatenated seed bytes: the tag and the owner have fixed widths.
pub proof fn lemma_wall_seeds_distinct(o1: Seq<u8>, i1: u64, o2: Seq<u8>, i2: u64)
    requires
        o1.len() == 32,
        o2.len() == 32,
        o1 != o2 || i1 != i2,
    ensures
        wall_seeds(o1, i1) != wall_seeds(o2, i2),
        wall_tag() + o1 + le_bytes(i1) != wall_tag() + o2 + le_bytes(i2),
{
    lemma_le_bytes_injective(i1, i2);
    lemma_le_bytes_injective(i2, i1);
    let a = wall_tag() + o1 + le_bytes(i1);
    let b = wall_tag() + o2 + le_bytes(i2);
    if a == b {
        assert(o1 =~= a.subrange(4, 36));
        assert(o2 =~= b.subrange(4, 36));
        assert(le_bytes(i1) =~= a.subrange(36, 44));
        assert(le_bytes(i2) =~= b.subrange(36, 44));
    }
    if wall_seeds(o1, i1) == wall_seeds(o2, i2) {
        assert(wall_seeds(o1, i1)[1] == o1);
        assert(wall_seeds(o2, i2)[1] == o2);
        assert(wall_seeds(o1, i1)[2] == le_bytes(i1));
        assert(wall_seeds(o2, i2)[2] == le_bytes(i2));
    }
}

} // verus!
