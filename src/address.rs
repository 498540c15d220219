use crate::identity::Identity;
use anchor_lang::prelude::Pubkey;
use vstd::prelude::*;
use vstd::string::StringSliceAdditionalSpecFns;

verus! {

/// The longest seed that a program address derivation accepts.
pub const MAX_SEED_LEN: usize = 32;

/// The program address (and its bump) that the host ledger derives from
/// `seeds` under the program `program`, or `None` where no address exists.
pub uninterp spec fn program_address_of(seeds: Seq<Seq<u8>>, program: Seq<u8>) -> Option<(Seq<u8>, u8)>;

/// The view of each seed.
pub open spec fn seeds_view(seeds: Seq<Vec<u8>>) -> Seq<Seq<u8>> {
    seeds.map_values(|s: Vec<u8>| s@)
}

/// The seeds that the derivation refuses: sixteen or more of them once the
/// bump seed is added, or one longer than `MAX_SEED_LEN` bytes.
pub open spec fn seeds_refused(seeds: Seq<Seq<u8>>) -> bool {
    seeds.len() >= 16 || exists|i: int| 0 <= i < seeds.len() && #[trigger] seeds[i].len() > MAX_SEED_LEN
}

/// Relies on `Pubkey::try_find_program_address`: a deterministic function of
/// the seeds and the program id, which gives `None` where the seeds are too
/// many or one of them is too long.
#[verifier::external_body]
fn try_find_program_address(seeds: &Vec<Vec<u8>>, program: &Identity) -> (r: Option<(Identity, u8)>)
    ensures
        match r {
            Some(p) => program_address_of(seeds_view(seeds@), program@) == Some((p.0@, p.1)),
            None => program_address_of(seeds_view(seeds@), program@) is None,
        },
        seeds_refused(seeds_view(seeds@)) ==> r is None,
{
    let s: Vec<&[u8]> = seeds.iter().map(|v| v.as_slice()).collect();
    Pubkey::try_find_program_address(&s, &Pubkey::new_from_array(program.bytes))
        .map(|(k, bump)| (Identity { bytes: k.to_bytes() }, bump))
}

/// The first seed of every issuer address: the ASCII bytes of `issuer`.
pub open spec fn issuer_label() -> Seq<u8> {
    seq![105u8, 115, 115, 117, 101, 114]
}

/// The first seed of every certificate address: the ASCII bytes of `certificate`.
pub open spec fn certificate_label() -> Seq<u8> {
    seq![99u8, 101, 114, 116, 105, 102, 105, 99, 97, 116, 101]
}

/// The seeds of the issuer record owned by `authority`.
pub open spec fn issuer_seeds(authority: Seq<u8>) -> Seq<Seq<u8>> {
    seq![issuer_label(), authority]
}

/// The seeds of the certificate `id` (its UTF-8 bytes) of the issuer
/// `authority`. The id is cut into seeds of at most `MAX_SEED_LEN` bytes;
/// since the seeds are hashed as one concatenation, the cut does not change
/// the digest input, and only the last seed has a variable length, so the
/// labels keep the kinds of record apart.
pub open spec fn certificate_seeds(authority: Seq<u8>, id: Seq<u8>) -> Seq<Seq<u8>> {
    if id.len() <= MAX_SEED_LEN {
        seq![certificate_label(), authority, id]
    } else {
        seq![certificate_label(), authority, id.take(MAX_SEED_LEN as int), id.skip(MAX_SEED_LEN as int)]
    }
}

/// The address of the issuer record of `authority` under `program`.
pub open spec fn issuer_address_of(program: Seq<u8>, authority: Seq<u8>) -> Option<Seq<u8>> {
    match program_address_of(issuer_seeds(authority), program) {
        Some(p) => Some(p.0),
        None => None,
    }
}

/// The address of the certificate `id` of the issuer `authority` under `program`.
pub open spec fn certificate_address_of(program: Seq<u8>, authority: Seq<u8>, id: Seq<u8>) -> Option<Seq<u8>> {
    match program_address_of(certificate_seeds(authority, id), program) {
        Some(p) => Some(p.0),
        None => None,
    }
}

fn bytes_of_range(b: &[u8], lo: usize, hi: usize) -> (r: Vec<u8>)
    requires
        lo <= hi <= b@.len(),
    ensures
        r@ == b@.subrange(lo as int, hi as int),
{
    let mut r: Vec<u8> = Vec::new();
    let mut i: usize = lo;
    while i < hi
        invariant
            lo <= i <= hi <= b@.len(),
            r@ == b@.subrange(lo as int, i as int),
        decreases hi - i,
    {
        r.push(b[i]);
        i = i + 1;
        assert(r@ =~= b@.subrange(lo as int, i as int));
    }
    r
}

fn identity_bytes(k: &Identity) -> (r: Vec<u8>)
    ensures
        r@ == k@,
{
    let r = bytes_of_range(k.bytes.as_slice(), 0, 32);
    assert(r@ =~= k@);
    r
}

/// Derives the address of the issuer record of `authority`.
pub fn issuer_address(program: &Identity, authority: &Identity) -> (r: Option<Identity>)
    ensures
        match r {
            Some(a) => issuer_address_of(program@, authority@) == Some(a@),
            None => issuer_address_of(program@, authority@) is None,
        },
{
    let mut seeds: Vec<Vec<u8>> = Vec::new();
    seeds.push(vec![105u8, 115, 115, 117, 101, 114]);
    seeds.push(identity_bytes(authority));
    assert(seeds_view(seeds@) =~= issuer_seeds(authority@));
    match try_find_program_address(&seeds, program) {
        Some(p) => Some(p.0),
        None => None,
    }
}

/// Derives the address of the certificate `certificate_id` of `authority`.
/// Ids longer than twice `MAX_SEED_LEN` bytes have no address.
pub fn certificate_address(program: &Identity, authority: &Identity, certificate_id: &str) -> (r: Option<Identity>)
    ensures
        match r {
            Some(a) => certificate_address_of(program@, authority@, certificate_id.spec_bytes()) == Some(a@),
            None => certificate_address_of(program@, authority@, certificate_id.spec_bytes()) is None,
        },
{
    let id = certificate_id.as_bytes();
    let n = id.len();
    let mut seeds: Vec<Vec<u8>> = Vec::new();
    seeds.push(vec![99u8, 101, 114, 116, 105, 102, 105, 99, 97, 116, 101]);
    seeds.push(identity_bytes(authority));
    if n <= MAX_SEED_LEN {
        seeds.push(bytes_of_range(id, 0, n));
        assert(id@.subrange(0, n as int) =~= id@);
    } else {
        seeds.push(bytes_of_range(id, 0, MAX_SEED_LEN));
        seeds.push(bytes_of_range(id, MAX_SEED_LEN, n));
        assert(id@.subrange(0, MAX_SEED_LEN as int) =~= id@.take(MAX_SEED_LEN as int));
        assert(id@.subrange(MAX_SEED_LEN as int, n as int) =~= id@.skip(MAX_SEED_LEN as int));
    }
    assert(seeds_view(seeds@) =~= certificate_seeds(authority@, id@));
    match try_find_program_address(&seeds, program) {
        Some(p) => Some(p.0),
        None => None,
    }
}

} // verus!
