use vstd::prelude::*;
use vstd::string::StrSliceExecFns;
use crate::address::Address;
use solana_pubkey::Pubkey;

verus! {

broadcast use crate::address::lemma_address_len;

/// Most seeds a derived address may be built from.
pub const MAX_SEEDS: usize = 16;

/// Longest seed, in bytes.
pub const MAX_SEED_LEN: usize = 32;

/// The address that the runtime derives from `seeds` under `program_id`, or
/// `None` where the seeds are refused or the hash lands on the curve.
pub uninterp spec fn spec_create_program_address(seeds: Seq<Seq<u8>>, program_id: Seq<u8>) -> Option<Seq<u8>>;

/// The first derived address found by trying the bump seeds 255, 254, ..., 1
/// in turn (0 is never tried), with the bump that gave it.
pub uninterp spec fn spec_try_find_program_address(seeds: Seq<Seq<u8>>, program_id: Seq<u8>) -> Option<(Seq<u8>, u8)>;

/// Whether the seeds are over the runtime's limits (too many, or one too long).
pub open spec fn seeds_over_limits(seeds: Seq<Seq<u8>>) -> bool {
    seeds.len() > MAX_SEEDS || exists|i: int| 0 <= i < seeds.len() && seeds[i].len() > MAX_SEED_LEN
}

/// Calls `solana_pubkey::Pubkey::create_program_address`.
///
/// Claims: the result is the named derivation of the seeds and program id, and
/// the call fails where the seeds are over the limits (the source checks this
/// first). Nothing is said of which inputs hash onto the curve.
#[verifier::external_body]
fn create_program_address(seeds: &Vec<Vec<u8>>, program_id: &Address) -> (r: Option<Address>)
    ensures
        match r {
            Some(a) => spec_create_program_address(seeds.deep_view(), program_id@) == Some(a@),
            None => spec_create_program_address(seeds.deep_view(), program_id@) is None,
        },
        seeds_over_limits(seeds.deep_view()) ==> r is None,
{
    let refs: Vec<&[u8]> = seeds.iter().map(|s| s.as_slice()).collect();
    match Pubkey::create_program_address(&refs, &Pubkey::new_from_array(program_id.bytes)) {
        Ok(key) => Some(Address { bytes: key.to_bytes() }),
        Err(_) => None,
    }
}

/// Calls `solana_pubkey::Pubkey::try_find_program_address`.
///
/// Claims: the result is the named search result, and a found address is what
/// `create_program_address` gives for the seeds with the found bump appended
/// (the source returns exactly that value).
#[verifier::external_body]
fn try_find_program_address(seeds: &Vec<Vec<u8>>, program_id: &Address) -> (r: Option<(Address, u8)>)
    ensures
        match r {
            Some((a, bump)) => {
                &&& spec_try_find_program_address(seeds.deep_view(), program_id@) == Some((a@, bump))
                &&& spec_create_program_address(seeds.deep_view().push(seq![bump]), program_id@)
                    == Some(a@)
            },
            None => spec_try_find_program_address(seeds.deep_view(), program_id@) is None,
        },
{
    let refs: Vec<&[u8]> = seeds.iter().map(|s| s.as_slice()).collect();
    match Pubkey::try_find_program_address(&refs, &Pubkey::new_from_array(program_id.bytes)) {
        Some((key, bump)) => Some((Address { bytes: key.to_bytes() }, bump)),
        None => None,
    }
}

/// The bytes of an ASCII seed text.
pub open spec fn ascii_bytes(s: Seq<char>) -> Seq<u8> {
    s.map_values(|c: char| c as u8)
}

/// The bytes of an ASCII seed text, as a vector.
pub fn seed_bytes(s: &str) -> (r: Vec<u8>)
    requires
        s.is_ascii(),
    ensures
        r@ == ascii_bytes(s@),
{
    broadcast use vstd::string::is_ascii_spec_bytes;
    let r = s.as_bytes_vec();
    assert(r@ =~= ascii_bytes(s@));
    r
}

/// A copy of a byte vector.
fn copy_bytes(v: &Vec<u8>) -> (r: Vec<u8>)
    ensures
        r@ == v@,
{
    let mut r: Vec<u8> = Vec::new();
    let mut i: usize = 0;
    while i < v.len()
        invariant
            i <= v.len(),
            r@ == v@.subrange(0, i as int),
        decreases v.len() - i,
    {
        r.push(v[i]);
        i = i + 1;
    }
    assert(r@ =~= v@);
    r
}

/// A copy of a list of seeds.
fn copy_seeds(seeds: &Vec<Vec<u8>>) -> (r: Vec<Vec<u8>>)
    ensures
        r.deep_view() == seeds.deep_view(),
{
    let mut r: Vec<Vec<u8>> = Vec::new();
    let mut i: usize = 0;
    while i < seeds.len()
        invariant
            i <= seeds.len(),
            r@.len() == i,
            forall|j: int| 0 <= j < i ==> #[trigger] r@[j]@ == seeds@[j]@,
        decreases seeds.len() - i,
    {
        let c = copy_bytes(&seeds[i]);
        r.push(c);
        i = i + 1;
    }
    assert forall|j: int| 0 <= j < r@.len() implies #[trigger] r.deep_view()[j] == seeds.deep_view()[j] by {
        assert(r@[j].deep_view() =~= seeds@[j].deep_view());
    }
    assert(r.deep_view() =~= seeds.deep_view());
    r
}

/// A violated account constraint of an instruction.
#[derive(Clone, Copy, Debug, PartialEq, Eq)]
pub enum ConstraintError {
    /// An account that must sign the transaction did not.
    AccountNotSigner,
    /// An account differs from the one the state account records.
    HasOne,
    /// An account is not the address derived from its seeds.
    Seeds,
    /// An account to be created already holds data or belongs to a program.
    AccountAlreadyInUse,
}

/// The system program's address, all zero bytes: the owner of every account
/// that no program has taken yet.
pub open spec fn system_program_id() -> Seq<u8> {
    Seq::new(32, |i: int| 0u8)
}

/// What the runtime holds of an account before an instruction runs.
#[derive(Clone, Copy, Debug, PartialEq, Eq)]
pub struct AccountInfo {
    /// Its balance; a balance alone does not make an account taken.
    pub lamports: u64,
    /// Length of its data.
    pub data_len: usize,
    /// The program that owns it.
    pub owner: Address,
}

/// Whether an account is already taken: it holds data, or a program other than
/// the system program owns it. Such an account cannot be allocated again.
pub open spec fn is_allocated(a: AccountInfo) -> bool {
    a.data_len > 0 || a.owner@ != system_program_id()
}

/// The constraint of an account to be created: it must not be taken yet.
pub fn check_not_in_use(a: &AccountInfo) -> (r: Result<(), ConstraintError>)
    ensures
        r == (if is_allocated(*a) { Err(ConstraintError::AccountAlreadyInUse) } else { Ok(()) }),
{
    let system = Address { bytes: [0u8; 32] };
    assert(system@ =~= system_program_id());
    if a.data_len > 0 || !a.owner.same_as(&system) {
        Err(ConstraintError::AccountAlreadyInUse)
    } else {
        Ok(())
    }
}

/// The account an instruction creates: the bump of its address, the program
/// that owns it and the length of its data.
#[derive(Clone, Copy, Debug, PartialEq, Eq)]
pub struct CreatedAccount {
    pub bump: u8,
    pub owner: Address,
    pub data_len: usize,
}

/// How a program derives a state account's address.
#[derive(Clone, Copy, Debug, PartialEq, Eq)]
pub enum SeedScheme {
    /// From its seed text alone.
    SeedOnly,
    /// From its seed text followed by the admin's address.
    SeedAndAdmin,
}

/// The seed list (without the bump) of a scheme.
pub open spec fn scheme_seeds(seed: Seq<u8>, scheme: SeedScheme, admin: Seq<u8>) -> Seq<Seq<u8>> {
    match scheme {
        SeedScheme::SeedOnly => seq![seed],
        SeedScheme::SeedAndAdmin => seq![seed, admin],
    }
}

/// The bytes of an address, as a vector.
fn address_bytes(a: &Address) -> (r: Vec<u8>)
    ensures
        r@ == a@,
{
    let mut r: Vec<u8> = Vec::new();
    let mut i: usize = 0;
    while i < 32
        invariant
            i <= 32,
            a@.len() == 32,
            r@ == a@.subrange(0, i as int),
        decreases 32 - i,
    {
        r.push(a.bytes[i]);
        i = i + 1;
        assert(r@ =~= a@.subrange(0, i as int));
    }
    assert(a@.subrange(0, 32) =~= a@);
    r
}

/// The seed list (without the bump) of a scheme.
pub fn scheme_seed_list(seed: Vec<u8>, scheme: SeedScheme, admin: &Address) -> (r: Vec<Vec<u8>>)
    ensures
        r.deep_view() == scheme_seeds(seed@, scheme, admin@),
{
    let ghost s = seed@;
    let mut r: Vec<Vec<u8>> = Vec::new();
    r.push(seed);
    match scheme {
        SeedScheme::SeedOnly => {
            assert(r.deep_view()[0] =~= s);
        },
        SeedScheme::SeedAndAdmin => {
            let a = address_bytes(admin);
            r.push(a);
            assert(r.deep_view()[0] =~= s);
            assert(r.deep_view()[1] =~= admin@);
        },
    }
    assert(r.deep_view() =~= scheme_seeds(s, scheme, admin@));
    r
}

/// The signer constraint: the account signed the transaction.
pub fn check_signer(is_signer: bool) -> (r: Result<(), ConstraintError>)
    ensures
        r == (if is_signer { Ok(()) } else { Err(ConstraintError::AccountNotSigner) }),
{
    if is_signer {
        Ok(())
    } else {
        Err(ConstraintError::AccountNotSigner)
    }
}

/// The has-one constraint: the given account is the one the state records.
pub fn check_has_one(recorded: &Address, given: &Address) -> (r: Result<(), ConstraintError>)
    ensures
        r == (if recorded@ == given@ { Ok(()) } else { Err(ConstraintError::HasOne) }),
{
    if recorded.same_as(given) {
        Ok(())
    } else {
        Err(ConstraintError::HasOne)
    }
}

/// Whether `account` is the address derived from `seeds` and `bump` under `program_id`.
pub open spec fn is_program_address(account: Seq<u8>, seeds: Seq<Seq<u8>>, bump: u8, program_id: Seq<u8>) -> bool {
    spec_create_program_address(seeds.push(seq![bump]), program_id) == Some(account)
}

/// The seeds constraint with a known bump: `account` must be the address
/// derived from `seeds` followed by the one-byte seed `bump`.
pub fn check_seeds(account: &Address, seeds: &Vec<Vec<u8>>, bump: u8, program_id: &Address) -> (r: Result<(), ConstraintError>)
    ensures
        r == (if is_program_address(account@, seeds.deep_view(), bump, program_id@) {
            Ok(())
        } else {
            Err(ConstraintError::Seeds)
        }),
{
    let mut with_bump = copy_seeds(seeds);
    let bump_seed: Vec<u8> = vec![bump];
    assert(bump_seed.deep_view() =~= seq![bump]);
    with_bump.push(bump_seed);
    assert(with_bump.deep_view() =~= seeds.deep_view().push(seq![bump]));
    match create_program_address(&with_bump, program_id) {
        Some(derived) => {
            if derived.same_as(account) {
                Ok(())
            } else {
                Err(ConstraintError::Seeds)
            }
        },
        None => Err(ConstraintError::Seeds),
    }
}

/// The seeds constraint of an account being created: the bump is searched for,
/// `account` must be the address found, and the bump found is returned.
pub fn find_bump(account: &Address, seeds: &Vec<Vec<u8>>, program_id: &Address) -> (r: Result<u8, ConstraintError>)
    ensures
        match spec_try_find_program_address(seeds.deep_view(), program_id@) {
            Some((found, bump)) => r == (if found == account@ { Ok::<u8, ConstraintError>(bump) } else {
                Err(ConstraintError::Seeds)
            }),
            None => r == Err::<u8, ConstraintError>(ConstraintError::Seeds),
        },
        r matches Ok(bump) ==> is_program_address(account@, seeds.deep_view(), bump, program_id@),
{
    match try_find_program_address(seeds, program_id) {
        Some((found, bump)) => {
            if found.same_as(account) {
                Ok(bump)
            } else {
                Err(ConstraintError::Seeds)
            }
        },
        None => Err(ConstraintError::Seeds),
    }
}

/// At most one account passes the seeds constraint for given seeds, bump and
/// program: a different account is always refused.
pub proof fn lemma_program_address_unique(a: Seq<u8>, b: Seq<u8>, seeds: Seq<Seq<u8>>, bump: u8, program_id: Seq<u8>)
    requires
        is_program_address(a, seeds, bump, program_id),
        is_program_address(b, seeds, bump, program_id),
    ensures
        a == b,
{
}

} // verus!
