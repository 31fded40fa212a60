use vstd::prelude::*;
use crate::address::Address;
use crate::errors::OracleError;
use crate::pda::{AccountInfo, ConstraintError, CreatedAccount, SeedScheme, ascii_bytes, check_has_one,
    check_not_in_use, check_seeds, check_signer, find_bump, is_allocated, is_program_address,
    scheme_seed_list, scheme_seeds, seed_bytes, spec_create_program_address, spec_try_find_program_address};

verus! {

/// Decimal places of the fixed-point SOL/USD price.
pub const PRICE_DECIMALS: u8 = 6;

/// A price older than this many slots may not be used.
pub const MAX_STALENESS_SLOTS: u64 = 150;

/// Seed text of the oracle state account address.
pub const ORACLE_SEED: &'static str = "oracle_state";

/// Serialized size of an oracle state, without the account discriminator.
pub const ORACLE_STATE_SIZE: usize = 50;

/// The on-chain SOL/USD price record.
#[derive(Clone, Copy, Debug, PartialEq, Eq)]
pub struct OracleState {
    pub admin: Address,
    pub price: u64,
    pub decimals: u8,
    pub last_updated_slot: u64,
    pub bump: u8,
}

impl OracleState {
    /// Every oracle state the program writes records prices with `PRICE_DECIMALS` places.
    pub open spec fn wf(&self) -> bool {
        self.decimals == PRICE_DECIMALS
    }

    /// The seed list of the oracle state address (without the bump) under a
    /// scheme, for the given admin.
    pub open spec fn spec_seeds(scheme: SeedScheme, admin: Seq<u8>) -> Seq<Seq<u8>> {
        scheme_seeds(ascii_bytes(ORACLE_SEED@), scheme, admin)
    }

    /// The seed list of the oracle state address (without the bump) under a
    /// scheme, for the given admin.
    pub fn seeds(scheme: SeedScheme, admin: &Address) -> (r: Vec<Vec<u8>>)
        ensures
            r.deep_view() == Self::spec_seeds(scheme, admin@),
    {
        proof {
            reveal_strlit("oracle_state");
        }
        let seed = seed_bytes(ORACLE_SEED);
        scheme_seed_list(seed, scheme, admin)
    }
}

/// How many slots have passed since the last update, floored at zero.
pub open spec fn price_age(oracle: OracleState, current_slot: u64) -> int {
    if current_slot >= oracle.last_updated_slot {
        current_slot - oracle.last_updated_slot
    } else {
        0
    }
}

/// Whether the recorded price may be used at `current_slot`.
pub open spec fn is_fresh(oracle: OracleState, current_slot: u64) -> bool {
    price_age(oracle, current_slot) < MAX_STALENESS_SLOTS
}

/// The state of a newly created oracle: no price yet, stamped with the creation slot.
pub fn initialize_oracle(admin: Address, bump: u8, current_slot: u64) -> (oracle: OracleState)
    ensures
        oracle.admin == admin,
        oracle.price == 0,
        oracle.decimals == PRICE_DECIMALS,
        oracle.last_updated_slot == current_slot,
        oracle.bump == bump,
        oracle.wf(),
{
    OracleState { admin, price: 0, decimals: PRICE_DECIMALS, last_updated_slot: current_slot, bump }
}

/// Records a new price, signed by `signer`, at `current_slot`.
///
/// A zero price is refused first; then a signer other than the admin.
/// A refused update changes nothing.
pub fn update_price(oracle: &mut OracleState, signer: &Address, new_price: u64, current_slot: u64) -> (r: Result<(), OracleError>)
    ensures
        new_price == 0 ==> r == Err::<(), OracleError>(OracleError::InvalidPrice),
        new_price > 0 && signer@ != old(oracle).admin@ ==> r == Err::<(), OracleError>(OracleError::Unauthorized),
        new_price > 0 && signer@ == old(oracle).admin@ ==> r is Ok,
        r is Ok ==> *final(oracle) == (OracleState {
            price: new_price,
            last_updated_slot: current_slot,
            ..*old(oracle)
        }),
        r is Err ==> *final(oracle) == *old(oracle),
        old(oracle).wf() ==> final(oracle).wf(),
{
    if !(new_price > 0) {
        return Err(OracleError::InvalidPrice);
    }
    if !signer.same_as(&oracle.admin) {
        return Err(OracleError::Unauthorized);
    }
    oracle.price = new_price;
    oracle.last_updated_slot = current_slot;
    Ok(())
}

/// Refuses a price older than the staleness limit.
pub fn use_oracle(oracle: &OracleState, current_slot: u64) -> (r: Result<(), OracleError>)
    ensures
        r == (if is_fresh(*oracle, current_slot) {
            Ok::<(), OracleError>(())
        } else {
            Err(OracleError::StaleOracle)
        }),
        current_slot <= oracle.last_updated_slot ==> r is Ok,
        current_slot > oracle.last_updated_slot ==> (r is Ok <==> current_slot - oracle.last_updated_slot
            < MAX_STALENESS_SLOTS),
{
    let age = current_slot.saturating_sub(oracle.last_updated_slot);
    if age < MAX_STALENESS_SLOTS {
        Ok(())
    } else {
        Err(OracleError::StaleOracle)
    }
}

/// Moves the recorded update slot (a testing aid); nothing else changes.
pub fn reset_oracle(oracle: &mut OracleState, new_slot: u64)
    ensures
        *final(oracle) == (OracleState { last_updated_slot: new_slot, ..*old(oracle) }),
        old(oracle).wf() ==> final(oracle).wf(),
{
    oracle.last_updated_slot = new_slot;
}

/// The accounts of the instruction that creates the oracle: the oracle
/// account and the paying signer.
#[derive(Clone, Copy, Debug)]
pub struct InitializeOracle {
    pub oracle: Address,
    pub admin: Address,
    pub admin_is_signer: bool,
}

/// What the account constraints of the oracle's creation answer (the bump of
/// the address found), given what the runtime holds of the oracle account beforehand.
pub open spec fn init_oracle_accounts_result(
    accounts: InitializeOracle,
    existing: AccountInfo,
    scheme: SeedScheme,
    program_id: Seq<u8>,
) -> Result<u8, ConstraintError> {
    if !accounts.admin_is_signer {
        Err(ConstraintError::AccountNotSigner)
    } else {
        match spec_try_find_program_address(OracleState::spec_seeds(scheme, accounts.admin@), program_id) {
            None => Err(ConstraintError::Seeds),
            Some((found, bump)) => if found != accounts.oracle@ {
                Err(ConstraintError::Seeds)
            } else if is_allocated(existing) {
                Err(ConstraintError::AccountAlreadyInUse)
            } else {
                Ok(bump)
            },
        }
    }
}

impl InitializeOracle {
    /// The account constraints of creating the oracle: the payer signs, the
    /// oracle account is the address found from the oracle seeds, and it is not
    /// taken yet. Answers the account created: found bump, owned by the
    /// program, sized for a tagged oracle state.
    pub fn validate(&self, existing: &AccountInfo, scheme: SeedScheme, program_id: &Address) -> (r: Result<CreatedAccount, ConstraintError>)
        ensures
            match init_oracle_accounts_result(*self, *existing, scheme, program_id@) {
                Ok(bump) => r == Ok::<CreatedAccount, ConstraintError>(CreatedAccount {
                    bump,
                    owner: *program_id,
                    data_len: (crate::codec::DISCRIMINATOR_SIZE + ORACLE_STATE_SIZE) as usize,
                }),
                Err(e) => r == Err::<CreatedAccount, ConstraintError>(e),
            },
            r matches Ok(c) ==> is_program_address(self.oracle@, OracleState::spec_seeds(scheme, self.admin@), c.bump, program_id@),
            r matches Ok(c) ==> !is_allocated(*existing),
    {
        check_signer(self.admin_is_signer)?;
        let seeds = OracleState::seeds(scheme, &self.admin);
        let bump = find_bump(&self.oracle, &seeds, program_id)?;
        check_not_in_use(existing)?;
        Ok(CreatedAccount {
            bump,
            owner: *program_id,
            data_len: crate::codec::DISCRIMINATOR_SIZE + ORACLE_STATE_SIZE,
        })
    }
}

/// Once created, the oracle account cannot be created again: an account as the
/// creation left it (holding data, owned by the program) is refused by every
/// later creation, whoever signs and whatever admin is given.
pub proof fn lemma_oracle_created_once(
    first: InitializeOracle,
    before: AccountInfo,
    scheme: SeedScheme,
    program: Address,
    lamports: u64,
    second: InitializeOracle,
    scheme2: SeedScheme,
)
    requires
        init_oracle_accounts_result(first, before, scheme, program@) is Ok,
    ensures
        init_oracle_accounts_result(
            second,
            AccountInfo {
                lamports,
                data_len: (crate::codec::DISCRIMINATOR_SIZE + ORACLE_STATE_SIZE) as usize,
                owner: program,
            },
            scheme2,
            program@,
        ) is Err,
{
}

/// The accounts of the instruction that records a price.
#[derive(Clone, Copy, Debug)]
pub struct UpdatePrice {
    pub oracle: Address,
    pub admin: Address,
    pub admin_is_signer: bool,
}

/// What the account constraints of a price update answer.
pub open spec fn update_price_accounts_result(accounts: UpdatePrice, state: OracleState, scheme: SeedScheme, program_id: Seq<u8>) -> Result<(), ConstraintError> {
    if !accounts.admin_is_signer {
        Err(ConstraintError::AccountNotSigner)
    } else if state.admin@ != accounts.admin@ {
        Err(ConstraintError::HasOne)
    } else if !is_program_address(accounts.oracle@, OracleState::spec_seeds(scheme, accounts.admin@), state.bump, program_id) {
        Err(ConstraintError::Seeds)
    } else {
        Ok(())
    }
}

impl UpdatePrice {
    /// The account constraints: the admin signs, is the admin the oracle
    /// records, and the oracle account is the address derived from the oracle
    /// seeds and the recorded bump.
    pub fn validate(&self, state: &OracleState, scheme: SeedScheme, program_id: &Address) -> (r: Result<(), ConstraintError>)
        ensures
            r == update_price_accounts_result(*self, *state, scheme, program_id@),
    {
        check_signer(self.admin_is_signer)?;
        check_has_one(&state.admin, &self.admin)?;
        let seeds = OracleState::seeds(scheme, &self.admin);
        check_seeds(&self.oracle, &seeds, state.bump, program_id)
    }
}

/// A price just recorded is fresh at the slot it was recorded and reads back as written.
pub proof fn lemma_update_then_fresh(before: OracleState, after: OracleState, new_price: u64, slot: u64)
    requires
        after == (OracleState { price: new_price, last_updated_slot: slot, ..before }),
    ensures
        is_fresh(after, slot),
        after.price == new_price,
        after.admin == before.admin,
{
}

/// A price is usable exactly while fewer than `MAX_STALENESS_SLOTS` slots have
/// passed since its update; a clock at or behind the update slot counts as no time.
pub proof fn lemma_freshness_by_slots(oracle: OracleState, current_slot: u64)
    ensures
        current_slot <= oracle.last_updated_slot ==> is_fresh(oracle, current_slot),
        current_slot > oracle.last_updated_slot ==> (is_fresh(oracle, current_slot) <==> current_slot
            - oracle.last_updated_slot < MAX_STALENESS_SLOTS),
{
}

/// A price update's accounts pass exactly when the admin signs, is the
/// recorded admin, and the oracle account is the address derived from the
/// oracle seeds with the recorded bump.
pub proof fn lemma_update_accounts_accept(accounts: UpdatePrice, state: OracleState, scheme: SeedScheme, program_id: Seq<u8>)
    ensures
        (update_price_accounts_result(accounts, state, scheme, program_id) is Ok) == (accounts.admin_is_signer
            && accounts.admin@ == state.admin@ && spec_create_program_address(
            OracleState::spec_seeds(scheme, accounts.admin@).push(seq![state.bump]),
            program_id,
        ) == Some(accounts.oracle@)),
{
}

/// The oracle's creation passes exactly when the payer signs, the oracle
/// account is the address the bump search finds from the oracle seeds, and
/// the account is still free (no data, owned by the system program); the
/// answer is the bump found.
pub proof fn lemma_init_oracle_accept(accounts: InitializeOracle, existing: AccountInfo, scheme: SeedScheme, program_id: Seq<u8>)
    ensures
        (init_oracle_accounts_result(accounts, existing, scheme, program_id) is Ok) == (accounts.admin_is_signer
            && existing.data_len == 0 && existing.owner@ == crate::pda::system_program_id()
            && (spec_try_find_program_address(OracleState::spec_seeds(scheme, accounts.admin@), program_id)
                matches Some((found, _b)) && found == accounts.oracle@)),
        init_oracle_accounts_result(accounts, existing, scheme, program_id) matches Ok(bump)
            ==> spec_try_find_program_address(OracleState::spec_seeds(scheme, accounts.admin@), program_id)
                == Some((accounts.oracle@, bump)),
{
}

/// Once stale, a price stays stale at every later slot.
pub proof fn lemma_stale_stays_stale(oracle: OracleState, t1: u64, t2: u64)
    requires
        t1 <= t2,
        !is_fresh(oracle, t1),
    ensures
        !is_fresh(oracle, t2),
{
}

/// Two different oracle accounts cannot both pass the price update constraints
/// for the same recorded state: a spoofed oracle account is refused.
pub proof fn lemma_update_accounts_unique(a: UpdatePrice, b: UpdatePrice, state: OracleState, scheme: SeedScheme, program_id: Seq<u8>)
    requires
        update_price_accounts_result(a, state, scheme, program_id) is Ok,
        update_price_accounts_result(b, state, scheme, program_id) is Ok,
    ensures
        a.oracle@ == b.oracle@,
        a.admin@ == b.admin@,
{
}

} // verus!
