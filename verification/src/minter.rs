use vstd::prelude::*;
use crate::address::Address;
use crate::errors::MinterError;
use crate::fee::{compute_fee_lamports, fee_lamports_result};
use crate::oracle::{OracleState, PRICE_DECIMALS};
use crate::pda::{AccountInfo, ConstraintError, CreatedAccount, SeedScheme, ascii_bytes, check_has_one,
    check_not_in_use, check_seeds, check_signer, find_bump, is_allocated, is_program_address,
    scheme_seed_list, scheme_seeds, seed_bytes, spec_create_program_address, spec_try_find_program_address};

verus! {

/// Seed text of the minter configuration account address.
pub const MINTER_SEED: &'static str = "minter_config";

/// Serialized size of a minter configuration, without the account discriminator.
pub const MINTER_CONFIG_SIZE: usize = 137;

/// Most decimal places a token created by the minter may have.
pub const MAX_TOKEN_DECIMALS: u8 = 9;

/// The minter's configuration: who administers it, where fees go, the fee in
/// USD (fixed point, `PRICE_DECIMALS` places) and which oracle prices it.
#[derive(Clone, Copy, Debug, PartialEq, Eq)]
pub struct MinterConfig {
    pub admin: Address,
    pub treasury: Address,
    pub mint_fee_usd: u64,
    pub oracle_program: Address,
    pub oracle_state: Address,
    pub bump: u8,
}

/// The record emitted when a token is created.
#[derive(Clone, Copy, Debug, PartialEq, Eq)]
pub struct TokenCreated {
    pub creator: Address,
    pub mint: Address,
    pub decimals: u8,
    pub initial_supply: u64,
    pub fee_lamports: u64,
    pub sol_usd_price: u64,
    pub slot: u64,
}

/// What a token creation does besides emitting its record: the fee goes from
/// the creator to the treasury, and the new mint's authorities and the
/// associated token account that receives the supply all belong to the creator.
#[derive(Clone, Copy, Debug, PartialEq, Eq)]
pub struct MintPlan {
    /// The creation record; its `fee_lamports` is paid, its `initial_supply` minted.
    pub record: TokenCreated,
    /// Receives the fee.
    pub treasury: Address,
    /// May mint more of the token.
    pub mint_authority: Address,
    /// May freeze token accounts of the mint.
    pub freeze_authority: Address,
    /// Owner of the associated token account (for the new mint) credited with the supply.
    pub supply_owner: Address,
}

impl MinterConfig {
    /// The configured fee is never zero.
    pub open spec fn wf(&self) -> bool {
        self.mint_fee_usd > 0
    }

    /// The seed list of the configuration address (without the bump) under a
    /// scheme, for the given admin.
    pub open spec fn spec_seeds(scheme: SeedScheme, admin: Seq<u8>) -> Seq<Seq<u8>> {
        scheme_seeds(ascii_bytes(MINTER_SEED@), scheme, admin)
    }

    /// The seed list of the configuration address (without the bump) under a
    /// scheme, for the given admin.
    pub fn seeds(scheme: SeedScheme, admin: &Address) -> (r: Vec<Vec<u8>>)
        ensures
            r.deep_view() == Self::spec_seeds(scheme, admin@),
    {
        proof {
            reveal_strlit("minter_config");
        }
        let seed = seed_bytes(MINTER_SEED);
        scheme_seed_list(seed, scheme, admin)
    }
}

/// Creates the configuration; a zero fee is refused.
pub fn initialize_minter(
    admin: Address,
    treasury: Address,
    mint_fee_usd: u64,
    oracle_state: Address,
    oracle_program: Address,
    bump: u8,
) -> (r: Result<MinterConfig, MinterError>)
    ensures
        mint_fee_usd == 0 ==> r == Err::<MinterConfig, MinterError>(MinterError::InvalidFeeUsd),
        mint_fee_usd > 0 ==> r == Ok::<MinterConfig, MinterError>(
            MinterConfig { admin, treasury, mint_fee_usd, oracle_program, oracle_state, bump },
        ),
        r matches Ok(c) ==> c.wf(),
{
    if !(mint_fee_usd > 0) {
        return Err(MinterError::InvalidFeeUsd);
    }
    Ok(MinterConfig { admin, treasury, mint_fee_usd, oracle_program, oracle_state, bump })
}

/// Changes the fee; a zero fee is refused and leaves the configuration unchanged.
pub fn set_fee_usd(config: &mut MinterConfig, new_fee_usd: u64) -> (r: Result<(), MinterError>)
    ensures
        new_fee_usd == 0 ==> r == Err::<(), MinterError>(MinterError::InvalidFeeUsd)
            && *final(config) == *old(config),
        new_fee_usd > 0 ==> r is Ok
            && *final(config) == (MinterConfig { mint_fee_usd: new_fee_usd, ..*old(config) }),
        old(config).wf() ==> final(config).wf(),
{
    if !(new_fee_usd > 0) {
        return Err(MinterError::InvalidFeeUsd);
    }
    config.mint_fee_usd = new_fee_usd;
    Ok(())
}

/// Changes where fees are paid; nothing else changes.
pub fn set_treasury(config: &mut MinterConfig, new_treasury: Address)
    ensures
        *final(config) == (MinterConfig { treasury: new_treasury, ..*old(config) }),
        old(config).wf() ==> final(config).wf(),
{
    config.treasury = new_treasury;
}

/// What `mint_token` answers on every input.
pub open spec fn mint_token_result(
    config: MinterConfig,
    oracle_state_key: Seq<u8>,
    oracle_program_key: Seq<u8>,
    oracle: OracleState,
    creator: Address,
    mint: Address,
    decimals: u8,
    initial_supply: u64,
    slot: u64,
) -> Result<MintPlan, MinterError> {
    if initial_supply == 0 {
        Err(MinterError::InvalidSupply)
    } else if decimals > MAX_TOKEN_DECIMALS {
        Err(MinterError::InvalidDecimals)
    } else if oracle_state_key != config.oracle_state@ {
        Err(MinterError::InvalidOracleState)
    } else if oracle_program_key != config.oracle_program@ {
        Err(MinterError::InvalidOracleProgram)
    } else if oracle.decimals != PRICE_DECIMALS {
        Err(MinterError::OracleDecimalsMismatch)
    } else {
        match fee_lamports_result(config.mint_fee_usd, oracle.price) {
            Ok(fee_lamports) => Ok(MintPlan {
                record: TokenCreated {
                    creator,
                    mint,
                    decimals,
                    initial_supply,
                    fee_lamports,
                    sol_usd_price: oracle.price,
                    slot,
                },
                treasury: config.treasury,
                mint_authority: creator,
                freeze_authority: creator,
                supply_owner: creator,
            }),
            Err(e) => Err(e),
        }
    }
}

/// Decides a token creation: checks the request and the oracle it is priced
/// by, and answers what the creation does: the record (fee in lamports, supply,
/// decimals), the treasury paid, and the creator as mint and freeze authority
/// and as owner of the token account that receives the supply.
pub fn mint_token(
    config: &MinterConfig,
    oracle_state_key: &Address,
    oracle_program_key: &Address,
    oracle: &OracleState,
    creator: Address,
    mint: Address,
    decimals: u8,
    initial_supply: u64,
    slot: u64,
) -> (r: Result<MintPlan, MinterError>)
    ensures
        r == mint_token_result(*config, oracle_state_key@, oracle_program_key@, *oracle, creator,
            mint, decimals, initial_supply, slot),
        (r is Ok) == (initial_supply > 0 && decimals <= MAX_TOKEN_DECIMALS
            && oracle_state_key@ == config.oracle_state@ && oracle_program_key@ == config.oracle_program@
            && oracle.decimals == PRICE_DECIMALS && oracle.price > 0
            && (config.mint_fee_usd as int * 1_000_000_000) / (oracle.price as int) <= u64::MAX as int),
        r matches Ok(p) ==> {
            &&& p.record.creator == creator
            &&& p.record.mint == mint
            &&& p.record.decimals == decimals
            &&& p.record.initial_supply == initial_supply
            &&& p.record.sol_usd_price == oracle.price
            &&& p.record.slot == slot
            &&& p.record.fee_lamports as int == (config.mint_fee_usd as int * 1_000_000_000) / (oracle.price as int)
            &&& p.treasury == config.treasury
            &&& p.mint_authority == creator
            &&& p.freeze_authority == creator
            &&& p.supply_owner == creator
        },
        initial_supply == 0 ==> r == Err::<MintPlan, MinterError>(MinterError::InvalidSupply),
        initial_supply > 0 && decimals > MAX_TOKEN_DECIMALS ==> r == Err::<MintPlan, MinterError>(
            MinterError::InvalidDecimals,
        ),
{
    if initial_supply == 0 {
        return Err(MinterError::InvalidSupply);
    }
    if decimals > MAX_TOKEN_DECIMALS {
        return Err(MinterError::InvalidDecimals);
    }
    if !oracle_state_key.same_as(&config.oracle_state) {
        return Err(MinterError::InvalidOracleState);
    }
    if !oracle_program_key.same_as(&config.oracle_program) {
        return Err(MinterError::InvalidOracleProgram);
    }
    if oracle.decimals != PRICE_DECIMALS {
        return Err(MinterError::OracleDecimalsMismatch);
    }
    let fee_lamports = compute_fee_lamports(config.mint_fee_usd, oracle.price)?;
    Ok(MintPlan {
        record: TokenCreated {
            creator,
            mint,
            decimals,
            initial_supply,
            fee_lamports,
            sol_usd_price: oracle.price,
            slot,
        },
        treasury: config.treasury,
        mint_authority: creator,
        freeze_authority: creator,
        supply_owner: creator,
    })
}

/// The accounts of the instruction that creates the configuration: the
/// configuration account and the paying signer, who becomes its admin.
#[derive(Clone, Copy, Debug)]
pub struct InitializeMinter {
    pub config: Address,
    pub admin: Address,
    pub admin_is_signer: bool,
}

/// What the account constraints of the configuration's creation answer (the
/// bump of the address found), given what the runtime holds of the
/// configuration account beforehand. The address comes from the seed alone.
pub open spec fn init_minter_accounts_result(
    accounts: InitializeMinter,
    existing: AccountInfo,
    program_id: Seq<u8>,
) -> Result<u8, ConstraintError> {
    if !accounts.admin_is_signer {
        Err(ConstraintError::AccountNotSigner)
    } else {
        match spec_try_find_program_address(
            MinterConfig::spec_seeds(SeedScheme::SeedOnly, accounts.admin@),
            program_id,
        ) {
            None => Err(ConstraintError::Seeds),
            Some((found, bump)) => if found != accounts.config@ {
                Err(ConstraintError::Seeds)
            } else if is_allocated(existing) {
                Err(ConstraintError::AccountAlreadyInUse)
            } else {
                Ok(bump)
            },
        }
    }
}

impl InitializeMinter {
    /// The account constraints of creating the configuration: the payer signs,
    /// the configuration account is the address found from the minter seed,
    /// and it is not taken yet. Answers the account created: found bump, owned
    /// by the program, sized for a tagged configuration.
    pub fn validate(&self, existing: &AccountInfo, program_id: &Address) -> (r: Result<CreatedAccount, ConstraintError>)
        ensures
            match init_minter_accounts_result(*self, *existing, program_id@) {
                Ok(bump) => r == Ok::<CreatedAccount, ConstraintError>(CreatedAccount {
                    bump,
                    owner: *program_id,
                    data_len: (crate::codec::DISCRIMINATOR_SIZE + MINTER_CONFIG_SIZE) as usize,
                }),
                Err(e) => r == Err::<CreatedAccount, ConstraintError>(e),
            },
            r matches Ok(c) ==> is_program_address(
                self.config@,
                MinterConfig::spec_seeds(SeedScheme::SeedOnly, self.admin@),
                c.bump,
                program_id@,
            ),
            r matches Ok(c) ==> !is_allocated(*existing),
    {
        check_signer(self.admin_is_signer)?;
        let seeds = MinterConfig::seeds(SeedScheme::SeedOnly, &self.admin);
        let bump = find_bump(&self.config, &seeds, program_id)?;
        check_not_in_use(existing)?;
        Ok(CreatedAccount {
            bump,
            owner: *program_id,
            data_len: crate::codec::DISCRIMINATOR_SIZE + MINTER_CONFIG_SIZE,
        })
    }
}

/// Once created, the configuration cannot be created again: an account as the
/// creation left it (holding data, owned by the program) is refused by every
/// later creation, the admin's included, so nobody can take the minter over.
pub proof fn lemma_minter_created_once(
    first: InitializeMinter,
    before: AccountInfo,
    program: Address,
    lamports: u64,
    second: InitializeMinter,
)
    requires
        init_minter_accounts_result(first, before, program@) is Ok,
    ensures
        init_minter_accounts_result(
            second,
            AccountInfo {
                lamports,
                data_len: (crate::codec::DISCRIMINATOR_SIZE + MINTER_CONFIG_SIZE) as usize,
                owner: program,
            },
            program@,
        ) is Err,
{
}

/// What the account constraints of an admin instruction on the configuration answer.
pub open spec fn admin_accounts_result(config_key: Address, admin: Address, admin_is_signer: bool, state: MinterConfig, scheme: SeedScheme, program_id: Seq<u8>) -> Result<(), ConstraintError> {
    if !admin_is_signer {
        Err(ConstraintError::AccountNotSigner)
    } else if state.admin@ != admin@ {
        Err(ConstraintError::HasOne)
    } else if !is_program_address(config_key@, MinterConfig::spec_seeds(scheme, admin@), state.bump, program_id) {
        Err(ConstraintError::Seeds)
    } else {
        Ok(())
    }
}

/// The constraints shared by the admin instructions.
fn validate_admin(config_key: &Address, admin: &Address, admin_is_signer: bool, state: &MinterConfig, scheme: SeedScheme, program_id: &Address) -> (r: Result<(), ConstraintError>)
    ensures
        r == admin_accounts_result(*config_key, *admin, admin_is_signer, *state, scheme, program_id@),
{
    check_signer(admin_is_signer)?;
    check_has_one(&state.admin, admin)?;
    let seeds = MinterConfig::seeds(scheme, admin);
    check_seeds(config_key, &seeds, state.bump, program_id)
}

/// The accounts of the instruction that changes the fee.
#[derive(Clone, Copy, Debug)]
pub struct SetFeeUsd {
    pub config: Address,
    pub admin: Address,
    pub admin_is_signer: bool,
}

impl SetFeeUsd {
    /// The account constraints: the admin signs, is the admin the configuration
    /// records, and the configuration account is the address derived from the
    /// minter seed alone and the recorded bump.
    pub fn validate(&self, state: &MinterConfig, program_id: &Address) -> (r: Result<(), ConstraintError>)
        ensures
            r == admin_accounts_result(self.config, self.admin, self.admin_is_signer, *state, SeedScheme::SeedOnly, program_id@),
    {
        validate_admin(&self.config, &self.admin, self.admin_is_signer, state, SeedScheme::SeedOnly, program_id)
    }
}

/// The accounts of the instruction that changes the treasury.
#[derive(Clone, Copy, Debug)]
pub struct SetTreasury {
    pub config: Address,
    pub admin: Address,
    pub admin_is_signer: bool,
}

impl SetTreasury {
    /// The account constraints, as for the fee change, with the configuration
    /// address derived under the given scheme.
    pub fn validate(&self, state: &MinterConfig, scheme: SeedScheme, program_id: &Address) -> (r: Result<(), ConstraintError>)
        ensures
            r == admin_accounts_result(self.config, self.admin, self.admin_is_signer, *state, scheme, program_id@),
    {
        validate_admin(&self.config, &self.admin, self.admin_is_signer, state, scheme, program_id)
    }
}

/// The configuration's creation passes exactly when the payer signs, the
/// configuration account is the address the bump search finds from the minter
/// seed alone, and the account is still free (no data, owned by the system
/// program); the answer is the bump found.
pub proof fn lemma_init_minter_accept(accounts: InitializeMinter, existing: AccountInfo, program_id: Seq<u8>)
    ensures
        (init_minter_accounts_result(accounts, existing, program_id) is Ok) == (accounts.admin_is_signer
            && existing.data_len == 0 && existing.owner@ == crate::pda::system_program_id()
            && (spec_try_find_program_address(seq![ascii_bytes(MINTER_SEED@)], program_id)
                matches Some((found, _b)) && found == accounts.config@)),
        init_minter_accounts_result(accounts, existing, program_id) matches Ok(bump)
            ==> spec_try_find_program_address(seq![ascii_bytes(MINTER_SEED@)], program_id)
                == Some((accounts.config@, bump)),
{
}

/// An admin instruction's accounts pass exactly when the admin signs, is the
/// recorded admin, and the configuration account is the address derived from
/// the minter seeds with the recorded bump.
pub proof fn lemma_admin_accounts_accept(config_key: Address, admin: Address, is_signer: bool, state: MinterConfig, scheme: SeedScheme, program_id: Seq<u8>)
    ensures
        (admin_accounts_result(config_key, admin, is_signer, state, scheme, program_id) is Ok) == (is_signer
            && admin@ == state.admin@ && spec_create_program_address(
            MinterConfig::spec_seeds(scheme, admin@).push(seq![state.bump]),
            program_id,
        ) == Some(config_key@)),
{
}

/// Only the recorded admin passes the admin constraints.
pub proof fn lemma_only_admin_passes(config_key: Address, admin: Address, is_signer: bool, state: MinterConfig, scheme: SeedScheme, program_id: Seq<u8>)
    requires
        admin_accounts_result(config_key, admin, is_signer, state, scheme, program_id) is Ok,
    ensures
        admin@ == state.admin@,
        is_signer,
{
}

/// A successful creation charges exactly the fee computed from the configured
/// USD fee and the oracle price, pays it to the configured treasury, mints the
/// requested supply to the creator, and makes the creator the mint's authorities.
pub proof fn lemma_mint_charges_configured_fee(
    config: MinterConfig,
    oracle_state_key: Seq<u8>,
    oracle_program_key: Seq<u8>,
    oracle: OracleState,
    creator: Address,
    mint: Address,
    decimals: u8,
    initial_supply: u64,
    slot: u64,
)
    requires
        mint_token_result(config, oracle_state_key, oracle_program_key, oracle, creator, mint,
            decimals, initial_supply, slot) is Ok,
    ensures
        ({
            let plan = mint_token_result(config, oracle_state_key, oracle_program_key, oracle, creator,
                mint, decimals, initial_supply, slot)->Ok_0;
            let ev = plan.record;
            &&& fee_lamports_result(config.mint_fee_usd, oracle.price) == Ok::<u64, MinterError>(ev.fee_lamports)
            &&& plan.treasury == config.treasury
            &&& plan.mint_authority == creator
            &&& plan.freeze_authority == creator
            &&& plan.supply_owner == creator
            &&& ev.mint == mint
            &&& ev.initial_supply == initial_supply
            &&& ev.initial_supply > 0
            &&& ev.decimals <= MAX_TOKEN_DECIMALS
            &&& oracle.price > 0
        }),
{
}


/// What a token creation answers, in terms of its inputs: it succeeds exactly
/// when the supply is positive, the decimals are in range, the oracle accounts
/// are the configured ones, the oracle uses six places and has a price, and the
/// fee fits; a success records the requested token (creator, mint, decimals,
/// supply), the oracle price, the slot and the fee `fee * 10^9 / price`, pays
/// the configured treasury and gives the creator the mint, its authorities and
/// the supply. A zero supply and then out-of-range decimals are refused first.
pub proof fn lemma_mint_token_outcome(
    config: MinterConfig,
    oracle_state_key: Seq<u8>,
    oracle_program_key: Seq<u8>,
    oracle: OracleState,
    creator: Address,
    mint: Address,
    decimals: u8,
    initial_supply: u64,
    slot: u64,
)
    ensures
        ({
            let r = mint_token_result(config, oracle_state_key, oracle_program_key, oracle, creator,
                mint, decimals, initial_supply, slot);
            &&& (r is Ok) == (initial_supply > 0 && decimals <= MAX_TOKEN_DECIMALS
                && oracle_state_key == config.oracle_state@ && oracle_program_key == config.oracle_program@
                && oracle.decimals == PRICE_DECIMALS && oracle.price > 0
                && (config.mint_fee_usd as int * 1_000_000_000) / (oracle.price as int) <= u64::MAX as int)
            &&& r matches Ok(p) ==> {
                &&& p.record.creator == creator
                &&& p.record.mint == mint
                &&& p.record.decimals == decimals
                &&& p.record.initial_supply == initial_supply
                &&& p.record.sol_usd_price == oracle.price
                &&& p.record.slot == slot
                &&& p.record.fee_lamports as int == (config.mint_fee_usd as int * 1_000_000_000) / (oracle.price as int)
                &&& p.treasury == config.treasury
                &&& p.mint_authority == creator
                &&& p.freeze_authority == creator
                &&& p.supply_owner == creator
            }
            &&& initial_supply == 0 ==> r == Err::<MintPlan, MinterError>(MinterError::InvalidSupply)
            &&& initial_supply > 0 && decimals > MAX_TOKEN_DECIMALS ==> r == Err::<MintPlan, MinterError>(
                MinterError::InvalidDecimals,
            )
        }),
{
    crate::fee::lemma_fee_result_law(config.mint_fee_usd, oracle.price);
}

} // verus!
