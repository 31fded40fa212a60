use sol_usd_minter::address::Address;
use sol_usd_minter::codec::{decode_minter_config, encode_minter_config, load_minter_config};
use sol_usd_minter::errors::MinterError;
use sol_usd_minter::fee::{calc_amount_raw, compute_fee_lamports};
use sol_usd_minter::minter::{
    initialize_minter, mint_token, set_fee_usd, set_treasury, InitializeMinter, MinterConfig,
    SetFeeUsd, SetTreasury, MINTER_SEED,
};
use sol_usd_minter::oracle::{initialize_oracle, update_price, OracleState, ORACLE_SEED, PRICE_DECIMALS};
use sol_usd_minter::pda::{AccountInfo, ConstraintError, CreatedAccount, SeedScheme};
use solana_pubkey::Pubkey;

const ORACLE_PROGRAM: &str = "24UJLhNSDEwFrziTkshg6Rt18K7H3RczKXR8fNpQ8xa3";
const MINTER_PROGRAM: &str = "DXm5uV6Zh3HZshCSUtfoodGDuyDrKnzmP3Nq29PTmYrU";
const MINT_INITIAL_SUPPLY: u64 = 1_000_000;

fn addr(p: &Pubkey) -> Address {
    Address::new(p.to_bytes())
}

fn program(id: &str) -> Pubkey {
    id.parse::<Pubkey>().unwrap()
}

/// An oracle with the given price, and its address.
fn priced_oracle(payer: Address, price: u64) -> (Pubkey, OracleState) {
    let oracle_program_id = program(ORACLE_PROGRAM);
    let (oracle_pda, bump) = Pubkey::find_program_address(&[ORACLE_SEED.as_bytes()], &oracle_program_id);
    let mut oracle = initialize_oracle(payer, bump, 0);
    update_price(&mut oracle, &payer, price, 0).unwrap();
    (oracle_pda, oracle)
}

/// Creates the minter configuration through its account checks, as account data.
fn create_config(
    payer: Address,
    treasury: Address,
    fee: u64,
    oracle_pda: &Pubkey,
) -> Result<(Pubkey, u8, Vec<u8>), MinterError> {
    let minter_program_id = program(MINTER_PROGRAM);
    let (config_pda, bump) = Pubkey::find_program_address(&[MINTER_SEED.as_bytes()], &minter_program_id);
    let accounts = InitializeMinter { config: addr(&config_pda), admin: payer, admin_is_signer: true };
    let fresh = AccountInfo { lamports: 0, data_len: 0, owner: Address::new([0u8; 32]) };
    assert_eq!(
        accounts.validate(&fresh, &addr(&minter_program_id)),
        Ok(CreatedAccount { bump, owner: addr(&minter_program_id), data_len: 145 })
    );
    let config = initialize_minter(payer, treasury, fee, addr(oracle_pda), addr(&program(ORACLE_PROGRAM)), bump)?;
    Ok((config_pda, bump, encode_minter_config(&config)))
}

#[test]
fn test_mint_config_negative() {
    let payer = Address::new([1u8; 32]);
    let treasury = Address::new([2u8; 32]);
    let (oracle_pda, _oracle) = priced_oracle(payer, 100);

    // 3. Rejects mint config initialize when mint fee is zero
    let res = create_config(payer, treasury, 0, &oracle_pda);
    assert!(res.is_err());
    assert_eq!(res.unwrap_err(), MinterError::InvalidFeeUsd);

    // 4. Initialize mint config account
    let (config_pda, _bump, data) = create_config(payer, treasury, 1000, &oracle_pda).unwrap();

    // 5. Rejects set new fee equals zero
    let minter_program_id = program(MINTER_PROGRAM);
    let mut config = load_minter_config(&data, &addr(&minter_program_id), &addr(&minter_program_id)).unwrap();
    let accounts = SetFeeUsd { config: addr(&config_pda), admin: payer, admin_is_signer: true };
    assert_eq!(accounts.validate(&config, &addr(&minter_program_id)), Ok(()));
    let before = config;
    let res = set_fee_usd(&mut config, 0);
    assert!(res.is_err());
    assert_eq!(config, before);
}

#[test]
fn mint_config_positive_test() {
    let payer = Address::new([1u8; 32]);
    let treasury = Address::new([2u8; 32]);
    let (oracle_pda, _oracle) = priced_oracle(payer, 120_000_000);
    let minter_program_id = program(MINTER_PROGRAM);
    let (config_pda, mint_config_bump, data) =
        create_config(payer, treasury, 5_000_000, &oracle_pda).unwrap();

    // Mint config set new fee
    let new_fee_usd: u64 = 10;
    let mut config = decode_minter_config(&data).unwrap();
    let accounts = SetFeeUsd { config: addr(&config_pda), admin: payer, admin_is_signer: true };
    accounts.validate(&config, &addr(&minter_program_id)).unwrap();
    set_fee_usd(&mut config, new_fee_usd).unwrap();
    let data = encode_minter_config(&config);
    let minter_config = decode_minter_config(&data).unwrap();

    assert_eq!(minter_config.mint_fee_usd, new_fee_usd);
    assert_eq!(minter_config.treasury, treasury);
    assert_eq!(minter_config.admin, payer);
    assert_eq!(minter_config.oracle_program, addr(&program(ORACLE_PROGRAM)));
    assert_eq!(minter_config.oracle_state, addr(&oracle_pda));
    assert_eq!(minter_config.bump, mint_config_bump);

    // Mint config set new treasury
    let new_treasury = Address::new([8u8; 32]);
    let mut config = minter_config;
    let accounts = SetTreasury { config: addr(&config_pda), admin: payer, admin_is_signer: true };
    accounts.validate(&config, SeedScheme::SeedOnly, &addr(&minter_program_id)).unwrap();
    set_treasury(&mut config, new_treasury);
    let data = encode_minter_config(&config);
    let minter_config = decode_minter_config(&data).unwrap();

    assert_eq!(minter_config.treasury, new_treasury);
    assert_eq!(minter_config.mint_fee_usd, new_fee_usd);
    assert_eq!(minter_config.admin, payer);
    assert_eq!(minter_config.oracle_program, addr(&program(ORACLE_PROGRAM)));
    assert_eq!(minter_config.oracle_state, addr(&oracle_pda));
    assert_eq!(minter_config.bump, mint_config_bump);
}

/// Setup shared by the token creation scenarios: oracle priced at 100, fee 1000.
fn minting_setup() -> (MinterConfig, Pubkey, OracleState, Address) {
    let payer = Address::new([1u8; 32]);
    let treasury = Address::new([2u8; 32]);
    let (oracle_pda, oracle) = priced_oracle(payer, 100);
    let (_pda, _bump, data) = create_config(payer, treasury, 1000, &oracle_pda).unwrap();
    (decode_minter_config(&data).unwrap(), oracle_pda, oracle, payer)
}

#[test]
fn minter_negative_test_minter_positive() {
    let (config, oracle_pda, oracle_state, payer) = minting_setup();
    let mint = Address::new([6u8; 32]);
    let oracle_program = addr(&program(ORACLE_PROGRAM));
    let _initial_supply: u64 = calc_amount_raw(MINT_INITIAL_SUPPLY, oracle_state.decimals).unwrap();

    // 4. Rejects mint creation if supply is zero
    let res = mint_token(&config, &addr(&oracle_pda), &oracle_program, &oracle_state, payer, mint, PRICE_DECIMALS, 0, 0);
    assert!(res.is_err());
    assert_eq!(res, Err(MinterError::InvalidSupply));

    // 5. Rejects mint when decimals exceed allowed range
    let res = mint_token(&config, &addr(&oracle_pda), &oracle_program, &oracle_state, payer, mint, 10, 0, 0);
    assert!(res.is_err());
    let res = mint_token(&config, &addr(&oracle_pda), &oracle_program, &oracle_state, payer, mint, 10, 5, 0);
    assert_eq!(res, Err(MinterError::InvalidDecimals));
}

#[test]
fn minter_positive_test_minter_positive() {
    let (config, oracle_pda, oracle_state, payer) = minting_setup();
    let mint = Address::new([6u8; 32]);
    let oracle_program = addr(&program(ORACLE_PROGRAM));
    let initial_supply: u64 = calc_amount_raw(MINT_INITIAL_SUPPLY, oracle_state.decimals).unwrap();

    let created = mint_token(
        &config, &addr(&oracle_pda), &oracle_program, &oracle_state, payer, mint,
        PRICE_DECIMALS, initial_supply, 0,
    )
    .unwrap();

    let plan = created;
    let created = plan.record;
    let transfer_amount = created.fee_lamports;
    assert_eq!(transfer_amount, compute_fee_lamports(1000, oracle_state.price).unwrap());
    assert_eq!(plan.treasury, config.treasury);
    assert_eq!(plan.mint_authority, payer);
    assert_eq!(plan.freeze_authority, payer);
    assert_eq!(created.initial_supply, calc_amount_raw(MINT_INITIAL_SUPPLY, oracle_state.decimals).unwrap());
    assert_eq!(created.decimals, oracle_state.decimals);
    assert_eq!(created.creator, payer);
    assert_eq!(created.mint, mint);
    assert_eq!(plan.supply_owner, payer);
    assert_eq!(created.initial_supply, initial_supply);
    assert_eq!(created.sol_usd_price, 100);
    assert_eq!(transfer_amount, 10_000_000_000);
}

#[test]
fn mint_checks_the_configured_oracle() {
    let (config, oracle_pda, oracle_state, payer) = minting_setup();
    let mint = Address::new([6u8; 32]);
    let oracle_program = addr(&program(ORACLE_PROGRAM));
    let other = Address::new([0xAB; 32]);
    assert_eq!(
        mint_token(&config, &other, &oracle_program, &oracle_state, payer, mint, 6, 1, 0),
        Err(MinterError::InvalidOracleState)
    );
    assert_eq!(
        mint_token(&config, &addr(&oracle_pda), &other, &oracle_state, payer, mint, 6, 1, 0),
        Err(MinterError::InvalidOracleProgram)
    );
    let mut odd = oracle_state;
    odd.decimals = 8;
    assert_eq!(
        mint_token(&config, &addr(&oracle_pda), &oracle_program, &odd, payer, mint, 6, 1, 0),
        Err(MinterError::OracleDecimalsMismatch)
    );
    let mut unpriced = oracle_state;
    unpriced.price = 0;
    assert_eq!(
        mint_token(&config, &addr(&oracle_pda), &oracle_program, &unpriced, payer, mint, 6, 1, 0),
        Err(MinterError::OraclePriceZero)
    );
    let mut pricey = config;
    pricey.mint_fee_usd = u64::MAX;
    let mut cheap = oracle_state;
    cheap.price = 1;
    assert_eq!(
        mint_token(&pricey, &addr(&oracle_pda), &oracle_program, &cheap, payer, mint, 6, 1, 0),
        Err(MinterError::MathOverflow)
    );
    // Nine places is the most allowed.
    assert!(mint_token(&config, &addr(&oracle_pda), &oracle_program, &oracle_state, payer, mint, 9, 1, 0).is_ok());
}

#[test]
fn only_admin_may_change_settings() {
    let (config, _oracle_pda, _oracle_state, payer) = minting_setup();
    let minter_program_id = program(MINTER_PROGRAM);
    let (config_pda, _bump) = Pubkey::find_program_address(&[MINTER_SEED.as_bytes()], &minter_program_id);
    let intruder = Address::new([0x55; 32]);
    let accounts = SetTreasury { config: addr(&config_pda), admin: intruder, admin_is_signer: true };
    assert_eq!(accounts.validate(&config, SeedScheme::SeedOnly, &addr(&minter_program_id)), Err(ConstraintError::HasOne));
    let accounts = SetFeeUsd { config: addr(&config_pda), admin: payer, admin_is_signer: false };
    assert_eq!(accounts.validate(&config, &addr(&minter_program_id)), Err(ConstraintError::AccountNotSigner));
    let accounts = SetFeeUsd { config: intruder, admin: payer, admin_is_signer: true };
    assert_eq!(accounts.validate(&config, &addr(&minter_program_id)), Err(ConstraintError::Seeds));
}

#[test]
fn settings_changes_touch_one_field() {
    let (config, _oracle_pda, _oracle_state, _payer) = minting_setup();
    let mut c = config;
    set_fee_usd(&mut c, 42).unwrap();
    assert_eq!(c, MinterConfig { mint_fee_usd: 42, ..config });
    let mut c = config;
    set_treasury(&mut c, Address::new([0x11; 32]));
    assert_eq!(c, MinterConfig { treasury: Address::new([0x11; 32]), ..config });
}

#[test]
fn minter_error_codes_and_messages() {
    assert_eq!(MinterError::InvalidFeeUsd.code(), 6000);
    assert_eq!(MinterError::MathOverflow.code(), 6003);
    assert_eq!(MinterError::MetadataCpiFailed.code(), 6011);
    assert_eq!(MinterError::OracleDecimalsMismatch.message(), "Oracle decimals mismatch expected 6");
    assert_eq!(MinterError::InvalidSupply.message(), "Invalid supply value");
}

#[test]
fn config_cannot_be_created_twice() {
    let payer = Address::new([1u8; 32]);
    let minter_program_id = program(MINTER_PROGRAM);
    let (config_pda, _bump) = Pubkey::find_program_address(&[MINTER_SEED.as_bytes()], &minter_program_id);
    let taken = AccountInfo { lamports: 2_000_000, data_len: 145, owner: addr(&minter_program_id) };
    for signer in [payer, Address::new([0x77; 32])] {
        let again = InitializeMinter { config: addr(&config_pda), admin: signer, admin_is_signer: true };
        assert_eq!(again.validate(&taken, &addr(&minter_program_id)), Err(ConstraintError::AccountAlreadyInUse));
    }
}

#[test]
fn treasury_change_under_admin_scheme() {
    let (config, _oracle_pda, _oracle_state, payer) = minting_setup();
    let minter_program_id = program(MINTER_PROGRAM);
    // With the admin's key among the seeds, the single-seed configuration address is refused.
    let (single, _b) = Pubkey::find_program_address(&[MINTER_SEED.as_bytes()], &minter_program_id);
    let accounts = SetTreasury { config: addr(&single), admin: payer, admin_is_signer: true };
    assert_eq!(
        accounts.validate(&config, SeedScheme::SeedAndAdmin, &addr(&minter_program_id)),
        Err(ConstraintError::Seeds)
    );
    let bumped = MinterConfig { bump: Pubkey::find_program_address(&[MINTER_SEED.as_bytes(), &payer.to_bytes()], &minter_program_id).1, ..config };
    let (with_admin, _b) = Pubkey::find_program_address(&[MINTER_SEED.as_bytes(), &payer.to_bytes()], &minter_program_id);
    let accounts = SetTreasury { config: addr(&with_admin), admin: payer, admin_is_signer: true };
    assert_eq!(accounts.validate(&bumped, SeedScheme::SeedAndAdmin, &addr(&minter_program_id)), Ok(()));
}
