use sol_usd_minter::address::Address;
use sol_usd_minter::codec::{decode_oracle_state, encode_oracle_state, load_oracle_state, AccountError};
use sol_usd_minter::errors::OracleError;
use sol_usd_minter::oracle::{
    initialize_oracle, reset_oracle, update_price, use_oracle, InitializeOracle, OracleState,
    UpdatePrice, MAX_STALENESS_SLOTS, ORACLE_SEED, PRICE_DECIMALS,
};
use sol_usd_minter::pda::{AccountInfo, ConstraintError, CreatedAccount, SeedScheme};
use solana_pubkey::Pubkey;

const ORACLE_PRICE: u64 = 100;
const BASE_SLOT: u64 = 1000;

fn addr(p: &Pubkey) -> Address {
    Address::new(p.to_bytes())
}

fn program(id: &str) -> Pubkey {
    id.parse::<Pubkey>().unwrap()
}

/// An account no program has taken yet.
fn fresh_account() -> AccountInfo {
    AccountInfo { lamports: 0, data_len: 0, owner: Address::new([0u8; 32]) }
}

/// The oracle address under a scheme.
fn oracle_address(program_id: &Pubkey, scheme: SeedScheme, payer: &Address) -> (Pubkey, u8) {
    match scheme {
        SeedScheme::SeedOnly => Pubkey::find_program_address(&[ORACLE_SEED.as_bytes()], program_id),
        SeedScheme::SeedAndAdmin => {
            Pubkey::find_program_address(&[ORACLE_SEED.as_bytes(), &payer.to_bytes()], program_id)
        }
    }
}

/// Creates the oracle through its account checks and stores it as account data.
fn create_oracle_with(program_id: &Pubkey, scheme: SeedScheme, payer: Address, slot: u64) -> (Pubkey, u8, Vec<u8>) {
    let (oracle_pda, bump) = oracle_address(program_id, scheme, &payer);
    let accounts = InitializeOracle { oracle: addr(&oracle_pda), admin: payer, admin_is_signer: true };
    let created = accounts.validate(&fresh_account(), scheme, &addr(program_id)).unwrap();
    assert_eq!(created, CreatedAccount { bump, owner: addr(program_id), data_len: 58 });
    let state = initialize_oracle(payer, bump, slot);
    let data = encode_oracle_state(&state);
    assert_eq!(data.len(), created.data_len);
    (oracle_pda, bump, data)
}

fn create_oracle(program_id: &Pubkey, payer: Address, slot: u64) -> (Pubkey, u8, Vec<u8>) {
    create_oracle_with(program_id, SeedScheme::SeedOnly, payer, slot)
}

/// Runs a price update on stored account data, as the program does.
fn run_update_with(
    scheme: SeedScheme,
    program_id: &Pubkey,
    data: &mut Vec<u8>,
    oracle_key: &Pubkey,
    signer: Address,
    new_price: u64,
    slot: u64,
) -> Result<(), String> {
    let mut state = load_oracle_state(data, &addr(program_id), &addr(program_id))
        .map_err(|e| format!("{:?}", e))?;
    let accounts = UpdatePrice { oracle: addr(oracle_key), admin: signer, admin_is_signer: true };
    accounts.validate(&state, scheme, &addr(program_id)).map_err(|e| format!("{:?}", e))?;
    update_price(&mut state, &signer, new_price, slot).map_err(|e| format!("{:?}", e))?;
    *data = encode_oracle_state(&state);
    Ok(())
}

fn run_update(
    program_id: &Pubkey,
    data: &mut Vec<u8>,
    oracle_key: &Pubkey,
    signer: Address,
    new_price: u64,
    slot: u64,
) -> Result<(), String> {
    run_update_with(SeedScheme::SeedOnly, program_id, data, oracle_key, signer, new_price, slot)
}

#[test]
fn test_oracle_positive() {
    let program_id = program("24UJLhNSDEwFrziTkshg6Rt18K7H3RczKXR8fNpQ8xa3");
    let payer = Address::new([7u8; 32]);
    let (oracle_pda, bump, mut data) = create_oracle(&program_id, payer, 0);

    let state = decode_oracle_state(&data).unwrap();
    assert_eq!(state.price, 0);
    assert_eq!(state.admin, payer);
    assert_eq!(state.decimals, PRICE_DECIMALS);
    assert_eq!(state.bump, bump);

    let new_price: u64 = 100;
    run_update(&program_id, &mut data, &oracle_pda, payer, new_price, 0).unwrap();
    let state = decode_oracle_state(&data).unwrap();
    assert_eq!(state.price, new_price);
}

#[test]
fn oracle_positive_test() {
    let program_id = program("2qTPCfB4yVywxyVWbsR4LxmgZSschrBVMre5kfeLRSxv");
    let payer = Address::new([9u8; 32]);
    // This oracle derives its address from the seed and the payer's key.
    let (oracle_pda, bump, mut data) = create_oracle_with(&program_id, SeedScheme::SeedAndAdmin, payer, 0);
    let expected = Pubkey::find_program_address(&[ORACLE_SEED.as_bytes(), &payer.to_bytes()], &program_id);
    assert_eq!((oracle_pda, bump), expected);

    let state = load_oracle_state(&data, &addr(&program_id), &addr(&program_id)).unwrap();
    assert_eq!(state.price, 0);
    assert_eq!(state.admin, payer);
    assert_eq!(state.decimals, PRICE_DECIMALS);
    assert_eq!(state.bump, bump);

    // The account is usable only as owned by the program.
    let other_owner = Address::new([0u8; 32]);
    assert_eq!(
        load_oracle_state(&data, &other_owner, &addr(&program_id)),
        Err(AccountError::AccountOwnedByWrongProgram)
    );

    let new_price: u64 = 100;
    run_update_with(SeedScheme::SeedAndAdmin, &program_id, &mut data, &oracle_pda, payer, new_price, 0).unwrap();
    let state = load_oracle_state(&data, &addr(&program_id), &addr(&program_id)).unwrap();
    assert_eq!(state.price, new_price);
}

#[test]
fn test_oracle_negative() {
    let program_id = program("24UJLhNSDEwFrziTkshg6Rt18K7H3RczKXR8fNpQ8xa3");
    let payer = Address::new([3u8; 32]);
    let fake_payer = Address::new([4u8; 32]);
    let (oracle_pda, bump, mut data) = create_oracle(&program_id, payer, 0);
    let (danger_pda, _bump) =
        Pubkey::find_program_address(&[ORACLE_SEED.as_bytes(), b"danger"], &program_id);

    // 2. Update price
    run_update(&program_id, &mut data, &oracle_pda, payer, ORACLE_PRICE, 0).unwrap();

    // 3. Unauthorized access
    let state = decode_oracle_state(&data).unwrap();
    let accounts = UpdatePrice { oracle: addr(&oracle_pda), admin: fake_payer, admin_is_signer: true };
    assert_eq!(accounts.validate(&state, SeedScheme::SeedOnly, &addr(&program_id)), Err(ConstraintError::HasOne));
    let mut copy = state;
    assert_eq!(update_price(&mut copy, &fake_payer, 100, 0), Err(OracleError::Unauthorized));
    assert_eq!(copy, state);
    assert!(run_update(&program_id, &mut data, &oracle_pda, fake_payer, 100, 0).is_err());

    // 4. Account spoofing
    let accounts = UpdatePrice { oracle: addr(&danger_pda), admin: payer, admin_is_signer: true };
    assert_eq!(accounts.validate(&state, SeedScheme::SeedOnly, &addr(&program_id)), Err(ConstraintError::Seeds));
    assert!(run_update(&program_id, &mut data, &danger_pda, payer, 100, 0).is_err());

    // 4. Fail to set zero price
    let result = run_update(&program_id, &mut data, &oracle_pda, payer, 0, 0);
    assert!(result.is_err());
    let mut copy = state;
    assert_eq!(update_price(&mut copy, &payer, 0, 0), Err(OracleError::InvalidPrice));

    // 5. Use stale oracle
    let clock_slot = BASE_SLOT;
    let mut state = decode_oracle_state(&data).unwrap();
    reset_oracle(&mut state, clock_slot.saturating_sub(MAX_STALENESS_SLOTS));
    data = encode_oracle_state(&state);
    let state = decode_oracle_state(&data).unwrap();
    let result = use_oracle(&state, clock_slot);
    assert!(result.is_err());
    assert_eq!(result, Err(OracleError::StaleOracle));

    // 7. Final state
    let state = decode_oracle_state(&data).unwrap();
    assert_eq!(state.price, ORACLE_PRICE);
    assert_eq!(state.admin, payer);
    assert_eq!(state.decimals, PRICE_DECIMALS);
    assert_eq!(state.bump, bump);
}

#[test]
fn fresh_price_is_usable_until_the_limit() {
    let admin = Address::new([1u8; 32]);
    let mut state = initialize_oracle(admin, 250, 10);
    assert_eq!(update_price(&mut state, &admin, 150_000_000, 500), Ok(()));
    assert_eq!(state.price, 150_000_000);
    assert_eq!(state.last_updated_slot, 500);
    assert_eq!(use_oracle(&state, 500), Ok(()));
    assert_eq!(use_oracle(&state, 500 + MAX_STALENESS_SLOTS - 1), Ok(()));
    assert_eq!(use_oracle(&state, 500 + MAX_STALENESS_SLOTS), Err(OracleError::StaleOracle));
    assert_eq!(use_oracle(&state, 500 + 10 * MAX_STALENESS_SLOTS), Err(OracleError::StaleOracle));
    // A clock behind the recorded slot counts as age zero.
    assert_eq!(use_oracle(&state, 0), Ok(()));
}

#[test]
fn refused_updates_change_nothing() {
    let admin = Address::new([1u8; 32]);
    let state = initialize_oracle(admin, 250, 10);
    let mut s = state;
    assert_eq!(update_price(&mut s, &Address::new([2u8; 32]), 0, 99), Err(OracleError::InvalidPrice));
    assert_eq!(s, state);
    assert_eq!(update_price(&mut s, &Address::new([2u8; 32]), 5, 99), Err(OracleError::Unauthorized));
    assert_eq!(s, state);
}

#[test]
fn unsigned_admin_is_refused() {
    let program_id = program("24UJLhNSDEwFrziTkshg6Rt18K7H3RczKXR8fNpQ8xa3");
    let admin = Address::new([5u8; 32]);
    let (oracle_pda, bump) = Pubkey::find_program_address(&[ORACLE_SEED.as_bytes()], &program_id);
    let init = InitializeOracle { oracle: addr(&oracle_pda), admin, admin_is_signer: false };
    assert_eq!(init.validate(&fresh_account(), SeedScheme::SeedOnly, &addr(&program_id)), Err(ConstraintError::AccountNotSigner));
    let wrong = InitializeOracle { oracle: admin, admin, admin_is_signer: true };
    assert_eq!(wrong.validate(&fresh_account(), SeedScheme::SeedOnly, &addr(&program_id)), Err(ConstraintError::Seeds));
    let state: OracleState = initialize_oracle(admin, bump, 0);
    let upd = UpdatePrice { oracle: addr(&oracle_pda), admin, admin_is_signer: false };
    assert_eq!(upd.validate(&state, SeedScheme::SeedOnly, &addr(&program_id)), Err(ConstraintError::AccountNotSigner));
}

#[test]
fn oracle_error_codes_and_messages() {
    assert_eq!(OracleError::Unauthorized.code(), 6000);
    assert_eq!(OracleError::InvalidPrice.code(), 6001);
    assert_eq!(OracleError::StaleOracle.code(), 6002);
    assert_eq!(OracleError::InvalidPrice.message(), "Price must be greater than zero");
    assert_eq!(OracleError::Unauthorized.message(), "Only oracle admin may call this instruction");
}

#[test]
fn oracle_cannot_be_created_twice() {
    let program_id = program("24UJLhNSDEwFrziTkshg6Rt18K7H3RczKXR8fNpQ8xa3");
    let payer = Address::new([3u8; 32]);
    let (oracle_pda, _bump, data) = create_oracle(&program_id, payer, 0);
    let taken = AccountInfo { lamports: 1_000_000, data_len: data.len(), owner: addr(&program_id) };
    for signer in [payer, Address::new([4u8; 32])] {
        let again = InitializeOracle { oracle: addr(&oracle_pda), admin: signer, admin_is_signer: true };
        assert_eq!(
            again.validate(&taken, SeedScheme::SeedOnly, &addr(&program_id)),
            Err(ConstraintError::AccountAlreadyInUse)
        );
    }
    // Funded but not allocated is still creatable; owned by another program is not.
    let init = InitializeOracle { oracle: addr(&oracle_pda), admin: payer, admin_is_signer: true };
    let funded = AccountInfo { lamports: 5, data_len: 0, owner: Address::new([0u8; 32]) };
    assert!(init.validate(&funded, SeedScheme::SeedOnly, &addr(&program_id)).is_ok());
    let foreign = AccountInfo { lamports: 5, data_len: 0, owner: Address::new([1u8; 32]) };
    assert_eq!(
        init.validate(&foreign, SeedScheme::SeedOnly, &addr(&program_id)),
        Err(ConstraintError::AccountAlreadyInUse)
    );
}
