use sol_usd_minter::errors::MinterError;
use sol_usd_minter::fee::{airdrop_lamports, calc_amount_raw, compute_fee_lamports, LAMPORTS_PER_SOL_U64};

#[test]
fn fee_at_the_scenario_price() {
    assert_eq!(compute_fee_lamports(1000, 100), Ok(10_000_000_000));
    // 5 USD at 120 USD/SOL: 5/120 SOL, rounded down to lamports.
    assert_eq!(compute_fee_lamports(5_000_000, 120_000_000), Ok(41_666_666));
}

#[test]
fn fee_is_rounded_down() {
    // 1 * 1e9 / 3 = 333_333_333.33..
    assert_eq!(compute_fee_lamports(1, 3), Ok(333_333_333));
    let l = compute_fee_lamports(7, 9).unwrap() as u128;
    assert!(l * 9 <= 7 * 1_000_000_000 && 7 * 1_000_000_000 < (l + 1) * 9);
}

#[test]
fn fee_errors() {
    assert_eq!(compute_fee_lamports(1000, 0), Err(MinterError::OraclePriceZero));
    assert_eq!(compute_fee_lamports(u64::MAX, 1), Err(MinterError::MathOverflow));
    // The largest fee at price 1 that still fits.
    let max_fee = u64::MAX / LAMPORTS_PER_SOL_U64;
    assert_eq!(compute_fee_lamports(max_fee, 1), Ok(max_fee * LAMPORTS_PER_SOL_U64));
    assert_eq!(compute_fee_lamports(max_fee + 1, 1), Err(MinterError::MathOverflow));
}

#[test]
fn fee_monotonicity_on_values() {
    let lo = compute_fee_lamports(1000, 100).unwrap();
    let hi = compute_fee_lamports(2000, 100).unwrap();
    assert!(lo <= hi);
    let cheap_sol = compute_fee_lamports(1000, 50).unwrap();
    let dear_sol = compute_fee_lamports(1000, 200).unwrap();
    assert!(dear_sol <= cheap_sol);
}

#[test]
fn amount_raw_values() {
    assert_eq!(calc_amount_raw(1_000_000, 6), Ok(1_000_000_000_000));
    assert_eq!(calc_amount_raw(7, 0), Ok(7));
    assert_eq!(calc_amount_raw(0, 19), Ok(0));
    assert_eq!(calc_amount_raw(1, 19), Ok(10_000_000_000_000_000_000));
    // 10^20 does not fit, whatever the supply.
    assert_eq!(calc_amount_raw(0, 20), Err(MinterError::MathOverflow));
    assert_eq!(calc_amount_raw(2, 19), Err(MinterError::MathOverflow));
}

#[test]
fn airdrop_amounts() {
    assert_eq!(airdrop_lamports(100), Some(100_000_000_000));
    assert_eq!(airdrop_lamports(1), Some(1_000_000_000));
    assert_eq!(airdrop_lamports(u64::MAX), None);
}
