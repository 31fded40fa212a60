use vstd::prelude::*;
use vstd::arithmetic::div_mod::{lemma_fundamental_div_mod, lemma_div_is_ordered,
    lemma_div_is_ordered_by_denominator};
use vstd::arithmetic::mul::lemma_mul_inequality;
use crate::errors::MinterError;

verus! {

/// Lamports in one SOL.
pub const LAMPORTS_PER_SOL_U64: u64 = 1_000_000_000;

/// The exact lamport amount owed for a USD fee at a SOL/USD price, both in
/// the oracle's fixed-point units: `fee * LAMPORTS_PER_SOL / price`, rounded down.
pub open spec fn fee_lamports_exact(mint_fee_usd: u64, price: u64) -> int
    recommends
        price > 0,
{
    (mint_fee_usd as int * LAMPORTS_PER_SOL_U64 as int) / (price as int)
}

/// What `compute_fee_lamports` answers on every input.
pub open spec fn fee_lamports_result(mint_fee_usd: u64, price: u64) -> Result<u64, MinterError> {
    if price == 0 {
        Err(MinterError::OraclePriceZero)
    } else if fee_lamports_exact(mint_fee_usd, price) > u64::MAX as int {
        Err(MinterError::MathOverflow)
    } else {
        Ok(fee_lamports_exact(mint_fee_usd, price) as u64)
    }
}

/// Converts a USD fee into lamports at the given SOL/USD price.
///
/// The result is the largest whole number of lamports whose value at `price`
/// does not exceed the fee.
pub fn compute_fee_lamports(mint_fee_usd: u64, price: u64) -> (r: Result<u64, MinterError>)
    ensures
        r == fee_lamports_result(mint_fee_usd, price),
        r matches Ok(l) ==> l as int * price <= mint_fee_usd as int * LAMPORTS_PER_SOL_U64
            < (l as int + 1) * price,
        price == 0 ==> r == Err::<u64, MinterError>(MinterError::OraclePriceZero),
        price > 0 && (mint_fee_usd as int * 1_000_000_000) / (price as int) <= u64::MAX as int ==> r
            == Ok::<u64, MinterError>(((mint_fee_usd as int * 1_000_000_000) / (price as int)) as u64),
        price > 0 && (mint_fee_usd as int * 1_000_000_000) / (price as int) > u64::MAX as int ==> r
            == Err::<u64, MinterError>(MinterError::MathOverflow),
{
    if !(price > 0) {
        return Err(MinterError::OraclePriceZero);
    }
    let fee = mint_fee_usd as u128;
    let lps = LAMPORTS_PER_SOL_U64 as u128;
    assert(fee * lps <= u128::MAX) by (nonlinear_arith)
        requires fee <= u64::MAX, lps == LAMPORTS_PER_SOL_U64;
    let converted_fee = match fee.checked_mul(lps) {
        Some(v) => v,
        None => return Err(MinterError::MathOverflow),
    };
    let fee_lamports_u128 = match converted_fee.checked_div(price as u128) {
        Some(v) => v,
        None => return Err(MinterError::MathOverflow),
    };
    proof {
        let x = converted_fee as int;
        let p = price as int;
        let q = fee_lamports_u128 as int;
        lemma_fundamental_div_mod(x, p);
        assert(q * p <= x < (q + 1) * p) by (nonlinear_arith)
            requires x == p * q + x % p, 0 <= x % p < p;
    }
    if fee_lamports_u128 > u64::MAX as u128 {
        return Err(MinterError::MathOverflow);
    }
    Ok(fee_lamports_u128 as u64)
}

/// The fee answer, by cases: no price is refused; otherwise the fee is
/// `fee * 10^9 / price` rounded down, computed without intermediate overflow,
/// and refused only when that quotient itself does not fit in a `u64`.
pub proof fn lemma_fee_result_law(mint_fee_usd: u64, price: u64)
    ensures
        price == 0 ==> fee_lamports_result(mint_fee_usd, price) == Err::<u64, MinterError>(
            MinterError::OraclePriceZero,
        ),
        price > 0 && (mint_fee_usd as int * 1_000_000_000) / (price as int) <= u64::MAX as int
            ==> fee_lamports_result(mint_fee_usd, price) == Ok::<u64, MinterError>(
            ((mint_fee_usd as int * 1_000_000_000) / (price as int)) as u64,
        ),
        price > 0 && (mint_fee_usd as int * 1_000_000_000) / (price as int) > u64::MAX as int
            ==> fee_lamports_result(mint_fee_usd, price) == Err::<u64, MinterError>(
            MinterError::MathOverflow,
        ),
{
}

/// A higher USD fee never costs fewer lamports at the same price.
pub proof fn lemma_fee_monotonic_in_fee(fee1: u64, fee2: u64, price: u64)
    requires
        fee1 <= fee2,
        price > 0,
    ensures
        fee_lamports_exact(fee1, price) <= fee_lamports_exact(fee2, price),
{
    lemma_mul_inequality(fee1 as int, fee2 as int, LAMPORTS_PER_SOL_U64 as int);
    lemma_div_is_ordered(
        fee1 as int * LAMPORTS_PER_SOL_U64 as int,
        fee2 as int * LAMPORTS_PER_SOL_U64 as int,
        price as int,
    );
}

/// A higher SOL price never costs more lamports for the same USD fee.
pub proof fn lemma_fee_antitone_in_price(fee: u64, price1: u64, price2: u64)
    requires
        0 < price1 <= price2,
    ensures
        fee_lamports_exact(fee, price2) <= fee_lamports_exact(fee, price1),
{
    assert(fee as int * LAMPORTS_PER_SOL_U64 as int >= 0) by (nonlinear_arith);
    lemma_div_is_ordered_by_denominator(
        fee as int * LAMPORTS_PER_SOL_U64 as int,
        price1 as int,
        price2 as int,
    );
}

} // verus!

verus! {

/// Ten to the power `n`.
pub open spec fn pow10(n: nat) -> nat
    decreases n,
{
    if n == 0 {
        1
    } else {
        10 * pow10((n - 1) as nat)
    }
}

/// Powers of ten grow with the exponent.
pub proof fn lemma_pow10_monotonic(a: nat, b: nat)
    requires
        a <= b,
    ensures
        pow10(a) <= pow10(b),
    decreases b - a,
{
    if a < b {
        lemma_pow10_monotonic(a, (b - 1) as nat);
    }
}

/// Ten to the power `n` is ten times ten to the power `n - 1`, starting from one.
pub proof fn lemma_pow10_steps(n: nat)
    ensures
        pow10(0) == 1,
        n > 0 ==> pow10(n) == 10 * pow10((n - 1) as nat),
{
}

/// Scaling a supply: the answer is `supply * 10^decimals` whenever both the
/// power and the product fit in a `u64`, and `MathOverflow` otherwise.
pub proof fn lemma_amount_raw_law(initial_supply: u64, decimals: u8)
    ensures
        pow10(decimals as nat) <= u64::MAX && initial_supply as nat * pow10(decimals as nat) <= u64::MAX
            ==> amount_raw_result(initial_supply, decimals) == Ok::<u64, MinterError>(
            (initial_supply as nat * pow10(decimals as nat)) as u64,
        ),
        !(pow10(decimals as nat) <= u64::MAX && initial_supply as nat * pow10(decimals as nat)
            <= u64::MAX) ==> amount_raw_result(initial_supply, decimals) == Err::<u64, MinterError>(
            MinterError::MathOverflow,
        ),
{
}

/// What `calc_amount_raw` answers on every input.
pub open spec fn amount_raw_result(initial_supply: u64, decimals: u8) -> Result<u64, MinterError> {
    if pow10(decimals as nat) > u64::MAX as nat {
        Err(MinterError::MathOverflow)
    } else if initial_supply as nat * pow10(decimals as nat) > u64::MAX as nat {
        Err(MinterError::MathOverflow)
    } else {
        Ok((initial_supply as nat * pow10(decimals as nat)) as u64)
    }
}

/// Scales a whole-token supply to base units: `initial_supply * 10^decimals`.
pub fn calc_amount_raw(initial_supply: u64, decimals: u8) -> (r: Result<u64, MinterError>)
    ensures
        r == amount_raw_result(initial_supply, decimals),
        r matches Ok(v) ==> v as nat == initial_supply as nat * pow10(decimals as nat),
        pow10(decimals as nat) <= u64::MAX && initial_supply as nat * pow10(decimals as nat) <= u64::MAX
            ==> r is Ok,
        r is Err ==> r == Err::<u64, MinterError>(MinterError::MathOverflow),
{
    let mut factor: u64 = 1;
    let mut i: u8 = 0;
    while i < decimals
        invariant
            i <= decimals,
            factor as nat == pow10(i as nat),
        decreases decimals - i,
    {
        match factor.checked_mul(10) {
            Some(f) => {
                factor = f;
            },
            None => {
                proof {
                    lemma_pow10_monotonic((i + 1) as nat, decimals as nat);
                }
                return Err(MinterError::MathOverflow);
            },
        }
        i = i + 1;
    }
    match initial_supply.checked_mul(factor) {
        Some(amount) => Ok(amount),
        None => Err(MinterError::MathOverflow),
    }
}

/// Lamports of an airdrop of `sol_multiplier` whole SOL, or `None` where the
/// amount does not fit in a `u64`.
pub fn airdrop_lamports(sol_multiplier: u64) -> (r: Option<u64>)
    ensures
        sol_multiplier as int * LAMPORTS_PER_SOL_U64 as int <= u64::MAX as int ==> r == Some(
            (sol_multiplier * LAMPORTS_PER_SOL_U64) as u64,
        ),
        sol_multiplier as int * LAMPORTS_PER_SOL_U64 as int > u64::MAX as int ==> r is None,
{
    sol_multiplier.checked_mul(LAMPORTS_PER_SOL_U64)
}

} // verus!
