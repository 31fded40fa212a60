use vstd::prelude::*;

verus! {

/// First custom error code of a program; a variant's code is this plus its position.
pub const ERROR_CODE_OFFSET: u32 = 6000;

/// Errors of the price oracle program.
#[derive(Clone, Copy, Debug, PartialEq, Eq)]
pub enum OracleError {
    Unauthorized,
    InvalidPrice,
    StaleOracle,
}

impl OracleError {
    /// The numeric error code reported to clients.
    pub fn code(&self) -> (c: u32)
        ensures
            c == ERROR_CODE_OFFSET + match *self {
                OracleError::Unauthorized => 0int,
                OracleError::InvalidPrice => 1int,
                OracleError::StaleOracle => 2int,
            },
    {
        match self {
            OracleError::Unauthorized => ERROR_CODE_OFFSET,
            OracleError::InvalidPrice => ERROR_CODE_OFFSET + 1,
            OracleError::StaleOracle => ERROR_CODE_OFFSET + 2,
        }
    }

    /// The human-readable message of the error.
    pub fn message(&self) -> (m: &'static str)
        ensures
            m@ == match *self {
                OracleError::Unauthorized => "Only oracle admin may call this instruction"@,
                OracleError::InvalidPrice => "Price must be greater than zero"@,
                OracleError::StaleOracle => "Oracle price is stale"@,
            },
    {
        match self {
            OracleError::Unauthorized => "Only oracle admin may call this instruction",
            OracleError::InvalidPrice => "Price must be greater than zero",
            OracleError::StaleOracle => "Oracle price is stale",
        }
    }
}

/// Errors of the token minter program.
#[derive(Clone, Copy, Debug, PartialEq, Eq)]
pub enum MinterError {
    InvalidFeeUsd,
    Unauthorized,
    OraclePriceZero,
    MathOverflow,
    InvalidSupply,
    InvalidDecimals,
    InvalidOracleState,
    InvalidOracleProgram,
    OracleDecimalsMismatch,
    InvalidMetadataProgram,
    InvalidMetadataPda,
    MetadataCpiFailed,
}

/// Position of a minter error in its enum.
pub open spec fn minter_error_index(e: MinterError) -> int {
    match e {
        MinterError::InvalidFeeUsd => 0,
        MinterError::Unauthorized => 1,
        MinterError::OraclePriceZero => 2,
        MinterError::MathOverflow => 3,
        MinterError::InvalidSupply => 4,
        MinterError::InvalidDecimals => 5,
        MinterError::InvalidOracleState => 6,
        MinterError::InvalidOracleProgram => 7,
        MinterError::OracleDecimalsMismatch => 8,
        MinterError::InvalidMetadataProgram => 9,
        MinterError::InvalidMetadataPda => 10,
        MinterError::MetadataCpiFailed => 11,
    }
}

impl MinterError {
    /// The numeric error code reported to clients.
    pub fn code(&self) -> (c: u32)
        ensures
            c == ERROR_CODE_OFFSET + minter_error_index(*self),
    {
        match self {
            MinterError::InvalidFeeUsd => ERROR_CODE_OFFSET,
            MinterError::Unauthorized => ERROR_CODE_OFFSET + 1,
            MinterError::OraclePriceZero => ERROR_CODE_OFFSET + 2,
            MinterError::MathOverflow => ERROR_CODE_OFFSET + 3,
            MinterError::InvalidSupply => ERROR_CODE_OFFSET + 4,
            MinterError::InvalidDecimals => ERROR_CODE_OFFSET + 5,
            MinterError::InvalidOracleState => ERROR_CODE_OFFSET + 6,
            MinterError::InvalidOracleProgram => ERROR_CODE_OFFSET + 7,
            MinterError::OracleDecimalsMismatch => ERROR_CODE_OFFSET + 8,
            MinterError::InvalidMetadataProgram => ERROR_CODE_OFFSET + 9,
            MinterError::InvalidMetadataPda => ERROR_CODE_OFFSET + 10,
            MinterError::MetadataCpiFailed => ERROR_CODE_OFFSET + 11,
        }
    }

    /// The human-readable message of the error.
    pub fn message(&self) -> (m: &'static str)
        ensures
            m@ == match *self {
                MinterError::InvalidFeeUsd => "Mint fee in USD must be greater than zero"@,
                MinterError::Unauthorized => "Unauthorized admin call"@,
                MinterError::OraclePriceZero => "Oracle price must be greater than zero"@,
                MinterError::MathOverflow => "Math overflow while computing fee"@,
                MinterError::InvalidSupply => "Invalid supply value"@,
                MinterError::InvalidDecimals => "Decimals out of allowed range"@,
                MinterError::InvalidOracleState => "Oracle account does not match config"@,
                MinterError::InvalidOracleProgram => "Oracle program does not match config"@,
                MinterError::OracleDecimalsMismatch => "Oracle decimals mismatch expected 6"@,
                MinterError::InvalidMetadataProgram => "Invalid Metaplex Token Metadata program"@,
                MinterError::InvalidMetadataPda => "Invalid metadata PDA"@,
                MinterError::MetadataCpiFailed => "Metaplex create metadata CPI failed"@,
            },
    {
        match self {
            MinterError::InvalidFeeUsd => "Mint fee in USD must be greater than zero",
            MinterError::Unauthorized => "Unauthorized admin call",
            MinterError::OraclePriceZero => "Oracle price must be greater than zero",
            MinterError::MathOverflow => "Math overflow while computing fee",
            MinterError::InvalidSupply => "Invalid supply value",
            MinterError::InvalidDecimals => "Decimals out of allowed range",
            MinterError::InvalidOracleState => "Oracle account does not match config",
            MinterError::InvalidOracleProgram => "Oracle program does not match config",
            MinterError::OracleDecimalsMismatch => "Oracle decimals mismatch expected 6",
            MinterError::InvalidMetadataProgram => "Invalid Metaplex Token Metadata program",
            MinterError::InvalidMetadataPda => "Invalid metadata PDA",
            MinterError::MetadataCpiFailed => "Metaplex create metadata CPI failed",
        }
    }
}

} // verus!
