//! Verified core of a SOL/USD price oracle and a fee-charging token minter.

pub mod address;
pub mod errors;
pub mod fee;
pub mod pda;
pub mod oracle;
pub mod minter;
pub mod codec;
pub mod decimal;
pub mod config;
