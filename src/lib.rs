//! Custody side of a hash-time-locked cross-chain swap: timelock phases,
//! a two-tier deposit ledger, signed maker orders with replay protection and
//! the escrow state machine with its commit / compensate settlement protocol.
//!
//! The host's capabilities stay outside: the caller, the attached deposit and
//! the block time come in as arguments, and transfers come out as plans
//! (`Settlement`, `TokenTransfer`) whose outcome is handed back to the
//! settlement callbacks.

pub mod contract;
pub mod deposit;
pub mod error;
pub mod escrow;
pub mod keyed;
pub mod laws;
pub mod registry;
pub mod signatures;
pub mod timelocks;

pub use contract::{Contract, ContractSnapshot};
pub use deposit::{BalanceEntry, DepositManager};
pub use error::EscrowError;
pub use escrow::{Asset, Escrow, FtMessage, Settlement, TokenTransfer};
pub use registry::KeyRecord;
pub use signatures::{verify_maker_signature, SignedOrder};
pub use timelocks::{TimelockDelays, Timelocks};
