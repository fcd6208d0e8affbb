//! A small accounting engine: per-client ledgers driven by an ordered stream
//! of deposits, withdrawals, disputes, resolves and chargebacks.
//!
//! Money is held as fixed-point integers in ten-thousandths of a unit.
pub mod client;
pub mod disputed;
pub mod transaction;

pub use client::{Client, ClientView, LedgerError};
pub use transaction::{Transaction, TransactionEnum};
pub mod process;
pub use process::{ProcessTransactionsTask, Snapshot};
pub mod record;
pub use record::RecordError;
pub mod laws;
