//! A payment-processing engine: it consumes a stream of financial events
//! (deposits, withdrawals, disputes, resolutions, chargebacks), maintains
//! per-client account balances, and drives a per-transaction lifecycle
//! against a pluggable ledger store.

pub mod app;
pub mod engine;
pub mod ledger;
pub mod numfmt;
pub mod sums;
pub mod types;

pub use engine::accounts::ClientAccount;
pub use engine::machine::Engine;
pub use engine::errors;
pub use engine::events::Event;

pub use types::Amount;
pub use types::ClientId;
pub use types::TransactionId;
