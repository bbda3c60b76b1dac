//! An escrow payment ledger indexed by user names.
//!
//! A party registers a user name for its account address, anybody may lock
//! funds addressed to a user name, and the owner of that name later claims the
//! locked funds exactly once.

pub mod contract;
pub mod invariants;
pub mod laws;
pub mod ledger;
pub mod table;
pub mod types;

pub use contract::SimplePaymentContract;
pub use ledger::Ledger;
pub use types::Address;
pub use types::CallContext;
pub use types::Error;
pub use types::Event;
pub use types::Payment;
pub use types::Transfer;
pub use types::TransferOutcome;
pub use types::UserProfile;
