//! A mass-payout escrow ledger: an administrator records what each recipient
//! is owed, anyone may fund the escrow, and one batched payout disburses the
//! recorded entitlements to every recipient.
//!
//! The contract decides; it moves no funds itself. `deposit` and `payout`
//! answer with instructions for the asset ledger that holds the escrow, and
//! the host that runs the contract carries them out.

pub mod address;
pub mod contract;
pub mod error;
pub mod fixture;
pub mod laws;
pub mod ledger;
pub mod registry;

pub use address::Address;
pub use contract::{MassPayoutContract, MassPayoutContractTrait, get_recipients, is_admin};
pub use error::Error;
pub use fixture::{TestData, create_test_basic_data};
pub use ledger::{Deposit, State, Transfer};
pub use registry::Recipient;
