pub mod address;
pub mod error;
pub mod key;
pub mod laws;
pub mod ledger;
pub mod make;
pub mod refund;
pub mod state;
pub mod steps;
pub mod supply;
pub mod table;
pub mod take;

pub use crate::error::EscrowError;
pub use crate::key::Key;
pub use crate::ledger::Ledger;
pub use crate::make::{make, Make};
pub use crate::refund::{refund, Refund};
pub use crate::state::Escrow;
pub use crate::take::{take, Take};
