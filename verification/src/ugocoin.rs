//! The coin ledger: amounts, accounts, transfers and the transaction log.

pub mod account;
pub mod tx;

pub use account::get_central_bank_account;
pub use account::get_user_account;
pub use account::Ugocoin;
pub use account::UgocoinAccount;
