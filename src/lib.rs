//! A fungible-token ledger: a fixed supply of indivisible units spread over
//! accounts, with allowances that let one account spend on behalf of another.
//! Every operation is verified to keep the sum of all balances equal to the
//! total supply.
pub mod account;
pub mod table;
pub mod erc20;

pub use account::{AccountId, KeyEq};
pub use erc20::{Approval, Erc20, Error, Event, Transfer};
