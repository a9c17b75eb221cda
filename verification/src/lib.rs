//! A two-party, two-asset swap escrow.
//!
//! A maker locks a deposit of one asset in a vault that only the escrow can
//! debit and names the amount of a second asset wanted in return. Any taker
//! may later pay that amount to the maker and receive the whole deposit, after
//! which the vault and the offer are gone.
pub mod address;
pub mod bank;
pub mod error;
pub mod escrow;
pub mod laws;
pub mod ledger;
pub mod make_offer;
pub mod pda;
mod table;
pub mod take_offer;
