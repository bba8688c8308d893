//! Verified core of an NFT manager that sits behind a token transfer hook.
//!
//! The library decides, from plain values, what the on-chain program does:
//! which asset slot a transfer or a mint uses, the signer seeds of every
//! program-derived account, the extra-account-meta list that the transfer
//! hook publishes, and how many times the hook repeats its work.
//! Performing the cross-program invocations is left to the caller.

mod address;
pub mod seeds;
pub mod hook;
pub mod laws;
pub mod manager;
pub mod meta_list;
pub mod program_ids;

pub use address::Address;
