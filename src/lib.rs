//! Account linking and reward reconciliation between a learning platform's
//! profiles and an on-chain registry.
//!
//! - `address`: 20-byte addresses and their checksummed text.
//! - `bio`: finding the address a profile bio embeds, and rewriting a bio to
//!   embed a new one.
//! - `credential`: the account id inside a bearer credential.
//! - `reconcile`: the register, update and reward decisions of a pass.
//! - `session`: the per-conversation linking flow and the session directory.
pub mod address;
pub mod bio;
pub mod credential;
pub mod reconcile;
pub mod session;
