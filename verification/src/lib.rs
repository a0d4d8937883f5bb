//! SayHi: a card-exchange service. Users create card templates and cards
//! (optionally carrying a red-packet amount), other users scan cards, and
//! every accepted scan links sender and receiver as mutual contacts.
//!
//! The service state, its operations and their laws are verified here; the
//! caller supplies the call context (signer, block height, random seed) and
//! performs the payouts that a scan asks for.

pub mod model;
pub mod table;
pub mod seed;
pub mod service;
pub mod laws;
pub mod outcomes;
pub mod render;
