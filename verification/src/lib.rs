//! The Dutch-auction component of a replicated, deterministic chain, and a
//! few of its neighbours.
//!
//! [`auction`] is the heart of the crate: the price model, the trigger
//! scheduler, the record store, the life of an auction with the
//! sequence-number guard that protects it, and the engine that moves them
//! together. The exchange, the commitment scheme and the shielded pool stay
//! outside: the engine says what is to be done there and is told the
//! outcome.
//!
//! Around it stand the plain data it is built on ([`num`], [`asset`],
//! [`dex`]), governance proposals in their three forms ([`governance`]),
//! swap ciphertexts ([`dex::swap`]), queued delegation changes ([`stake`]),
//! the block log of a node proxy ([`proxy`]) and the names of the query
//! service ([`rpc`]).
//!
//! Three outside crates do work that is assumed, not proved, here: the
//! hash and the cipher in [`symmetric`], and base64 in [`radix64`].

pub mod asset;
pub mod auction;
pub mod bytes32;
pub mod dex;
pub mod encoding;
pub mod governance;
pub mod keys;
pub mod note;
pub mod num;
pub mod proxy;
pub mod radix64;
pub mod rpc;
pub mod stake;
pub mod symmetric;
pub mod text;
