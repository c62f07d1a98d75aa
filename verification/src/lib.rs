//! The license of a Symbolica process: activation, verification, library unlocks and execution
//! limits.
//!
//! - [`text`], [`encoding`], [`calendar`], [`double`], [`json`]: what keys, tokens and replies are
//!   made of.
//! - [`signature`], [`clock`]: what is asked of the signature library and of the system.
//! - [`signed`], with [`signed_laws`] and [`issued_laws`]: offline and OEM licenses.
//! - [`token`], with [`token_laws`], [`scopes`], [`unlock`]: tokens of libraries and the scopes that they open.
//! - [`activation`], with [`activation_laws`], and [`server`]: who decides on a key, and what the
//!   license server says of it.
//! - [`state`], [`startup`], [`permit`], [`locks`]: the state of the process and what a program
//!   without a license has to do.
//! - [`manager`], with [`manager_laws`] and [`process_laws`]: all of it together.
//!
//! Nothing here reads the environment, the disk or the network: the caller hands in what was
//! found there, or a function that asks, and does what the results say.

pub mod activation;
pub mod activation_laws;
pub mod calendar;
pub mod clock;
pub mod double;
pub mod encoding;
pub mod issued_laws;
pub mod json;
pub mod locks;
pub mod manager;
pub mod manager_laws;
pub mod messages;
pub mod permit;
pub mod process_laws;
pub mod scopes;
pub mod server;
pub mod signature;
pub mod signed;
pub mod signed_laws;
pub mod startup;
pub mod state;
pub mod text;
pub mod token;
pub mod token_laws;
pub mod unlock;
