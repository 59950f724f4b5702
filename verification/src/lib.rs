//! An M-of-N multisig wallet: a group of members proposes operations, approves them, and
//! has them executed under the wallet's own identity once enough of them agree.
//!
//! The rules live in [`instructions`] and are reached as whole requests through
//! [`program`]; [`theorems`] states what holds of the requests taken together. [`state`]
//! holds the two persisted entities and the space they need, [`layout`] and [`parse`] their
//! persisted form, [`pda`] the addresses they live at. [`request`] and [`client`] are the
//! requests as a member sends them, [`config`] what a command-line client is configured by.
//! [`clock`] is the one thing the rules ask of the host.
pub mod client;
pub mod clock;
pub mod config;
pub mod error;
pub mod instructions;
pub mod layout;
pub mod parse;
pub mod pda;
pub mod program;
pub mod pubkey;
pub mod request;
pub mod state;
pub mod theorems;
