//! Core of a modpack launcher: the manifest-driven synchronisation engine that
//! brings a local installation in line with a remotely declared file set,
//! together with the launcher's directory layout and account selection rules.
//!
//! Nothing in this crate performs I/O. Every operation that touches the disk or
//! the network is described as an action that the caller performs and reports
//! back on.

pub mod account;
pub mod auth;
pub mod hash;
pub mod laws;
pub mod manifest;
pub mod meta;
pub mod minecraft;
pub mod modpack;
pub mod plan;
pub mod progress;
pub mod run;
pub mod session;
pub mod text;
pub mod trace;
pub mod tree;
