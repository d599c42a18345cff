//! An in-memory registry of "parasitic" agent records.
//!
//! The registry owns a growing collection of agent records, each with a
//! unique identifier, caller-supplied descriptive fields, and a one-way
//! lifecycle status (`Active` to `Deactivated`). It offers four operations:
//! create, get, list, and deactivate, each with a full functional contract.

pub mod laws;
pub mod parasite;
