//! Core of a client for an encrypted, multi-server messaging protocol.
//!
//! A user keeps a registry of named server endpoints and one default key.
//! This crate holds the rules of the exchange: how an index argument selects
//! a server, which request an operation sends, how a reply is read, and how a
//! decrypted bundle pairs each message with its sender. Every function is
//! verified against its contract. Disk access, the network transport and the
//! cipher belong to the caller, which hands their results in as plain values.

pub mod error;
pub mod index;
pub mod registry;
pub mod bundle;
pub mod keystore;
pub mod exchange;
