//! Clipboard sharing: change detection, peer discovery and delivery planning.
//!
//! The library holds the decisions of a clipboard-sharing agent: how a
//! clipboard snapshot is fingerprinted, which peers are known and fresh, how a
//! discovery message becomes a registry entry, and which peers a tick of the
//! delivery loop sends to.  Sockets, processes, clocks and HTTP stay with the
//! caller, which hands the library plain values.

pub mod api;
pub mod clipboard;
pub mod config;
pub mod delivery;
pub mod discovery;
pub mod fingerprint;
pub mod registry;
pub mod text;
