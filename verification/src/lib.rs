//! Startup and administrative layer of a federated room-based server.
//!
//! The crate covers the startup sequencing of such a server process —
//! configuration, diagnostics, runtime, storage, dispatch, in that strict
//! order — and the one administrative operation it dispatches: removing
//! every local alias that resolves to a given room.

pub mod dispatch;
pub mod ids;
pub mod startup;
pub mod store;
pub mod version;
