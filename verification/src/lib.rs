//! Reconciliation engine for system-extension (sysext) overlay images.
//!
//! The engine derives a stable identity for each extension image from the
//! release descriptor embedded in it, keeps a persisted snapshot of the
//! extensions observed as merged, computes the minimal set of merge and
//! unmerge operations that brings the host to a desired set of extensions,
//! and plans their application so that transient kernel resources (loop
//! devices, scratch mounts) are always released.

pub mod apply;
pub mod codec;
pub mod diff;
pub mod errors;
pub mod extract;
pub mod health;
pub mod identity;
pub mod media;
pub mod release;
pub mod scan;
pub mod store;
