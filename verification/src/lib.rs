//! Operations control plane for a multi-tenant document platform.
//!
//! The library coordinates per-tenant resources spread across a relational
//! database, a search index, an object-storage bucket, and a secrets store:
//! it provisions tenants, applies schema and index migrations in batches with
//! per-tenant fault isolation, rebuilds search indexes behind a durable
//! snapshot gate, and decommissions tenants in a safe, option-gated order.
//!
//! All decision logic lives here, verified; the binary around it performs the
//! actual backend calls and feeds their outcomes back in as plain events.

use vstd::prelude::*;

pub mod batch;
pub mod config;
pub mod decommission;
pub mod migrate;
pub mod order;
pub mod provision;
pub mod rebuild;
pub mod registry;
pub mod snapshot;
pub mod tenant;

verus! {

/// Kinds of failure surfaced by the control plane.
#[derive(Clone, Copy, Debug, PartialEq, Eq, Structural)]
pub enum ErrorKind {
    /// Transient network or authentication failure; safe to retry.
    ConnectionError,
    /// The caller supplied an invalid specification.
    ValidationError,
    /// The caller supplied a contradictory option set.
    InvalidOptions,
    /// A tenant with the same key already exists.
    DuplicateTenant,
    /// The tenant or migration looked up does not exist.
    NotFound,
}

} // verus!

