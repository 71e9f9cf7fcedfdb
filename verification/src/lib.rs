//! Verified migration operators for a versioned key/value configuration
//! datastore.
//!
//! A datastore snapshot is a [`MigrationData`](datastore::MigrationData): a map
//! from dotted setting names to JSON-like [`Value`](value::Value)s together
//! with per-setting metadata.  When a node moves between OS versions, each
//! version boundary applies one or more migration operators that adapt the
//! snapshot's shape.  Every operator offers a `forward` transformation (used on
//! upgrade) and a `backward` transformation (used on downgrade), both total
//! functions from a snapshot to either a new snapshot or a fatal error.
//!
//! The catalog of reusable operators lives in [`common_migrations`]; the
//! version-specific operators and entry points live under [`settings_migrations`].

use vstd::prelude::*;

pub mod strings;
pub mod value;
pub mod datastore;
pub mod common_migrations;
pub mod settings_migrations;
pub mod files;
pub mod laws;

verus! {

/// The direction in which a single migration run is applied: `Forward` when
/// upgrading to a newer schema version, `Backward` when downgrading.
#[derive(Clone, Copy, PartialEq, Eq, Structural)]
pub enum Direction {
    Forward,
    Backward,
}

} // verus!
