//! Privileged disk-management engine core.
//!
//! The library holds the verified logic of the engine: device-identifier
//! normalisation, size and UUID grammars, filesystem-type fusion, the
//! filesystem driver table, partition-geometry validation for resize and
//! move, direction-aware block-copy planning, crash-journal records, the
//! line-delimited JSON event stream, property-list metadata extraction,
//! and the preflight rules.  The surrounding binary performs the actual
//! block I/O and runs the external tools; it drives the plans that the
//! functions here produce and feeds their results back in as plain values.

pub mod blockops;
pub mod copyplan;
pub mod device;
pub mod driver;
pub mod events;
pub mod fstype;
pub mod geometry;
pub mod hashing;
pub mod ident;
pub mod journal;
pub mod json;
pub mod meta;
pub mod ops;
pub mod preflight;
pub mod requests;
pub mod size;
pub mod strutil;
