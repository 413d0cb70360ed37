//! Metadata resolution for registered management-console snap-in components.
//!
//! A component's user-facing metadata is assembled from its configuration
//! entry: direct string values are taken verbatim, indirect string references
//! are parsed and resolved against an external resource library, and an
//! optional capability object supplies further description and iconography.
//! The parsing, the per-field assembly rules and the ownership of duplicated
//! visual resource handles are verified here; the native lookups themselves
//! (configuration store reads, library loads, component activation) are
//! performed by the caller and fed back in as plain values.

pub mod nsi;
pub mod snapin;
