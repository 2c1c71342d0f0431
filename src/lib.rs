//! Offline transaction resolution for a cell-based ledger: mock overrides,
//! dependency resolution into a self-contained snapshot, verifier-facing
//! lookups, a portable text mirror, and the deposit withdrawal arithmetic.
pub mod types;
pub mod dao;
pub mod mock;
pub mod hash;
pub mod group;
pub mod resource;
pub mod laws;
pub mod hex;
pub mod portable;
