//! Reconciliation of local bank-account records ("rekening") against a remote
//! authoritative source, one organizational unit ("satker") at a time.
//!
//! The crate holds the verified core of the pipeline: record validation and
//! normalization, the merge-on-key store model, the staleness-ordered unit
//! selector, and the per-unit transactional processor with its run loop.
//! Network and database plumbing lives outside, handing the library plain
//! values and events.

pub mod laws;
pub mod models;
pub mod permit_date;
pub mod processor;
pub mod satker;
pub mod store;
pub mod text;
