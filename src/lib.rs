//! Token metadata collection: URI classification, tolerant metadata
//! normalisation, first-seen column discovery, tabular rows and the
//! enumeration state machine that drives a collection scan.

pub mod text;
pub mod uri;
pub mod metadata;
pub mod export;
pub mod driver;
