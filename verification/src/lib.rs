//! Region-query-to-columnar transcoding for genomic alignment records.
//!
//! Given a reference catalog, a genomic interval and the stream of alignment
//! records that a region query yields, this library validates the region,
//! accumulates the records into typed column builders (with a dictionary
//! encoding for the low-cardinality reference-name column), assembles the
//! columns into a schema-bound batch, and serializes the batch into a
//! self-describing columnar byte stream.

pub mod error;
pub mod record;
pub mod region;
pub mod dict;
pub mod column;
pub mod batch;
pub mod transcode;
pub mod ipc;
pub mod query;
pub mod props;
