//! Concurrent HTTP request batches: request templates, per-URL request
//! preparation, response classification and batch completion tracking.
pub mod method;
pub mod header;
pub mod request;
pub mod outcome;
pub mod batch;
