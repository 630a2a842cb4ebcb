//! Execution core of a federated query gateway.
//!
//! A query plan decomposes one client request into sub-requests against
//! independent backend services. This crate merges the partial results into a
//! single response tree addressed by structural paths, tolerates partial
//! failure of any subset of services, and produces spec-compliant error
//! reports attributed to the exact path that produced them.

pub mod error;
pub mod executor;
pub mod fetch;
pub mod json;
pub mod merge;
pub mod path;
pub mod plan;
pub mod stream;
