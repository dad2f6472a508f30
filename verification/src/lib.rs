//! Reports on the most recent run of a GitHub Actions workflow: the
//! configuration, URLs and headers for the provider's REST API, the
//! reading of its runs and jobs listings, and the per-step report
//! with wall-clock durations. The surrounding program does the HTTP
//! calls and hands the response bodies in as values.

pub mod client;
pub mod config;
pub mod jobs;
pub mod json;
pub mod numfmt;
pub mod report;
pub mod rfc3339;
pub mod runs;
pub mod schema;
