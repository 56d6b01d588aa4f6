//! Core of an Office 365 Management API audit-log collector: discovery of
//! paginated content blob references, blob fetching with retry budgets and
//! throttle backoff, exact in-flight accounting for termination, record
//! filtering and batching, and the compute parts of the output sinks.
//!
//! All network and file I/O lives outside this crate; the functions here make
//! every decision of the pipeline from plain values handed in by the driver.

pub mod api_connection;
pub mod collector;
pub mod config;
pub mod coordinator;
pub mod data_structures;
pub mod interfaces;
pub mod known_blobs;
pub mod records;
pub mod retry_budget;
pub mod text;
pub mod time;
