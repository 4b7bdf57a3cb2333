//! An HTTP load-generation engine: request building, run decisions and
//! latency statistics, with their contracts.
pub mod dsl;
pub mod loader;
pub mod metrics;
pub mod preflight;
pub mod request;
pub mod summary;
pub mod text;
pub mod worker;
