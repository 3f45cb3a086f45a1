//! Core of a diagnostic-event simulator: registration with a remote
//! health-diagnostics service, synthetic fault signatures, the JSON wire
//! encoding the service expects, and the dispatch/relay bookkeeping that
//! carries call outcomes back to a display loop.
//!
//! The I/O shell around this library performs the HTTP POSTs and runs the
//! foreground loop; everything the shell does is staged and checked here:
//! endpoint addresses, request bodies, outcome entries, and the once-only
//! registration latch.
pub mod chars;
pub mod time;
pub mod models;
pub mod json;
pub mod builders;
pub mod relay;
pub mod client;
