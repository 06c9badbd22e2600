//! A low-overhead tracing engine: a bounded store of timestamped samples,
//! an exporter to the trace-event JSON format, and a validating adapter for
//! callers that hand over raw text buffers.

pub mod sample;
pub mod trace;
pub mod chrome_trace;
pub mod ffi;
