//! A streaming-RPC-over-callback bridge.
//!
//! The library mediates between a typed, streaming request/response service
//! and a host that speaks string-encoded JSON and receives results through
//! repeated invocations of a single callback. Handlers are registered under
//! a `(module, method)` identity; one `rpc` call resolves the handler,
//! checks the request body, drives the handler's item sequence to its end,
//! and delivers each item to the host as a JSON envelope: either the item
//! itself, or `{"error": message}` for a failure.

pub mod client;
pub mod envelope;
pub mod handler;
pub mod json;
pub mod registry;
pub mod sink;
pub mod text;

pub use client::{drive, ClientHandle, WasmClient};
pub use envelope::error_envelope;
pub use handler::{Capability, FixedHandler, Handler, Produced};
pub use registry::{Entry, JoinError, Registry};
pub use sink::{FaultySink, RecordingSink, Sink};
