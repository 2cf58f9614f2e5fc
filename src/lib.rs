//! Typed bindings for an HTTP/JSON RPC-style API: endpoint descriptors, the
//! marshalling of parameter bags into wire form, and the decoding of response
//! envelopes into typed results or structured errors.
pub mod dispatch;
pub mod endpoint;
pub mod envelope;
pub mod json;
pub mod marshal;
pub mod scopes;
pub mod text;
pub mod types;
pub mod values;
