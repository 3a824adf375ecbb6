//! A surface compiler for a JSON-RPC-style service API.
//!
//! The crate turns a declarative description of service methods (name,
//! ordered typed parameters, return type) into two artifacts: a dispatch
//! table whose handlers decode argument payloads and encode results, and a
//! deduplicated, first-encounter-ordered TypeScript client document with one
//! stub per method.

pub mod codec;
pub mod contract;
pub mod descriptor;
pub mod dispatch;
pub mod emit;
pub mod registry;
pub mod resolve;
pub mod surface;
pub mod types;
pub mod host;
pub mod wire;
