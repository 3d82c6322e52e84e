//! Tool advertisement and dispatch for a client of a remote language-model
//! inference service, together with the value types that shape a request:
//! a response-format directive and a keep-alive directive.
//!
//! A caller registers named, described, schema-bearing capabilities in a
//! [`tools::Registry`], advertises them through [`tools::Registry::enumerate`],
//! and routes an incoming call-by-name request to the matching capability with
//! [`tools::Registry::dispatch`]. Schema documents are modelled as plain
//! [`json::JsonValue`] trees; the projector in [`schema`] inlines every
//! reference-indirection node and renames the definitions container to the
//! key the remote service expects.

pub mod images;
pub mod json;
pub mod parameters;
pub mod schema;
pub mod tools;
