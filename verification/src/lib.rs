//! An agent for the Stream Processing Offload Protocol: the wire codec, the
//! per-connection protocol rules and the span correlation that bridges the
//! proxy's messages to distributed tracing.

pub mod agent;
pub mod connection;
pub mod frame;
pub mod otel;
pub mod proplists;
pub mod registry;
pub mod render;
