//! Command/response protocol engine for a bus of lighting panels: line
//! framing, packet encoding, command interpretation, the master's reply
//! aggregation and the panel's message dispatch.
pub mod hex;
pub mod text;
pub mod protocol;
pub mod packet;
pub mod decode;
pub mod fixed_vec;
pub mod line_breaker;
pub mod reply;
pub mod processor;
pub mod panel;
pub mod config;
pub mod ring_buffer;
