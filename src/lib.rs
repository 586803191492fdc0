//! Verified core of a streaming, tool-using chat agent: provider request
//! planning, SSE stream decoding, tool-call extraction, tool dispatch
//! normalisation, a session log, and the agent loop as a state machine.
pub mod text;
pub mod events;
pub mod dispatch;
pub mod agent;
pub mod sse;
pub mod json;
pub mod stream;
pub mod extract;
pub mod memory;
pub mod order;
pub mod session;
pub mod commands;
pub mod provider;
