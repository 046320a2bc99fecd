//! Verified core of a gRPC echo service, its streaming clients, and a
//! WebSocket-to-gRPC bridge.
//!
//! The library holds every decision the service makes: the text of each
//! reply, how streamed messages are numbered and summarised, how a
//! WebSocket connection routes JSON requests to gRPC calls and which
//! failures end it, and the exact JSON text sent back to browsers.
//! Network and clock access stay with the caller, which feeds the
//! results back in as events.
pub mod client;
pub mod json;
pub mod messages;
pub mod server;
pub mod text;
pub mod websocket_bridge;
