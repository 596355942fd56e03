//! Core engine of a terminal chat client for a line-based messaging
//! protocol: the in-memory session state (named buffers of messages),
//! the per-buffer routing and echo-reconciliation logic, the modal
//! input/command state machine, the scripting-bridge handler registry,
//! and the style-resolution engine that flattens nested, style-annotated
//! content trees into renderable spans.
//!
//! Everything here works on plain owned values; the wire protocol, the
//! terminal backend and the scripting runtime live outside and hand the
//! engine already-parsed data.

pub mod bridge;
pub mod config;
pub mod input;
pub mod laws;
pub mod message;
pub mod render;
pub mod state;
pub mod style;
pub mod text;
