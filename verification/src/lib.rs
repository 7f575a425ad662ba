//! The core of a chat client: the wire envelope, the outbound queue and the
//! inbound frame rules of the connection, the dispatch bus, and the session
//! that folds what the server sends into a roster and a message log.
pub mod chat;
pub mod envelope;
pub mod error;
pub mod event_bus;
pub mod json;
pub mod message;
pub mod profile;
pub mod queue;
pub mod text;
pub mod websocket;
