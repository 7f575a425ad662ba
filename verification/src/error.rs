//! The failures that the client core reports to its caller.
use vstd::prelude::*;

verus! {

/// Why an inbound text was not accepted as a message.
#[derive(Clone, Copy, Debug, PartialEq, Eq, Structural)]
pub enum MalformedEnvelope {
    /// The text is no JSON, or the JSON lacks the shape of an envelope.
    InvalidForm,
    /// The envelope names a message type that the client does not know.
    UnknownMessageType,
    /// The envelope is sound, but what it carries for its type is not.
    InvalidPayload,
}

/// The outbound queue is full: the text was not queued.
#[derive(Clone, Copy, Debug, PartialEq, Eq, Structural)]
pub struct Backpressure;

} // verus!
