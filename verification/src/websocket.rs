//! The connection to the chat server, without the socket: the queue of
//! texts that wait to be written, and what becomes of each thing that the
//! socket hands in.
//!
//! The caller owns the socket. It writes what `next_outbound` yields, and
//! asks `route_inbound` what to do with every frame, failure and close that
//! it reads.
use vstd::prelude::*;
use vstd::utf8::{decode_utf8, valid_utf8};
use crate::error::Backpressure;
use crate::queue::{offer, OutboundQueue};

verus! {

/// The address of the chat server.
pub const SERVER_ADDRESS: &'static str = "ws://[::1]:8080";

/// The number of texts that may wait to be written.
pub const OUTBOUND_CAPACITY: usize = 1000;

/// What the socket hands in, one at a time.
#[derive(Debug, PartialEq, Eq)]
pub enum Inbound {
    /// A frame of text.
    Text(String),
    /// A frame of bytes.
    Bytes(Vec<u8>),
    /// Reading failed.
    Failed,
    /// The server closed the connection.
    Closed,
}

/// What to do with something that the socket handed in.
#[derive(Debug, PartialEq, Eq)]
pub enum InboundAction {
    /// Hand the text to the dispatch bus.
    Publish(String),
    /// Drop the frame and read on.
    Discard,
    /// Stop reading.
    Stop,
}

/// Calls `std::str::from_utf8`.
///
/// Trusted: the call succeeds on well-formed UTF-8 and on nothing else, and
/// the text it gives holds the characters that the bytes encode.
#[verifier::external_body]
fn utf8_text(bytes: &[u8]) -> (r: Option<&str>)
    ensures
        match r {
            Some(text) => valid_utf8(bytes@) && text@ == decode_utf8(bytes@),
            None => !valid_utf8(bytes@),
        },
{
    std::str::from_utf8(bytes).ok()
}

/// The connection as the session sees it.
pub struct WebsocketService {
    pub tx: OutboundQueue,
}

impl WebsocketService {
    /// A connection with nothing queued yet.
    pub fn new() -> (wss: WebsocketService)
        ensures
            wss.tx@ == Seq::<Seq<char>>::empty(),
            wss.tx.limit() == OUTBOUND_CAPACITY,
    {
        WebsocketService { tx: OutboundQueue::new(OUTBOUND_CAPACITY) }
    }

    /// Queues `text` to be written, or reports that the queue is full.
    /// A text that is turned away is not kept and not tried again.
    pub fn send(&mut self, text: String) -> (r: Result<(), Backpressure>)
        ensures
            final(self).tx.limit() == old(self).tx.limit(),
            final(self).tx@ == offer(old(self).tx@, old(self).tx.limit(), text@),
            r is Ok <==> old(self).tx@.len() < old(self).tx.limit(),
    {
        self.tx.try_send(text)
    }

    /// The text to write next: the oldest that is queued. A failed write
    /// does not bring it back.
    pub fn next_outbound(&mut self) -> (r: Option<String>)
        ensures
            final(self).tx.limit() == old(self).tx.limit(),
            match r {
                Some(text) => old(self).tx@.len() > 0 && text@ == old(self).tx@[0]
                    && final(self).tx@ == old(self).tx@.drop_first(),
                None => old(self).tx@.len() == 0 && final(self).tx@ == old(self).tx@,
            },
    {
        self.tx.pop()
    }

    /// What to do with something that the socket handed in.
    ///
    /// Text is published as it came. Bytes are published as the text they
    /// encode, and dropped without a word where they encode none. A failure
    /// and a close both end the reading.
    pub fn route_inbound(event: Inbound) -> (action: InboundAction)
        ensures
            match event {
                Inbound::Text(text) => action == InboundAction::Publish(text),
                Inbound::Bytes(bytes) => if valid_utf8(bytes@) {
                    action matches InboundAction::Publish(text) && text@ == decode_utf8(bytes@)
                } else {
                    action is Discard
                },
                Inbound::Failed => action is Stop,
                Inbound::Closed => action is Stop,
            },
    {
        match event {
            Inbound::Text(text) => InboundAction::Publish(text),
            Inbound::Bytes(bytes) => match utf8_text(bytes.as_slice()) {
                Some(text) => InboundAction::Publish(text.to_owned()),
                None => InboundAction::Discard,
            },
            Inbound::Failed => InboundAction::Stop,
            Inbound::Closed => InboundAction::Stop,
        }
    }
}

} // verus!
