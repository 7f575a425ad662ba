//! Chat messages as the server relays them.
//!
//! A message travels as a JSON object with the members `from` and
//! `message`, each a string.
use vstd::prelude::*;
use crate::json::{json_parse, Json, JsonView};

verus! {

/// One line of the conversation: who wrote it, and what.
#[derive(Clone, Debug, PartialEq, Eq)]
pub struct MessageData {
    from: String,
    message: String,
}

/// The mathematical value of a [`MessageData`].
pub struct MessageView {
    pub from: Seq<char>,
    pub message: Seq<char>,
}

impl View for MessageData {
    type V = MessageView;

    closed spec fn view(&self) -> MessageView {
        MessageView { from: self.from@, message: self.message@ }
    }
}

/// Whether `text` ends in `suffix`.
pub open spec fn ends_with(text: Seq<char>, suffix: Seq<char>) -> bool {
    text.len() >= suffix.len() && text.subrange(text.len() - suffix.len(), text.len() as int)
        == suffix
}

impl MessageView {
    /// A message whose text ends in `.gif` stands for an image.
    pub open spec fn is_image(self) -> bool {
        ends_with(self.message, ".gif"@)
    }
}

/// The message that a JSON document stands for: an object whose `from` and
/// `message` are strings. Other members are ignored.
pub open spec fn document_message(doc: JsonView) -> Option<MessageView> {
    match (doc.member("from"@), doc.member("message"@)) {
        (Some(JsonView::Text(from)), Some(JsonView::Text(message))) => Some(
            MessageView { from, message },
        ),
        _ => None,
    }
}

/// The message that a text is received as.
pub open spec fn text_message(text: Seq<char>) -> Option<MessageView> {
    match json_parse(text) {
        Some(doc) => document_message(doc),
        None => None,
    }
}

impl MessageData {
    /// A message from `from` that says `message`.
    pub fn new(from: String, message: String) -> (m: MessageData)
        ensures
            m@ == (MessageView { from: from@, message: message@ }),
    {
        MessageData { from, message }
    }

    /// The message that a JSON document stands for.
    pub fn from_json(doc: &Json) -> (r: Option<MessageData>)
        ensures
            match r {
                Some(m) => document_message(doc@) == Some(m@),
                None => document_message(doc@) is None,
            },
    {
        let from = match doc.member("from") {
            Some(Json::Text(from)) => from.clone(),
            _ => return None,
        };
        let message = match doc.member("message") {
            Some(Json::Text(message)) => message.clone(),
            _ => return None,
        };
        Some(MessageData { from, message })
    }

    /// Reads a message from JSON text.
    pub fn decode(text: &str) -> (r: Option<MessageData>)
        ensures
            match r {
                Some(m) => text_message(text@) == Some(m@),
                None => text_message(text@) is None,
            },
    {
        match Json::parse(text) {
            Some(doc) => MessageData::from_json(&doc),
            None => None,
        }
    }

    /// Whether the message is to be shown as an image.
    pub fn is_image(&self) -> (r: bool)
        ensures
            r == self@.is_image(),
    {
        let text = self.message.as_str();
        let n = text.unicode_len();
        proof {
            reveal_strlit(".gif");
        }
        if n < 4 {
            return false;
        }
        let tail = text.substring_char(n - 4, n);
        tail.to_owned() == ".gif".to_owned()
    }

    /// Who wrote the message.
    pub fn sender(&self) -> (from: &String)
        ensures
            from@ == self@.from,
    {
        &self.from
    }

    /// What the message says.
    pub fn message(&self) -> (message: &String)
        ensures
            message@ == self@.message,
    {
        &self.message
    }
}

} // verus!
