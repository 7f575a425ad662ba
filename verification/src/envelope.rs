//! The wire envelope and its JSON form.
//!
//! On the wire an envelope is a JSON object with the members `messageType`,
//! `dataArray` and `data`, in that order. The last two may be `null`.
use vstd::prelude::*;
use crate::error::MalformedEnvelope;
use crate::json::{
    json_parse, json_text, json_view, keys_distinct, lookup, Json, JsonView, MAX_NESTING,
};
use crate::text::text_views;

verus! {

/// The kind of an envelope.
#[derive(Clone, Copy, Debug, PartialEq, Eq, Structural)]
pub enum MsgTypes {
    /// The server tells who is connected: `data_array` holds their profiles.
    Users,
    /// A client announces its user: `data` holds the profile.
    Register,
    /// A chat message: `data` holds it.
    Message,
}

impl MsgTypes {
    /// The tag that stands for the kind on the wire.
    pub open spec fn tag(self) -> Seq<char> {
        match self {
            MsgTypes::Users => "users"@,
            MsgTypes::Register => "register"@,
            MsgTypes::Message => "message"@,
        }
    }

    /// The kind that a tag stands for.
    pub open spec fn of_tag(tag: Seq<char>) -> Option<MsgTypes> {
        if tag == "users"@ {
            Some(MsgTypes::Users)
        } else if tag == "register"@ {
            Some(MsgTypes::Register)
        } else if tag == "message"@ {
            Some(MsgTypes::Message)
        } else {
            None
        }
    }

    /// Each kind is found again from its own tag.
    pub proof fn lemma_tag_round_trip(self)
        ensures
            MsgTypes::of_tag(self.tag()) == Some(self),
    {
        reveal_strlit("users");
        reveal_strlit("register");
        reveal_strlit("message");
        assert("users"@.len() == 5 && "register"@.len() == 8 && "message"@.len() == 7);
    }

    /// The tag that stands for the kind on the wire.
    pub fn as_str(&self) -> (s: &'static str)
        ensures
            s@ == self.tag(),
    {
        match self {
            MsgTypes::Users => "users",
            MsgTypes::Register => "register",
            MsgTypes::Message => "message",
        }
    }

    /// The kind that a tag stands for; `None` for any other text.
    pub fn from_tag(tag: &str) -> (r: Option<MsgTypes>)
        ensures
            r == MsgTypes::of_tag(tag@),
    {
        let tag = tag.to_owned();
        if tag == "users".to_owned() {
            Some(MsgTypes::Users)
        } else if tag == "register".to_owned() {
            Some(MsgTypes::Register)
        } else if tag == "message".to_owned() {
            Some(MsgTypes::Message)
        } else {
            None
        }
    }
}

/// A message as it travels between client and server.
///
/// The kind decides which of `data` and `data_array` carries the payload;
/// the codec keeps both as they are.
#[derive(Clone, Debug, PartialEq, Eq)]
pub struct WebSocketMessage {
    pub message_type: MsgTypes,
    pub data_array: Option<Vec<String>>,
    pub data: Option<String>,
}

/// The mathematical value of a [`WebSocketMessage`].
pub struct EnvelopeView {
    pub message_type: MsgTypes,
    pub data_array: Option<Seq<Seq<char>>>,
    pub data: Option<Seq<char>>,
}

impl View for WebSocketMessage {
    type V = EnvelopeView;

    open spec fn view(&self) -> EnvelopeView {
        EnvelopeView {
            message_type: self.message_type,
            data_array: match self.data_array {
                Some(texts) => Some(text_views(texts@)),
                None => None,
            },
            data: match self.data {
                Some(text) => Some(text@),
                None => None,
            },
        }
    }
}

/// The JSON strings that stand for a list of texts.
pub open spec fn text_items(texts: Seq<Seq<char>>) -> Seq<JsonView> {
    Seq::new(texts.len(), |i: int| JsonView::Text(texts[i]))
}

/// Every item of a list is a JSON string.
pub open spec fn all_text(items: Seq<JsonView>) -> bool {
    forall|i: int| 0 <= i < items.len() ==> (#[trigger] items[i]) is Text
}

/// The texts of a list of JSON strings.
pub open spec fn item_texts(items: Seq<JsonView>) -> Seq<Seq<char>> {
    Seq::new(items.len(), |i: int| items[i]->Text_0)
}

/// The document for a text that may be absent: `null` stands for absence.
pub open spec fn optional_text_document(text: Option<Seq<char>>) -> JsonView {
    match text {
        Some(t) => JsonView::Text(t),
        None => JsonView::Null,
    }
}

/// The document for a list of texts that may be absent.
pub open spec fn optional_texts_document(texts: Option<Seq<Seq<char>>>) -> JsonView {
    match texts {
        Some(t) => JsonView::List(text_items(t)),
        None => JsonView::Null,
    }
}

/// Reads a member that holds a text or nothing. A missing member and `null`
/// both mean nothing; any other document is an error (the outer `None`).
pub open spec fn optional_text_of(member: Option<JsonView>) -> Option<Option<Seq<char>>> {
    match member {
        None => Some(None),
        Some(JsonView::Null) => Some(None),
        Some(JsonView::Text(t)) => Some(Some(t)),
        Some(_) => None,
    }
}

/// Reads a member that holds a list of texts or nothing, in the same way.
pub open spec fn optional_texts_of(member: Option<JsonView>) -> Option<Option<Seq<Seq<char>>>> {
    match member {
        None => Some(None),
        Some(JsonView::Null) => Some(None),
        Some(JsonView::List(items)) => if all_text(items) {
            Some(Some(item_texts(items)))
        } else {
            None
        },
        Some(_) => None,
    }
}

/// The JSON document of an envelope: its three members in wire order.
pub open spec fn envelope_document(e: EnvelopeView) -> JsonView {
    JsonView::Object(
        seq![
            ("messageType"@, JsonView::Text(e.message_type.tag())),
            ("dataArray"@, optional_texts_document(e.data_array)),
            ("data"@, optional_text_document(e.data)),
        ],
    )
}

/// The envelope that a JSON document stands for.
///
/// The document must be an object whose `messageType` is one of the three
/// tags. `dataArray` must be a list of strings, `data` a string; each may be
/// `null` or missing. Other members are ignored.
pub open spec fn document_envelope(doc: JsonView) -> Result<EnvelopeView, MalformedEnvelope> {
    match doc.member("messageType"@) {
        Some(JsonView::Text(tag)) => match MsgTypes::of_tag(tag) {
            Some(message_type) => match (
                optional_texts_of(doc.member("dataArray"@)),
                optional_text_of(doc.member("data"@)),
            ) {
                (Some(data_array), Some(data)) => Ok(
                    EnvelopeView { message_type, data_array, data },
                ),
                _ => Err(MalformedEnvelope::InvalidForm),
            },
            None => Err(MalformedEnvelope::UnknownMessageType),
        },
        _ => Err(MalformedEnvelope::InvalidForm),
    }
}

/// The text that an envelope is sent as.
pub open spec fn envelope_text(e: EnvelopeView) -> Seq<char> {
    json_text(envelope_document(e))
}

/// The envelope that a text is received as.
pub open spec fn text_envelope(text: Seq<char>) -> Result<EnvelopeView, MalformedEnvelope> {
    match json_parse(text) {
        Some(doc) => document_envelope(doc),
        None => Err(MalformedEnvelope::InvalidForm),
    }
}

/// The document of an envelope has distinct keys and is flat enough to be
/// read back from its text.
pub proof fn lemma_envelope_document_plain(e: EnvelopeView)
    ensures
        envelope_document(e).well_formed(),
        envelope_document(e).plain(MAX_NESTING as nat),
{
    reveal_strlit("messageType");
    reveal_strlit("dataArray");
    reveal_strlit("data");
    let doc = envelope_document(e);
    let members = doc->Object_0;
    assert("messageType"@.len() == 11 && "dataArray"@.len() == 9 && "data"@.len() == 4);
    assert(keys_distinct(members));
    assert forall|i: int| 0 <= i < members.len() implies (#[trigger] members[i]).1.well_formed()
        && members[i].1.plain((MAX_NESTING - 1) as nat) by {
        reveal_with_fuel(JsonView::well_formed, 2);
        reveal_with_fuel(JsonView::plain, 2);
    }
}

/// Reading the document of an envelope gives the envelope back.
pub proof fn lemma_document_round_trip(e: EnvelopeView)
    ensures
        document_envelope(envelope_document(e)) == Ok::<EnvelopeView, MalformedEnvelope>(e),
{
    reveal_strlit("messageType");
    reveal_strlit("dataArray");
    reveal_strlit("data");
    assert("messageType"@.len() == 11 && "dataArray"@.len() == 9 && "data"@.len() == 4);
    let doc = envelope_document(e);
    let members = doc->Object_0;
    reveal_with_fuel(lookup, 4);
    assert(members.drop_first()[0] == members[1]);
    assert(members.drop_first().drop_first()[0] == members[2]);
    assert(doc.member("messageType"@) == Some(members[0].1));
    assert(doc.member("dataArray"@) == Some(members[1].1));
    assert(doc.member("data"@) == Some(members[2].1));
    e.message_type.lemma_tag_round_trip();
    match e.data_array {
        Some(texts) => {
            assert(all_text(text_items(texts)));
            assert(item_texts(text_items(texts)) =~= texts);
        },
        None => {},
    }
}

/// The JSON strings for a list of texts.
fn texts_to_json(texts: &Vec<String>) -> (j: Json)
    ensures
        j@ == JsonView::List(text_items(text_views(texts@))),
{
    let mut items: Vec<Json> = Vec::new();
    let mut i: usize = 0;
    while i < texts.len()
        invariant
            i <= texts.len(),
            items.len() == i,
            forall|k: int| 0 <= k < i ==> json_view(#[trigger] items[k]) == JsonView::Text(texts[k]@),
        decreases texts.len() - i,
    {
        items.push(Json::Text(texts[i].clone()));
        i += 1;
    }
    let j = Json::List(items);
    assert(j@->List_0 =~= text_items(text_views(texts@)));
    j
}

/// The texts of a list of JSON strings; `None` where an item is no string.
fn texts_from_json(items: &Vec<Json>) -> (r: Option<Vec<String>>)
    ensures
        match r {
            Some(texts) => all_text(json_view(Json::List(*items))->List_0) && text_views(texts@)
                == item_texts(json_view(Json::List(*items))->List_0),
            None => !all_text(json_view(Json::List(*items))->List_0),
        },
{
    let ghost views = json_view(Json::List(*items))->List_0;
    let mut texts: Vec<String> = Vec::new();
    let mut i: usize = 0;
    while i < items.len()
        invariant
            i <= items.len(),
            texts.len() == i,
            views == json_view(Json::List(*items))->List_0,
            views.len() == items.len(),
            forall|k: int| 0 <= k < items.len() ==> views[k] == json_view(#[trigger] items[k]),
            forall|k: int| 0 <= k < i ==> (#[trigger] views[k]) is Text,
            forall|k: int| 0 <= k < i ==> (#[trigger] texts[k])@ == views[k]->Text_0,
        decreases items.len() - i,
    {
        match &items[i] {
            Json::Text(t) => {
                texts.push(t.clone());
            },
            _ => {
                assert(!(views[i as int] is Text));
                return None;
            },
        }
        i += 1;
    }
    assert(text_views(texts@) =~= item_texts(views));
    Some(texts)
}

impl WebSocketMessage {
    /// The JSON document of the envelope.
    pub fn to_json(&self) -> (j: Json)
        ensures
            j@ == envelope_document(self@),
    {
        let kind = Json::Text(self.message_type.as_str().to_owned());
        let data_array = match &self.data_array {
            Some(texts) => texts_to_json(texts),
            None => Json::Null,
        };
        let data = match &self.data {
            Some(text) => Json::Text(text.clone()),
            None => Json::Null,
        };
        assert(kind@ == JsonView::Text(self.message_type.tag()));
        assert(data_array@ == optional_texts_document(self@.data_array));
        assert(data@ == optional_text_document(self@.data));
        let mut members: Vec<(String, Json)> = Vec::new();
        members.push(("messageType".to_owned(), kind));
        members.push(("dataArray".to_owned(), data_array));
        members.push(("data".to_owned(), data));
        let j = Json::Object(members);
        proof {
            let got = j@->Object_0;
            let want = envelope_document(self@)->Object_0;
            assert(got.len() == 3 && want.len() == 3);
            assert(got[0] == want[0]);
            assert(got[1] == want[1]);
            assert(got[2] == want[2]);
            assert(got =~= want);
        }
        j
    }

    /// The envelope that a JSON document stands for.
    pub fn from_json(doc: &Json) -> (r: Result<WebSocketMessage, MalformedEnvelope>)
        ensures
            match r {
                Ok(e) => document_envelope(doc@) == Ok::<EnvelopeView, MalformedEnvelope>(e@),
                Err(why) => document_envelope(doc@) == Err::<EnvelopeView, MalformedEnvelope>(why),
            },
    {
        let message_type = match doc.member("messageType") {
            Some(Json::Text(tag)) => match MsgTypes::from_tag(tag.as_str()) {
                Some(message_type) => message_type,
                None => return Err(MalformedEnvelope::UnknownMessageType),
            },
            _ => return Err(MalformedEnvelope::InvalidForm),
        };
        let data_array = match doc.member("dataArray") {
            None => None,
            Some(Json::Null) => None,
            Some(Json::List(items)) => match texts_from_json(items) {
                Some(texts) => Some(texts),
                None => return Err(MalformedEnvelope::InvalidForm),
            },
            Some(_) => return Err(MalformedEnvelope::InvalidForm),
        };
        let data = match doc.member("data") {
            None => None,
            Some(Json::Null) => None,
            Some(Json::Text(text)) => Some(text.clone()),
            Some(_) => return Err(MalformedEnvelope::InvalidForm),
        };
        Ok(WebSocketMessage { message_type, data_array, data })
    }

    /// Writes the envelope as the text that goes on the wire.
    ///
    /// The text reads back as the same envelope.
    pub fn encode(&self) -> (text: String)
        ensures
            text@ == envelope_text(self@),
            text_envelope(text@) == Ok::<EnvelopeView, MalformedEnvelope>(self@),
    {
        proof {
            lemma_envelope_document_plain(self@);
            lemma_document_round_trip(self@);
        }
        self.to_json().render()
    }

    /// Reads an envelope from a text that came over the wire.
    pub fn decode(text: &str) -> (r: Result<WebSocketMessage, MalformedEnvelope>)
        ensures
            match r {
                Ok(e) => text_envelope(text@) == Ok::<EnvelopeView, MalformedEnvelope>(e@),
                Err(why) => text_envelope(text@) == Err::<EnvelopeView, MalformedEnvelope>(why),
            },
    {
        match Json::parse(text) {
            Some(doc) => WebSocketMessage::from_json(&doc),
            None => Err(MalformedEnvelope::InvalidForm),
        }
    }
}

} // verus!
