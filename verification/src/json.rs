//! JSON documents as plain trees, and their exchange with JSON text.
//!
//! Reading and writing JSON text is the work of `serde_json`. This module
//! holds a document as a tree of plain values, so that everything built on
//! top of it (which members a message must have, which of them may be
//! `null`) is ordinary verified code.
use vstd::prelude::*;

verus! {

/// `serde_json::Value`, carried between the calls into `serde_json`.
#[verifier::external_type_specification]
#[verifier::external_body]
pub struct ExJsonValue(serde_json::Value);

/// `serde_json::Number`, carried inside a document and never looked into.
#[verifier::external_type_specification]
#[verifier::external_body]
pub struct ExJsonNumber(serde_json::Number);

/// A JSON document held as a tree of plain values.
///
/// The members of an object keep the order in which they were written.
#[derive(Debug, PartialEq, Eq)]
pub enum Json {
    Null,
    Bool(bool),
    Number(serde_json::Number),
    Text(String),
    List(Vec<Json>),
    Object(Vec<(String, Json)>),
}

/// The mathematical value of a [`Json`] document.
pub enum JsonView {
    Null,
    Bool(bool),
    Number(serde_json::Number),
    Text(Seq<char>),
    List(Seq<JsonView>),
    Object(Seq<(Seq<char>, JsonView)>),
}

/// The value of a document: texts by their characters, lists and members
/// in their order.
pub open spec fn json_view(j: Json) -> JsonView
    decreases j,
{
    match j {
        Json::Null => JsonView::Null,
        Json::Bool(b) => JsonView::Bool(b),
        Json::Number(n) => JsonView::Number(n),
        Json::Text(s) => JsonView::Text(s@),
        Json::List(items) => JsonView::List(
            Seq::new(
                items.len() as nat,
                |i: int|
                    if 0 <= i < items.len() {
                        json_view(items[i])
                    } else {
                        JsonView::Null
                    },
            ),
        ),
        Json::Object(members) => JsonView::Object(
            Seq::new(
                members.len() as nat,
                |i: int|
                    if 0 <= i < members.len() {
                        (members[i].0@, json_view(members[i].1))
                    } else {
                        (Seq::empty(), JsonView::Null)
                    },
            ),
        ),
    }
}

impl View for Json {
    type V = JsonView;

    open spec fn view(&self) -> JsonView {
        json_view(*self)
    }
}

/// The deepest nesting of lists and objects that `serde_json` reads back.
pub const MAX_NESTING: usize = 127;

/// No two members carry the same key.
pub open spec fn keys_distinct(members: Seq<(Seq<char>, JsonView)>) -> bool {
    forall|i: int, j: int|
        0 <= i < j < members.len() ==> (#[trigger] members[i]).0 != (#[trigger] members[j]).0
}

/// The value of the first member under `key`, if there is one.
pub open spec fn lookup(members: Seq<(Seq<char>, JsonView)>, key: Seq<char>) -> Option<JsonView>
    decreases members.len(),
{
    if members.len() == 0 {
        None
    } else if members[0].0 == key {
        Some(members[0].1)
    } else {
        lookup(members.drop_first(), key)
    }
}

impl JsonView {
    /// Every object in the document has distinct keys.
    pub open spec fn well_formed(self) -> bool
        decreases self,
    {
        match self {
            JsonView::List(items) => forall|i: int|
                0 <= i < items.len() ==> (#[trigger] items[i]).well_formed(),
            JsonView::Object(members) => keys_distinct(members) && forall|i: int|
                0 <= i < members.len() ==> (#[trigger] members[i]).1.well_formed(),
            _ => true,
        }
    }

    /// The document holds no number and nests lists and objects at most
    /// `depth` deep. Such a document, of a depth that the reader accepts, is
    /// read back from its text as it was written.
    pub open spec fn plain(self, depth: nat) -> bool
        decreases self,
    {
        match self {
            JsonView::Number(_) => false,
            JsonView::List(items) => depth > 0 && forall|i: int|
                0 <= i < items.len() ==> (#[trigger] items[i]).plain((depth - 1) as nat),
            JsonView::Object(members) => depth > 0 && forall|i: int|
                0 <= i < members.len() ==> (#[trigger] members[i]).1.plain((depth - 1) as nat),
            _ => true,
        }
    }

    /// The member of an object under `key`; `None` for a missing member and
    /// for a document that is no object.
    pub open spec fn member(self, key: Seq<char>) -> Option<JsonView> {
        match self {
            JsonView::Object(members) => lookup(members, key),
            _ => None,
        }
    }
}

/// The document that a `serde_json::Value` holds.
pub uninterp spec fn json_document(value: serde_json::Value) -> JsonView;

/// The document that `serde_json` reads from `text`; `None` where it
/// rejects the text.
pub uninterp spec fn json_parse(text: Seq<char>) -> Option<JsonView>;

/// The compact JSON text that `serde_json` writes for a document.
pub uninterp spec fn json_text(doc: JsonView) -> Seq<char>;

/// Calls `serde_json::from_str` for a `serde_json::Value`.
///
/// Trusted: the call depends on the text alone, so its outcome is
/// `json_parse` of the text.
#[verifier::external_body]
fn parse_value(text: &str) -> (r: Option<serde_json::Value>)
    ensures
        r matches Some(v) ==> json_parse(text@) == Some(json_document(v)),
        r is None ==> json_parse(text@) is None,
{
    serde_json::from_str::<serde_json::Value>(text).ok()
}

/// Writes a `serde_json::Value` through its `Display` impl, which gives the
/// compact form that `serde_json::to_string` gives.
///
/// Trusted: the text depends on the document alone, and `serde_json` reads
/// its own output back as the same document as long as the document holds
/// no number (a floating-point number may come back changed) and stays
/// within the nesting that the reader accepts.
#[verifier::external_body]
fn render_value(value: &serde_json::Value) -> (s: String)
    ensures
        s@ == json_text(json_document(*value)),
        json_document(*value).well_formed() && json_document(*value).plain(MAX_NESTING as nat)
            ==> json_parse(s@) == Some(json_document(*value)),
{
    value.to_string()
}

/// Takes a `serde_json::Value` apart, variant by variant.
///
/// Trusted: the tree that comes out is the document that the value holds.
#[verifier::external_body]
fn document_of(value: serde_json::Value) -> (j: Json)
    ensures
        j@ == json_document(value),
{
    match value {
        serde_json::Value::Null => Json::Null,
        serde_json::Value::Bool(b) => Json::Bool(b),
        serde_json::Value::Number(n) => Json::Number(n),
        serde_json::Value::String(s) => Json::Text(s),
        serde_json::Value::Array(a) => Json::List(a.into_iter().map(document_of).collect()),
        serde_json::Value::Object(o) => Json::Object(
            o.into_iter().map(|(k, v)| (k, document_of(v))).collect(),
        ),
    }
}

/// Builds the `serde_json::Value` for a document, variant by variant.
///
/// Trusted: the value holds the document it was built from. A
/// `serde_json::Map` keeps one member per key, so this is claimed only of
/// documents whose objects do not repeat a key.
#[verifier::external_body]
fn value_of(j: &Json) -> (value: serde_json::Value)
    ensures
        j@.well_formed() ==> json_document(value) == j@,
{
    match j {
        Json::Null => serde_json::Value::Null,
        Json::Bool(b) => serde_json::Value::Bool(*b),
        Json::Number(n) => serde_json::Value::Number(n.clone()),
        Json::Text(s) => serde_json::Value::String(s.clone()),
        Json::List(a) => serde_json::Value::Array(a.iter().map(value_of).collect()),
        Json::Object(o) => serde_json::Value::Object(
            o.iter().map(|(k, v)| (k.clone(), value_of(v))).collect(),
        ),
    }
}

impl Json {
    /// Reads a document from JSON text.
    pub fn parse(text: &str) -> (r: Option<Json>)
        ensures
            r matches Some(j) ==> json_parse(text@) == Some(j@),
            r is None ==> json_parse(text@) is None,
    {
        match parse_value(text) {
            Some(value) => Some(document_of(value)),
            None => None,
        }
    }

    /// The member of an object under `key`.
    pub fn member(&self, key: &str) -> (r: Option<&Json>)
        ensures
            r matches Some(j) ==> self@.member(key@) == Some(j@),
            r is None ==> self@.member(key@) is None,
    {
        match self {
            Json::Object(members) => {
                let wanted = key.to_owned();
                let ghost all = self@->Object_0;
                assert(all.skip(0) == all);
                let mut i: usize = 0;
                while i < members.len()
                    invariant
                        i <= members.len(),
                        wanted@ == key@,
                        self@ == JsonView::Object(all),
                        all.len() == members.len(),
                        forall|k: int|
                            0 <= k < members.len() ==> all[k] == (
                                (#[trigger] members[k]).0@,
                                members[k].1@,
                            ),
                        lookup(all, key@) == lookup(all.skip(i as int), key@),
                    decreases members.len() - i,
                {
                    proof {
                        let rest = all.skip(i as int);
                        assert(rest[0] == all[i as int]);
                        assert(rest.drop_first() == all.skip(i + 1));
                    }
                    if members[i].0 == wanted {
                        return Some(&members[i].1);
                    }
                    i += 1;
                }
                None
            },
            _ => None,
        }
    }

    /// Writes the document as compact JSON text.
    ///
    /// The text is that of the document as long as no object in it repeats
    /// a key; of such an object only one member per key is written. A
    /// document that is also plain reads back from its text.
    pub fn render(&self) -> (s: String)
        ensures
            self@.well_formed() ==> s@ == json_text(self@),
            self@.well_formed() && self@.plain(MAX_NESTING as nat) ==> json_parse(s@) == Some(
                self@,
            ),
    {
        let value = value_of(self);
        render_value(&value)
    }
}

} // verus!
