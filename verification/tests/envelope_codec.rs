use yewchat::envelope::{MsgTypes, WebSocketMessage};
use yewchat::error::MalformedEnvelope;
use yewchat::json::Json;

fn envelope(
    message_type: MsgTypes,
    data_array: Option<Vec<&str>>,
    data: Option<&str>,
) -> WebSocketMessage {
    WebSocketMessage {
        message_type,
        data_array: data_array.map(|texts| texts.into_iter().map(String::from).collect()),
        data: data.map(String::from),
    }
}

#[test]
fn tags_are_lower_case_words() {
    assert_eq!(MsgTypes::Users.as_str(), "users");
    assert_eq!(MsgTypes::Register.as_str(), "register");
    assert_eq!(MsgTypes::Message.as_str(), "message");
}

#[test]
fn tags_are_read_exactly() {
    assert_eq!(MsgTypes::from_tag("users"), Some(MsgTypes::Users));
    assert_eq!(MsgTypes::from_tag("register"), Some(MsgTypes::Register));
    assert_eq!(MsgTypes::from_tag("message"), Some(MsgTypes::Message));
    assert_eq!(MsgTypes::from_tag("Users"), None);
    assert_eq!(MsgTypes::from_tag("user"), None);
    assert_eq!(MsgTypes::from_tag(""), None);
}

#[test]
fn encode_writes_the_three_members_in_wire_order() {
    let e = envelope(MsgTypes::Message, None, Some("hello"));
    assert_eq!(
        e.encode(),
        "{\"messageType\":\"message\",\"dataArray\":null,\"data\":\"hello\"}"
    );
}

#[test]
fn encode_writes_a_list_and_null_data() {
    let e = envelope(MsgTypes::Users, Some(vec!["a", "b\"c"]), None);
    assert_eq!(
        e.encode(),
        "{\"messageType\":\"users\",\"dataArray\":[\"a\",\"b\\\"c\"],\"data\":null}"
    );
}

#[test]
fn encode_writes_an_empty_list() {
    let e = envelope(MsgTypes::Register, Some(vec![]), Some(""));
    assert_eq!(
        e.encode(),
        "{\"messageType\":\"register\",\"dataArray\":[],\"data\":\"\"}"
    );
}

#[test]
fn decode_of_encode_is_the_envelope() {
    let cases = vec![
        envelope(MsgTypes::Register, None, Some("{\"name\":\"x\"}")),
        envelope(MsgTypes::Users, Some(vec!["one", "two", ""]), None),
        envelope(MsgTypes::Users, Some(vec![]), None),
        envelope(MsgTypes::Message, None, Some("tab\there \u{1F600} \\ \" \u{0}")),
        envelope(MsgTypes::Message, None, None),
        envelope(MsgTypes::Message, Some(vec!["both"]), Some("fields")),
    ];
    for e in cases {
        assert_eq!(WebSocketMessage::decode(&e.encode()), Ok(e));
    }
}

#[test]
fn decode_reads_members_in_any_order_and_skips_others() {
    let text = " { \"data\" : \"d\", \"extra\": [1, 2], \"messageType\" : \"message\" } ";
    assert_eq!(
        WebSocketMessage::decode(text),
        Ok(envelope(MsgTypes::Message, None, Some("d")))
    );
}

#[test]
fn decode_takes_missing_members_for_null() {
    assert_eq!(
        WebSocketMessage::decode("{\"messageType\":\"users\"}"),
        Ok(envelope(MsgTypes::Users, None, None))
    );
}

#[test]
fn decode_rejects_text_that_is_no_json() {
    assert_eq!(
        WebSocketMessage::decode("not json"),
        Err(MalformedEnvelope::InvalidForm)
    );
    assert_eq!(WebSocketMessage::decode(""), Err(MalformedEnvelope::InvalidForm));
}

#[test]
fn decode_rejects_json_that_is_no_envelope() {
    for text in [
        "null",
        "[]",
        "\"message\"",
        "{}",
        "{\"data\":\"d\"}",
        "{\"messageType\":7}",
        "{\"messageType\":null}",
        "{\"messageType\":\"message\",\"data\":5}",
        "{\"messageType\":\"message\",\"data\":[\"d\"]}",
        "{\"messageType\":\"users\",\"dataArray\":\"a\"}",
        "{\"messageType\":\"users\",\"dataArray\":[\"a\",1]}",
        "{\"messageType\":\"users\",\"dataArray\":[null]}",
    ] {
        assert_eq!(
            WebSocketMessage::decode(text),
            Err(MalformedEnvelope::InvalidForm),
            "{}",
            text
        );
    }
}

#[test]
fn decode_rejects_an_unknown_message_type() {
    assert_eq!(
        WebSocketMessage::decode("{\"messageType\":\"ping\",\"dataArray\":null,\"data\":null}"),
        Err(MalformedEnvelope::UnknownMessageType)
    );
    assert_eq!(
        WebSocketMessage::decode("{\"messageType\":\"Message\",\"data\":\"d\"}"),
        Err(MalformedEnvelope::UnknownMessageType)
    );
}

#[test]
fn unknown_type_is_reported_before_a_bad_member() {
    assert_eq!(
        WebSocketMessage::decode("{\"messageType\":\"ping\",\"data\":5}"),
        Err(MalformedEnvelope::UnknownMessageType)
    );
}

#[test]
fn to_json_and_from_json_agree() {
    let e = envelope(MsgTypes::Users, Some(vec!["p"]), None);
    let doc = e.to_json();
    assert_eq!(
        doc,
        Json::Object(vec![
            ("messageType".to_string(), Json::Text("users".to_string())),
            (
                "dataArray".to_string(),
                Json::List(vec![Json::Text("p".to_string())])
            ),
            ("data".to_string(), Json::Null),
        ])
    );
    assert_eq!(WebSocketMessage::from_json(&doc), Ok(e));
}

#[test]
fn from_json_takes_the_first_of_a_repeated_key() {
    let doc = Json::Object(vec![
        ("messageType".to_string(), Json::Text("message".to_string())),
        ("data".to_string(), Json::Text("first".to_string())),
        ("data".to_string(), Json::Text("second".to_string())),
    ]);
    assert_eq!(
        WebSocketMessage::from_json(&doc),
        Ok(envelope(MsgTypes::Message, None, Some("first")))
    );
}
