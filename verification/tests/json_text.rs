use yewchat::json::Json;

#[test]
fn parse_reads_a_string() {
    assert_eq!(Json::parse("\"hi\""), Some(Json::Text("hi".to_string())));
}

#[test]
fn parse_reads_null_and_booleans() {
    assert_eq!(Json::parse("null"), Some(Json::Null));
    assert_eq!(Json::parse("true"), Some(Json::Bool(true)));
    assert_eq!(Json::parse(" false "), Some(Json::Bool(false)));
}

#[test]
fn parse_reads_escapes() {
    assert_eq!(
        Json::parse("\"a\\\"b\\\\c\\n\\u0041\""),
        Some(Json::Text("a\"b\\c\nA".to_string()))
    );
}

#[test]
fn parse_keeps_members_in_written_order() {
    let doc = Json::parse("{\"b\": [\"x\", null], \"a\": {}}");
    assert_eq!(
        doc,
        Some(Json::Object(vec![
            (
                "b".to_string(),
                Json::List(vec![Json::Text("x".to_string()), Json::Null])
            ),
            ("a".to_string(), Json::Object(vec![])),
        ]))
    );
}

#[test]
fn parse_reads_numbers_as_numbers() {
    assert!(matches!(Json::parse("12"), Some(Json::Number(_))));
    assert!(matches!(Json::parse("-0.5e3"), Some(Json::Number(_))));
}

#[test]
fn parse_rejects_what_is_no_json() {
    assert_eq!(Json::parse(""), None);
    assert_eq!(Json::parse("{"), None);
    assert_eq!(Json::parse("nul"), None);
    assert_eq!(Json::parse("\"a\" \"b\""), None);
    assert_eq!(Json::parse("{\"a\":1,}"), None);
}

#[test]
fn render_writes_the_compact_form() {
    let doc = Json::Object(vec![
        ("k".to_string(), Json::Text("v\"w".to_string())),
        (
            "list".to_string(),
            Json::List(vec![Json::Null, Json::Bool(true), Json::Text("é".to_string())]),
        ),
    ]);
    assert_eq!(doc.render(), "{\"k\":\"v\\\"w\",\"list\":[null,true,\"é\"]}");
}

#[test]
fn render_then_parse_gives_the_document_back() {
    let doc = Json::Object(vec![
        ("z".to_string(), Json::Text("line\nbreak\ttab\u{1}".to_string())),
        ("a".to_string(), Json::List(vec![Json::Text(String::new()), Json::Null])),
        ("m".to_string(), Json::Object(vec![("in".to_string(), Json::Bool(false))])),
    ]);
    assert_eq!(Json::parse(&doc.render()), Some(doc));
}

#[test]
fn member_finds_the_first_of_a_key() {
    let doc = Json::Object(vec![
        ("a".to_string(), Json::Null),
        ("b".to_string(), Json::Text("one".to_string())),
    ]);
    assert_eq!(doc.member("b"), Some(&Json::Text("one".to_string())));
    assert_eq!(doc.member("a"), Some(&Json::Null));
    assert_eq!(doc.member("c"), None);
    assert_eq!(Json::Null.member("a"), None);
    assert_eq!(Json::List(vec![]).member("a"), None);
}

#[test]
fn every_character_reads_back() {
    let mut code = 0u32;
    while code < 0x11_0000 {
        let mut text = String::new();
        for c in (code..code + 0x400).filter_map(char::from_u32) {
            text.push(c);
        }
        let doc = Json::Object(vec![(text.clone(), Json::List(vec![Json::Text(text)]))]);
        assert_eq!(Json::parse(&doc.render()), Some(doc), "from U+{:04X}", code);
        code += 0x400;
    }
}

fn nested(depth: usize) -> Json {
    let mut doc = Json::Text("core".to_string());
    for level in 0..depth {
        doc = if level % 2 == 0 {
            Json::List(vec![doc])
        } else {
            Json::Object(vec![("in".to_string(), doc)])
        };
    }
    doc
}

#[test]
fn nesting_up_to_the_limit_reads_back() {
    assert_eq!(yewchat::json::MAX_NESTING, 127);
    for depth in [0, 1, 2, 64, 126, 127] {
        let doc = nested(depth);
        assert_eq!(Json::parse(&doc.render()), Some(doc), "depth {}", depth);
    }
}

#[test]
fn nesting_beyond_the_limit_is_not_read() {
    assert_eq!(Json::parse(&nested(128).render()), None);
}

#[test]
fn a_repeated_key_is_read_once() {
    assert_eq!(
        Json::parse("{\"k\":\"first\",\"z\":null,\"k\":\"second\"}"),
        Some(Json::Object(vec![
            ("k".to_string(), Json::Text("second".to_string())),
            ("z".to_string(), Json::Null),
        ]))
    );
}
