use stausee_mnemonic::codec::{
    embed_json, format_callback, format_channel_message, json_parse_call, MAX_JSON_STR_LEN,
    MIN_JSON_PARSE_LEN,
};

fn object_of_len(total: usize) -> String {
    let padding = total - r#"{"k":""}"#.len();
    format!(r#"{{"k":"{}"}}"#, "a".repeat(padding))
}

fn read_back_single_quoted(s: &str) -> String {
    let mut out = String::new();
    let mut chars = s.chars();
    while let Some(c) = chars.next() {
        if c == '\\' {
            if let Some(n) = chars.next() {
                out.push(n);
            } else {
                out.push(c);
            }
        } else {
            out.push(c);
        }
    }
    out
}

fn parse_argument(script: &str) -> &str {
    let inner = script.strip_prefix("JSON.parse('").unwrap();
    inner.strip_suffix("')").unwrap()
}

#[test]
fn limits_have_documented_values() {
    assert_eq!(MIN_JSON_PARSE_LEN, 10_240);
    assert_eq!(MAX_JSON_STR_LEN, usize::pow(2, 30) - 2);
}

#[test]
fn json_parse_call_escapes_quotes_and_backslashes() {
    let json = r#"{"a":"it's","b":"\\"}"#;
    assert_eq!(json_parse_call(json), r#"JSON.parse('{"a":"it\'s","b":"\\\\"}')"#);
}

#[test]
fn json_parse_call_of_plain_text() {
    assert_eq!(json_parse_call("[1,2]"), "JSON.parse('[1,2]')");
}

#[test]
fn small_object_is_embedded_as_literal() {
    assert_eq!(embed_json(r#"{"a":1}"#), r#"{"a":1}"#);
}

#[test]
fn object_of_10239_bytes_is_literal() {
    let json = object_of_len(10_239);
    assert_eq!(json.len(), 10_239);
    assert_eq!(embed_json(&json), json);
}

#[test]
fn object_of_10240_bytes_goes_through_json_parse() {
    let json = object_of_len(10_240);
    assert_eq!(json.len(), MIN_JSON_PARSE_LEN);
    assert_eq!(embed_json(&json), format!("JSON.parse('{}')", json));
}

#[test]
fn object_of_10241_bytes_goes_through_json_parse() {
    let json = object_of_len(10_241);
    assert_eq!(json.len(), 10_241);
    let embedded = embed_json(&json);
    assert!(embedded.starts_with("JSON.parse('"));
    assert_eq!(embedded, format!("JSON.parse('{}')", json));
}

#[test]
fn both_forms_read_back_to_the_same_json() {
    let small = object_of_len(10_239);
    assert_eq!(embed_json(&small), small);
    let large = format!(r#"{{"q":"it's \\ here","k":"{}"}}"#, "b".repeat(10_300));
    let embedded = embed_json(&large);
    assert_eq!(read_back_single_quoted(parse_argument(&embedded)), large);
}

#[test]
fn large_array_goes_through_json_parse() {
    let json = format!("[{}]", "1,".repeat(6_000) + "1");
    assert!(embed_json(&json).starts_with("JSON.parse('["));
}

#[test]
fn large_string_stays_literal() {
    let json = format!("\"{}\"", "x".repeat(20_000));
    assert_eq!(embed_json(&json), json);
}

#[test]
fn large_object_counts_bytes_not_characters() {
    // 3,500 three-byte characters: 10,500 bytes but fewer than 3,600 characters.
    let json = format!(r#"{{"k":"{}"}}"#, "€".repeat(3_500));
    assert!(json.chars().count() < MIN_JSON_PARSE_LEN);
    assert!(embed_json(&json).starts_with("JSON.parse('"));
}

#[test]
fn format_callback_settles_the_handle() {
    assert_eq!(format_callback(7, "null"), "window.ipcHandler._dispatchResolver(7, null);");
    assert_eq!(format_callback(0, "\"x\""), "window.ipcHandler._dispatchResolver(0, \"x\");");
    assert_eq!(
        format_callback(usize::MAX, "1"),
        format!("window.ipcHandler._dispatchResolver({}, 1);", usize::MAX)
    );
}

#[test]
fn format_channel_message_wraps_the_value() {
    assert_eq!(format_channel_message("1"), "window.ipcHandler._respondChannelMessage(1);");
}

#[test]
fn json_parse_call_matches_serialize_to_javascript() {
    let samples = [
        r#"{"a":"it's","b":"\\"}"#.to_string(),
        r#"["\\'\\'", "x"]"#.to_string(),
        r#"{"k":"é€😀 \n"}"#.to_string(),
        object_of_len(10_241),
    ];
    for json in samples {
        let raw = serde_json::value::RawValue::from_string(json.clone()).unwrap();
        let expected = serialize_to_javascript::Serialized::new(&raw, &Default::default()).into_string();
        assert_eq!(json_parse_call(&json), expected);
    }
}
