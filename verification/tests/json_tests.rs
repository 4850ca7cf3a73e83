use rag_responder::json::{passage_from_payload, stored_flag};
use serde_json::{Number, Value};

#[test]
fn nothing_stored_is_no_flag() {
    assert_eq!(stored_flag(None), None);
}

#[test]
fn stored_boolean_is_the_flag() {
    assert_eq!(stored_flag(Some(&Value::Bool(true))), Some(true));
    assert_eq!(stored_flag(Some(&Value::Bool(false))), Some(false));
}

#[test]
fn stored_value_of_another_kind_is_no_flag() {
    assert_eq!(stored_flag(Some(&Value::Null)), None);
    assert_eq!(stored_flag(Some(&Value::String("true".to_string()))), None);
    assert_eq!(stored_flag(Some(&Value::Number(Number::from(1u64)))), None);
}

#[test]
fn payload_text_is_read() {
    let mut payload: serde_json::Map<String, Value> = serde_json::Map::new();
    payload.insert("other".to_string(), Value::String("no".to_string()));
    payload.insert("text".to_string(), Value::String("X is a protocol.".to_string()));
    let p = passage_from_payload(0.9f32.to_bits(), Some(&payload));
    assert_eq!(p.score_bits, 0.9f32.to_bits());
    assert_eq!(p.text, Some("X is a protocol.".to_string()));
}

#[test]
fn payload_without_text_gives_none() {
    let mut payload: serde_json::Map<String, Value> = serde_json::Map::new();
    payload.insert("other".to_string(), Value::String("no".to_string()));
    assert_eq!(passage_from_payload(1, Some(&payload)).text, None);
    let empty: serde_json::Map<String, Value> = serde_json::Map::new();
    assert_eq!(passage_from_payload(1, Some(&empty)).text, None);
    assert_eq!(passage_from_payload(1, None).text, None);
}

#[test]
fn payload_text_of_another_kind_gives_none() {
    let mut payload: serde_json::Map<String, Value> = serde_json::Map::new();
    payload.insert("text".to_string(), Value::Bool(true));
    assert_eq!(passage_from_payload(1, Some(&payload)).text, None);
    payload.insert("text".to_string(), Value::Null);
    assert_eq!(passage_from_payload(1, Some(&payload)).text, None);
}
