use serde_json::{Number, Value};
use serenity_utils::{CreateEmbed, CreateMessage};

fn text(s: &str) -> Value {
    Value::String(s.to_owned())
}

#[test]
fn default_message_sets_only_tts_to_false() {
    let message = CreateMessage::default();
    assert_eq!(message.0.len(), 1);
    assert_eq!(message.0.get("tts"), Some(&Value::Bool(false)));
}

#[test]
fn content_sets_the_content_field() {
    let message = CreateMessage::default().content("test");
    assert_eq!(message.0.len(), 2);
    assert_eq!(message.0.get("content"), Some(&text("test")));
    assert_eq!(message.0.get("tts"), Some(&Value::Bool(false)));
}

#[test]
fn content_set_twice_keeps_the_last() {
    let message = CreateMessage::default().content("first").content("second");
    assert_eq!(message.0.len(), 2);
    assert_eq!(message.0.get("content"), Some(&text("second")));
}

#[test]
fn nonce_sets_the_nonce_field() {
    let message = CreateMessage::default().nonce("n-17");
    assert_eq!(message.0.len(), 2);
    assert_eq!(message.0.get("nonce"), Some(&text("n-17")));
    assert_eq!(message.0.get("content"), None);
}

#[test]
fn tts_replaces_the_default() {
    let message = CreateMessage::default().tts(true);
    assert_eq!(message.0.len(), 1);
    assert_eq!(message.0.get("tts"), Some(&Value::Bool(true)));
    let back = message.tts(false);
    assert_eq!(back.0.get("tts"), Some(&Value::Bool(false)));
}

#[test]
fn default_embed_has_no_field() {
    let embed = CreateEmbed::default();
    assert!(embed.0.is_empty());
}

#[test]
fn embed_sets_an_object_made_from_an_empty_embed() {
    let message = CreateMessage::default().embed(|mut e| {
        assert!(e.0.is_empty());
        e.0.insert("title".to_owned(), Value::String("This is an embed".to_owned()));
        e
    });
    let mut expected = serde_json::Map::new();
    expected.insert("title".to_owned(), text("This is an embed"));
    assert_eq!(message.0.len(), 2);
    assert_eq!(message.0.get("embed"), Some(&Value::Object(expected)));
}

#[test]
fn embed_left_empty_is_an_empty_object() {
    let message = CreateMessage::default().embed(|e| e);
    assert_eq!(message.0.get("embed"), Some(&Value::Object(serde_json::Map::new())));
}

#[test]
fn builder_calls_chain_and_keep_other_fields() {
    let message = CreateMessage::default()
        .content("test")
        .tts(true)
        .nonce("abc")
        .embed(|e| e);
    assert_eq!(message.0.len(), 4);
    assert_eq!(message.0.get("content"), Some(&text("test")));
    assert_eq!(message.0.get("tts"), Some(&Value::Bool(true)));
    assert_eq!(message.0.get("nonce"), Some(&text("abc")));
    assert_eq!(message.0.get("embed"), Some(&Value::Object(serde_json::Map::new())));
}

#[test]
fn builder_keeps_fields_that_it_does_not_set() {
    let mut fields = serde_json::Map::new();
    fields.insert("extra".to_owned(), Value::Number(Number::from(7u64)));
    let message = CreateMessage(fields).content("c");
    assert_eq!(message.0.len(), 2);
    assert_eq!(message.0.get("extra"), Some(&Value::Number(Number::from(7u64))));
    assert_eq!(message.0.get("content"), Some(&text("c")));
}

#[test]
fn builder_keeps_null_numbers_and_arrays_under_other_keys() {
    let list = Value::Array(vec![Value::Null, Value::Number(Number::from(2u64)), text("x")]);
    let mut fields = serde_json::Map::new();
    fields.insert("nothing".to_owned(), Value::Null);
    fields.insert("count".to_owned(), Value::Number(Number::from(-3i64)));
    fields.insert("list".to_owned(), list.clone());
    let message = CreateMessage(fields).content("c").nonce("n").tts(true).embed(|e| e);
    assert_eq!(message.0.len(), 7);
    assert_eq!(message.0.get("nothing"), Some(&Value::Null));
    assert_eq!(message.0.get("count"), Some(&Value::Number(Number::from(-3i64))));
    assert_eq!(message.0.get("list"), Some(&list));
}
