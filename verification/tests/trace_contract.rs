use serde_json::Value;
use sparrow_agent::json::Json;
use sparrow_agent::trace::{redact_json_value, JsonSnapshot};

fn to_json(v: &Value) -> Json {
    match v {
        Value::Null => Json::Null,
        Value::Bool(b) => Json::Bool(*b),
        Value::Number(n) => Json::Number(n.to_string()),
        Value::String(s) => Json::Str(s.clone()),
        Value::Array(items) => Json::Array(items.iter().map(to_json).collect()),
        Value::Object(members) => Json::Object(
            members
                .iter()
                .map(|(k, v)| (k.clone(), to_json(v)))
                .collect(),
        ),
    }
}

fn to_value(j: &Json) -> Value {
    serde_json::from_str(&j.to_text()).unwrap()
}

/// `JsonSnapshot::from_text` with the text read as JSON where it is JSON.
fn snapshot_of_text(text: &str, max_bytes: usize) -> JsonSnapshot {
    let parsed = serde_json::from_str::<Value>(text).ok().map(|v| to_json(&v));
    JsonSnapshot::from_text(text, parsed, max_bytes)
}

#[test]
fn json_snapshot_parses_redacts_and_truncates_text() {
    let snapshot = snapshot_of_text(
        r#"{"query":"repo","api_key":"secret","nested":{"token":"abc"}}"#,
        48,
    );

    assert!(snapshot.truncated);
    assert!(snapshot.text.len() <= 48);
    let value = to_value(&snapshot.value);
    assert_eq!(value["api_key"], "[REDACTED]");
    assert_eq!(value["nested"]["token"], "[REDACTED]");
}

#[test]
fn json_snapshot_preserves_token_count_metrics() {
    let snapshot = snapshot_of_text(
        r#"{"reasoning_tokens":3,"total_tokens":15,"token":"secret"}"#,
        128,
    );

    let value = to_value(&snapshot.value);
    assert_eq!(value["reasoning_tokens"], 3);
    assert_eq!(value["total_tokens"], 15);
    assert_eq!(value["token"], "[REDACTED]");
}

#[test]
fn json_snapshot_wraps_non_json_text() {
    let snapshot = snapshot_of_text("plain tool output", 64);

    assert!(!snapshot.truncated);
    assert_eq!(to_value(&snapshot.value)["raw"], "plain tool output");
    assert_eq!(snapshot.text, "plain tool output");
}

#[test]
fn json_text_matches_serde_json() {
    let text = r#"{"a":[1,2.5,"x\"y",null,true],"b":{"c":"é\n"},"d":-3}"#;
    let v: Value = serde_json::from_str(text).unwrap();
    assert_eq!(to_json(&v).to_text(), serde_json::to_string(&v).unwrap());
}

#[test]
fn redaction_reaches_arrays_and_keeps_other_members() {
    let mut value = to_json(
        &serde_json::from_str::<Value>(
            r#"[{"Authorization":"Bearer x","keep":"yes"},{"db_password":"p","list":[{"refresh-token":"t"}]}]"#,
        )
        .unwrap(),
    );
    redact_json_value(&mut value);
    let v = to_value(&value);
    assert_eq!(v[0]["Authorization"], "[REDACTED]");
    assert_eq!(v[0]["keep"], "yes");
    assert_eq!(v[1]["db_password"], "[REDACTED]");
    assert_eq!(v[1]["list"][0]["refresh-token"], "[REDACTED]");
}

#[test]
fn snapshot_json_reads_back() {
    let snapshot = snapshot_of_text(r#"{"k":"v"}"#, 64);
    let back = JsonSnapshot::from_json(&snapshot.to_json()).unwrap();
    assert_eq!(back.text, snapshot.text);
    assert_eq!(back.truncated, snapshot.truncated);
    assert_eq!(to_value(&back.value), to_value(&snapshot.value));
}

#[test]
fn members_are_found_by_key() {
    let value = to_json(&serde_json::from_str::<Value>(r#"{"a":1,"b":"two"}"#).unwrap());
    assert!(value.get("a").is_some());
    assert_eq!(value.get("b").and_then(|b| b.as_text()).map(|s| s.as_str()), Some("two"));
    assert!(value.get("c").is_none());
    assert_eq!(sparrow_agent::json::number_as_u64("42"), Some(42));
    assert_eq!(sparrow_agent::json::number_as_u64("042"), None);
    assert_eq!(sparrow_agent::json::number_as_u64("-1"), None);
    assert_eq!(sparrow_agent::json::number_as_u64("18446744073709551616"), None);
}
