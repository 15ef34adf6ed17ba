use bybit_stream::json::{Json, JsonNumber};

fn s(t: &str) -> Json {
    Json::Str(t.to_string())
}

fn obj(fields: Vec<(&str, Json)>) -> Json {
    Json::Object(fields.into_iter().map(|(k, v)| (k.to_string(), v)).collect())
}

#[test]
fn member_lookups() {
    let v = obj(vec![
        ("op", s("pong")),
        ("success", Json::Bool(true)),
        ("args", Json::Array(vec![s("1"), Json::Null])),
        ("n", Json::Number(JsonNumber::Unsigned(3))),
    ]);
    assert_eq!(v.str_at("op"), Some("pong"));
    assert_eq!(v.str_at("success"), None);
    assert_eq!(v.str_at("missing"), None);
    assert!(v.text_at_is("op", "pong"));
    assert!(!v.text_at_is("op", "ping"));
    assert!(!v.text_at_is("n", "3"));
    assert_eq!(v.bool_at("success"), Some(true));
    assert_eq!(v.bool_at("op"), None);
    assert_eq!(v.array_at("args").map(|a| a.len()), Some(2));
    assert!(v.get("n").is_some());
    assert!(v.get("x").is_none());
}

#[test]
fn lookups_on_non_objects() {
    let v = s("text");
    assert_eq!(v.as_str(), Some("text"));
    assert!(v.get("op").is_none());
    assert_eq!(v.str_at("op"), None);
    assert_eq!(Json::Null.bool_at("x"), None);
}
