use bybit_stream::common::WsMessage;
use bybit_stream::json::{Json, JsonNumber};
use bybit_stream::routing::{create_my_message, create_my_message_at, has_answer_shape, process_message, Incoming, Route};

fn text_frame(text: &str, op: Option<&str>) -> Incoming {
    let parsed = match op {
        Some(o) => Json::Object(vec![("op".to_string(), Json::Str(o.to_string()))]),
        None => Json::Object(vec![("topic".to_string(), Json::Str("tickers.BTCUSDT".to_string()))]),
    };
    Incoming::Text { text: text.to_string(), parsed: Ok(parsed) }
}

fn kind(r: Result<Route, String>) -> String {
    match r {
        Ok(Route::Heartbeat(t)) => format!("heartbeat:{}", t),
        Ok(Route::Subscription(t)) => format!("subscription:{}", t),
        Ok(Route::General(t)) => format!("general:{}", t),
        Ok(Route::Ignore) => "ignore".to_string(),
        Err(e) => format!("error:{}", e),
    }
}

#[test]
fn frames_are_routed_by_op() {
    assert_eq!(kind(process_message(text_frame("a", Some("ping")))), "heartbeat:a");
    assert_eq!(kind(process_message(text_frame("b", Some("pong")))), "heartbeat:b");
    assert_eq!(kind(process_message(text_frame("c", Some("subscribe")))), "subscription:c");
    assert_eq!(kind(process_message(text_frame("d", Some("auth")))), "general:d");
    assert_eq!(kind(process_message(text_frame("e", None))), "general:e");
    let numeric_op = Incoming::Text {
        text: "f".to_string(),
        parsed: Ok(Json::Object(vec![("op".to_string(), Json::Bool(true))])),
    };
    assert_eq!(kind(process_message(numeric_op)), "general:f");
}

#[test]
fn failures_end_the_loop() {
    assert_eq!(kind(process_message(Incoming::NonText)), "ignore");
    assert_eq!(
        kind(process_message(Incoming::Failed("ConnectionClosed".to_string()))),
        "error:Error receiving ws message: ConnectionClosed"
    );
    let bad = Incoming::Text { text: "{".to_string(), parsed: Err("EOF while parsing".to_string()) };
    assert_eq!(kind(process_message(bad)), "error:Failed to parse message: EOF while parsing");
}

#[test]
fn tagged_messages() {
    let m = create_my_message_at("hello".to_string(), "wss://x", 42);
    assert_eq!(m.receivedat, 42);
    assert_eq!(m.endpoint_name, "wss://x");
    assert!(matches!(m.message, WsMessage::Text(ref t) if t == "hello"));
    let n = create_my_message("hi".to_string(), "wss://y");
    assert!(n.receivedat > 1_600_000_000_000);
    assert_eq!(n.endpoint_name, "wss://y");
}

fn obj(members: Vec<(&str, Json)>) -> Json {
    Json::Object(members.into_iter().map(|(k, v)| (k.to_string(), v)).collect())
}

#[test]
fn answer_shapes() {
    let s = |t: &str| Json::Str(t.to_string());
    let pong = obj(vec![
        ("success", Json::Bool(true)),
        ("ret_msg", s("pong")),
        ("conn_id", s("c")),
        ("req_id", Json::Null),
        ("op", s("ping")),
        ("args", Json::Array(vec![s("1700000000000")])),
        ("extra", Json::Number(JsonNumber::Unsigned(3))),
    ]);
    assert!(has_answer_shape(&pong, true));
    assert!(has_answer_shape(&obj(vec![("op", s("subscribe"))]), false));
    assert!(!has_answer_shape(&obj(vec![("success", Json::Bool(true))]), false));
    assert!(!has_answer_shape(&obj(vec![("op", Json::Null)]), false));
    assert!(!has_answer_shape(&obj(vec![("op", s("pong")), ("success", s("true"))]), false));
    assert!(!has_answer_shape(&obj(vec![("op", s("pong")), ("req_id", Json::Number(JsonNumber::Unsigned(1)))]), false));
    let bad_args = obj(vec![("op", s("pong")), ("args", Json::Array(vec![Json::Number(JsonNumber::Unsigned(1))]))]);
    assert!(!has_answer_shape(&bad_args, true));
    assert!(has_answer_shape(&bad_args, false));
    assert!(!has_answer_shape(&Json::Array(vec![s("pong")]), false));
}
