use bybit_stream::config::AppConfig;
use bybit_stream::json::{Json, Reply};
use bybit_stream::subscription::{
    endpoint_segment, last_segment_of_path, needs_auth, next_subscribe, subscribe_payload,
    subscription_batches, verify_subscription, SubscribeError,
};
use bybit_stream::topics::{all_topics, chunk_topics, unique_topics};

fn strings(v: &[&str]) -> Vec<String> {
    v.iter().map(|x| x.to_string()).collect()
}

fn s(t: &str) -> Json {
    Json::Str(t.to_string())
}

fn obj(fields: Vec<(&str, Json)>) -> Json {
    Json::Object(fields.into_iter().map(|(k, v)| (k.to_string(), v)).collect())
}

fn config() -> AppConfig {
    AppConfig {
        base_url: "wss://stream.bybit.com/v5/".to_string(),
        endpoints: strings(&["public/linear", "private"]),
        trading_pairs: strings(&["BTCUSDT", "ETHUSDT"]),
        topics: vec![
            ("linear".to_string(), strings(&["publicTrade", "tickers", "publicTrade"])),
            ("private".to_string(), strings(&["order", "position", "order"])),
        ],
    }
}

#[test]
fn last_segments_of_paths() {
    assert_eq!(last_segment_of_path("/v5/public/linear"), Some("linear".to_string()));
    assert_eq!(last_segment_of_path("/v5/private"), Some("private".to_string()));
    assert_eq!(last_segment_of_path("/"), Some("".to_string()));
    assert_eq!(last_segment_of_path("/a/"), Some("".to_string()));
    assert_eq!(last_segment_of_path("text/plain,Hello"), None);
    assert_eq!(last_segment_of_path(""), None);
}

#[test]
fn endpoint_segments_of_uris() {
    assert_eq!(endpoint_segment("wss://stream.bybit.com/v5/public/linear").ok(), Some("linear".to_string()));
    assert_eq!(endpoint_segment("wss://stream.bybit.com/v5/private").ok(), Some("private".to_string()));
    assert_eq!(endpoint_segment("wss://stream.bybit.com").ok(), Some("".to_string()));
    assert!(matches!(endpoint_segment("not a url"), Err(SubscribeError::Url(_))));
    assert!(matches!(endpoint_segment("data:text/plain,HelloWorld"), Err(SubscribeError::NoLastSegment)));
    assert_eq!(SubscribeError::NoLastSegment.error_text(), "Invalid URI: Cannot determine last segment");
    assert_eq!(
        SubscribeError::NoTopics("spot".to_string()).error_text(),
        "No topics found for spot"
    );
    match endpoint_segment("not a url") {
        Err(e) => assert_eq!(e.error_text(), "relative URL without a base"),
        Ok(_) => panic!("parsed"),
    }
}

#[test]
fn private_endpoint_authenticates() {
    assert!(needs_auth("private"));
    assert!(!needs_auth("linear"));
    assert!(!needs_auth("Private"));
}

#[test]
fn topic_planning() {
    assert_eq!(unique_topics(&strings(&["a", "b", "a", "c", "b"])), strings(&["a", "b", "c"]));
    assert_eq!(unique_topics(&strings(&[])), strings(&[]));
    assert_eq!(
        all_topics(&strings(&["publicTrade", "tickers"]), &strings(&["BTCUSDT", "ETHUSDT"]), false),
        strings(&["publicTrade.BTCUSDT", "publicTrade.ETHUSDT", "tickers.BTCUSDT", "tickers.ETHUSDT"])
    );
    assert_eq!(all_topics(&strings(&["order"]), &strings(&["BTCUSDT"]), true), strings(&["order"]));
    assert_eq!(all_topics(&strings(&["order"]), &strings(&[]), false), strings(&[]));
    let many: Vec<String> = (0..23).map(|i| format!("t{}", i)).collect();
    let batches = chunk_topics(&many, 10);
    assert_eq!(batches.iter().map(|b| b.len()).collect::<Vec<_>>(), vec![10, 10, 3]);
    assert_eq!(batches.concat(), many);
    assert!(chunk_topics(&strings(&[]), 10).is_empty());
    assert_eq!(chunk_topics(&strings(&["a", "b"]), 10), vec![strings(&["a", "b"])]);
}

#[test]
fn subscription_batches_per_endpoint() {
    let c = config();
    assert!(c.topic_keys_unique());
    let linear = subscription_batches(&c, "linear").ok().unwrap();
    assert_eq!(
        linear,
        vec![strings(&["publicTrade.BTCUSDT", "publicTrade.ETHUSDT", "tickers.BTCUSDT", "tickers.ETHUSDT"])]
    );
    let private = subscription_batches(&c, "private").ok().unwrap();
    assert_eq!(private, vec![strings(&["order", "position"])]);
    match subscription_batches(&c, "spot") {
        Err(e) => assert_eq!(e.error_text(), "No topics found for spot"),
        Ok(_) => panic!("topics found"),
    }
}

#[test]
fn subscribe_bodies() {
    let p = subscribe_payload("r1", &strings(&["a.X", "b.X"]));
    assert_eq!(p.str_at("req_id"), Some("r1"));
    assert_eq!(p.str_at("op"), Some("subscribe"));
    let args = p.array_at("args").unwrap();
    assert_eq!(args.len(), 2);
    assert_eq!(args[1].as_str(), Some("b.X"));
    match &p {
        Json::Object(f) => assert_eq!(f.iter().map(|x| x.0.as_str()).collect::<Vec<_>>(), vec!["req_id", "op", "args"]),
        _ => panic!("not an object"),
    }
    let r = next_subscribe(&strings(&["a"]));
    assert_eq!(r.req_id.len(), 36);
    assert_eq!(r.payload.str_at("req_id"), Some(r.req_id.as_str()));
}

#[test]
fn subscription_replies() {
    let ok = obj(vec![
        ("success", Json::Bool(true)),
        ("ret_msg", s("")),
        ("conn_id", s("c")),
        ("req_id", s("r1")),
        ("op", s("subscribe")),
    ]);
    assert_eq!(verify_subscription(&Reply::Parsed(ok), "r1", "wss://x"), Ok(()));
    let other_id = obj(vec![("success", Json::Bool(true)), ("req_id", s("r2")), ("op", s("subscribe"))]);
    assert_eq!(
        verify_subscription(&Reply::Parsed(other_id), "r1", "wss://x"),
        Err("Failed to verify subscription or no more messages".to_string())
    );
    let failed = obj(vec![("success", Json::Bool(false)), ("req_id", s("r1")), ("op", s("subscribe"))]);
    assert_eq!(
        verify_subscription(&Reply::Parsed(failed), "r1", "wss://x"),
        Err("Failed to verify subscription or no more messages".to_string())
    );
    assert_eq!(
        verify_subscription(&Reply::Malformed("expected value at line 1 column 1".to_string()), "r1", "u"),
        Err("Failed to parse incoming message as JSON: expected value at line 1 column 1".to_string())
    );
    assert_eq!(
        verify_subscription(&Reply::TimedOut, "r1", "u"),
        Err("No message received in 2 seconds for verification".to_string())
    );
    assert_eq!(
        verify_subscription(&Reply::Closed, "r1", "u"),
        Err("No message received in 2 seconds for verification".to_string())
    );
    assert_eq!(
        verify_subscription(&Reply::NonText, "r1", "u"),
        Err("Failed to verify subscription or no more messages".to_string())
    );
}

#[test]
fn repeated_endpoint_kind_is_found() {
    let mut c = config();
    assert!(c.topic_keys_unique());
    let first = c.topics[0].clone();
    c.topics.push(first);
    assert!(!c.topic_keys_unique());
}
