use bybit_stream::clock::UtcInstant;
use bybit_stream::heartbeat::{
    check_pong_timestamp_at, handle_option_pong_at, handle_pong_at, handle_private_pong_at,
    handle_spot_inverse_linear, next_ping, ping_payload, verify_pong, verify_pong_at,
};
use bybit_stream::json::{Json, Reply};

fn s(t: &str) -> Json {
    Json::Str(t.to_string())
}

fn obj(fields: Vec<(&str, Json)>) -> Json {
    Json::Object(fields.into_iter().map(|(k, v)| (k.to_string(), v)).collect())
}

fn now() -> UtcInstant {
    UtcInstant { secs: 1_700_000_000, nanos: 150_000_000 }
}

fn err(t: &str) -> Result<(), String> {
    Err(t.to_string())
}

fn spot_pong(req_id: &str, success: bool) -> Json {
    obj(vec![
        ("success", Json::Bool(success)),
        ("ret_msg", s("pong")),
        ("conn_id", s("c1")),
        ("req_id", s(req_id)),
        ("op", s("ping")),
    ])
}

#[test]
fn spot_pong_accepted_only_when_it_echoes() {
    assert_eq!(handle_spot_inverse_linear(&spot_pong("abc", true), "abc"), Ok(()));
    assert_eq!(
        handle_spot_inverse_linear(&spot_pong("xyz", true), "abc"),
        err("Unexpected message format for Spot/Inverse/Linear")
    );
    assert_eq!(
        handle_spot_inverse_linear(&spot_pong("abc", false), "abc"),
        err("Unexpected message format for Spot/Inverse/Linear")
    );
    let no_success = obj(vec![("ret_msg", s("pong")), ("req_id", s("abc"))]);
    assert_eq!(
        handle_spot_inverse_linear(&no_success, "abc"),
        err("Unexpected message format for Spot/Inverse/Linear")
    );
}

#[test]
fn pong_timestamps() {
    let data = Json::Null;
    assert_eq!(check_pong_timestamp_at("1700000000000", &data, &now()), Ok(()));
    assert_eq!(check_pong_timestamp_at("1699999999950", &data, &now()), Ok(()));
    assert_eq!(check_pong_timestamp_at("1699999999949", &data, &now()), err("Timestamp too old"));
    assert_eq!(check_pong_timestamp_at("1699999999900", &data, &now()), err("Timestamp too old"));
    assert_eq!(check_pong_timestamp_at("1700000005000", &data, &now()), Ok(()));
    assert_eq!(check_pong_timestamp_at("abc", &data, &now()), err("Failed to parse timestamp"));
    assert_eq!(check_pong_timestamp_at("", &data, &now()), err("Failed to parse timestamp"));
    assert_eq!(check_pong_timestamp_at("-1", &data, &now()), err("Failed to parse timestamp"));
    assert_eq!(check_pong_timestamp_at("-1000", &data, &now()), err("Timestamp too old"));
}

#[test]
fn private_and_option_pongs() {
    let private = obj(vec![
        ("req_id", s("abc")),
        ("op", s("pong")),
        ("args", Json::Array(vec![s("1700000000000")])),
        ("conn_id", s("c")),
    ]);
    assert_eq!(handle_pong_at(&private, "abc", &now()), Ok(()));
    assert_eq!(handle_private_pong_at(&private, &now()), Ok(()));
    let stale = obj(vec![("op", s("pong")), ("args", Json::Array(vec![s("1690000000000")]))]);
    assert_eq!(handle_pong_at(&stale, "abc", &now()), err("Timestamp too old"));
    let option_missing = obj(vec![("op", s("pong"))]);
    assert_eq!(
        handle_pong_at(&option_missing, "abc", &now()),
        err("Option pong message missing or invalid args")
    );
    assert_eq!(
        handle_option_pong_at(&option_missing, &now()),
        err("Option pong message missing or invalid args")
    );
    let private_missing = obj(vec![("req_id", s("abc")), ("op", s("pong")), ("args", Json::Array(vec![]))]);
    assert_eq!(
        handle_pong_at(&private_missing, "abc", &now()),
        err("Private pong message missing or invalid args")
    );
    let numeric_arg = obj(vec![("req_id", s("abc")), ("args", Json::Array(vec![Json::Null]))]);
    assert_eq!(
        handle_pong_at(&numeric_arg, "abc", &now()),
        err("Private pong message missing or invalid args")
    );
    let other = obj(vec![("req_id", s("zzz")), ("op", s("other"))]);
    assert_eq!(handle_pong_at(&other, "abc", &now()), err("Failed to handle pong message"));
}

#[test]
fn pong_replies() {
    assert_eq!(verify_pong_at(&Reply::TimedOut, "abc", &now()), err("Timeout waiting for pong message"));
    assert_eq!(verify_pong_at(&Reply::Closed, "abc", &now()), err("Stream closed unexpectedly"));
    assert_eq!(verify_pong_at(&Reply::NonText, "abc", &now()), err("No valid pong response received"));
    assert_eq!(
        verify_pong_at(&Reply::Malformed("EOF".to_string()), "abc", &now()),
        err("Failed to parse JSON")
    );
    assert_eq!(verify_pong_at(&Reply::Parsed(spot_pong("abc", true)), "abc", &now()), Ok(()));
    let subscribe = obj(vec![("op", s("subscribe"))]);
    assert_eq!(
        verify_pong_at(&Reply::Parsed(subscribe), "abc", &now()),
        err("No valid pong response received")
    );
    assert_eq!(
        verify_pong_at(&Reply::Parsed(Json::Null), "abc", &now()),
        err("No valid pong response received")
    );
    let option = obj(vec![("op", s("pong")), ("args", Json::Array(vec![s("1700000000100")]))]);
    assert_eq!(verify_pong_at(&Reply::Parsed(option), "abc", &now()), Ok(()));
    // The spot answer does not depend on the clock.
    assert_eq!(verify_pong(&Reply::Parsed(spot_pong("abc", true)), "abc"), Ok(()));
}

#[test]
fn ping_bodies() {
    match ping_payload("id-1") {
        Json::Object(f) => {
            assert_eq!(f.len(), 3);
            assert_eq!(f[0].0, "op");
            assert_eq!(f[0].1.as_str(), Some("ping"));
            assert_eq!(f[1].0, "args");
            assert!(matches!(f[1].1, Json::Null));
            assert_eq!(f[2].0, "req_id");
            assert_eq!(f[2].1.as_str(), Some("id-1"));
        }
        _ => panic!("not an object"),
    }
    let p = next_ping();
    assert_eq!(p.req_id.len(), 36);
    assert_eq!(p.req_id.as_bytes()[14], b'4');
    assert_eq!(p.payload.str_at("req_id"), Some(p.req_id.as_str()));
    assert_ne!(next_ping().req_id, p.req_id);
}
