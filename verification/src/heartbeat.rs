//! Heartbeat: the ping request and the checks on what the exchange answers.
use vstd::prelude::*;
use crate::clock::{
    UtcInstant,
    chrono_elapsed_nanos,
    chrono_timestamp_valid,
    elapsed_parts,
    timestamp_is_valid,
    utc_now,
};
use crate::ids::{is_v4_uuid_text, new_request_id};
use crate::json::{Json, Reply};
use crate::text::{parse_i128, parse_int, trunc_div, trunc_rem};

verus! {

/// An error message or success.
pub open spec fn outcome(r: Result<(), String>) -> Result<(), Seq<char>> {
    match r {
        Ok(()) => Ok(()),
        Err(e) => Err(e@),
    }
}

/// Whole seconds of a millisecond timestamp, narrowed to `i64` as `as` does.
pub open spec fn pong_secs(ms: int) -> i64 {
    trunc_div(ms, 1000) as i64
}

/// Nanoseconds of a millisecond timestamp, narrowed to `u32` as `as` does.
pub open spec fn pong_nanos(ms: int) -> u32 {
    (trunc_rem(ms, 1000) * 1_000_000) as u32
}

/// The age limit of a pong, in nanoseconds (200 ms).
pub const PONG_MAX_AGE_NANOS: i128 = 200_000_000;

/// Whether a pong stamped with the millisecond text `ts` is recent at `now`.
pub open spec fn pong_timestamp_check(ts: Seq<char>, now: UtcInstant) -> Result<(), Seq<char>> {
    match parse_int(ts, i128::MIN as int, i128::MAX as int) {
        Err(_) => Err("Failed to parse timestamp"@),
        Ok(ms) => if !chrono_timestamp_valid(pong_secs(ms), pong_nanos(ms)) {
            Err("Failed to parse timestamp"@)
        } else if chrono_elapsed_nanos(now.secs, now.nanos, pong_secs(ms), pong_nanos(ms))
            <= PONG_MAX_AGE_NANOS {
            Ok(())
        } else {
            Err("Timestamp too old"@)
        },
    }
}

/// The answer of a spot, inverse or linear endpoint to a ping: `ret_msg` is
/// `"pong"`, `req_id` is ours, and `success` is `true`.
pub open spec fn spot_pong_check(data: Json, expected: Seq<char>) -> Result<(), Seq<char>> {
    if data.at("ret_msg"@).is_text("pong"@) && data.at("req_id"@).is_text(expected)
        && data.at("success"@).bool_value() == Some(true) {
        Ok(())
    } else {
        Err("Unexpected message format for Spot/Inverse/Linear"@)
    }
}

/// The first element of `args`, when it is a string.
pub open spec fn first_arg_text(data: Json) -> Option<Seq<char>> {
    match data.at("args"@).items() {
        Some(items) => if items.len() > 0 {
            items[0].str_view()
        } else {
            None
        },
        None => None,
    }
}

/// A pong that carries its server time as the first of its `args`.
pub open spec fn timed_pong_check(data: Json, missing: Seq<char>, now: UtcInstant) -> Result<
    (),
    Seq<char>,
> {
    match first_arg_text(data) {
        Some(ts) => pong_timestamp_check(ts, now),
        None => Err(missing),
    }
}

/// A pong of the private endpoint (it echoes our `req_id`) or of the option
/// endpoint (its `op` is `"pong"`).
pub open spec fn pong_check(data: Json, expected: Seq<char>, now: UtcInstant) -> Result<
    (),
    Seq<char>,
> {
    if data.field("req_id"@) matches Some(r) && r.is_text(expected) {
        timed_pong_check(data, "Private pong message missing or invalid args"@, now)
    } else if data.at("op"@).is_text("pong"@) {
        timed_pong_check(data, "Option pong message missing or invalid args"@, now)
    } else {
        Err("Failed to handle pong message"@)
    }
}

/// The verdict on the reply awaited after a ping.
pub open spec fn pong_reply_check(reply: Reply, expected: Seq<char>, now: UtcInstant) -> Result<
    (),
    Seq<char>,
> {
    match reply {
        Reply::TimedOut => Err("Timeout waiting for pong message"@),
        Reply::Closed => Err("Stream closed unexpectedly"@),
        Reply::NonText => Err("No valid pong response received"@),
        Reply::Malformed(_) => Err("Failed to parse JSON"@),
        Reply::Parsed(data) => {
            let op = match data.at("op"@).str_view() {
                Some(op) => op,
                None => Seq::<char>::empty(),
            };
            if op == "ping"@ {
                spot_pong_check(data, expected)
            } else if op == "pong"@ {
                pong_check(data, expected, now)
            } else {
                Err("No valid pong response received"@)
            }
        },
    }
}

/// Whether the millisecond timestamp text `ts` is a valid instant at most
/// 200 ms before `now`.
pub open spec fn fresh_pong_time(ts: Seq<char>, now: UtcInstant) -> bool {
    &&& parse_int(ts, i128::MIN as int, i128::MAX as int) matches Ok(ms)
    &&& chrono_timestamp_valid(pong_secs(ms), pong_nanos(ms))
    &&& chrono_elapsed_nanos(now.secs, now.nanos, pong_secs(ms), pong_nanos(ms)) <= 200_000_000
}

/// Whether the first `args` element of `j` is a server time at most 200 ms
/// before `now`.
pub open spec fn fresh_first_arg(j: Json, now: UtcInstant) -> bool {
    match first_arg_text(j) {
        Some(ts) => fresh_pong_time(ts, now),
        None => false,
    }
}

/// The answer of a spot, inverse or linear endpoint to our ping: `ret_msg`
/// "pong", our `req_id`, `success` true.
pub open spec fn spot_answer(j: Json, expected: Seq<char>) -> bool {
    &&& j.at("ret_msg"@).is_text("pong"@)
    &&& j.at("req_id"@).is_text(expected)
    &&& j.at("success"@).bool_value() == Some(true)
}

/// A reply to a ping is accepted only when it was parsed, and then only as
/// a spot, inverse or linear answer (`op` "ping") or as a pong (`op` "pong")
/// whose first `args` element is a server time at most 200 ms before `now`.
/// Whatever the kind of a pong (private, echoing our `req_id`, or option), it
/// is accepted exactly when its time is that fresh; an `op` "ping" answer is
/// accepted exactly when it is a spot answer.
pub proof fn lemma_pong_accepted_only_if_fresh(reply: Reply, expected: Seq<char>, now: UtcInstant)
    ensures
        !(reply is Parsed) ==> pong_reply_check(reply, expected, now) is Err,
        reply is Parsed && pong_reply_check(reply, expected, now) is Ok ==> (reply->Parsed_0.at(
            "op"@,
        ).is_text("ping"@) && spot_answer(reply->Parsed_0, expected)) || (reply->Parsed_0.at(
            "op"@,
        ).is_text("pong"@) && fresh_first_arg(reply->Parsed_0, now)),
        reply is Parsed && reply->Parsed_0.at("op"@).is_text("pong"@) ==> (pong_reply_check(
            reply,
            expected,
            now,
        ) is Ok <==> fresh_first_arg(reply->Parsed_0, now)),
        reply is Parsed && reply->Parsed_0.at("op"@).is_text("ping"@) ==> (pong_reply_check(
            reply,
            expected,
            now,
        ) is Ok <==> spot_answer(reply->Parsed_0, expected)),
{
    reveal_strlit("ping");
    reveal_strlit("pong");
    assert("ping"@ != "pong"@) by {
        assert("ping"@[1] != "pong"@[1]);
    }
    match reply {
        Reply::Parsed(j) => {
            match first_arg_text(j) {
                Some(ts) => {
                    assert(pong_timestamp_check(ts, now) is Ok <==> fresh_pong_time(ts, now));
                },
                None => {},
            }
            let op = match j.at("op"@).str_view() {
                Some(op) => op,
                None => Seq::<char>::empty(),
            };
            assert(Seq::<char>::empty() != "ping"@ && Seq::<char>::empty() != "pong"@) by {
                assert("ping"@.len() == 4 && "pong"@.len() == 4);
            }
            if op == "ping"@ {
                assert(j.at("op"@).is_text("ping"@));
                assert(pong_reply_check(reply, expected, now) == spot_pong_check(j, expected));
            } else if op == "pong"@ {
                assert(j.at("op"@).is_text("pong"@));
                assert(pong_reply_check(reply, expected, now) == pong_check(j, expected, now));
            } else {
                assert(pong_reply_check(reply, expected, now) is Err);
            }
        },
        _ => {},
    }
}

fn fail(msg: &str) -> (r: Result<(), String>)
    ensures
        outcome(r) == Err::<(), Seq<char>>(msg@),
{
    Err(msg.to_string())
}

/// Checks the server time of a pong against `now`.
pub fn check_pong_timestamp_at(timestamp_str: &str, data: &Json, now: &UtcInstant) -> (r: Result<
    (),
    String,
>)
    requires
        chrono_timestamp_valid(now.secs, now.nanos),
    ensures
        outcome(r) == pong_timestamp_check(timestamp_str@, *now),
{
    let ms = match parse_i128(timestamp_str) {
        Ok(ms) => ms,
        Err(_) => {
            return fail("Failed to parse timestamp");
        },
    };
    let q: i128 = match ms.checked_div(1000) {
        Some(q) => q,
        None => {
            return fail("Failed to parse timestamp");
        },
    };
    assert(q == trunc_div(ms as int, 1000));
    let rem = ms - q * 1000;
    let secs = q as i64;
    let nanos = (rem * 1_000_000) as u32;
    if !timestamp_is_valid(secs, nanos) {
        return fail("Failed to parse timestamp");
    }
    let pong = UtcInstant { secs, nanos };
    let (s, n) = elapsed_parts(now, &pong);
    let total = (s as i128) * 1_000_000_000 + (n as i128);
    if total <= PONG_MAX_AGE_NANOS {
        Ok(())
    } else {
        fail("Timestamp too old")
    }
}

/// Checks the server time of a pong against the current time.
pub fn check_pong_timestamp(timestamp_str: &str, data: &Json) -> (r: Result<(), String>)
    ensures
        exists|now: UtcInstant|
            #![trigger pong_timestamp_check(timestamp_str@, now)]
            chrono_timestamp_valid(now.secs, now.nanos) && outcome(r) == pong_timestamp_check(
                timestamp_str@,
                now,
            ),
{
    let now = utc_now();
    check_pong_timestamp_at(timestamp_str, data, &now)
}

/// Checks the answer of a spot, inverse or linear endpoint to a ping.
pub fn handle_spot_inverse_linear(data: &Json, expected_req_id: &str) -> (r: Result<(), String>)
    ensures
        outcome(r) == spot_pong_check(*data, expected_req_id@),
{
    let ok = data.text_at_is("ret_msg", "pong") && data.text_at_is("req_id", expected_req_id)
        && match data.bool_at("success") {
        Some(b) => b,
        None => false,
    };
    if ok {
        Ok(())
    } else {
        fail("Unexpected message format for Spot/Inverse/Linear")
    }
}

fn first_arg(data: &Json) -> (r: Option<&str>)
    ensures
        r is None <==> first_arg_text(*data) is None,
        r matches Some(t) ==> first_arg_text(*data) == Some(t@),
{
    match data.array_at("args") {
        Some(args) => {
            if args.len() > 0 {
                args[0].as_str()
            } else {
                None
            }
        },
        None => None,
    }
}

fn timed_pong_at(data: &Json, missing: &str, now: &UtcInstant) -> (r: Result<(), String>)
    requires
        chrono_timestamp_valid(now.secs, now.nanos),
    ensures
        outcome(r) == timed_pong_check(*data, missing@, *now),
{
    match first_arg(data) {
        Some(ts) => check_pong_timestamp_at(ts, data, now),
        None => fail(missing),
    }
}

/// Checks a pong of the private endpoint against `now`.
pub fn handle_private_pong_at(data: &Json, now: &UtcInstant) -> (r: Result<(), String>)
    requires
        chrono_timestamp_valid(now.secs, now.nanos),
    ensures
        outcome(r) == timed_pong_check(
            *data,
            "Private pong message missing or invalid args"@,
            *now,
        ),
{
    timed_pong_at(data, "Private pong message missing or invalid args", now)
}

/// Checks a pong of the option endpoint against `now`.
pub fn handle_option_pong_at(data: &Json, now: &UtcInstant) -> (r: Result<(), String>)
    requires
        chrono_timestamp_valid(now.secs, now.nanos),
    ensures
        outcome(r) == timed_pong_check(*data, "Option pong message missing or invalid args"@, *now),
{
    timed_pong_at(data, "Option pong message missing or invalid args", now)
}

/// Checks a pong of the private or option endpoint against `now`.
pub fn handle_pong_at(data: &Json, expected_req_id: &str, now: &UtcInstant) -> (r: Result<
    (),
    String,
>)
    requires
        chrono_timestamp_valid(now.secs, now.nanos),
    ensures
        outcome(r) == pong_check(*data, expected_req_id@, *now),
{
    let echoes = match data.get("req_id") {
        Some(v) => match v.as_str() {
            Some(t) => crate::text::str_eq(t, expected_req_id),
            None => false,
        },
        None => false,
    };
    if echoes {
        handle_private_pong_at(data, now)
    } else if data.text_at_is("op", "pong") {
        handle_option_pong_at(data, now)
    } else {
        fail("Failed to handle pong message")
    }
}

/// Judges the reply awaited after a ping, at `now`.
pub fn verify_pong_at(reply: &Reply, expected_req_id: &str, now: &UtcInstant) -> (r: Result<
    (),
    String,
>)
    requires
        chrono_timestamp_valid(now.secs, now.nanos),
    ensures
        outcome(r) == pong_reply_check(*reply, expected_req_id@, *now),
{
    match reply {
        Reply::TimedOut => fail("Timeout waiting for pong message"),
        Reply::Closed => fail("Stream closed unexpectedly"),
        Reply::NonText => fail("No valid pong response received"),
        Reply::Malformed(_) => fail("Failed to parse JSON"),
        Reply::Parsed(data) => {
            let op = match data.str_at("op") {
                Some(op) => op,
                None => {
                    proof {
                        reveal_strlit("");
                    }
                    ""
                },
            };
            assert(op@ == match data.at("op"@).str_view() {
                Some(op) => op,
                None => Seq::<char>::empty(),
            });
            if crate::text::str_eq(op, "ping") {
                let r = handle_spot_inverse_linear(data, expected_req_id);
                assert(outcome(r) == pong_reply_check(*reply, expected_req_id@, *now));
                r
            } else if crate::text::str_eq(op, "pong") {
                handle_pong_at(data, expected_req_id, now)
            } else {
                fail("No valid pong response received")
            }
        },
    }
}

/// Judges the reply awaited after a ping, at the current time.
pub fn verify_pong(reply: &Reply, expected_req_id: &str) -> (r: Result<(), String>)
    ensures
        exists|now: UtcInstant|
            #![trigger pong_reply_check(*reply, expected_req_id@, now)]
            chrono_timestamp_valid(now.secs, now.nanos) && outcome(r) == pong_reply_check(
                *reply,
                expected_req_id@,
                now,
            ),
{
    let now = utc_now();
    verify_pong_at(reply, expected_req_id, &now)
}

/// The body of a ping: `{"op": "ping", "args": null, "req_id": <id>}`.
pub open spec fn is_ping_payload(j: Json, req_id: Seq<char>) -> bool {
    match j {
        Json::Object(f) => {
            &&& f@.len() == 3
            &&& f@[0].0@ == "op"@ && f@[0].1.is_text("ping"@)
            &&& f@[1].0@ == "args"@ && f@[1].1 is Null
            &&& f@[2].0@ == "req_id"@ && f@[2].1.is_text(req_id)
        },
        _ => false,
    }
}

/// The body of a ping carrying `req_id`.
pub fn ping_payload(req_id: &str) -> (r: Json)
    ensures
        is_ping_payload(r, req_id@),
{
    Json::Object(
        vec![
            ("op".to_string(), Json::Str("ping".to_string())),
            ("args".to_string(), Json::Null),
            ("req_id".to_string(), Json::Str(req_id.to_string())),
        ],
    )
}

/// A ping about to be sent and the identifier its pong must echo.
pub struct PingRequest {
    pub req_id: String,
    pub payload: Json,
}

/// The next ping, under a fresh random request identifier.
pub fn next_ping() -> (r: PingRequest)
    ensures
        is_v4_uuid_text(r.req_id@),
        is_ping_payload(r.payload, r.req_id@),
{
    let req_id = new_request_id();
    let payload = ping_payload(req_id.as_str());
    PingRequest { req_id, payload }
}

} // verus!
