//! Routing of incoming frames: heartbeat answers, subscription answers and
//! market data go to different consumers.
use vstd::prelude::*;
use crate::common::{MyMessage, WsMessage};
use crate::json::Json;
use crate::text::str_eq;

verus! {

/// A frame read from the socket, with the JSON decoding of a text frame.
pub enum Incoming {
    /// Reading failed; the description of the socket error.
    Failed(String),
    /// A frame that is not text.
    NonText,
    /// A text frame and its decoding (the decoder's description of a fault).
    Text { text: String, parsed: Result<Json, String> },
}

/// The consumer a text frame goes to.
pub enum Route {
    /// A ping or pong answer, for the heartbeat task.
    Heartbeat(String),
    /// A subscribe answer, for the subscription task.
    Subscription(String),
    /// Anything else, for the general consumer.
    General(String),
    /// Nothing to forward.
    Ignore,
}

/// The consumer of a frame, by the text of its `op` member.
pub open spec fn route_of(msg: Incoming) -> Result<(int, Seq<char>), Seq<char>> {
    match msg {
        Incoming::Failed(e) => Err("Error receiving ws message: "@ + e@),
        Incoming::NonText => Ok((0, Seq::empty())),
        Incoming::Text { text, parsed } => match parsed {
            Err(e) => Err("Failed to parse message: "@ + e@),
            Ok(v) => match v.at("op"@).str_view() {
                Some(op) => if op == "ping"@ || op == "pong"@ {
                    Ok((1, text@))
                } else if op == "subscribe"@ {
                    Ok((2, text@))
                } else {
                    Ok((3, text@))
                },
                None => Ok((3, text@)),
            },
        },
    }
}

/// A route as a consumer number (0 none, 1 heartbeat, 2 subscription, 3
/// general) and the text it carries.
pub open spec fn route_view(r: Result<Route, String>) -> Result<(int, Seq<char>), Seq<char>> {
    match r {
        Err(e) => Err(e@),
        Ok(Route::Ignore) => Ok((0, Seq::empty())),
        Ok(Route::Heartbeat(t)) => Ok((1, t@)),
        Ok(Route::Subscription(t)) => Ok((2, t@)),
        Ok(Route::General(t)) => Ok((3, t@)),
    }
}

/// Decides where a frame goes; an error ends the reading loop.
pub fn process_message(message: Incoming) -> (r: Result<Route, String>)
    ensures
        route_view(r) == route_of(message),
{
    match message {
        Incoming::Failed(e) => Err("Error receiving ws message: ".to_string().concat(e.as_str())),
        Incoming::NonText => Ok(Route::Ignore),
        Incoming::Text { text, parsed } => match parsed {
            Err(e) => Err("Failed to parse message: ".to_string().concat(e.as_str())),
            Ok(v) => {
                let kind: u8 = match v.str_at("op") {
                    Some(op) => if str_eq(op, "ping") || str_eq(op, "pong") {
                        1
                    } else if str_eq(op, "subscribe") {
                        2
                    } else {
                        3
                    },
                    None => 3,
                };
                if kind == 1 {
                    Ok(Route::Heartbeat(text))
                } else if kind == 2 {
                    Ok(Route::Subscription(text))
                } else {
                    Ok(Route::General(text))
                }
            },
        },
    }
}

/// `Utc::now().timestamp_millis()`: the current time, which `Utc::now` takes
/// from the system clock as a duration since the UNIX epoch, so it is not negative.
/// It panics when the system clock reads before 1970, which no argument decides.
#[verifier::external_body]
pub(crate) fn utc_now_millis() -> (r: i64)
    ensures
        r >= 0,
{
    chrono::Utc::now().timestamp_millis()
}

/// A text frame tagged with its endpoint and the given receive time.
pub fn create_my_message_at(text: String, uri: &str, receivedat: i64) -> (r: MyMessage)
    ensures
        r.receivedat == receivedat,
        r.endpoint_name@ == uri@,
        r.message.text_view() == Some(text@),
{
    MyMessage { receivedat, endpoint_name: uri.to_string(), message: WsMessage::Text(text) }
}

/// A text frame tagged with its endpoint and the current time in milliseconds.
pub fn create_my_message(text: String, uri: &str) -> (r: MyMessage)
    ensures
        r.endpoint_name@ == uri@,
        r.message.text_view() == Some(text@),
        r.receivedat >= 0,
{
    create_my_message_at(text, uri, utc_now_millis())
}

/// A member that may be missing or null, else a boolean.
pub open spec fn optional_bool(v: Option<Json>) -> bool {
    match v {
        None => true,
        Some(Json::Null) => true,
        Some(Json::Bool(_)) => true,
        _ => false,
    }
}

/// A member that may be missing or null, else a string.
pub open spec fn optional_text(v: Option<Json>) -> bool {
    match v {
        None => true,
        Some(Json::Null) => true,
        Some(Json::Str(_)) => true,
        _ => false,
    }
}

/// A member that may be missing or null, else a list of strings.
pub open spec fn optional_texts(v: Option<Json>) -> bool {
    match v {
        None => true,
        Some(Json::Null) => true,
        Some(Json::Array(a)) => forall|i: int| 0 <= i < a@.len() ==> a@[i] is Str,
        _ => false,
    }
}

/// The members of an answer to a ping or a subscribe request, as the
/// answer's record reads an object: `op` a string; `success` a boolean;
/// `ret_msg`, `conn_id` and `req_id` strings; for a ping answer (`with_args`)
/// also `args`, a list of strings. All but `op` may be missing or null; other
/// members are ignored.
pub open spec fn answer_shape(j: Json, with_args: bool) -> bool {
    &&& j is Object
    &&& j.field("op"@) matches Some(Json::Str(_))
    &&& optional_bool(j.field("success"@))
    &&& optional_text(j.field("ret_msg"@))
    &&& optional_text(j.field("conn_id"@))
    &&& optional_text(j.field("req_id"@))
    &&& with_args ==> optional_texts(j.field("args"@))
}

/// The shape of an answer depends on the kinds of its members, not on their
/// values: two objects with the same `op`, `ret_msg`, `conn_id`, `req_id` and
/// `args` members, each with a boolean `success` (whichever booleans, true or
/// false), have the same shape. An answer that fails (`success` false) is an
/// answer all the same: with `op` a string and no other member it has the
/// shape.
pub proof fn lemma_answer_shape_ignores_values(j1: Json, j2: Json, with_args: bool)
    ensures
        j1 is Object && j2 is Object && j1.field("op"@) == j2.field("op"@) && j1.field("ret_msg"@)
            == j2.field("ret_msg"@) && j1.field("conn_id"@) == j2.field("conn_id"@) && j1.field(
            "req_id"@,
        ) == j2.field("req_id"@) && j1.field("args"@) == j2.field("args"@) && j1.field(
            "success"@,
        ) is Some && j1.field("success"@)->0 is Bool && j2.field("success"@) is Some && j2.field(
            "success"@,
        )->0 is Bool ==> answer_shape(j1, with_args) == answer_shape(j2, with_args),
        j1 is Object && j1.field("op"@) is Some && j1.field("op"@)->0 is Str && j1.field(
            "success"@,
        ) is Some && j1.field("success"@)->0 is Bool && j1.field("ret_msg"@) is None && j1.field(
            "conn_id"@,
        ) is None && j1.field("req_id"@) is None && j1.field("args"@) is None ==> answer_shape(
            j1,
            with_args,
        ),
{
}

fn is_optional_bool(v: Option<&Json>) -> (r: bool)
    ensures
        r == optional_bool(match v {
            Some(x) => Some(*x),
            None => None,
        }),
{
    match v {
        None => true,
        Some(Json::Null) => true,
        Some(Json::Bool(_)) => true,
        _ => false,
    }
}

fn is_optional_text(v: Option<&Json>) -> (r: bool)
    ensures
        r == optional_text(match v {
            Some(x) => Some(*x),
            None => None,
        }),
{
    match v {
        None => true,
        Some(Json::Null) => true,
        Some(Json::Str(_)) => true,
        _ => false,
    }
}

fn is_optional_texts(v: Option<&Json>) -> (r: bool)
    ensures
        r == optional_texts(match v {
            Some(x) => Some(*x),
            None => None,
        }),
{
    let x = match v {
        None => {
            return true;
        },
        Some(x) => x,
    };
    let a = match x {
        Json::Null => {
            return true;
        },
        Json::Array(a) => a,
        _ => {
            return false;
        },
    };
    assert(*x == Json::Array(*a));
    let n = a.len();
    let mut i: usize = 0;
    while i < n
        invariant
            n == a@.len(),
            i <= n,
            forall|k: int| 0 <= k < i ==> a@[k] is Str,
            optional_texts(match v {
                Some(x) => Some(*x),
                None => None,
            }) == (forall|k: int| 0 <= k < a@.len() ==> a@[k] is Str),
        decreases n - i,
    {
        match &a[i] {
            Json::Str(_) => {},
            _ => {
                assert(!(a@[i as int] is Str));
                return false;
            },
        }
        i += 1;
    }
    true
}

/// Whether an answer has the members its record reads (`answer_shape`).
pub fn has_answer_shape(j: &Json, with_args: bool) -> (r: bool)
    ensures
        r == answer_shape(*j, with_args),
{
    match j {
        Json::Object(_) => {},
        _ => {
            return false;
        },
    }
    let op_ok = match j.get("op") {
        Some(Json::Str(_)) => true,
        _ => false,
    };
    op_ok && is_optional_bool(j.get("success")) && is_optional_text(j.get("ret_msg"))
        && is_optional_text(j.get("conn_id")) && is_optional_text(j.get("req_id")) && (!with_args
        || is_optional_texts(j.get("args")))
}

} // verus!
