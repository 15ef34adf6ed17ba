//! Subscribing to an endpoint: which endpoint kind a URI names, whether it
//! needs authentication, the topic batches, the request bodies, and the
//! verdict on the exchange's answer.
use vstd::prelude::*;
use vstd::string::*;
use crate::config::{AppConfig, topic_lookup};
use crate::heartbeat::outcome;
use crate::ids::{is_v4_uuid_text, new_request_id};
use crate::json::{Json, Reply};
use crate::text::str_eq;
use crate::topics::{
    flatten,
    lemma_chunk_sizes,
    lemma_chunks_flatten,
    lemma_expand_shape,
    all_topics,
    batch_texts,
    chunk_topics,
    chunks,
    dedup,
    expand,
    texts,
    unique_topics,
};

verus! {

#[verifier::external_type_specification]
#[verifier::external_body]
pub struct ExUrlParseError(url::ParseError);

/// The path of `uri` after URL parsing, or `None` when it does not parse.
pub uninterp spec fn url_path(uri: Seq<char>) -> Option<Seq<char>>;

/// `Url::parse(uri)` and then `Url::path`: the outcome is named by `url_path`.
#[verifier::external_body]
pub(crate) fn parse_url_path(uri: &str) -> (r: Result<String, url::ParseError>)
    ensures
        r is Ok <==> url_path(uri@) is Some,
        r matches Ok(p) ==> url_path(uri@) == Some(p@),
{
    url::Url::parse(uri).map(|u| u.path().to_string())
}

/// `ParseError`'s `Display` text.
#[verifier::external_body]
pub(crate) fn url_error_text(e: &url::ParseError) -> String {
    e.to_string()
}

/// The characters after the last `/` (all of them when there is none).
pub open spec fn after_last_slash(s: Seq<char>) -> Seq<char>
    decreases s.len(),
{
    if s.len() == 0 {
        s
    } else if s.last() == '/' {
        Seq::empty()
    } else {
        after_last_slash(s.drop_last()).push(s.last())
    }
}

/// The last of the `/`-separated path segments; a path that does not start
/// with `/` (a URL that cannot be a base) has none.
pub open spec fn last_path_segment(path: Seq<char>) -> Option<Seq<char>> {
    if path.len() > 0 && path[0] == '/' {
        Some(after_last_slash(path))
    } else {
        None
    }
}

/// Why no subscription plan could be made.
pub enum SubscribeError {
    /// The URI does not parse.
    Url(url::ParseError),
    /// The URI's path has no segments.
    NoLastSegment,
    /// The settings list no topics for this endpoint kind.
    NoTopics(String),
}

impl SubscribeError {
    /// The message that reports the error.
    pub fn error_text(&self) -> (r: String)
        ensures
            *self matches SubscribeError::NoLastSegment ==> r@
                == "Invalid URI: Cannot determine last segment"@,
            *self matches SubscribeError::NoTopics(k) ==> r@ == "No topics found for "@ + k@,
    {
        match self {
            SubscribeError::Url(e) => url_error_text(e),
            SubscribeError::NoLastSegment => "Invalid URI: Cannot determine last segment".to_string(),
            SubscribeError::NoTopics(k) => "No topics found for ".to_string().concat(k.as_str()),
        }
    }
}

/// The last path segment of `path`, as `path_segments().last()` gives it.
pub fn last_segment_of_path(path: &str) -> (r: Option<String>)
    ensures
        r is None <==> last_path_segment(path@) is None,
        r matches Some(t) ==> last_path_segment(path@) == Some(t@),
{
    let n = path.unicode_len();
    if n == 0 || path.get_char(0) != '/' {
        return None;
    }
    let mut start: usize = 0;
    let mut i: usize = 0;
    assert(path@.take(0) =~= Seq::<char>::empty());
    while i < n
        invariant
            n == path@.len(),
            start <= i <= n,
            after_last_slash(path@.take(i as int)) == path@.subrange(start as int, i as int),
        decreases n - i,
    {
        let c = path.get_char(i);
        let ghost pre = path@.take(i + 1);
        assert(pre.drop_last() =~= path@.take(i as int));
        assert(pre.last() == c);
        if c == '/' {
            start = i + 1;
            assert(path@.subrange(start as int, i + 1) =~= Seq::<char>::empty());
        } else {
            assert(path@.subrange(start as int, i + 1) =~= path@.subrange(
                start as int,
                i as int,
            ).push(c));
        }
        i += 1;
    }
    assert(path@.take(n as int) =~= path@);
    Some(path.substring_char(start, n).to_string())
}

/// The endpoint kind a URI names: the last segment of its path.
pub fn endpoint_segment(uri: &str) -> (r: Result<String, SubscribeError>)
    ensures
        url_path(uri@) is None <==> r matches Err(SubscribeError::Url(_)),
        url_path(uri@) matches Some(p) ==> match last_path_segment(p) {
            Some(s) => r matches Ok(t) && t@ == s,
            None => r matches Err(SubscribeError::NoLastSegment),
        },
{
    match parse_url_path(uri) {
        Err(e) => Err(SubscribeError::Url(e)),
        Ok(path) => match last_segment_of_path(path.as_str()) {
            Some(s) => Ok(s),
            None => Err(SubscribeError::NoLastSegment),
        },
    }
}

/// The endpoint kind that authenticates before subscribing.
pub open spec fn is_private(segment: Seq<char>) -> bool {
    segment == "private"@
}

/// Whether an endpoint kind must authenticate before subscribing.
pub fn needs_auth(segment: &str) -> (r: bool)
    ensures
        r == is_private(segment@),
{
    str_eq(segment, "private")
}

/// How many topics one subscribe request carries.
pub const TOPICS_PER_REQUEST: usize = 10;

/// The topics an endpoint kind subscribes to: its configured topics without
/// repeats, each paired with every trading pair unless the kind is private.
pub open spec fn planned_topics(
    configured: Seq<Seq<char>>,
    pairs: Seq<Seq<char>>,
    segment: Seq<char>,
) -> Seq<Seq<char>> {
    if is_private(segment) {
        dedup(configured)
    } else {
        expand(dedup(configured), pairs)
    }
}

/// The planned topics of an endpoint kind: for the kind named `private`, its
/// configured topics without repeats; for every other kind, `topic.pair` for
/// each of those topics and each trading pair, topic by topic and, within a
/// topic, pair by pair.
pub proof fn lemma_planned_topics(configured: Seq<Seq<char>>, pairs: Seq<Seq<char>>, segment: Seq<char>)
    ensures
        segment == "private"@ ==> planned_topics(configured, pairs, segment) == dedup(configured),
        segment != "private"@ ==> planned_topics(configured, pairs, segment).len() == dedup(
            configured,
        ).len() * pairs.len(),
        segment != "private"@ ==> forall|i: int, j: int|
            0 <= i < dedup(configured).len() && 0 <= j < pairs.len() ==> #[trigger] planned_topics(
                configured,
                pairs,
                segment,
            )[i * pairs.len() + j] == dedup(configured)[i] + "."@ + pairs[j],
{
    lemma_expand_shape(dedup(configured), pairs);
}

/// Put back together, the batches of an endpoint kind are its planned
/// topics in order, and every batch holds 1 to 10 of them.
pub proof fn lemma_batches_are_planned(
    configured: Seq<Seq<char>>,
    pairs: Seq<Seq<char>>,
    segment: Seq<char>,
)
    ensures
        flatten(chunks(planned_topics(configured, pairs, segment), TOPICS_PER_REQUEST as nat))
            == planned_topics(configured, pairs, segment),
        forall|i: int|
            0 <= i < chunks(planned_topics(configured, pairs, segment), TOPICS_PER_REQUEST as nat).len()
                ==> 0 < #[trigger] chunks(
                planned_topics(configured, pairs, segment),
                TOPICS_PER_REQUEST as nat,
            )[i].len() <= TOPICS_PER_REQUEST,
{
    lemma_chunks_flatten(planned_topics(configured, pairs, segment), TOPICS_PER_REQUEST as nat);
    lemma_chunk_sizes(planned_topics(configured, pairs, segment), TOPICS_PER_REQUEST as nat);
}

/// The subscribe batches of an endpoint kind.
pub fn subscription_batches(config: &AppConfig, segment: &str) -> (r: Result<
    Vec<Vec<String>>,
    SubscribeError,
>)
    requires
        config.keys_unique(),
    ensures
        match topic_lookup(config.topics@, segment@) {
            None => r matches Err(SubscribeError::NoTopics(k)) && k@ == segment@,
            Some(v) => r matches Ok(b) && batch_texts(b@) == chunks(
                planned_topics(texts(v@), texts(config.trading_pairs@), segment@),
                TOPICS_PER_REQUEST as nat,
            ),
        },
{
    let topics = match config.topics_for(segment) {
        Some(t) => t,
        None => {
            return Err(SubscribeError::NoTopics(segment.to_string()));
        },
    };
    let unique = unique_topics(topics);
    let all = all_topics(&unique, &config.trading_pairs, needs_auth(segment));
    Ok(chunk_topics(&all, TOPICS_PER_REQUEST))
}

/// The strings of a JSON array, in order.
pub open spec fn is_text_array(j: Json, items: Seq<Seq<char>>) -> bool {
    match j {
        Json::Array(v) => v@.len() == items.len() && forall|i: int|
            0 <= i < items.len() ==> (#[trigger] v@[i]).is_text(items[i]),
        _ => false,
    }
}

fn text_array(items: &Vec<String>) -> (r: Json)
    ensures
        is_text_array(r, texts(items@)),
{
    let mut v: Vec<Json> = Vec::new();
    let n = items.len();
    let mut i: usize = 0;
    while i < n
        invariant
            n == items@.len(),
            i <= n,
            v@.len() == i,
            forall|k: int| 0 <= k < i ==> (#[trigger] v@[k]).is_text(items@[k]@),
        decreases n - i,
    {
        v.push(Json::Str(items[i].clone()));
        i += 1;
    }
    Json::Array(v)
}

/// The body of a subscribe request: `{"req_id": <id>, "op": "subscribe",
/// "args": [<topics>]}`.
pub open spec fn is_subscribe_payload(j: Json, req_id: Seq<char>, topics: Seq<Seq<char>>) -> bool {
    match j {
        Json::Object(f) => {
            &&& f@.len() == 3
            &&& f@[0].0@ == "req_id"@ && f@[0].1.is_text(req_id)
            &&& f@[1].0@ == "op"@ && f@[1].1.is_text("subscribe"@)
            &&& f@[2].0@ == "args"@ && is_text_array(f@[2].1, topics)
        },
        _ => false,
    }
}

/// The body of a subscribe request for `topics`.
pub fn subscribe_payload(req_id: &str, topics: &Vec<String>) -> (r: Json)
    ensures
        is_subscribe_payload(r, req_id@, texts(topics@)),
{
    Json::Object(
        vec![
            ("req_id".to_string(), Json::Str(req_id.to_string())),
            ("op".to_string(), Json::Str("subscribe".to_string())),
            ("args".to_string(), text_array(topics)),
        ],
    )
}

/// A subscribe request about to be sent and the identifier its answer must echo.
pub struct SubscribeRequest {
    pub req_id: String,
    pub payload: Json,
}

/// The subscribe request of one batch, under a fresh random request identifier.
pub fn next_subscribe(topics: &Vec<String>) -> (r: SubscribeRequest)
    ensures
        is_v4_uuid_text(r.req_id@),
        is_subscribe_payload(r.payload, r.req_id@, texts(topics@)),
{
    let req_id = new_request_id();
    let payload = subscribe_payload(req_id.as_str(), topics);
    SubscribeRequest { req_id, payload }
}

/// The verdict on the answer awaited after a subscribe request.
pub open spec fn subscription_reply_check(reply: Reply, req_id: Seq<char>) -> Result<
    (),
    Seq<char>,
> {
    match reply {
        Reply::TimedOut => Err("No message received in 2 seconds for verification"@),
        Reply::Closed => Err("No message received in 2 seconds for verification"@),
        Reply::NonText => Err("Failed to verify subscription or no more messages"@),
        Reply::Malformed(e) => Err("Failed to parse incoming message as JSON: "@ + e@),
        Reply::Parsed(j) => if j.at("req_id"@).is_text(req_id) && j.at("op"@).is_text(
            "subscribe"@,
        ) && j.at("success"@).bool_value() == Some(true) {
            Ok(())
        } else {
            Err("Failed to verify subscription or no more messages"@)
        },
    }
}

/// The verdict on an answer to a subscribe request depends only on its
/// `req_id`, `op` and `success` members: it is accepted exactly when `req_id`
/// is the request's id, `op` is "subscribe" and `success` is true, whatever
/// the other members (`ret_msg`, `conn_id`, ...) hold; and two answers that
/// agree on those three members get the same verdict. A reply that was not
/// parsed is refused.
pub proof fn lemma_subscription_verdict(reply: Reply, other: Json, req_id: Seq<char>)
    ensures
        !(reply is Parsed) ==> subscription_reply_check(reply, req_id) is Err,
        reply is Parsed ==> (subscription_reply_check(reply, req_id) is Ok <==> (reply->Parsed_0.at(
            "req_id"@,
        ).is_text(req_id) && reply->Parsed_0.at("op"@).is_text("subscribe"@) && reply->Parsed_0.at(
            "success"@,
        ) == Json::Bool(true))),
        reply is Parsed && reply->Parsed_0.at("req_id"@) == other.at("req_id"@) && reply->Parsed_0.at(
            "op"@,
        ) == other.at("op"@) && reply->Parsed_0.at("success"@) == other.at("success"@)
            ==> subscription_reply_check(reply, req_id) == subscription_reply_check(
            Reply::Parsed(other),
            req_id,
        ),
{
}

/// Judges the answer to a subscribe request sent on `uri`.
pub fn verify_subscription(reply: &Reply, req_id: &str, uri: &str) -> (r: Result<(), String>)
    ensures
        outcome(r) == subscription_reply_check(*reply, req_id@),
{
    match reply {
        Reply::TimedOut => Err("No message received in 2 seconds for verification".to_string()),
        Reply::Closed => Err("No message received in 2 seconds for verification".to_string()),
        Reply::NonText => Err("Failed to verify subscription or no more messages".to_string()),
        Reply::Malformed(e) => Err(
            "Failed to parse incoming message as JSON: ".to_string().concat(e.as_str()),
        ),
        Reply::Parsed(j) => {
            let ok = j.text_at_is("req_id", req_id) && j.text_at_is("op", "subscribe") && match j.bool_at(
                "success",
            ) {
                Some(b) => b,
                None => false,
            };
            if ok {
                Ok(())
            } else {
                Err("Failed to verify subscription or no more messages".to_string())
            }
        },
    }
}

} // verus!
