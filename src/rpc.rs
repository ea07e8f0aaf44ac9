//! The JSON-RPC decisions of a session connector: recognising the agent's
//! handshake responses, replaying them to a reconnecting client, and
//! consuming the bridge's own control messages.

use crate::json::{
    empty_object, field, model_of, get_field, get_str, has_field, is_object, json_model, json_parse, json_text,
    number_value, parse_json, print_json, set_field, string_value, text_of, JsonV,
};
use crate::text::{decimal, str_eq};
use serde_json::Value;
use vstd::prelude::*;

verus! {

/// Messages a session-request interception may skip; it gives up on the
/// next one it would skip.
pub const MAX_SKIPPED: u32 = 5;

/// The `method` of a message, when it is a string.
pub open spec fn method_of(j: JsonV) -> Option<Seq<char>> {
    text_of(field(j, "method"@))
}

/// A response to `initialize`: a `result` holding capabilities, server or
/// agent information, or a protocol version.
pub open spec fn initialize_shape(j: JsonV) -> bool {
    match field(j, "result"@) {
        Some(r) => field(r, "capabilities"@) is Some || field(r, "serverInfo"@) is Some || field(
            r,
            "agentInfo"@,
        ) is Some || field(r, "agentCapabilities"@) is Some || field(r, "protocolVersion"@) is Some,
        None => false,
    }
}

/// A response to a session creation: a `result` holding a `sessionId`.
pub open spec fn create_session_shape(j: JsonV) -> bool {
    match field(j, "result"@) {
        Some(r) => field(r, "sessionId"@) is Some,
        None => false,
    }
}

/// Whether a parsed message has the shape of an `initialize` response.
pub fn is_initialize_value(v: &Value) -> (r: bool)
    ensures
        r == initialize_shape(json_model(*v)),
{
    match get_field(v, "result") {
        Some(res) => has_field(&res, "capabilities") || has_field(&res, "serverInfo") || has_field(
            &res,
            "agentInfo",
        ) || has_field(&res, "agentCapabilities") || has_field(&res, "protocolVersion"),
        None => false,
    }
}

/// Whether a line is JSON with the shape of an `initialize` response.
pub fn is_initialize_response(msg: &str) -> (r: bool)
    ensures
        r == (json_parse(msg@) matches Some(j) && initialize_shape(j)),
{
    match parse_json(msg) {
        Some(v) => is_initialize_value(&v),
        None => false,
    }
}

/// Whether a parsed message has the shape of a session-creation response.
pub fn is_create_session_value(v: &Value) -> (r: bool)
    ensures
        r == create_session_shape(json_model(*v)),
{
    match get_field(v, "result") {
        Some(res) => has_field(&res, "sessionId"),
        None => false,
    }
}

/// Whether a line is JSON with the shape of a session-creation response.
pub fn is_create_session_response(msg: &str) -> (r: bool)
    ensures
        r == (json_parse(msg@) matches Some(j) && create_session_shape(j)),
{
    match parse_json(msg) {
        Some(v) => is_create_session_value(&v),
        None => false,
    }
}

/// The cached response with its `id` replaced by the request's `id`, when the
/// cached response is an object and the request has an `id`.
pub open spec fn with_request_id(req: JsonV, cached: JsonV) -> Option<JsonV> {
    match (field(req, "id"@), cached) {
        (Some(id), JsonV::Object(m)) => Some(JsonV::Object(m.insert("id"@, id))),
        _ => None,
    }
}

/// The reply to a reconnecting client's first message: the cached
/// `initialize` response under the request's `id`, when the message is an
/// `initialize` request with an `id`.
pub open spec fn initialize_reply(req: JsonV, cached: JsonV) -> Option<JsonV> {
    if method_of(req) == Some("initialize"@) {
        with_request_id(req, cached)
    } else {
        None
    }
}

/// The cached response under the `id` of the request `req`.
pub fn reply_with_request_id(req: &Value, cached: &Value) -> (r: Option<Value>)
    ensures
        model_of(r) == with_request_id(json_model(*req), json_model(*cached)),
{
    match get_field(req, "id") {
        Some(id) => {
            if is_object(cached) {
                let mut reply = cached.clone();
                set_field(&mut reply, String::from_str("id"), id);
                Some(reply)
            } else {
                None
            }
        },
        None => None,
    }
}

/// The reply to a reconnecting client's first message, from the parsed
/// message and the parsed cached `initialize` response.
pub fn initialize_reply_value(req: &Value, cached: &Value) -> (r: Option<Value>)
    ensures
        model_of(r) == initialize_reply(json_model(*req), json_model(*cached)),
{
    match get_str(req, "method") {
        Some(m) => {
            if str_eq(m.as_str(), "initialize") {
                reply_with_request_id(req, cached)
            } else {
                None
            }
        },
        None => None,
    }
}

/// The text of the reply to a reconnecting client's first message `client`,
/// given the cached `initialize` response `cached`; `None` where either text
/// is no JSON or the message is no `initialize` request with an `id`.
pub open spec fn intercept_initialize_spec(client: Seq<char>, cached: Seq<char>) -> Option<Seq<char>> {
    match (json_parse(client), json_parse(cached)) {
        (Some(q), Some(c)) => match initialize_reply(q, c) {
            Some(reply) => Some(json_text(reply)),
            None => None,
        },
        _ => None,
    }
}

/// Answers a reconnecting client's `initialize` request from the cache.
pub fn intercept_initialize(client_msg: &str, cached_response: &str) -> (r: Option<String>)
    ensures
        r.deep_view() == intercept_initialize_spec(client_msg@, cached_response@),
{
    let req = match parse_json(client_msg) {
        Some(v) => v,
        None => return None,
    };
    let cached = match parse_json(cached_response) {
        Some(v) => v,
        None => return None,
    };
    match initialize_reply_value(&req, &cached) {
        Some(reply) => Some(print_json(&reply)),
        None => None,
    }
}

/// A reply built from the cache carries the request's `id` and the cached
/// `result` unchanged, so its printed `result` is the cached one.
pub proof fn lemma_initialize_reply_keeps_result(req: JsonV, cached: JsonV)
    requires
        initialize_reply(req, cached) is Some,
    ensures
        field(initialize_reply(req, cached)->0, "id"@) == field(req, "id"@),
        field(initialize_reply(req, cached)->0, "result"@) == field(cached, "result"@),
        field(cached, "result"@) matches Some(res) ==> field(initialize_reply(req, cached)->0, "result"@)
            matches Some(res2) && json_text(res2) == json_text(res),
{
    let reply = initialize_reply(req, cached)->0;
    if let JsonV::Object(m) = cached {
        let id = field(req, "id"@)->0;
        assert(reply == JsonV::Object(m.insert("id"@, id)));
        reveal_strlit("result");
        reveal_strlit("id");
        assert("result"@.len() != "id"@.len());
    }
}

/// The response given to an `initialize` request that arrives while a
/// session request is awaited and nothing is cached for it.
pub open spec fn synthetic_initialize(id: JsonV) -> JsonV {
    let info = Map::<Seq<char>, JsonV>::empty().insert("name"@, JsonV::Str("bridge"@)).insert(
        "version"@,
        JsonV::Str("1.0.0"@),
    );
    let result = Map::<Seq<char>, JsonV>::empty().insert("protocolVersion"@, JsonV::Number(decimal(1))).insert(
        "agentCapabilities"@,
        JsonV::Object(Map::empty()),
    ).insert("agentInfo"@, JsonV::Object(info));
    JsonV::Object(
        Map::<Seq<char>, JsonV>::empty().insert("jsonrpc"@, JsonV::Str("2.0"@)).insert("id"@, id).insert(
            "result"@,
            JsonV::Object(result),
        ),
    )
}

/// Builds the response of `synthetic_initialize`.
pub fn synthetic_initialize_value(id: Value) -> (r: Value)
    ensures
        json_model(r) == synthetic_initialize(json_model(id)),
{
    let mut info = empty_object();
    set_field(&mut info, String::from_str("name"), string_value(String::from_str("bridge")));
    set_field(&mut info, String::from_str("version"), string_value(String::from_str("1.0.0")));
    let mut result = empty_object();
    set_field(&mut result, String::from_str("protocolVersion"), number_value(1));
    set_field(&mut result, String::from_str("agentCapabilities"), empty_object());
    set_field(&mut result, String::from_str("agentInfo"), info);
    let mut reply = empty_object();
    set_field(&mut reply, String::from_str("jsonrpc"), string_value(String::from_str("2.0")));
    set_field(&mut reply, String::from_str("id"), id);
    set_field(&mut reply, String::from_str("result"), result);
    reply
}

/// What a session-request interception does with one client message.
pub ghost enum StepKind {
    /// The message is `session/new` or `session/load`: answer from the cache.
    Reply(JsonV),
    /// The message is a notification: skip it.
    Skip,
    /// The message is an uncached `initialize` request: answer it and go on.
    Answer(JsonV),
    /// Anything else: stop intercepting.
    GiveUp,
}

/// The decision on one client message while a session request is awaited.
pub open spec fn session_step_kind(req: Option<JsonV>, cached: Option<JsonV>) -> StepKind {
    match req {
        None => StepKind::GiveUp,
        Some(q) => {
            let m = method_of(q);
            if m == Some("session/new"@) || m == Some("session/load"@) {
                match cached {
                    Some(c) => match with_request_id(q, c) {
                        Some(reply) => StepKind::Reply(reply),
                        None => StepKind::GiveUp,
                    },
                    None => StepKind::GiveUp,
                }
            } else if field(q, "method"@) is Some && field(q, "id"@) is None {
                StepKind::Skip
            } else if m == Some("initialize"@) && field(q, "id"@) is Some {
                StepKind::Answer(synthetic_initialize(field(q, "id"@)->0))
            } else {
                StepKind::GiveUp
            }
        },
    }
}

/// The outcome of one step of a session-request interception.
pub struct InterceptStep {
    /// The text to send to the client, if any.
    pub send: Option<String>,
    /// Whether the interception is over.
    pub finished: bool,
    /// Whether the session request was answered from the cache.
    pub intercepted: bool,
    /// Messages skipped so far.
    pub skipped: u32,
}

/// One step of a session-request interception: `msg` is the client's next
/// message, `cached_response` the cached session response and `skipped` the
/// messages skipped so far. Notifications and uncached `initialize` requests
/// are skipped, and once more than `MAX_SKIPPED` are, the interception gives
/// up; a `session/new` or `session/load` request is answered from the cache;
/// anything else ends the interception.
pub fn session_intercept_step(msg: &str, cached_response: &str, skipped: u32) -> (r: InterceptStep)
    ensures
        skipped > MAX_SKIPPED ==> r.send is None && r.finished && !r.intercepted && r.skipped == skipped,
        skipped <= MAX_SKIPPED ==> match session_step_kind(json_parse(msg@), json_parse(cached_response@)) {
            StepKind::Reply(reply) => r.send.deep_view() == Some(json_text(reply)) && r.finished
                && r.intercepted && r.skipped == skipped,
            StepKind::Skip => r.send is None && r.skipped == skipped + 1 && r.finished == (
            skipped + 1 > MAX_SKIPPED) && !r.intercepted,
            StepKind::Answer(reply) => r.send.deep_view() == Some(json_text(reply)) && r.skipped
                == skipped + 1 && r.finished == (skipped + 1 > MAX_SKIPPED) && !r.intercepted,
            StepKind::GiveUp => r.send is None && r.finished && !r.intercepted && r.skipped == skipped,
        },
{
    let give_up = InterceptStep { send: None, finished: true, intercepted: false, skipped };
    if skipped > MAX_SKIPPED {
        return give_up;
    }
    let req = match parse_json(msg) {
        Some(v) => v,
        None => return give_up,
    };
    let method = get_str(&req, "method");
    let is_session_request = match &method {
        Some(m) => str_eq(m.as_str(), "session/new") || str_eq(m.as_str(), "session/load"),
        None => false,
    };
    if is_session_request {
        let cached = match parse_json(cached_response) {
            Some(v) => v,
            None => return give_up,
        };
        return match reply_with_request_id(&req, &cached) {
            Some(reply) => InterceptStep {
                send: Some(print_json(&reply)),
                finished: true,
                intercepted: true,
                skipped,
            },
            None => give_up,
        };
    }
    let has_method = has_field(&req, "method");
    let id = get_field(&req, "id");
    match id {
        None => {
            if has_method {
                let n = skipped + 1;
                return InterceptStep { send: None, finished: n > MAX_SKIPPED, intercepted: false, skipped: n };
            }
            give_up
        },
        Some(id) => {
            let is_initialize = match &method {
                Some(m) => str_eq(m.as_str(), "initialize"),
                None => false,
            };
            if is_initialize {
                let reply = synthetic_initialize_value(id);
                let n = skipped + 1;
                InterceptStep {
                    send: Some(print_json(&reply)),
                    finished: n > MAX_SKIPPED,
                    intercepted: false,
                    skipped: n,
                }
            } else {
                give_up
            }
        },
    }
}

/// A device registration requested by the client.
#[derive(Debug, Clone, PartialEq, Eq)]
pub struct PushRegistration {
    pub platform: String,
    pub device_token: String,
    pub bundle_id: String,
}

/// What the connector does with a message from the client.
#[derive(Debug, Clone, PartialEq, Eq)]
pub enum ClientMessage {
    /// Pass the message on to the agent.
    Forward,
    /// A `bridge/registerPushToken` message, consumed; its registration when
    /// it has parameters.
    RegisterPushToken(Option<PushRegistration>),
    /// A `bridge/unregisterPushToken` message, consumed; its device token
    /// when it has parameters.
    UnregisterPushToken(Option<String>),
}

/// The text of a string member, the empty text where it is missing or no string.
pub open spec fn text_or_empty(j: JsonV, k: Seq<char>) -> Seq<char> {
    match text_of(field(j, k)) {
        Some(t) => t,
        None => Seq::empty(),
    }
}

/// The control-message filter on a parsed client message.
pub open spec fn classify_spec(j: Option<JsonV>, r: ClientMessage) -> bool {
    match j {
        Some(q) => if method_of(q) == Some("bridge/registerPushToken"@) {
            match field(q, "params"@) {
                Some(p) => r matches ClientMessage::RegisterPushToken(Some(reg)) && reg.platform@ == text_or_empty(
                    p,
                    "platform"@,
                ) && reg.device_token@ == text_or_empty(p, "deviceToken"@) && reg.bundle_id@
                    == text_or_empty(p, "bundleId"@),
                None => r == ClientMessage::RegisterPushToken(None),
            }
        } else if method_of(q) == Some("bridge/unregisterPushToken"@) {
            match field(q, "params"@) {
                Some(p) => r matches ClientMessage::UnregisterPushToken(Some(t)) && t@ == text_or_empty(
                    p,
                    "deviceToken"@,
                ),
                None => r == ClientMessage::UnregisterPushToken(None),
            }
        } else {
            r == ClientMessage::Forward
        },
        None => r == ClientMessage::Forward,
    }
}

fn str_or_empty(v: &Value, key: &str) -> (r: String)
    ensures
        r@ == text_or_empty(json_model(*v), key@),
{
    match get_str(v, key) {
        Some(s) => s,
        None => String::new(),
    }
}

/// Sorts a client message: the bridge's push-registration messages are
/// consumed, everything else is passed on to the agent.
pub fn classify_client_message(text: &str) -> (r: ClientMessage)
    ensures
        classify_spec(json_parse(text@), r),
{
    let v = match parse_json(text) {
        Some(v) => v,
        None => return ClientMessage::Forward,
    };
    let method = match get_str(&v, "method") {
        Some(m) => m,
        None => return ClientMessage::Forward,
    };
    if str_eq(method.as_str(), "bridge/registerPushToken") {
        match get_field(&v, "params") {
            Some(p) => ClientMessage::RegisterPushToken(
                Some(
                    PushRegistration {
                        platform: str_or_empty(&p, "platform"),
                        device_token: str_or_empty(&p, "deviceToken"),
                        bundle_id: str_or_empty(&p, "bundleId"),
                    },
                ),
            ),
            None => ClientMessage::RegisterPushToken(None),
        }
    } else if str_eq(method.as_str(), "bridge/unregisterPushToken") {
        match get_field(&v, "params") {
            Some(p) => ClientMessage::UnregisterPushToken(Some(str_or_empty(&p, "deviceToken"))),
            None => ClientMessage::UnregisterPushToken(None),
        }
    } else {
        ClientMessage::Forward
    }
}

/// Which handshake responses of a first connection have been captured.
#[derive(Debug, Clone, Copy, PartialEq, Eq, Structural)]
pub struct CaptureState {
    pub init_captured: bool,
    pub session_captured: bool,
}

/// What to cache from one agent line.
#[derive(Debug, Clone, Copy, PartialEq, Eq, Structural)]
pub struct CaptureAction {
    pub cache_init: bool,
    pub cache_session: bool,
}

/// Watches the agent's output on a first connection: the first line shaped
/// like an `initialize` response and the first shaped like a
/// session-creation response are to be cached. A reused session captures
/// nothing.
pub fn capture_step(state: CaptureState, first_connection: bool, line: &str) -> (r: (CaptureAction, CaptureState))
    ensures
        r.0.cache_init == (first_connection && !state.init_captured && (json_parse(line@) matches Some(j)
            && initialize_shape(j))),
        r.0.cache_session == (first_connection && !state.session_captured && (json_parse(line@) matches Some(j)
            && create_session_shape(j))),
        r.1.init_captured == (state.init_captured || r.0.cache_init),
        r.1.session_captured == (state.session_captured || r.0.cache_session),
{
    if !first_connection {
        return (CaptureAction { cache_init: false, cache_session: false }, state);
    }
    let cache_init = !state.init_captured && is_initialize_response(line);
    let cache_session = !state.session_captured && is_create_session_response(line);
    (
        CaptureAction { cache_init, cache_session },
        CaptureState {
            init_captured: state.init_captured || cache_init,
            session_captured: state.session_captured || cache_session,
        },
    )
}

} // verus!
