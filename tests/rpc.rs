use bridge::rpc::{
    capture_step, classify_client_message, intercept_initialize, is_create_session_response, is_initialize_response,
    session_intercept_step, CaptureState, ClientMessage, PushRegistration, MAX_SKIPPED,
};
use serde_json::Value;

fn parse(s: &str) -> Value {
    serde_json::from_str(s).unwrap()
}

#[test]
fn recognises_initialize_responses() {
    assert!(is_initialize_response(r#"{"jsonrpc":"2.0","id":1,"result":{"capabilities":{}}}"#));
    assert!(is_initialize_response(r#"{"id":0,"result":{"protocolVersion":1,"agentCapabilities":{}}}"#));
    assert!(is_initialize_response(r#"{"result":{"serverInfo":{"name":"x"}}}"#));
    assert!(is_initialize_response(r#"{"result":{"agentInfo":{}}}"#));
    assert!(!is_initialize_response(r#"{"result":{"sessionId":"s"}}"#));
    assert!(!is_initialize_response(r#"{"method":"initialize","params":{"capabilities":{}}}"#));
    assert!(!is_initialize_response("not json"));
    assert!(!is_initialize_response(r#"{"result":5}"#));
}

#[test]
fn recognises_session_responses() {
    assert!(is_create_session_response(r#"{"jsonrpc":"2.0","id":2,"result":{"sessionId":"abc"}}"#));
    assert!(!is_create_session_response(r#"{"jsonrpc":"2.0","id":2,"result":{}}"#));
    assert!(!is_create_session_response(r#"{"sessionId":"abc"}"#));
    assert!(!is_create_session_response("{"));
}

#[test]
fn initialize_interception_replays_cache_under_new_id() {
    let cached = r#"{"jsonrpc":"2.0","id":1,"result":{"protocolVersion":1,"agentInfo":{"name":"a"}}}"#;
    let reply = intercept_initialize(r#"{"jsonrpc":"2.0","id":42,"method":"initialize"}"#, cached).unwrap();
    let v = parse(&reply);
    assert_eq!(v["id"], Value::from(42));
    assert_eq!(v["result"], parse(cached)["result"]);
    assert_eq!(
        serde_json::to_string(&v["result"]).unwrap(),
        serde_json::to_string(&parse(cached)["result"]).unwrap()
    );
    assert_eq!(v["jsonrpc"], Value::from("2.0"));
}

#[test]
fn initialize_interception_keeps_string_ids() {
    let cached = r#"{"jsonrpc":"2.0","id":1,"result":{"capabilities":{}}}"#;
    let reply = intercept_initialize(r#"{"id":"abc","method":"initialize"}"#, cached).unwrap();
    assert_eq!(parse(&reply)["id"], Value::from("abc"));
}

#[test]
fn initialize_interception_falls_through() {
    let cached = r#"{"jsonrpc":"2.0","id":1,"result":{"capabilities":{}}}"#;
    assert_eq!(intercept_initialize(r#"{"id":1,"method":"session/new"}"#, cached), None);
    assert_eq!(intercept_initialize(r#"{"method":"initialize"}"#, cached), None);
    assert_eq!(intercept_initialize("garbage", cached), None);
    assert_eq!(intercept_initialize(r#"{"id":1,"method":"initialize"}"#, "garbage"), None);
    assert_eq!(intercept_initialize(r#"{"id":1,"method":"initialize"}"#, "[1,2]"), None);
}

#[test]
fn session_step_answers_session_requests_from_cache() {
    let cached = r#"{"jsonrpc":"2.0","id":2,"result":{"sessionId":"s-1"}}"#;
    for method in ["session/new", "session/load"] {
        let msg = format!(r#"{{"jsonrpc":"2.0","id":7,"method":"{}","params":{{}}}}"#, method);
        let step = session_intercept_step(&msg, cached, 0);
        assert!(step.finished && step.intercepted);
        let v = parse(step.send.as_deref().unwrap());
        assert_eq!(v["id"], Value::from(7));
        assert_eq!(v["result"]["sessionId"], Value::from("s-1"));
    }
}

#[test]
fn session_step_skips_notifications_up_to_the_limit() {
    let cached = r#"{"id":2,"result":{"sessionId":"s"}}"#;
    let note = r#"{"jsonrpc":"2.0","method":"notifications/initialized"}"#;
    let mut skipped = 0;
    for i in 1..=MAX_SKIPPED + 1 {
        let step = session_intercept_step(note, cached, skipped);
        assert!(step.send.is_none());
        assert!(!step.intercepted);
        assert_eq!(step.skipped, i);
        assert_eq!(step.finished, i > MAX_SKIPPED);
        skipped = step.skipped;
    }
    let step = session_intercept_step(r#"{"id":1,"method":"session/new"}"#, cached, skipped);
    assert!(step.finished && !step.intercepted && step.send.is_none());
}

#[test]
fn session_step_answers_uncached_initialize() {
    let cached = r#"{"id":2,"result":{"sessionId":"s"}}"#;
    let step = session_intercept_step(r#"{"jsonrpc":"2.0","id":3,"method":"initialize"}"#, cached, 0);
    assert!(!step.finished && !step.intercepted);
    assert_eq!(step.skipped, 1);
    let v = parse(step.send.as_deref().unwrap());
    assert_eq!(v["id"], Value::from(3));
    assert_eq!(v["jsonrpc"], Value::from("2.0"));
    assert_eq!(v["result"]["protocolVersion"], Value::from(1));
    assert_eq!(v["result"]["agentCapabilities"], parse("{}"));
    assert_eq!(v["result"]["agentInfo"]["name"], Value::from("bridge"));
    assert_eq!(v["result"]["agentInfo"]["version"], Value::from("1.0.0"));
}

#[test]
fn session_step_gives_up_on_other_messages() {
    let cached = r#"{"id":2,"result":{"sessionId":"s"}}"#;
    for msg in [r#"{"id":4,"method":"session/prompt"}"#, "not json", r#"{"id":4}"#] {
        let step = session_intercept_step(msg, cached, 0);
        assert!(step.finished && !step.intercepted && step.send.is_none());
        assert_eq!(step.skipped, 0);
    }
    let step = session_intercept_step(r#"{"method":"session/new"}"#, cached, 0);
    assert!(step.finished && !step.intercepted);
}

#[test]
fn control_messages_are_consumed() {
    let reg = classify_client_message(
        r#"{"jsonrpc":"2.0","method":"bridge/registerPushToken","params":{"platform":"ios","deviceToken":"dt","bundleId":"com.x"}}"#,
    );
    assert_eq!(
        reg,
        ClientMessage::RegisterPushToken(Some(PushRegistration {
            platform: "ios".into(),
            device_token: "dt".into(),
            bundle_id: "com.x".into()
        }))
    );
    let partial = classify_client_message(r#"{"method":"bridge/registerPushToken","params":{"deviceToken":5}}"#);
    assert_eq!(
        partial,
        ClientMessage::RegisterPushToken(Some(PushRegistration {
            platform: String::new(),
            device_token: String::new(),
            bundle_id: String::new()
        }))
    );
    assert_eq!(classify_client_message(r#"{"method":"bridge/registerPushToken"}"#), ClientMessage::RegisterPushToken(None));
    assert_eq!(
        classify_client_message(r#"{"method":"bridge/unregisterPushToken","params":{"deviceToken":"dt"}}"#),
        ClientMessage::UnregisterPushToken(Some("dt".into()))
    );
    assert_eq!(classify_client_message(r#"{"id":1,"method":"session/prompt"}"#), ClientMessage::Forward);
    assert_eq!(classify_client_message("plain text"), ClientMessage::Forward);
}

#[test]
fn capture_takes_the_first_matching_lines_only() {
    let init = r#"{"id":1,"result":{"capabilities":{}}}"#;
    let sess = r#"{"id":2,"result":{"sessionId":"s"}}"#;
    let s0 = CaptureState { init_captured: false, session_captured: false };
    let (a, s1) = capture_step(s0, true, "noise");
    assert!(!a.cache_init && !a.cache_session);
    let (a, s2) = capture_step(s1, true, init);
    assert!(a.cache_init && !a.cache_session);
    let (a, s3) = capture_step(s2, true, init);
    assert!(!a.cache_init);
    let (a, s4) = capture_step(s3, true, sess);
    assert!(a.cache_session);
    assert!(s4.init_captured && s4.session_captured);
    let (a, _) = capture_step(s0, false, init);
    assert!(!a.cache_init && !a.cache_session);
}
