use bridge::http::{
    authorize, create_http_response, is_pairing_request, pairing_code_from_request, pairing_http_response_at,
    pairing_response_json, AuthDecision,
};
use bridge::pairing::{PairingManager, PairingResponse};
use serde_json::Value;

fn body_of(resp: &str) -> &str {
    resp.split("\r\n\r\n").nth(1).unwrap()
}

#[test]
fn http_response_is_framed_exactly() {
    let r = create_http_response(200, "OK", "{\"a\":\"é\"}");
    assert_eq!(
        r,
        "HTTP/1.1 200 OK\r\nContent-Type: application/json\r\nContent-Length: 10\r\nConnection: close\r\n\r\n{\"a\":\"é\"}"
    );
}

#[test]
fn dispatch_by_first_line() {
    assert!(is_pairing_request("GET /pair/local?code=123456 HTTP/1.1\r\nHost: x\r\n\r\n"));
    assert!(!is_pairing_request("GET / HTTP/1.1\r\nUpgrade: websocket\r\nX: /pair/local\r\n\r\n"));
    assert!(!is_pairing_request("POST /pair/local?code=1 HTTP/1.1\r\n\r\n"));
    assert!(!is_pairing_request(""));
}

#[test]
fn pairing_code_is_read_from_the_query() {
    assert_eq!(
        pairing_code_from_request("GET /pair/local?code=123456&fp=AB HTTP/1.1\r\nHost: x\r\n\r\n").as_deref(),
        Some("123456")
    );
    assert_eq!(pairing_code_from_request("GET /pair/local?fp=AB&code=654321 HTTP/1.1\r\n").as_deref(), Some("654321"));
    assert_eq!(pairing_code_from_request("GET /pair/local?code= HTTP/1.1\r\n").as_deref(), Some(""));
    assert_eq!(pairing_code_from_request("GET /pair/local HTTP/1.1\r\n"), None);
    assert_eq!(pairing_code_from_request("GET /pair/local?fp=1 HTTP/1.1\r\n"), None);
    assert_eq!(pairing_code_from_request("GET"), None);
}

fn ticket() -> PairingManager {
    PairingManager::new("wss://10.0.0.1:8765".to_string(), "tok".to_string(), Some("AA:BB".to_string()))
}

#[test]
fn pairing_endpoint_statuses() {
    let mut m = ticket();
    let code = m.get_code().to_string();
    let missing = pairing_http_response_at("GET /pair/local HTTP/1.1\r\n\r\n", Some(&mut m), 0);
    assert!(missing.starts_with("HTTP/1.1 400 Bad Request\r\n"));
    assert_eq!(body_of(&missing), r#"{"error":"missing_code","message":"Missing 'code' query parameter"}"#);

    let disabled = pairing_http_response_at("GET /pair/local?code=1 HTTP/1.1\r\n\r\n", None, 0);
    assert!(disabled.starts_with("HTTP/1.1 503 Service Unavailable\r\n"));
    assert!(body_of(&disabled).contains("pairing_disabled"));

    let wrong = pairing_http_response_at("GET /pair/local?code=000000 HTTP/1.1\r\n\r\n", Some(&mut m), 0);
    assert!(wrong.starts_with("HTTP/1.1 401 Unauthorized\r\n"));
    let v: Value = serde_json::from_str(body_of(&wrong)).unwrap();
    assert_eq!(v["error"], Value::from("invalid_code"));

    let req = format!("GET /pair/local?code={} HTTP/1.1\r\n\r\n", code);
    let ok = pairing_http_response_at(&req, Some(&mut m), 0);
    assert!(ok.starts_with("HTTP/1.1 200 OK\r\n"));
    let v: Value = serde_json::from_str(body_of(&ok)).unwrap();
    assert_eq!(v["url"], Value::from("wss://10.0.0.1:8765"));
    assert_eq!(v["authToken"], Value::from("tok"));
    assert_eq!(v["certFingerprint"], Value::from("AA:BB"));
    assert!(v.get("clientId").is_none());

    let again = pairing_http_response_at(&req, Some(&mut m), 0);
    assert!(again.starts_with("HTTP/1.1 401 Unauthorized\r\n"));
}

#[test]
fn pairing_endpoint_rate_limits() {
    let mut m = ticket();
    for _ in 0..5 {
        let _ = pairing_http_response_at("GET /pair/local?code=000000 HTTP/1.1\r\n", Some(&mut m), 0);
    }
    let r = pairing_http_response_at("GET /pair/local?code=000000 HTTP/1.1\r\n", Some(&mut m), 0);
    assert!(r.starts_with("HTTP/1.1 429 Too Many Requests\r\n"));
    let v: Value = serde_json::from_str(body_of(&r)).unwrap();
    assert_eq!(v["error"], Value::from("rate_limited"));
}

#[test]
fn pairing_payload_round_trips_through_json() {
    let p = PairingResponse {
        url: "wss://h:1".into(),
        protocol: "acp".into(),
        version: "1.0".into(),
        auth_token: "t\"ok".into(),
        cert_fingerprint: None,
        client_id: Some("cid".into()),
        client_secret: Some("sec".into()),
    };
    let text = pairing_response_json(&p);
    let v: Value = serde_json::from_str(&text).unwrap();
    let obj = v.as_object().unwrap();
    assert_eq!(obj.len(), 6);
    let back = PairingResponse {
        url: obj["url"].as_str().unwrap().into(),
        protocol: obj["protocol"].as_str().unwrap().into(),
        version: obj["version"].as_str().unwrap().into(),
        auth_token: obj["authToken"].as_str().unwrap().into(),
        cert_fingerprint: obj.get("certFingerprint").map(|x| x.as_str().unwrap().to_string()),
        client_id: obj.get("clientId").map(|x| x.as_str().unwrap().to_string()),
        client_secret: obj.get("clientSecret").map(|x| x.as_str().unwrap().to_string()),
    };
    assert_eq!(back, p);
}

#[test]
fn bearer_token_checks() {
    assert_eq!(authorize(None, None, None), AuthDecision::Open);
    assert_eq!(authorize(Some("s3cret"), Some("s3cret"), None), AuthDecision::Accepted("s3cret".into()));
    assert_eq!(authorize(Some("s3cret"), Some("wrong"), Some("a=1&token=s3cret")), AuthDecision::Accepted("s3cret".into()));
    assert_eq!(authorize(Some("s3cret"), None, Some("token=s3cretX")), AuthDecision::Rejected);
    assert_eq!(authorize(Some("s3cret"), None, None), AuthDecision::Rejected);
    assert_eq!(authorize(Some("s3cret"), Some("S3CRET"), Some("tok=s3cret")), AuthDecision::Rejected);
}

#[test]
fn requests_without_code_leave_the_ticket_alone() {
    let mut m = ticket();
    let code = m.get_code().to_string();
    for _ in 0..6 {
        let r = pairing_http_response_at("GET /pair/local?fp=1 HTTP/1.1\r\n", Some(&mut m), 0);
        assert!(r.starts_with("HTTP/1.1 400 Bad Request\r\n"));
    }
    assert!(!m.is_used());
    let ok = pairing_http_response_at(&format!("GET /pair/local?code={} HTTP/1.1\r\n", code), Some(&mut m), 0);
    assert!(ok.starts_with("HTTP/1.1 200 OK\r\n"));
}
