use bridge::tls::{calculate_fingerprint, fingerprint_short, format_fingerprint};
use bridge::tunnel::{cloudflared_config_text, credentials_file_name, credentials_json, is_ready_line};
use serde_json::Value;

#[test]
fn ready_markers_cover_known_cloudflared_messages() {
    let test_lines = [
        "INF Registered tunnel connection connIndex=0",
        "INF Connection registered",
        "INF Connected to edge location",
    ];
    for line in &test_lines {
        assert!(is_ready_line(line), "marker not detected in: {}", line);
    }
    assert!(!is_ready_line("INF some other log line"));
}

#[test]
fn config_yml_has_correct_sections() {
    let content = cloudflared_config_text("tunnel-abc", "/home/u/.cloudflared/tunnel-abc.json", "agent.example.com", 8080);
    assert!(content.contains("tunnel: tunnel-abc"), "should have tunnel ID");
    assert!(content.contains("credentials-file:"), "should have credentials-file");
    assert!(content.contains("hostname: agent.example.com"), "should have hostname");
    assert!(content.contains("http://localhost:8080"), "should have local port");
    assert!(content.contains("http_status:404"), "should have fallback rule");
}

#[test]
fn credentials_file_has_required_fields() {
    let v: Value = serde_json::from_str(&credentials_json("acct123", "tunnel-abc", "secret-base64==")).unwrap();
    assert_eq!(v["AccountTag"], Value::from("acct123"));
    assert_eq!(v["TunnelSecret"], Value::from("secret-base64=="));
    assert_eq!(v["TunnelID"], Value::from("tunnel-abc"));
    assert_eq!(credentials_file_name("tunnel-abc"), "tunnel-abc.json");
}

#[test]
fn fingerprints() {
    assert_eq!(format_fingerprint(&vec![0x00, 0xAB, 0x0F]), "00:AB:0F");
    assert_eq!(format_fingerprint(&vec![]), "");
    let fp = calculate_fingerprint(&b"abc".to_vec());
    assert_eq!(
        fp,
        "BA:78:16:BF:8F:01:CF:EA:41:41:40:DE:5D:AE:22:23:B0:03:61:A3:96:17:7A:9C:B4:10:FF:61:F2:00:15:AD"
    );
    assert_eq!(fingerprint_short(&fp), "BA:78:16:BF:8F:01:CF:EA");
    assert_eq!(fingerprint_short("AB"), "AB");
}
