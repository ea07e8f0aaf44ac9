//! The files and log lines of the managed-tunnel daemon.

use crate::json::{empty_object, json_text, print_json, set_field, string_value, JsonV};
use crate::text::{chars_contain, chars_of, contains, decimal, decimal_string};
use vstd::prelude::*;

verus! {

/// Whether a daemon log line reports an established tunnel connection.
pub open spec fn is_ready_spec(line: Seq<char>) -> bool {
    contains(line, "Registered tunnel connection"@) || contains(line, "Connection registered"@) || contains(
        line,
        "Connected to"@,
    )
}

/// Whether a daemon log line reports an established tunnel connection.
pub fn is_ready_line(line: &str) -> (r: bool)
    ensures
        r == is_ready_spec(line@),
{
    let v = chars_of(line);
    chars_contain(&v, "Registered tunnel connection") || chars_contain(&v, "Connection registered")
        || chars_contain(&v, "Connected to")
}

/// The daemon's configuration: the tunnel, its credentials file, and the
/// ingress rules that send `hostname` to the local port and answer 404
/// otherwise.
pub open spec fn tunnel_config_spec(tunnel_id: Seq<char>, credentials_path: Seq<char>, hostname: Seq<char>, port: u16) -> Seq<char> {
    "tunnel: "@ + tunnel_id + "\ncredentials-file: "@ + credentials_path + "\n\ningress:\n  - hostname: "@ + hostname
        + "\n    service: http://localhost:"@ + decimal(port as nat) + "\n  - service: http_status:404\n"@
}

/// The daemon's configuration file.
pub fn cloudflared_config_text(tunnel_id: &str, credentials_path: &str, hostname: &str, local_port: u16) -> (r: String)
    ensures
        r@ == tunnel_config_spec(tunnel_id@, credentials_path@, hostname@, local_port),
{
    let mut r = String::from_str("tunnel: ");
    r.append(tunnel_id);
    r.append("\ncredentials-file: ");
    r.append(credentials_path);
    r.append("\n\ningress:\n  - hostname: ");
    r.append(hostname);
    r.append("\n    service: http://localhost:");
    let port = decimal_string(local_port as u64);
    r.append(port.as_str());
    r.append("\n  - service: http_status:404\n");
    r
}

/// The tunnel credentials the daemon reads.
pub open spec fn credentials_spec(account_id: Seq<char>, tunnel_id: Seq<char>, tunnel_secret: Seq<char>) -> JsonV {
    JsonV::Object(
        Map::<Seq<char>, JsonV>::empty().insert("AccountTag"@, JsonV::Str(account_id)).insert(
            "TunnelSecret"@,
            JsonV::Str(tunnel_secret),
        ).insert("TunnelID"@, JsonV::Str(tunnel_id)),
    )
}

/// The JSON text of the tunnel credentials.
pub fn credentials_json(account_id: &str, tunnel_id: &str, tunnel_secret: &str) -> (r: String)
    ensures
        r@ == json_text(credentials_spec(account_id@, tunnel_id@, tunnel_secret@)),
{
    let mut v = empty_object();
    set_field(&mut v, String::from_str("AccountTag"), string_value(String::from_str(account_id)));
    set_field(&mut v, String::from_str("TunnelSecret"), string_value(String::from_str(tunnel_secret)));
    set_field(&mut v, String::from_str("TunnelID"), string_value(String::from_str(tunnel_id)));
    print_json(&v)
}

/// The name of the credentials file of a tunnel.
pub fn credentials_file_name(tunnel_id: &str) -> (r: String)
    ensures
        r@ == tunnel_id@ + ".json"@,
{
    let mut r = String::from_str(tunnel_id);
    r.append(".json");
    r
}

} // verus!
