//! Per-transport choices: port, bind address and the URLs handed to clients.

use crate::text::{chars_of, decimal, decimal_string, seq_starts_with, starts_with, str_eq, string_of};
use vstd::prelude::*;

verus! {

/// Port of the local and overlay-address transports.
pub const DEFAULT_PORT: u16 = 8765;

/// Port of the overlay-serve transport, which runs beside the local one.
pub const SERVE_PORT: u16 = 8766;

/// The port a transport binds when none is configured.
pub fn default_port(transport: &str) -> (r: u16)
    ensures
        r == if transport@ == "tailscale-serve"@ { SERVE_PORT } else { DEFAULT_PORT },
{
    if str_eq(transport, "tailscale-serve") {
        SERVE_PORT
    } else {
        DEFAULT_PORT
    }
}

/// The address a transport binds: the overlay-serve transport is reached
/// through a local proxy, so it binds the loopback address only.
pub fn bind_address(transport: &str, requested: &str) -> (r: String)
    ensures
        r@ == if transport@ == "tailscale-serve"@ { "127.0.0.1"@ } else { requested@ },
{
    if str_eq(transport, "tailscale-serve") {
        String::from_str("127.0.0.1")
    } else {
        String::from_str(requested)
    }
}

/// The WebSocket URL of a host and port, `wss` with TLS and `ws` without.
pub fn websocket_url(tls: bool, host: &str, port: u16) -> (r: String)
    ensures
        r@ == (if tls { "wss"@ } else { "ws"@ }) + "://"@ + host@ + ":"@ + decimal(port as nat),
{
    let mut r = if tls {
        String::from_str("wss")
    } else {
        String::from_str("ws")
    };
    r.append("://");
    r.append(host);
    r.append(":");
    let p = decimal_string(port as u64);
    r.append(p.as_str());
    r
}

/// The HTTP base URL of the pairing endpoint behind a WebSocket URL: `wss://`
/// becomes `https://` and `ws://` becomes `http://`.
pub open spec fn pairing_base_spec(url: Seq<char>) -> Seq<char> {
    if starts_with(url, "wss://"@) {
        "https://"@ + url.subrange(6, url.len() as int)
    } else if starts_with(url, "ws://"@) {
        "http://"@ + url.subrange(5, url.len() as int)
    } else {
        url
    }
}

/// The HTTP base URL of the pairing endpoint behind a WebSocket URL.
pub fn pairing_base_url(url: &str) -> (r: String)
    ensures
        r@ == pairing_base_spec(url@),
{
    let v = chars_of(url);
    let n = v.len();
    assert(v@.subrange(0, n as int) =~= v@);
    if seq_starts_with(&v, 0, n, "wss://") {
        proof { reveal_strlit("wss://"); }
        let mut r = String::from_str("https://");
        let rest = string_of(&v, 6, n);
        r.append(rest.as_str());
        r
    } else if seq_starts_with(&v, 0, n, "ws://") {
        proof { reveal_strlit("ws://"); }
        let mut r = String::from_str("http://");
        let rest = string_of(&v, 5, n);
        r.append(rest.as_str());
        r
    } else {
        String::from_str(url)
    }
}

/// How a transport is described to the user.
pub fn mode_label(transport: &str) -> (r: &'static str)
    ensures
        transport@ == "cloudflare"@ ==> r@ == "Cloudflare Zero Trust (internet accessible)"@,
        transport@ == "tailscale-serve"@ ==> r@ == "Tailscale (HTTPS via MagicDNS)"@,
        transport@ == "tailscale-ip"@ ==> r@ == "Tailscale (direct IP)"@,
        transport@ != "cloudflare"@ && transport@ != "tailscale-serve"@ && transport@ != "tailscale-ip"@ ==> r@
            == "Local Network"@,
{
    proof {
        reveal_strlit("cloudflare");
        reveal_strlit("tailscale-serve");
        reveal_strlit("tailscale-ip");
        assert("cloudflare"@.len() != "tailscale-serve"@.len());
        assert("cloudflare"@.len() != "tailscale-ip"@.len());
        assert("tailscale-serve"@.len() != "tailscale-ip"@.len());
    }
    if str_eq(transport, "cloudflare") {
        "Cloudflare Zero Trust (internet accessible)"
    } else if str_eq(transport, "tailscale-serve") {
        "Tailscale (HTTPS via MagicDNS)"
    } else if str_eq(transport, "tailscale-ip") {
        "Tailscale (direct IP)"
    } else {
        "Local Network"
    }
}

} // verus!
