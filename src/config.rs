//! The connection settings of the managed-tunnel transport.

use crate::clock::unix_now_secs;
use crate::json::{empty_object, json_text, print_json, set_field, string_value, JsonV};
use crate::token::{generate_auth_token, is_auth_token};
use vstd::prelude::*;

verus! {

/// Lifetime of a tunnel service token: one year, in seconds.
pub const SERVICE_TOKEN_LIFETIME_SECS: i64 = 365 * 24 * 3600;

/// A service token is rotated when fewer than thirty days of it remain.
pub const SERVICE_TOKEN_ROTATE_THRESHOLD_SECS: i64 = 30 * 24 * 3600;

/// Configuration of the bridge behind a managed tunnel.
#[derive(Debug, Clone, PartialEq, Eq)]
pub struct BridgeConfig {
    pub hostname: String,
    pub tunnel_id: String,
    pub tunnel_secret: String,
    pub account_id: String,
    pub client_id: String,
    pub client_secret: String,
    pub domain: String,
    pub subdomain: String,
    pub auth_token: String,
    pub cert_fingerprint: Option<String>,
    /// Unix time, in seconds, at which the service token was issued.
    pub service_token_issued_at: Option<i64>,
    pub api_token: String,
}

/// Whether the service token must be rotated at Unix time `now`: with no
/// issue time recorded, whenever service credentials exist; otherwise once
/// fewer than thirty days of its lifetime remain.
pub open spec fn needs_rotation_spec(issued_at: Option<i64>, client_id: Seq<char>, now: i64) -> bool {
    match issued_at {
        None => client_id.len() > 0,
        Some(ts) => now - ts >= SERVICE_TOKEN_LIFETIME_SECS - SERVICE_TOKEN_ROTATE_THRESHOLD_SECS,
    }
}

/// Adds `k: v` to an object model when `v` is not empty.
pub open spec fn nonempty_member(m: Map<Seq<char>, JsonV>, k: Seq<char>, v: Seq<char>) -> Map<Seq<char>, JsonV> {
    if v.len() > 0 {
        m.insert(k, JsonV::Str(v))
    } else {
        m
    }
}

/// The connection descriptor of a managed-tunnel configuration.
pub open spec fn bridge_connection_json(c: BridgeConfig) -> JsonV {
    let m = Map::<Seq<char>, JsonV>::empty().insert("url"@, JsonV::Str(c.hostname@)).insert(
        "protocol"@,
        JsonV::Str("acp"@),
    ).insert("version"@, JsonV::Str("1.0"@));
    let m = nonempty_member(m, "clientId"@, c.client_id@);
    let m = nonempty_member(m, "clientSecret"@, c.client_secret@);
    let m = nonempty_member(m, "authToken"@, c.auth_token@);
    let m = match c.cert_fingerprint {
        Some(fp) => m.insert("certFingerprint"@, JsonV::Str(fp@)),
        None => m,
    };
    JsonV::Object(m)
}

/// Sets `key` of an object to `value` when `value` is not empty.
pub fn set_nonempty(v: &mut serde_json::Value, key: &str, value: &String)
    requires
        crate::json::json_model(*old(v)) is Object,
    ensures
        crate::json::json_model(*final(v)) == JsonV::Object(
            nonempty_member(crate::json::json_model(*old(v))->Object_0, key@, value@),
        ),
{
    if value.unicode_len() > 0 {
        set_field(v, String::from_str(key), string_value(value.clone()));
    }
}

impl BridgeConfig {
    /// A fresh random bearer token.
    pub fn generate_auth_token() -> (r: String)
        ensures
            is_auth_token(r@),
            r@.len() == 43,
    {
        generate_auth_token()
    }

    /// Makes sure a bearer token is set, generating one when it is empty.
    pub fn ensure_auth_token(&mut self)
        ensures
            old(self).auth_token@.len() == 0 ==> is_auth_token(final(self).auth_token@)
                && final(self).auth_token@.len() == 43,
            old(self).auth_token@.len() > 0 ==> *final(self) == *old(self),
            *final(self) == (BridgeConfig { auth_token: final(self).auth_token, ..*old(self) }),
    {
        if self.auth_token.unicode_len() == 0 {
            self.auth_token = generate_auth_token();
        }
    }

    /// Whether the service token must be rotated at Unix time `now`.
    pub fn service_token_needs_rotation_at(&self, now: i64) -> (r: bool)
        ensures
            r == needs_rotation_spec(self.service_token_issued_at, self.client_id@, now),
    {
        match self.service_token_issued_at {
            None => self.client_id.unicode_len() > 0,
            Some(ts) => (now as i128) - (ts as i128) >= (SERVICE_TOKEN_LIFETIME_SECS
                - SERVICE_TOKEN_ROTATE_THRESHOLD_SECS) as i128,
        }
    }

    /// Whether the service token must be rotated now.
    pub fn service_token_needs_rotation(&self) -> (r: bool)
        ensures
            exists|now: i64| r == #[trigger] needs_rotation_spec(self.service_token_issued_at, self.client_id@, now),
    {
        let now = unix_now_secs();
        self.service_token_needs_rotation_at(now)
    }

    /// Records Unix time `now` as the issue time of the service token.
    pub fn stamp_service_token_issued_at(&mut self, now: i64)
        ensures
            *final(self) == (BridgeConfig { service_token_issued_at: Some(now), ..*old(self) }),
    {
        self.service_token_issued_at = Some(now);
    }

    /// Records now as the issue time of the service token.
    pub fn stamp_service_token_issued(&mut self)
        ensures
            final(self).service_token_issued_at is Some,
            *final(self) == (BridgeConfig {
                service_token_issued_at: final(self).service_token_issued_at,
                ..*old(self)
            }),
    {
        let now = unix_now_secs();
        self.stamp_service_token_issued_at(now);
    }

    /// The JSON connection descriptor for a QR code: URL, protocol and
    /// version, and the service credentials, bearer token and certificate
    /// fingerprint that are set.
    pub fn to_connection_json(&self) -> (r: String)
        ensures
            r@ == json_text(bridge_connection_json(*self)),
    {
        let mut v = empty_object();
        set_field(&mut v, String::from_str("url"), string_value(self.hostname.clone()));
        set_field(&mut v, String::from_str("protocol"), string_value(String::from_str("acp")));
        set_field(&mut v, String::from_str("version"), string_value(String::from_str("1.0")));
        set_nonempty(&mut v, "clientId", &self.client_id);
        set_nonempty(&mut v, "clientSecret", &self.client_secret);
        set_nonempty(&mut v, "authToken", &self.auth_token);
        match &self.cert_fingerprint {
            Some(fp) => set_field(&mut v, String::from_str("certFingerprint"), string_value(fp.clone())),
            None => {},
        }
        print_json(&v)
    }
}

} // verus!
