//! The listener's HTTP decisions: which protocol a connection speaks, the
//! pairing endpoint's responses, and the bearer-token check of the
//! WebSocket handshake.

use crate::json::{empty_object, json_model, json_text, print_json, set_field, string_value, JsonV};
use crate::pairing::{
    pairing_error_text, response_matches, validate_next, validate_outcome, PairingError, PairingErrorResponse,
    PairingManager, PairingResponse,
};
use crate::text::{
    after_first, chars_contain, chars_of, contains, decimal, decimal_string, drop_word, find_char, first_line,
    first_line_chars, lemma_drop_word_len, lemma_first_at, lemma_skip_white_first, lemma_skip_white_len, nth_word,
    seq_starts_with, skip_white, skip_white_at, starts_with, str_eq, string_of, sub_vec, take_until, word_end,
};
use vstd::prelude::*;
use vstd::utf8::encode_utf8;

verus! {

/// The value of the first `name=` parameter of a query string.
pub open spec fn query_param(q: Seq<char>, name: Seq<char>) -> Option<Seq<char>>
    decreases q.len(),
{
    let seg = take_until(q, '&');
    let p = name + "="@;
    if starts_with(seg, p) {
        Some(seg.subrange(p.len() as int, seg.len() as int))
    } else {
        match after_first(q, '&') {
            // The guard always holds (`rest` follows a separator); it shows termination.
            Some(rest) => if rest.len() < q.len() {
                query_param(rest, name)
            } else {
                None
            },
            None => None,
        }
    }
}

/// The query of a request line's target: the text between the first `?` and
/// the next one.
pub open spec fn target_query(line: Seq<char>) -> Option<Seq<char>> {
    match nth_word(line, 1) {
        Some(target) => match after_first(target, '?') {
            Some(rest) => Some(take_until(rest, '?')),
            None => None,
        },
        None => None,
    }
}

/// The pairing code of a request, from the `code` parameter of its first line.
pub open spec fn request_code(request: Seq<char>) -> Option<Seq<char>> {
    match target_query(first_line(request)) {
        Some(q) => query_param(q, "code"@),
        None => None,
    }
}

/// Whether a request asks for the pairing endpoint.
pub open spec fn is_pairing_line(line: Seq<char>) -> bool {
    starts_with(line, "GET"@) && contains(line, "/pair/local"@)
}

/// Whether a request's first line asks for the pairing endpoint: a `GET`
/// whose line names `/pair/local`. Any other request is a WebSocket upgrade.
pub fn is_pairing_request(request: &str) -> (r: bool)
    ensures
        r == is_pairing_line(first_line(request@)),
{
    let line = first_line_chars(request);
    assert(line@.subrange(0, line@.len() as int) =~= line@);
    seq_starts_with(&line, 0, line.len(), "GET") && chars_contain(&line, "/pair/local")
}

/// The value of the first `name=` parameter of the query `q`.
pub fn find_query_param(q: &Vec<char>, name: &str) -> (r: Option<String>)
    ensures
        r.deep_view() == query_param(q@, name@),
{
    let mut p = String::from_str(name);
    p.append("=");
    let plen = p.unicode_len();
    let n = q.len();
    let mut pos: usize = 0;
    assert(q@.subrange(0, n as int) =~= q@);
    loop
        invariant
            n == q@.len(),
            pos <= n,
            p@ == name@ + "="@,
            plen == p@.len(),
            query_param(q@, name@) == query_param(q@.subrange(pos as int, n as int), name@),
        decreases n - pos,
    {
        let ghost cur = q@.subrange(pos as int, n as int);
        let k = find_char(q, pos, '&');
        proof {
            lemma_first_at(cur, '&', k - pos);
            assert(cur.subrange(0, k - pos) =~= q@.subrange(pos as int, k as int));
            if k < n {
                assert(cur.subrange(k - pos + 1, cur.len() as int) =~= q@.subrange(k + 1, n as int));
            }
        }
        if seq_starts_with(q, pos, k, p.as_str()) {
            let value = string_of(q, pos + plen, k);
            assert(q@.subrange(pos as int, k as int).subrange(plen as int, k - pos) =~= q@.subrange(pos + plen, k as int));
            return Some(value);
        }
        if k == n {
            return None;
        }
        pos = k + 1;
    }
}

/// The query of a request line's target.
pub fn request_target_query(line: &Vec<char>) -> (r: Option<Vec<char>>)
    ensures
        match r {
            Some(q) => target_query(line@) == Some(q@),
            None => target_query(line@) is None,
        },
{
    let n = line.len();
    let i0 = skip_white_at(line, 0);
    proof {
        assert(line@.subrange(0, n as int) =~= line@);
    }
    if i0 == n {
        return None;
    }
    let e0 = word_end(line, i0);
    let i1 = skip_white_at(line, e0);
    let ghost t = skip_white(line@);
    let ghost rest = drop_word(t);
    proof {
        lemma_skip_white_first(line@);
        lemma_skip_white_len(line@);
        lemma_drop_word_len(t);
        lemma_skip_white_first(rest);
        assert(nth_word(line@, 1) == nth_word(rest, 0));
    }
    if i1 == n {
        return None;
    }
    let e1 = word_end(line, i1);
    let target = sub_vec(line, i1, e1);
    assert(nth_word(line@, 1) == Some(target@));
    let tn = target.len();
    let k = find_char(&target, 0, '?');
    proof {
        assert(target@.subrange(0, tn as int) =~= target@);
        lemma_first_at(target@, '?', k as int);
    }
    if k == tn {
        return None;
    }
    let rest_v = sub_vec(&target, k + 1, tn);
    let m = find_char(&rest_v, 0, '?');
    proof {
        assert(rest_v@.subrange(0, rest_v@.len() as int) =~= rest_v@);
        lemma_first_at(rest_v@, '?', m as int);
    }
    Some(sub_vec(&rest_v, 0, m))
}

/// The pairing code that a request carries in the `code` parameter of its
/// first line.
pub fn pairing_code_from_request(request: &str) -> (r: Option<String>)
    ensures
        r.deep_view() == request_code(request@),
{
    let line = first_line_chars(request);
    match request_target_query(&line) {
        Some(q) => find_query_param(&q, "code"),
        None => None,
    }
}

/// The text of an HTTP/1.1 response with a JSON body that closes the connection.
pub open spec fn http_response_text(code: u16, status: Seq<char>, body: Seq<char>) -> Seq<char> {
    "HTTP/1.1 "@ + decimal(code as nat) + " "@ + status + "\r\nContent-Type: application/json\r\nContent-Length: "@
        + decimal(encode_utf8(body).len()) + "\r\nConnection: close\r\n\r\n"@ + body
}

/// An HTTP/1.1 response with a JSON body that closes the connection.
pub fn create_http_response(status_code: u16, status_text: &str, body: &str) -> (r: String)
    ensures
        r@ == http_response_text(status_code, status_text@, body@),
{
    let mut r = String::from_str("HTTP/1.1 ");
    let code = decimal_string(status_code as u64);
    r.append(code.as_str());
    r.append(" ");
    r.append(status_text);
    r.append("\r\nContent-Type: application/json\r\nContent-Length: ");
    let blen = body.as_bytes().len();
    assert(blen as nat == encode_utf8(body@).len());
    let len = decimal_string(blen as u64);
    r.append(len.as_str());
    r.append("\r\nConnection: close\r\n\r\n");
    r.append(body);
    r
}

/// Body of the response to a pairing request without a code.
pub open spec fn missing_code_body() -> Seq<char> {
    "{\"error\":\"missing_code\",\"message\":\"Missing 'code' query parameter\"}"@
}

/// Body of the response to a pairing request while pairing is off.
pub open spec fn pairing_disabled_body() -> Seq<char> {
    "{\"error\":\"pairing_disabled\",\"message\":\"Pairing is not enabled on this bridge\"}"@
}

pub open spec fn opt_member(m: Map<Seq<char>, JsonV>, k: Seq<char>, v: Option<Seq<char>>) -> Map<Seq<char>, JsonV> {
    match v {
        Some(t) => m.insert(k, JsonV::Str(t)),
        None => m,
    }
}

/// The JSON object of a pairing payload; absent fields are left out.
pub open spec fn payload_json(p: PairingResponse) -> JsonV {
    let m = Map::<Seq<char>, JsonV>::empty().insert("url"@, JsonV::Str(p.url@)).insert(
        "protocol"@,
        JsonV::Str(p.protocol@),
    ).insert("version"@, JsonV::Str(p.version@)).insert("authToken"@, JsonV::Str(p.auth_token@));
    let m = opt_member(m, "certFingerprint"@, p.cert_fingerprint.deep_view());
    let m = opt_member(m, "clientId"@, p.client_id.deep_view());
    let m = opt_member(m, "clientSecret"@, p.client_secret.deep_view());
    JsonV::Object(m)
}

/// The JSON object of a refused pairing.
pub open spec fn error_json(e: PairingErrorResponse) -> JsonV {
    JsonV::Object(
        Map::<Seq<char>, JsonV>::empty().insert("error"@, JsonV::Str(e.error@)).insert(
            "message"@,
            JsonV::Str(e.message@),
        ),
    )
}

fn set_opt_member(v: &mut serde_json::Value, key: &str, x: &Option<String>)
    requires
        json_model(*old(v)) is Object,
    ensures
        json_model(*final(v)) is Object,
        json_model(*final(v)) == JsonV::Object(opt_member(json_model(*old(v))->Object_0, key@, x.deep_view())),
{
    match x {
        Some(t) => {
            set_field(v, String::from_str(key), string_value(t.clone()));
        },
        None => {},
    }
}

/// The JSON text of a pairing payload.
pub fn pairing_response_json(p: &PairingResponse) -> (r: String)
    ensures
        r@ == json_text(payload_json(*p)),
{
    let mut v = empty_object();
    set_field(&mut v, String::from_str("url"), string_value(p.url.clone()));
    set_field(&mut v, String::from_str("protocol"), string_value(p.protocol.clone()));
    set_field(&mut v, String::from_str("version"), string_value(p.version.clone()));
    set_field(&mut v, String::from_str("authToken"), string_value(p.auth_token.clone()));
    set_opt_member(&mut v, "certFingerprint", &p.cert_fingerprint);
    set_opt_member(&mut v, "clientId", &p.client_id);
    set_opt_member(&mut v, "clientSecret", &p.client_secret);
    print_json(&v)
}

/// The JSON text of a refused pairing.
pub fn error_response_json(e: &PairingErrorResponse) -> (r: String)
    ensures
        r@ == json_text(error_json(*e)),
{
    let mut v = empty_object();
    set_field(&mut v, String::from_str("error"), string_value(e.error.clone()));
    set_field(&mut v, String::from_str("message"), string_value(e.message.clone()));
    print_json(&v)
}

/// The HTTP response to a validation: `200` with the payload, `429` when
/// rate limited, `401` for any other refusal.
pub open spec fn validation_response(r: Result<PairingResponse, PairingError>) -> Seq<char> {
    match r {
        Ok(p) => http_response_text(200, "OK"@, json_text(payload_json(p))),
        Err(PairingError::RateLimited) => http_response_text(
            429,
            "Too Many Requests"@,
            json_text(refusal_json("rate_limited"@, PairingError::RateLimited)),
        ),
        Err(_) => http_response_text(
            401,
            "Unauthorized"@,
            json_text(refusal_json("invalid_code"@, PairingError::InvalidCode)),
        ),
    }
}

/// The JSON object of a refusal with the given error code and message.
pub open spec fn refusal_json(code: Seq<char>, e: PairingError) -> JsonV {
    JsonV::Object(
        Map::<Seq<char>, JsonV>::empty().insert("error"@, JsonV::Str(code)).insert(
            "message"@,
            JsonV::Str(pairing_error_text(e)),
        ),
    )
}

/// The HTTP response to the outcome of a validation.
pub fn pairing_result_response(result: &Result<PairingResponse, PairingError>) -> (r: String)
    ensures
        r@ == validation_response(*result),
{
    match result {
        Ok(p) => {
            let body = pairing_response_json(p);
            create_http_response(200, "OK", body.as_str())
        },
        Err(PairingError::RateLimited) => {
            let body = error_response_json(&PairingErrorResponse::rate_limited());
            create_http_response(429, "Too Many Requests", body.as_str())
        },
        Err(_) => {
            let body = error_response_json(&PairingErrorResponse::invalid_code());
            create_http_response(401, "Unauthorized", body.as_str())
        },
    }
}

/// The pairing endpoint, `elapsed` milliseconds after the ticket was made:
/// `400` for a request without a code, `503` while pairing is off, and the
/// response to the validation of the code otherwise.
pub fn pairing_http_response_at(request: &str, manager: Option<&mut PairingManager>, elapsed: u64) -> (r: String)
    ensures
        request_code(request@) is None ==> r@ == http_response_text(400, "Bad Request"@, missing_code_body()),
        request_code(request@) is None ==> (manager matches Some(m) ==> final(m)@ == (*m)@),
        request_code(request@) is Some && manager is None ==> r@ == http_response_text(
            503,
            "Service Unavailable"@,
            pairing_disabled_body(),
        ),
        request_code(request@) matches Some(c) ==> (manager matches Some(m) ==> ({
            let before = (*m)@;
            &&& final(m)@ == validate_next(before, c, elapsed as nat)
            &&& validate_outcome(before, c, elapsed as nat) matches Err(e) ==> r@ == validation_response(Err(e))
            &&& validate_outcome(before, c, elapsed as nat) is Ok ==> exists|p: PairingResponse|
                response_matches(before, p) && r@ == validation_response(Ok(p))
        })),
{
    let code = match pairing_code_from_request(request) {
        Some(c) => c,
        None => {
            return create_http_response(
                400,
                "Bad Request",
                "{\"error\":\"missing_code\",\"message\":\"Missing 'code' query parameter\"}",
            );
        },
    };
    match manager {
        Some(m) => {
            let result = m.validate_at(code.as_str(), elapsed);
            pairing_result_response(&result)
        },
        None => create_http_response(
            503,
            "Service Unavailable",
            "{\"error\":\"pairing_disabled\",\"message\":\"Pairing is not enabled on this bridge\"}",
        ),
    }
}

/// The pairing endpoint by now; see `pairing_http_response_at`.
pub fn pairing_http_response(request: &str, manager: Option<&mut PairingManager>) -> (r: String)
    ensures
        request_code(request@) is None ==> r@ == http_response_text(400, "Bad Request"@, missing_code_body()),
        request_code(request@) is None ==> (manager matches Some(m) ==> final(m)@ == (*m)@),
        request_code(request@) is Some && manager is None ==> r@ == http_response_text(
            503,
            "Service Unavailable"@,
            pairing_disabled_body(),
        ),
        request_code(request@) matches Some(c) ==> (manager matches Some(m) ==> exists|elapsed: nat| {
            &&& final(m)@ == #[trigger] validate_next((*m)@, c, elapsed)
            &&& validate_outcome((*m)@, c, elapsed) matches Err(e) ==> r@ == validation_response(Err(e))
            &&& validate_outcome((*m)@, c, elapsed) is Ok ==> exists|p: PairingResponse|
                response_matches((*m)@, p) && r@ == validation_response(Ok(p))
        }),
{
    match manager {
        Some(m) => {
            let elapsed = m.elapsed_millis();
            pairing_http_response_at(request, Some(m), elapsed)
        },
        None => pairing_http_response_at(request, None, 0),
    }
}

/// The outcome of the bearer-token check of a WebSocket handshake.
#[derive(Debug, Clone, PartialEq, Eq)]
pub enum AuthDecision {
    /// No token is configured: every client is let in, with no token.
    Open,
    /// The client presented the configured token.
    Accepted(String),
    /// The client presented no token, or a wrong one: `401 Unauthorized`.
    Rejected,
}

/// The bearer-token check: the `X-Bridge-Token` header, or else the `token`
/// parameter of the query, must equal the configured token byte for byte.
pub open spec fn auth_spec(expected: Option<Seq<char>>, header: Option<Seq<char>>, query: Option<Seq<char>>, r: AuthDecision) -> bool {
    match expected {
        None => r == AuthDecision::Open,
        Some(t) => {
            let by_query = match query {
                Some(q) => query_param(q, "token"@) == Some(t),
                None => false,
            };
            if header == Some(t) || by_query {
                r matches AuthDecision::Accepted(a) && a@ == t
            } else {
                r == AuthDecision::Rejected
            }
        },
    }
}

/// Checks the bearer token of a WebSocket handshake: `header` is the
/// `X-Bridge-Token` header and `query` the query of the request target.
pub fn authorize(expected: Option<&str>, header: Option<&str>, query: Option<&str>) -> (r: AuthDecision)
    ensures
        auth_spec(
            match expected {
                Some(s) => Some(s@),
                None => None,
            },
            match header {
                Some(s) => Some(s@),
                None => None,
            },
            match query {
                Some(s) => Some(s@),
                None => None,
            },
            r,
        ),
{
    let t = match expected {
        Some(t) => t,
        None => return AuthDecision::Open,
    };
    let header_ok = match header {
        Some(h) => str_eq(h, t),
        None => false,
    };
    if header_ok {
        return AuthDecision::Accepted(String::from_str(t));
    }
    let query_ok = match query {
        Some(q) => {
            let qv = chars_of(q);
            match find_query_param(&qv, "token") {
                Some(v) => str_eq(v.as_str(), t),
                None => false,
            }
        },
        None => false,
    };
    if query_ok {
        AuthDecision::Accepted(String::from_str(t))
    } else {
        AuthDecision::Rejected
    }
}

/// Whether a request line asks for a pairing endpoint of the pairing-only
/// server: a `GET` naming `/pair/local`, `/pair/cloudflare` or `/pair/tailscale`.
pub open spec fn is_offline_pairing_line(line: Seq<char>) -> bool {
    starts_with(line, "GET"@) && (contains(line, "/pair/local"@) || contains(line, "/pair/cloudflare"@) || contains(
        line,
        "/pair/tailscale"@,
    ))
}

/// The response of the pairing-only server to a validation: the payload, or
/// a bare error code.
pub open spec fn offline_validation_response(r: Result<PairingResponse, PairingError>) -> Seq<char> {
    match r {
        Ok(p) => http_response_text(200, "OK"@, json_text(payload_json(p))),
        Err(PairingError::RateLimited) => http_response_text(429, "Too Many Requests"@, "{\"error\":\"rate_limited\"}"@),
        Err(_) => http_response_text(401, "Unauthorized"@, "{\"error\":\"invalid_code\"}"@),
    }
}

/// The pairing-only server's answer to one request, `elapsed` milliseconds
/// after the ticket was made, and whether a client was paired: `404` for
/// anything but a pairing request, `400` without a code, and the response to
/// the validation otherwise.
pub fn offline_pairing_response_at(request: &str, manager: &mut PairingManager, elapsed: u64) -> (r: (String, bool))
    ensures
        !is_offline_pairing_line(first_line(request@)) ==> r.0@ == http_response_text(
            404,
            "Not Found"@,
            "{\"error\":\"not_found\"}"@,
        ) && !r.1 && final(manager)@ == old(manager)@,
        is_offline_pairing_line(first_line(request@)) && request_code(request@) is None ==> r.0@
            == http_response_text(400, "Bad Request"@, "{\"error\":\"missing_code\"}"@) && !r.1
            && final(manager)@ == old(manager)@,
        is_offline_pairing_line(first_line(request@)) ==> (request_code(request@) matches Some(c) ==> ({
            let before = old(manager)@;
            &&& final(manager)@ == validate_next(before, c, elapsed as nat)
            &&& r.1 == validate_outcome(before, c, elapsed as nat) is Ok
            &&& validate_outcome(before, c, elapsed as nat) matches Err(e) ==> r.0@ == offline_validation_response(Err(e))
            &&& validate_outcome(before, c, elapsed as nat) is Ok ==> exists|p: PairingResponse|
                response_matches(before, p) && r.0@ == offline_validation_response(Ok(p))
        })),
{
    let line = first_line_chars(request);
    assert(line@.subrange(0, line@.len() as int) =~= line@);
    let is_pair = seq_starts_with(&line, 0, line.len(), "GET") && (chars_contain(&line, "/pair/local")
        || chars_contain(&line, "/pair/cloudflare") || chars_contain(&line, "/pair/tailscale"));
    if !is_pair {
        return (create_http_response(404, "Not Found", "{\"error\":\"not_found\"}"), false);
    }
    let code = match pairing_code_from_request(request) {
        Some(c) => c,
        None => return (create_http_response(400, "Bad Request", "{\"error\":\"missing_code\"}"), false),
    };
    match manager.validate_at(code.as_str(), elapsed) {
        Ok(p) => {
            let body = pairing_response_json(&p);
            (create_http_response(200, "OK", body.as_str()), true)
        },
        Err(PairingError::RateLimited) => (
            create_http_response(429, "Too Many Requests", "{\"error\":\"rate_limited\"}"),
            false,
        ),
        Err(_) => (create_http_response(401, "Unauthorized", "{\"error\":\"invalid_code\"}"), false),
    }
}

/// A stream that hands out the bytes already read from it before those that
/// are still to come: the first bytes of a connection are read to choose the
/// protocol and then handed, unread, to the protocol's handler.
pub struct PrefixedStream<S> {
    prefix: Vec<u8>,
    prefix_pos: usize,
    inner: S,
}

impl<S> PrefixedStream<S> {
    /// The bytes not yet handed out.
    pub closed spec fn pending(&self) -> Seq<u8> {
        self.prefix@.subrange(self.prefix_pos as int, self.prefix@.len() as int)
    }

    pub closed spec fn wf(&self) -> bool {
        self.prefix_pos <= self.prefix@.len()
    }

    /// A stream that hands out `prefix` before reading from `inner`.
    pub fn new(prefix: Vec<u8>, inner: S) -> (r: Self)
        ensures
            r.wf(),
            r.pending() == prefix@,
    {
        let r = PrefixedStream { prefix, prefix_pos: 0, inner };
        assert(r.prefix@.subrange(0, r.prefix@.len() as int) =~= r.prefix@);
        r
    }

    /// Whether bytes of the prefix remain to be handed out.
    pub fn has_pending(&self) -> (r: bool)
        requires
            self.wf(),
        ensures
            r == (self.pending().len() > 0),
    {
        self.prefix_pos < self.prefix.len()
    }

    /// Hands out up to `room` bytes of the prefix.
    pub fn take_prefix(&mut self, room: usize) -> (r: Vec<u8>)
        requires
            old(self).wf(),
        ensures
            final(self).wf(),
            r@.len() == if old(self).pending().len() < room { old(self).pending().len() } else { room as nat },
            r@ == old(self).pending().subrange(0, r@.len() as int),
            final(self).pending() == old(self).pending().subrange(r@.len() as int, old(self).pending().len() as int),
    {
        let remaining = self.prefix.len() - self.prefix_pos;
        let n = if remaining < room { remaining } else { room };
        let mut out: Vec<u8> = Vec::new();
        let mut i: usize = 0;
        while i < n
            invariant
                n <= remaining,
                remaining == self.prefix@.len() - self.prefix_pos,
                self.prefix_pos + n <= self.prefix@.len(),
                self.prefix@.len() <= usize::MAX,
                self.prefix_pos <= self.prefix@.len(),
                i <= n,
                out@ == self.prefix@.subrange(self.prefix_pos as int, self.prefix_pos + i),
            decreases n - i,
        {
            out.push(self.prefix[self.prefix_pos + i]);
            i = i + 1;
        }
        let ghost before = self.pending();
        self.prefix_pos = self.prefix_pos + n;
        assert(out@ =~= before.subrange(0, n as int));
        assert(self.pending() =~= before.subrange(n as int, before.len() as int));
        out
    }

    /// The stream read once the prefix is handed out.
    pub fn inner_mut(&mut self) -> (r: &mut S) {
        &mut self.inner
    }
}

} // verus!
