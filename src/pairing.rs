//! One-time pairing tickets: a short-lived six-digit code that hands the
//! connection credentials to exactly one client.

use crate::clock::{instant_now, millis_since};
use crate::text::{clone_opt, decimal, decimal_string, str_eq};
use rand::Rng;
use std::time::Instant;
use vstd::prelude::*;
use vstd::utf8::encode_utf8;

verus! {

/// Smallest pairing code.
pub const PAIRING_CODE_MIN: u32 = 100000;

/// Largest pairing code.
pub const PAIRING_CODE_MAX: u32 = 999999;

/// How long a ticket stays valid, in milliseconds.
pub const PAIRING_TTL_MILLIS: u64 = 60000;

/// Failed validations after which every further one is refused.
pub const MAX_FAILED_ATTEMPTS: u32 = 5;

/// Why a pairing attempt was refused.
#[derive(Debug, Clone, Copy, PartialEq, Eq, Structural)]
pub enum PairingError {
    InvalidCode,
    CodeAlreadyUsed,
    RateLimited,
}

impl PairingError {
    /// The human-readable text of the error.
    pub fn message(&self) -> (r: String)
        ensures
            r@ == pairing_error_text(*self),
    {
        match self {
            PairingError::InvalidCode => String::from_str("Pairing code is invalid or expired"),
            PairingError::CodeAlreadyUsed => String::from_str("Pairing code has already been used"),
            PairingError::RateLimited => String::from_str(
                "Too many failed attempts. Please restart the bridge to get a new code.",
            ),
        }
    }
}

pub open spec fn pairing_error_text(e: PairingError) -> Seq<char> {
    match e {
        PairingError::InvalidCode => "Pairing code is invalid or expired"@,
        PairingError::CodeAlreadyUsed => "Pairing code has already been used"@,
        PairingError::RateLimited => "Too many failed attempts. Please restart the bridge to get a new code."@,
    }
}

/// The credentials handed to a client on successful pairing.
#[derive(Debug, Clone, PartialEq, Eq)]
pub struct PairingResponse {
    pub url: String,
    pub protocol: String,
    pub version: String,
    pub auth_token: String,
    pub cert_fingerprint: Option<String>,
    pub client_id: Option<String>,
    pub client_secret: Option<String>,
}

/// The body of a refused pairing request.
#[derive(Debug, Clone, PartialEq, Eq)]
pub struct PairingErrorResponse {
    pub error: String,
    pub message: String,
}

impl PairingErrorResponse {
    pub fn invalid_code() -> (r: Self)
        ensures
            r.error@ == "invalid_code"@,
            r.message@ == pairing_error_text(PairingError::InvalidCode),
    {
        PairingErrorResponse {
            error: String::from_str("invalid_code"),
            message: PairingError::InvalidCode.message(),
        }
    }

    pub fn rate_limited() -> (r: Self)
        ensures
            r.error@ == "rate_limited"@,
            r.message@ == pairing_error_text(PairingError::RateLimited),
    {
        PairingErrorResponse {
            error: String::from_str("rate_limited"),
            message: PairingError::RateLimited.message(),
        }
    }
}

/// What a ticket holds, as mathematical values.
pub ghost struct TicketView {
    pub code: Seq<char>,
    pub used: bool,
    pub attempts: nat,
    pub url: Seq<char>,
    pub auth_token: Seq<char>,
    pub cert_fingerprint: Option<Seq<char>>,
    pub client_id: Option<Seq<char>>,
    pub client_secret: Option<Seq<char>>,
}

/// The response a ticket hands out, as mathematical values.
pub open spec fn response_matches(t: TicketView, r: PairingResponse) -> bool {
    &&& r.url@ == t.url
    &&& r.protocol@ == "acp"@
    &&& r.version@ == "1.0"@
    &&& r.auth_token@ == t.auth_token
    &&& r.cert_fingerprint.deep_view() == t.cert_fingerprint
    &&& r.client_id.deep_view() == t.client_id
    &&& r.client_secret.deep_view() == t.client_secret
}

/// A pairing code is the decimal form of a number in the code range.
pub open spec fn is_pairing_code(code: Seq<char>) -> bool {
    exists|n: nat| PAIRING_CODE_MIN <= n <= PAIRING_CODE_MAX && code == decimal(n)
}

/// The outcome of one validation, given the ticket before it, the code
/// supplied and the milliseconds since the ticket was made.
pub open spec fn validate_outcome(t: TicketView, code: Seq<char>, elapsed: nat) -> Result<(), PairingError> {
    if t.attempts >= MAX_FAILED_ATTEMPTS {
        Err(PairingError::RateLimited)
    } else if t.used {
        Err(PairingError::CodeAlreadyUsed)
    } else if elapsed > PAIRING_TTL_MILLIS {
        Err(PairingError::InvalidCode)
    } else if code != t.code {
        Err(PairingError::InvalidCode)
    } else {
        Ok(())
    }
}

/// The ticket after one validation.
pub open spec fn validate_next(t: TicketView, code: Seq<char>, elapsed: nat) -> TicketView {
    if t.attempts >= MAX_FAILED_ATTEMPTS || t.used || elapsed > PAIRING_TTL_MILLIS {
        t
    } else if code != t.code {
        TicketView { attempts: t.attempts + 1, ..t }
    } else {
        TicketView { used: true, ..t }
    }
}

/// Whether a ticket has expired `elapsed` milliseconds after it was made.
pub open spec fn expired_after(elapsed: u64) -> bool {
    elapsed > PAIRING_TTL_MILLIS
}

/// Manages one-time pairing codes for client registration.
pub struct PairingManager {
    code: String,
    created_at: Instant,
    used: bool,
    attempts: u32,
    websocket_url: String,
    auth_token: String,
    cert_fingerprint: Option<String>,
    client_id: Option<String>,
    client_secret: Option<String>,
}

impl View for PairingManager {
    type V = TicketView;

    closed spec fn view(&self) -> TicketView {
        TicketView {
            code: self.code@,
            used: self.used,
            attempts: self.attempts as nat,
            url: self.websocket_url@,
            auth_token: self.auth_token@,
            cert_fingerprint: self.cert_fingerprint.deep_view(),
            client_id: self.client_id.deep_view(),
            client_secret: self.client_secret.deep_view(),
        }
    }
}

/// Relies on rand::thread_rng and rand::Rng::gen_range: a draw from the
/// half-open range `low..high`, which must not be empty.
#[verifier::external_body]
fn random_below(low: u32, high: u32) -> (r: u32)
    requires
        low < high,
    ensures
        low <= r < high,
{
    rand::thread_rng().gen_range(low..high)
}

/// A fresh random pairing code.
pub fn generate_pairing_code() -> (r: String)
    ensures
        is_pairing_code(r@),
{
    let n = random_below(PAIRING_CODE_MIN, PAIRING_CODE_MAX + 1);
    let s = decimal_string(n as u64);
    assert(PAIRING_CODE_MIN <= n as nat <= PAIRING_CODE_MAX && s@ == decimal(n as nat));
    s
}

impl PairingManager {
    /// A ticket with a fresh code, no external-tunnel credentials.
    pub fn new(websocket_url: String, auth_token: String, cert_fingerprint: Option<String>) -> (r: Self)
        ensures
            is_pairing_code(r@.code),
            !r@.used,
            r@.attempts == 0,
            r@.url == websocket_url@,
            r@.auth_token == auth_token@,
            r@.cert_fingerprint == cert_fingerprint.deep_view(),
            r@.client_id is None,
            r@.client_secret is None,
    {
        Self::new_with_cf(websocket_url, auth_token, cert_fingerprint, None, None)
    }

    /// A ticket with a fresh code, carrying external-tunnel credentials.
    pub fn new_with_cf(
        websocket_url: String,
        auth_token: String,
        cert_fingerprint: Option<String>,
        client_id: Option<String>,
        client_secret: Option<String>,
    ) -> (r: Self)
        ensures
            is_pairing_code(r@.code),
            !r@.used,
            r@.attempts == 0,
            r@.url == websocket_url@,
            r@.auth_token == auth_token@,
            r@.cert_fingerprint == cert_fingerprint.deep_view(),
            r@.client_id == client_id.deep_view(),
            r@.client_secret == client_secret.deep_view(),
    {
        let code = generate_pairing_code();
        PairingManager {
            code,
            created_at: instant_now(),
            used: false,
            attempts: 0,
            websocket_url,
            auth_token,
            cert_fingerprint,
            client_id,
            client_secret,
        }
    }

    /// The current pairing code.
    pub fn get_code(&self) -> (r: &str)
        ensures
            r@ == self@.code,
    {
        self.code.as_str()
    }

    /// Whether the code has been used.
    pub fn is_used(&self) -> (r: bool)
        ensures
            r == self@.used,
    {
        self.used
    }

    /// The pinned certificate fingerprint, if any.
    pub fn get_cert_fingerprint(&self) -> (r: Option<&str>)
        ensures
            r is Some <==> self@.cert_fingerprint is Some,
            r is Some ==> r->0@ == self@.cert_fingerprint->0,
    {
        match &self.cert_fingerprint {
            Some(fp) => Some(fp.as_str()),
            None => None,
        }
    }

    /// The pairing link for `base_url`:
    /// `{base_url}/pair/local?code={code}`, followed by `&fp=` and the
    /// percent-encoded fingerprint when one is pinned.
    pub fn get_pairing_url(&self, base_url: &str) -> (r: String)
        ensures
            r@ == pairing_url(base_url@, self@),
    {
        let mut url = String::from_str(base_url);
        url.append("/pair/local?code=");
        url.append(self.code.as_str());
        match &self.cert_fingerprint {
            Some(fp) => {
                url.append("&fp=");
                let enc = url_encode(fp.as_str());
                url.append(enc.as_str());
            },
            None => {},
        }
        url
    }

    /// Milliseconds since the ticket was made.
    pub fn elapsed_millis(&self) -> u64 {
        millis_since(&self.created_at)
    }

    /// Whether the ticket has expired, `elapsed` milliseconds after it was made.
    pub fn is_expired_at(&self, elapsed: u64) -> (r: bool)
        ensures
            r == (elapsed > PAIRING_TTL_MILLIS),
    {
        elapsed > PAIRING_TTL_MILLIS
    }

    /// Whether the ticket has expired by now.
    pub fn is_expired(&self) -> (r: bool)
        ensures
            exists|elapsed: u64| r == #[trigger] expired_after(elapsed),
    {
        let elapsed = self.elapsed_millis();
        let r = self.is_expired_at(elapsed);
        assert(r == expired_after(elapsed));
        r
    }

    /// Whole seconds left before expiry, `elapsed` milliseconds after the
    /// ticket was made.
    pub open spec fn seconds_remaining_spec(&self, elapsed: u64) -> u64 {
        if elapsed > PAIRING_TTL_MILLIS {
            0
        } else {
            ((PAIRING_TTL_MILLIS - elapsed) / 1000) as u64
        }
    }

    /// Whole seconds left before expiry, `elapsed` milliseconds after the
    /// ticket was made.
    pub fn seconds_remaining_at(&self, elapsed: u64) -> (r: u64)
        ensures
            elapsed > PAIRING_TTL_MILLIS ==> r == 0,
            elapsed <= PAIRING_TTL_MILLIS ==> r == (PAIRING_TTL_MILLIS - elapsed) / 1000,
    {
        if elapsed > PAIRING_TTL_MILLIS {
            0
        } else {
            (PAIRING_TTL_MILLIS - elapsed) / 1000
        }
    }

    /// Whole seconds left before expiry, by now.
    pub fn seconds_remaining(&self) -> (r: u64)
        ensures
            r <= PAIRING_TTL_MILLIS / 1000,
            exists|elapsed: u64| #[trigger] self.seconds_remaining_spec(elapsed) == r,
    {
        let elapsed = self.elapsed_millis();
        let r = self.seconds_remaining_at(elapsed);
        assert(self.seconds_remaining_spec(elapsed) == r);
        r
    }

    /// Validates `code`, `elapsed` milliseconds after the ticket was made:
    /// refuses once the failed attempts reach the cap, once the code was used
    /// and once the ticket expired; counts a wrong code as a failed attempt;
    /// marks the ticket used and hands out the credentials on the right code.
    pub fn validate_at(&mut self, code: &str, elapsed: u64) -> (r: Result<PairingResponse, PairingError>)
        ensures
            final(self)@ == validate_next(old(self)@, code@, elapsed as nat),
            r is Ok <==> validate_outcome(old(self)@, code@, elapsed as nat) is Ok,
            r matches Err(e) ==> validate_outcome(old(self)@, code@, elapsed as nat) == Err::<(), PairingError>(e),
            r matches Ok(p) ==> response_matches(old(self)@, p),
    {
        if self.attempts >= MAX_FAILED_ATTEMPTS {
            return Err(PairingError::RateLimited);
        }
        if self.used {
            return Err(PairingError::CodeAlreadyUsed);
        }
        if self.is_expired_at(elapsed) {
            return Err(PairingError::InvalidCode);
        }
        if !str_eq(code, self.code.as_str()) {
            self.attempts = self.attempts + 1;
            return Err(PairingError::InvalidCode);
        }
        self.used = true;
        Ok(PairingResponse {
            url: self.websocket_url.clone(),
            protocol: String::from_str("acp"),
            version: String::from_str("1.0"),
            auth_token: self.auth_token.clone(),
            cert_fingerprint: clone_opt(&self.cert_fingerprint),
            client_id: clone_opt(&self.client_id),
            client_secret: clone_opt(&self.client_secret),
        })
    }

    /// Validates `code` against the ticket by now.
    pub fn validate(&mut self, code: &str) -> (r: Result<PairingResponse, PairingError>)
        ensures
            exists|elapsed: nat|
                final(self)@ == validate_next(old(self)@, code@, elapsed) && (r is Ok
                    <==> validate_outcome(old(self)@, code@, elapsed) is Ok) && (r matches Err(e)
                    ==> validate_outcome(old(self)@, code@, elapsed) == Err::<(), PairingError>(e)),
            r matches Ok(p) ==> response_matches(old(self)@, p),
    {
        let elapsed = self.elapsed_millis();
        let r = self.validate_at(code, elapsed);
        assert(final(self)@ == validate_next(old(self)@, code@, elapsed as nat));
        r
    }
}

/// Bytes that percent-encoding leaves as they are: ASCII letters, digits and
/// `-`, `.`, `_`, `~`.
pub open spec fn url_unreserved(b: u8) -> bool {
    (48 <= b <= 57) || (65 <= b <= 90) || (97 <= b <= 122) || b == 45 || b == 46 || b == 95 || b == 126
}

/// Upper-case hexadecimal digit of a value below sixteen.
pub open spec fn hex_upper(d: u8) -> char {
    if d < 10 {
        ((48 + d) as u8) as char
    } else {
        ((55 + d) as u8) as char
    }
}

/// Percent-encoding of a byte string.
pub open spec fn percent_encode(bs: Seq<u8>) -> Seq<char>
    decreases bs.len(),
{
    if bs.len() == 0 {
        Seq::empty()
    } else {
        let b = bs[0];
        let head = if url_unreserved(b) {
            seq![b as char]
        } else {
            seq!['%', hex_upper(b / 16), hex_upper(b % 16)]
        };
        head + percent_encode(bs.drop_first())
    }
}

/// Relies on urlencoding::encode: every byte of the UTF-8 form of `s` but the
/// unreserved ones becomes `%` and two upper-case hexadecimal digits.
#[verifier::external_body]
fn url_encode(s: &str) -> (r: String)
    ensures
        r@ == percent_encode(encode_utf8(s@)),
{
    urlencoding::encode(s).into_owned()
}

/// The pairing link for a base URL.
pub open spec fn pairing_url(base: Seq<char>, t: TicketView) -> Seq<char> {
    let head = base + "/pair/local?code="@ + t.code;
    match t.cert_fingerprint {
        Some(fp) => head + "&fp="@ + percent_encode(encode_utf8(fp)),
        None => head,
    }
}

/// The ticket after a run of validations, each given as the code supplied
/// and the milliseconds since the ticket was made.
pub open spec fn ticket_after(t: TicketView, calls: Seq<(Seq<char>, nat)>) -> TicketView
    decreases calls.len(),
{
    if calls.len() == 0 {
        t
    } else {
        ticket_after(validate_next(t, calls[0].0, calls[0].1), calls.drop_first())
    }
}

/// How many validations of a run succeed.
pub open spec fn successes(t: TicketView, calls: Seq<(Seq<char>, nat)>) -> nat
    decreases calls.len(),
{
    if calls.len() == 0 {
        0
    } else {
        let here: nat = if validate_outcome(t, calls[0].0, calls[0].1) is Ok { 1 } else { 0 };
        here + successes(validate_next(t, calls[0].0, calls[0].1), calls.drop_first())
    }
}

/// Whether a validation fails because the code supplied is wrong (and not
/// because of the cap, an earlier use or expiry).
pub open spec fn wrong_code(t: TicketView, code: Seq<char>, elapsed: nat) -> bool {
    t.attempts < MAX_FAILED_ATTEMPTS && !t.used && elapsed <= PAIRING_TTL_MILLIS && code != t.code
}

/// How many validations of a run fail with a wrong code.
pub open spec fn wrong_code_failures(t: TicketView, calls: Seq<(Seq<char>, nat)>) -> nat
    decreases calls.len(),
{
    if calls.len() == 0 {
        0
    } else {
        let here: nat = if wrong_code(t, calls[0].0, calls[0].1) { 1 } else { 0 };
        here + wrong_code_failures(validate_next(t, calls[0].0, calls[0].1), calls.drop_first())
    }
}

/// Whether every validation of a run is refused as rate limited.
pub open spec fn all_rate_limited(t: TicketView, calls: Seq<(Seq<char>, nat)>) -> bool
    decreases calls.len(),
{
    calls.len() == 0 || (validate_outcome(t, calls[0].0, calls[0].1) == Err::<(), PairingError>(
        PairingError::RateLimited,
    ) && all_rate_limited(validate_next(t, calls[0].0, calls[0].1), calls.drop_first()))
}

/// A ticket hands out its credentials at most once in its lifetime, and never
/// again once used.
pub proof fn lemma_single_use(t: TicketView, calls: Seq<(Seq<char>, nat)>)
    ensures
        successes(t, calls) <= 1,
        t.used ==> successes(t, calls) == 0,
    decreases calls.len(),
{
    if calls.len() > 0 {
        let next = validate_next(t, calls[0].0, calls[0].1);
        lemma_single_use(next, calls.drop_first());
        if validate_outcome(t, calls[0].0, calls[0].1) is Ok {
            assert(next.used);
        }
    }
}

/// Once the failed attempts reach the cap, every later validation is refused
/// as rate limited, whatever code it supplies.
pub proof fn lemma_rate_limited_forever(t: TicketView, calls: Seq<(Seq<char>, nat)>)
    requires
        t.attempts >= MAX_FAILED_ATTEMPTS,
    ensures
        all_rate_limited(t, calls),
    decreases calls.len(),
{
    if calls.len() > 0 {
        lemma_rate_limited_forever(validate_next(t, calls[0].0, calls[0].1), calls.drop_first());
    }
}

/// Each validation that fails with a wrong code is counted, up to the cap.
pub proof fn lemma_failures_counted(t: TicketView, calls: Seq<(Seq<char>, nat)>)
    requires
        t.attempts <= MAX_FAILED_ATTEMPTS,
    ensures
        ticket_after(t, calls).attempts == t.attempts + wrong_code_failures(t, calls),
        ticket_after(t, calls).attempts <= MAX_FAILED_ATTEMPTS,
    decreases calls.len(),
{
    if calls.len() > 0 {
        lemma_failures_counted(validate_next(t, calls[0].0, calls[0].1), calls.drop_first());
    }
}

/// After five validations of a ticket have failed with a wrong code, every
/// later validation is refused as rate limited, whatever code it supplies.
pub proof fn lemma_rate_limit(t: TicketView, before: Seq<(Seq<char>, nat)>, later: Seq<(Seq<char>, nat)>)
    requires
        t.attempts == 0,
        wrong_code_failures(t, before) >= MAX_FAILED_ATTEMPTS,
    ensures
        all_rate_limited(ticket_after(t, before), later),
{
    lemma_failures_counted(t, before);
    lemma_rate_limited_forever(ticket_after(t, before), later);
}

} // verus!
