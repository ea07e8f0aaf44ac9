//! The agent's identity and its per-transport settings.

use crate::config::{nonempty_member, set_nonempty};
use crate::json::{empty_object, json_text, print_json, set_field, string_value, JsonV};
use crate::text::{lemma_lex_total, lemma_lex_trans, lex_lt, str_eq, str_lt};
use crate::token::{generate_auth_token, is_auth_token, new_uuid_v4};
use vstd::prelude::*;

verus! {

/// Settings of one transport.
#[derive(Debug, Clone, PartialEq, Eq)]
pub struct TransportConfig {
    /// Whether the transport is active.
    pub enabled: bool,
    /// TCP port to bind.
    pub port: Option<u16>,
    /// Whether TLS is on.
    pub tls: Option<bool>,
    pub hostname: Option<String>,
    pub tunnel_id: Option<String>,
    pub tunnel_secret: Option<String>,
    pub account_id: Option<String>,
    pub client_id: Option<String>,
    pub client_secret: Option<String>,
    pub domain: Option<String>,
    pub subdomain: Option<String>,
}

impl Default for TransportConfig {
    fn default() -> (r: Self)
        ensures
            !r.enabled,
            r.port is None && r.tls is None && r.hostname is None && r.tunnel_id is None,
            r.tunnel_secret is None && r.account_id is None && r.client_id is None,
            r.client_secret is None && r.domain is None && r.subdomain is None,
    {
        TransportConfig {
            enabled: false,
            port: None,
            tls: None,
            hostname: None,
            tunnel_id: None,
            tunnel_secret: None,
            account_id: None,
            client_id: None,
            client_secret: None,
            domain: None,
            subdomain: None,
        }
    }
}

/// Stable agent identity and per-transport settings.
pub struct CommonConfig {
    /// Stable identifier of the agent across transports.
    pub agent_id: String,
    /// Bearer token required of WebSocket clients.
    pub auth_token: String,
    transports: Vec<(String, TransportConfig)>,
}

/// The transports, each under its name.
pub open spec fn names_unique(ts: Seq<(String, TransportConfig)>) -> bool {
    forall|i: int, j: int| 0 <= i < j < ts.len() ==> ts[i].0@ != ts[j].0@
}

/// Names strictly increasing.
pub open spec fn sorted_by_name(out: Seq<(&str, &TransportConfig)>) -> bool {
    forall|i: int, j: int| 0 <= i < j < out.len() ==> lex_lt(out[i].0@, out[j].0@)
}

/// `e` is an enabled transport among the first `k`.
pub open spec fn drawn_at(e: (&str, &TransportConfig), ts: Seq<(String, TransportConfig)>, k: int) -> bool {
    exists|kk: int| 0 <= kk < k && ts[kk].1.enabled && e.0@ == ts[kk].0@ && *e.1 == #[trigger] ts[kk].1
}

/// Every entry of `out` is an enabled transport among the first `k`.
pub open spec fn drawn_from(out: Seq<(&str, &TransportConfig)>, ts: Seq<(String, TransportConfig)>, k: int) -> bool {
    forall|j: int| 0 <= j < out.len() ==> #[trigger] drawn_at(out[j], ts, k)
}

/// Every enabled transport among the first `k` is in `out`.
pub open spec fn covers(out: Seq<(&str, &TransportConfig)>, ts: Seq<(String, TransportConfig)>, k: int) -> bool {
    forall|kk: int| 0 <= kk < k && ts[kk].1.enabled ==> exists|j: int|
        0 <= j < out.len() && #[trigger] out[j].0@ == ts[kk].0@
}

proof fn lemma_insert_step<'a>(
    before: Seq<(&'a str, &'a TransportConfig)>,
    ts: Seq<(String, TransportConfig)>,
    k: int,
    p: int,
    e: (&'a str, &'a TransportConfig),
)
    requires
        names_unique(ts),
        0 <= k < ts.len(),
        ts[k].1.enabled,
        e.0@ == ts[k].0@,
        *e.1 == ts[k].1,
        0 <= p <= before.len(),
        sorted_by_name(before),
        drawn_from(before, ts, k),
        covers(before, ts, k),
        forall|i: int| 0 <= i < p ==> !lex_lt(e.0@, #[trigger] before[i].0@),
        p < before.len() ==> lex_lt(e.0@, before[p].0@),
    ensures
        sorted_by_name(before.insert(p, e)),
        drawn_from(before.insert(p, e), ts, k + 1),
        covers(before.insert(p, e), ts, k + 1),
{
    let name = e.0@;
    assert forall|i: int| 0 <= i < p implies lex_lt(#[trigger] before[i].0@, name) by {
        assert(drawn_at(before[i], ts, k));
        let kk = choose|kk: int| 0 <= kk < k && ts[kk].1.enabled && before[i].0@ == ts[kk].0@ && *before[i].1 == #[trigger] ts[kk].1;
        assert(ts[kk].0@ != ts[k].0@);
        lemma_lex_total(before[i].0@, name);
    }
    assert forall|i: int| p <= i < before.len() implies lex_lt(name, #[trigger] before[i].0@) by {
        if i > p {
            lemma_lex_trans(name, before[p].0@, before[i].0@);
        }
    }
    let f = before.insert(p, e);
    assert forall|i: int, j: int| 0 <= i < j < f.len() implies lex_lt(f[i].0@, f[j].0@) by {
        if j < p {
            assert(f[i] == before[i] && f[j] == before[j]);
        } else if j == p {
            assert(f[i] == before[i]);
        } else if i < p {
            assert(f[i] == before[i] && f[j] == before[j - 1]);
            lemma_lex_trans(before[i].0@, name, before[j - 1].0@);
        } else if i == p {
            assert(f[j] == before[j - 1]);
        } else {
            assert(f[i] == before[i - 1] && f[j] == before[j - 1]);
        }
    }
    assert forall|j: int| 0 <= j < f.len() implies #[trigger] drawn_at(f[j], ts, k + 1) by {
        if j == p {
            assert(f[j].0@ == ts[k].0@ && *f[j].1 == ts[k].1);
        } else {
            let b = if j < p { before[j] } else { before[j - 1] };
            assert(f[j] == b);
            assert(drawn_at(b, ts, k));
            let kk = choose|kk: int| 0 <= kk < k && ts[kk].1.enabled && b.0@ == ts[kk].0@ && *b.1 == #[trigger] ts[kk].1;
            assert(0 <= kk < k + 1);
        }
    }
    assert forall|kk: int| 0 <= kk < k + 1 && ts[kk].1.enabled implies exists|j: int|
        0 <= j < f.len() && #[trigger] f[j].0@ == ts[kk].0@ by {
        if kk < k {
            let j = choose|j: int| 0 <= j < before.len() && #[trigger] before[j].0@ == ts[kk].0@;
            if j < p {
                assert(f[j] == before[j]);
            } else {
                assert(f[j + 1] == before[j]);
            }
        } else {
            assert(f[p].0@ == ts[kk].0@);
        }
    }
}

/// The settings of the transport named `name`.
pub open spec fn transport_of(ts: Seq<(String, TransportConfig)>, name: Seq<char>) -> Option<TransportConfig>
    decreases ts.len(),
{
    if ts.len() == 0 {
        None
    } else if ts[0].0@ == name {
        Some(ts[0].1)
    } else {
        transport_of(ts.drop_first(), name)
    }
}

proof fn lemma_transport_of(ts: Seq<(String, TransportConfig)>, name: Seq<char>, t: Option<TransportConfig>)
    requires
        names_unique(ts),
        t is None ==> forall|i: int| 0 <= i < ts.len() ==> ts[i].0@ != name,
        t matches Some(x) ==> exists|i: int| 0 <= i < ts.len() && ts[i].0@ == name && ts[i].1 == x,
    ensures
        transport_of(ts, name) == t,
    decreases ts.len(),
{
    if ts.len() > 0 {
        let rest = ts.drop_first();
        if ts[0].0@ == name {
            if let Some(x) = t {
                let i = choose|i: int| 0 <= i < ts.len() && ts[i].0@ == name && ts[i].1 == x;
                if i != 0 {
                    assert(ts[0].0@ != ts[i].0@);
                }
            }
        } else {
            assert forall|i: int, j: int| 0 <= i < j < rest.len() implies rest[i].0@ != rest[j].0@ by {
                assert(rest[i] == ts[i + 1] && rest[j] == ts[j + 1]);
            }
            if let Some(x) = t {
                let i = choose|i: int| 0 <= i < ts.len() && ts[i].0@ == name && ts[i].1 == x;
                assert(rest[i - 1] == ts[i]);
            } else {
                assert forall|i: int| 0 <= i < rest.len() implies rest[i].0@ != name by {
                    assert(rest[i] == ts[i + 1]);
                }
            }
            lemma_transport_of(rest, name, t);
        }
    }
}

/// The connection descriptor of a transport.
pub open spec fn common_connection_json(
    agent_id: Seq<char>,
    auth_token: Seq<char>,
    hostname: Seq<char>,
    t: Option<TransportConfig>,
) -> JsonV {
    let m = nonempty_member(Map::<Seq<char>, JsonV>::empty(), "agentId"@, agent_id);
    let m = m.insert("url"@, JsonV::Str(hostname)).insert("protocol"@, JsonV::Str("acp"@)).insert(
        "version"@,
        JsonV::Str("1.0"@),
    );
    let m = nonempty_member(m, "authToken"@, auth_token);
    let m = match t {
        Some(t) => {
            let m = match t.client_id {
                Some(id) => nonempty_member(m, "clientId"@, id@),
                None => m,
            };
            match t.client_secret {
                Some(secret) => nonempty_member(m, "clientSecret"@, secret@),
                None => m,
            }
        },
        None => m,
    };
    JsonV::Object(m)
}

impl CommonConfig {
    /// The transports, by name, in the order they were added.
    pub closed spec fn transports(&self) -> Seq<(String, TransportConfig)> {
        self.transports@
    }

    pub closed spec fn spec_agent_id(&self) -> String {
        self.agent_id
    }

    pub closed spec fn spec_auth_token(&self) -> String {
        self.auth_token
    }

    pub open spec fn wf(&self) -> bool {
        names_unique(self.transports())
    }

    /// A configuration with no identity, no token and no transport.
    pub fn empty() -> (r: Self)
        ensures
            r.wf(),
            r.spec_agent_id()@.len() == 0,
            r.spec_auth_token()@.len() == 0,
            r.transports().len() == 0,
    {
        CommonConfig { agent_id: String::new(), auth_token: String::new(), transports: Vec::new() }
    }

    /// The default configuration: no identity, no token, and the local
    /// transport enabled on port 8765 with TLS.
    pub fn default_config() -> (r: Self)
        ensures
            r.wf(),
            r.spec_agent_id()@.len() == 0,
            r.spec_auth_token()@.len() == 0,
            r.transports().len() == 1,
            r.transports()[0].0@ == "local"@,
            r.transports()[0].1 == (TransportConfig { enabled: true, port: Some(8765), tls: Some(true), ..r.transports()[0].1 }),
            r.transports()[0].1.hostname is None && r.transports()[0].1.client_id is None
                && r.transports()[0].1.client_secret is None,
    {
        let mut local = TransportConfig::default();
        local.enabled = true;
        local.port = Some(8765);
        local.tls = Some(true);
        let mut c = CommonConfig::empty();
        c.set_transport(String::from_str("local"), local);
        assert(c.transports().len() == 1) by {
            let f = c.transports();
            if f.len() > 1 {
                let i = choose|i: int| 0 <= i < f.len() && f[i].0@ == "local"@ && f[i].1 == local;
                let j = if i == 0 { 1int } else { 0int };
                assert(f[j].0@ != "local"@ ==> exists|a: int| 0 <= a < 0 && f[j] == f[a]);
            }
        }
        c
    }

    /// The JSON connection descriptor of transport `transport_name` for a
    /// QR code: identity, URL, protocol, version, token, and the service
    /// credentials of the transport that are set.
    pub fn to_connection_json(&self, hostname: &str, transport_name: &str) -> (r: String)
        requires
            self.wf(),
        ensures
            r@ == json_text(common_connection_json(
                self.spec_agent_id()@,
                self.spec_auth_token()@,
                hostname@,
                transport_of(self.transports(), transport_name@),
            )),
    {
        let mut v = empty_object();
        set_nonempty(&mut v, "agentId", &self.agent_id);
        set_field(&mut v, String::from_str("url"), string_value(String::from_str(hostname)));
        set_field(&mut v, String::from_str("protocol"), string_value(String::from_str("acp")));
        set_field(&mut v, String::from_str("version"), string_value(String::from_str("1.0")));
        set_nonempty(&mut v, "authToken", &self.auth_token);
        let t = match self.index_of(transport_name) {
            Some(i) => Some(&self.transports[i].1),
            None => None,
        };
        proof {
            lemma_transport_of(self.transports(), transport_name@, match t { Some(x) => Some(*x), None => None });
        }
        match t {
            Some(t) => {
                match &t.client_id {
                    Some(id) => set_nonempty(&mut v, "clientId", id),
                    None => {},
                }
                match &t.client_secret {
                    Some(secret) => set_nonempty(&mut v, "clientSecret", secret),
                    None => {},
                }
            },
            None => {},
        }
        print_json(&v)
    }

    /// The position of transport `name`.
    fn index_of(&self, name: &str) -> (r: Option<usize>)
        ensures
            r matches Some(i) ==> i < self.transports().len() && self.transports()[i as int].0@ == name@,
            r is None ==> forall|i: int| 0 <= i < self.transports().len() ==> self.transports()[i].0@ != name@,
    {
        let mut i: usize = 0;
        while i < self.transports.len()
            invariant
                i <= self.transports@.len(),
                forall|k: int| 0 <= k < i ==> self.transports@[k].0@ != name@,
            decreases self.transports@.len() - i,
        {
            if str_eq(self.transports[i].0.as_str(), name) {
                return Some(i);
            }
            i = i + 1;
        }
        None
    }

    /// The settings of transport `name`.
    pub fn transport(&self, name: &str) -> (r: Option<&TransportConfig>)
        ensures
            r matches Some(t) ==> exists|i: int|
                0 <= i < self.transports().len() && self.transports()[i].0@ == name@ && self.transports()[i].1 == *t,
            r is None ==> forall|i: int| 0 <= i < self.transports().len() ==> self.transports()[i].0@ != name@,
    {
        match self.index_of(name) {
            Some(i) => {
                assert(self.transports()[i as int].1 == self.transports@[i as int].1);
                Some(&self.transports[i].1)
            },
            None => None,
        }
    }

    /// Sets the settings of transport `name`, replacing earlier ones.
    pub fn set_transport(&mut self, name: String, cfg: TransportConfig)
        requires
            old(self).wf(),
        ensures
            final(self).wf(),
            final(self).spec_agent_id() == old(self).spec_agent_id(),
            final(self).spec_auth_token() == old(self).spec_auth_token(),
            exists|i: int| 0 <= i < final(self).transports().len() && final(self).transports()[i].0@ == name@
                && final(self).transports()[i].1 == cfg,
            forall|i: int| 0 <= i < old(self).transports().len() && old(self).transports()[i].0@ != name@
                ==> exists|j: int| 0 <= j < final(self).transports().len() && final(self).transports()[j] == old(self).transports()[i],
            forall|j: int| 0 <= j < final(self).transports().len() && final(self).transports()[j].0@ != name@
                ==> exists|i: int| 0 <= i < old(self).transports().len() && final(self).transports()[j] == old(self).transports()[i],
    {
        let ghost before = self.transports@;
        let found = self.index_of(name.as_str());
        let ghost nm = name@;
        if let Some(i) = found {
            let k = self.transports[i].0.clone();
            self.transports.set(i, (k, cfg));
            proof {
                let f = self.transports@;
                assert(f[i as int].0@ == nm);
                assert forall|x: int, y: int| 0 <= x < y < f.len() implies f[x].0@ != f[y].0@ by {
                    assert(f[x].0@ == before[x].0@ && f[y].0@ == before[y].0@);
                }
                assert forall|a: int| 0 <= a < before.len() && before[a].0@ != nm implies exists|j: int|
                    0 <= j < f.len() && f[j] == before[a] by {
                    assert(f[a] == before[a]);
                }
                assert forall|j: int| 0 <= j < f.len() && f[j].0@ != nm implies exists|a: int|
                    0 <= a < before.len() && f[j] == before[a] by {
                    assert(f[j] == before[j]);
                }
            }
        } else {
            self.transports.push((name, cfg));
            proof {
                let f = self.transports@;
                assert(f[before.len() as int].0@ == nm);
                assert forall|x: int, y: int| 0 <= x < y < f.len() implies f[x].0@ != f[y].0@ by {
                    if y < before.len() {
                        assert(f[x] == before[x] && f[y] == before[y]);
                    } else {
                        assert(f[x] == before[x]);
                    }
                }
                assert forall|a: int| 0 <= a < before.len() && before[a].0@ != nm implies exists|j: int|
                    0 <= j < f.len() && f[j] == before[a] by {
                    assert(f[a] == before[a]);
                }
                assert forall|j: int| 0 <= j < f.len() && f[j].0@ != nm implies exists|a: int|
                    0 <= a < before.len() && f[j] == before[a] by {
                    assert(f[j] == before[j]);
                }
            }
        }
    }

    /// Names of all transports, in the order they were added.
    pub fn transport_names(&self) -> (r: Vec<String>)
        ensures
            r@.len() == self.transports().len(),
            forall|i: int| 0 <= i < r@.len() ==> r@[i]@ == self.transports()[i].0@,
    {
        let mut r: Vec<String> = Vec::new();
        let mut i: usize = 0;
        while i < self.transports.len()
            invariant
                i <= self.transports@.len(),
                r@.len() == i,
                forall|k: int| 0 <= k < i ==> r@[k]@ == self.transports@[k].0@,
            decreases self.transports@.len() - i,
        {
            r.push(self.transports[i].0.clone());
            i = i + 1;
        }
        r
    }

    /// Makes sure the agent has an identifier, generating a random UUID when
    /// it has none.
    pub fn ensure_agent_id(&mut self)
        ensures
            old(self).spec_agent_id()@.len() == 0 ==> final(self).spec_agent_id()@.len() == 36,
            old(self).spec_agent_id()@.len() > 0 ==> final(self).spec_agent_id() == old(self).spec_agent_id(),
            final(self).spec_auth_token() == old(self).spec_auth_token(),
            final(self).transports() == old(self).transports(),
    {
        if self.agent_id.unicode_len() == 0 {
            self.agent_id = new_uuid_v4();
        }
    }

    /// A fresh random bearer token.
    pub fn generate_auth_token() -> (r: String)
        ensures
            is_auth_token(r@),
            r@.len() == 43,
    {
        generate_auth_token()
    }

    /// Makes sure a bearer token is set, generating one when it is empty.
    pub fn ensure_auth_token(&mut self)
        ensures
            old(self).spec_auth_token()@.len() == 0 ==> is_auth_token(final(self).spec_auth_token()@)
                && final(self).spec_auth_token()@.len() == 43,
            old(self).spec_auth_token()@.len() > 0 ==> final(self).spec_auth_token() == old(self).spec_auth_token(),
            final(self).spec_agent_id() == old(self).spec_agent_id(),
            final(self).transports() == old(self).transports(),
    {
        if self.auth_token.unicode_len() == 0 {
            self.auth_token = generate_auth_token();
        }
    }

    /// The enabled transports, sorted by name.
    pub fn enabled_transports(&self) -> (r: Vec<(&str, &TransportConfig)>)
        requires
            self.wf(),
        ensures
            sorted_by_name(r@),
            drawn_from(r@, self.transports(), self.transports().len() as int),
            covers(r@, self.transports(), self.transports().len() as int),
    {
        let ghost ts = self.transports@;
        let mut out: Vec<(&str, &TransportConfig)> = Vec::new();
        let mut k: usize = 0;
        while k < self.transports.len()
            invariant
                ts == self.transports@,
                names_unique(ts),
                k <= ts.len(),
                sorted_by_name(out@),
                drawn_from(out@, ts, k as int),
                covers(out@, ts, k as int),
            decreases ts.len() - k,
        {
            let entry = &self.transports[k];
            if entry.1.enabled {
                let name = entry.0.as_str();
                let mut p: usize = 0;
                while p < out.len() && !str_lt(name, out[p].0)
                    invariant
                        p <= out@.len(),
                        forall|i: int| 0 <= i < p ==> !lex_lt(name@, #[trigger] out@[i].0@),
                    decreases out@.len() - p,
                {
                    p = p + 1;
                }
                proof {
                    lemma_insert_step(out@, ts, k as int, p as int, (name, &entry.1));
                }
                out.insert(p, (name, &entry.1));
            } else {
                proof {
                    assert forall|j: int| 0 <= j < out@.len() implies #[trigger] drawn_at(out@[j], ts, k + 1) by {
                        assert(drawn_at(out@[j], ts, k as int));
                        let kk = choose|kk: int|
                            0 <= kk < k && ts[kk].1.enabled && out@[j].0@ == ts[kk].0@ && *out@[j].1 == #[trigger] ts[kk].1;
                        assert(0 <= kk < k + 1);
                    }
                }
            }
            k = k + 1;
        }
        assert(self.transports() == ts);
        out
    }
}

} // verus!
