//! The agent pool: long-lived agent sessions keyed by authentication token,
//! with a capacity bound, eviction of the oldest idle session, idle reaping,
//! a disconnect buffer and cached handshake responses.
//!
//! The pool is generic over the handle of a running agent process `H`. It
//! never starts, polls or stops a process itself: the caller reports whether
//! a process is alive, starts one when the pool asks for it, and stops the
//! handles that the pool gives back.

use crate::clock::{instant_now, millis_since};
use crate::text::{clone_opt, decimal, decimal_string, split_words, str_eq, words};
use std::time::Instant;
use vstd::prelude::*;

verus! {

/// Configuration of the agent pool.
#[derive(Debug, Clone, Copy, PartialEq, Eq, Structural)]
pub struct PoolConfig {
    /// How long an idle session (no client connected) is kept, in milliseconds.
    pub idle_timeout_ms: u64,
    /// Maximum number of concurrent agent sessions.
    pub max_agents: usize,
    /// Whether agent output is buffered while no client is connected.
    pub buffer_messages: bool,
    /// Maximum number of buffered messages per session.
    pub max_buffer_size: usize,
}

impl Default for PoolConfig {
    fn default() -> (r: Self)
        ensures
            r.idle_timeout_ms == 1_800_000,
            r.max_agents == 10,
            !r.buffer_messages,
            r.max_buffer_size == 1000,
    {
        PoolConfig { idle_timeout_ms: 1_800_000, max_agents: 10, buffer_messages: false, max_buffer_size: 1000 }
    }
}

/// Why the pool could not provide a session.
#[derive(Debug, Clone, PartialEq, Eq)]
pub enum PoolError {
    /// Every session is connected and the pool is at capacity.
    PoolFull { max_agents: usize },
    /// The agent process could not be started.
    SpawnFailed { reason: String },
}

impl PoolError {
    /// The human-readable text of the error.
    pub fn message(&self) -> (r: String)
        ensures
            self matches PoolError::PoolFull { max_agents } ==> r@ == "Agent pool is full ("@ + decimal(
                max_agents as nat,
            ) + " agents, all connected). Cannot spawn new agent."@,
            self matches PoolError::SpawnFailed { reason } ==> r@ == "Failed to spawn agent: "@ + reason@,
    {
        match self {
            PoolError::PoolFull { max_agents } => {
                let mut r = String::from_str("Agent pool is full (");
                let n = decimal_string(*max_agents as u64);
                r.append(n.as_str());
                r.append(" agents, all connected). Cannot spawn new agent.");
                r
            },
            PoolError::SpawnFailed { reason } => {
                let mut r = String::from_str("Failed to spawn agent: ");
                r.append(reason.as_str());
                r
            },
        }
    }
}

/// A session of the pool, as mathematical values.
pub ghost struct SessionView {
    pub token: Seq<char>,
    pub connected: bool,
    pub disconnected_at: Option<u64>,
    pub buffer: Seq<Seq<char>>,
    pub cached_init: Option<Seq<char>>,
    pub cached_session: Option<Seq<char>>,
}

/// A pooled agent session with its process handle.
pub struct PooledAgent<H> {
    /// The authentication token that owns the session.
    pub token: String,
    /// The running agent process and its channels.
    pub process: H,
    /// Whether a client is currently connected.
    pub connected: bool,
    /// When the last client disconnected, on the pool's clock.
    pub disconnected_at: Option<u64>,
    /// Agent output kept while no client was connected.
    pub message_buffer: Vec<String>,
    /// The agent's response to the first `initialize` request.
    pub cached_init_response: Option<String>,
    /// The agent's response to the first session-creation request.
    pub cached_session_response: Option<String>,
    /// The command the agent was started with.
    pub agent_command: String,
}

impl<H> View for PooledAgent<H> {
    type V = SessionView;

    open spec fn view(&self) -> SessionView {
        SessionView {
            token: self.token@,
            connected: self.connected,
            disconnected_at: self.disconnected_at,
            buffer: self.message_buffer.deep_view(),
            cached_init: self.cached_init_response.deep_view(),
            cached_session: self.cached_session_response.deep_view(),
        }
    }
}

/// Snapshot of the pool's counts.
#[derive(Debug, Clone, Copy, PartialEq, Eq, Structural)]
pub struct PoolStats {
    pub total: usize,
    pub connected: usize,
    pub idle: usize,
    pub max: usize,
}

impl PoolStats {
    /// A one-line summary: `AgentPool: {total}/{max} agents ({connected} connected, {idle} idle)`.
    pub fn describe(&self) -> (r: String)
        ensures
            r@ == "AgentPool: "@ + decimal(self.total as nat) + "/"@ + decimal(self.max as nat) + " agents ("@
                + decimal(self.connected as nat) + " connected, "@ + decimal(self.idle as nat) + " idle)"@,
    {
        let mut r = String::from_str("AgentPool: ");
        let total = decimal_string(self.total as u64);
        r.append(total.as_str());
        r.append("/");
        let max = decimal_string(self.max as u64);
        r.append(max.as_str());
        r.append(" agents (");
        let connected = decimal_string(self.connected as u64);
        r.append(connected.as_str());
        r.append(" connected, ");
        let idle = decimal_string(self.idle as u64);
        r.append(idle.as_str());
        r.append(" idle)");
        r
    }
}

/// What `acquire` decided for a token.
enum Acquired<H> {
    /// The live session of the token was taken over by the new client.
    Reused {
        buffered: Vec<String>,
        cached_init: Option<String>,
        cached_session: Option<String>,
    },
    /// A new process must be started for the token. `dead` is the handle of
    /// the token's session whose process had exited; `evicted` is the handle
    /// of the idle session removed to make room, which must be stopped.
    Spawn { dead: Option<H>, evicted: Option<H> },
}

pub open spec fn views<H>(agents: Seq<PooledAgent<H>>) -> Seq<SessionView> {
    agents.map_values(|a: PooledAgent<H>| a@)
}

pub open spec fn holds_token(ss: Seq<SessionView>, i: int, t: Seq<char>) -> bool {
    0 <= i < ss.len() && ss[i].token == t
}

pub open spec fn has_token(ss: Seq<SessionView>, t: Seq<char>) -> bool {
    exists|i: int| holds_token(ss, i, t)
}

/// The pool's invariant: within capacity, one session per token, a session
/// is connected exactly when it has no disconnect time, a connected
/// session's buffer is empty, and no buffer exceeds its cap.
pub open spec fn sessions_wf(ss: Seq<SessionView>, cfg: PoolConfig) -> bool {
    &&& ss.len() <= cfg.max_agents
    &&& forall|i: int, j: int| 0 <= i < j < ss.len() ==> ss[i].token != ss[j].token
    &&& forall|i: int| 0 <= i < ss.len() ==> (#[trigger] ss[i]).connected == (ss[i].disconnected_at is None)
    &&& forall|i: int| 0 <= i < ss.len() && (#[trigger] ss[i]).connected ==> ss[i].buffer.len() == 0
    &&& forall|i: int| 0 <= i < ss.len() ==> (#[trigger] ss[i]).buffer.len() <= cfg.max_buffer_size
}

/// A session for a token that was just started.
pub open spec fn fresh_session(t: Seq<char>) -> SessionView {
    SessionView {
        token: t,
        connected: true,
        disconnected_at: None,
        buffer: Seq::empty(),
        cached_init: None,
        cached_session: None,
    }
}

/// A session taken over by a new client: connected, its buffer drained.
pub open spec fn reattached(s: SessionView) -> SessionView {
    SessionView { connected: true, disconnected_at: None, buffer: Seq::empty(), ..s }
}

pub open spec fn mark_disconnected_spec(ss: Seq<SessionView>, t: Seq<char>, now: u64) -> Seq<SessionView> {
    ss.map_values(
        |s: SessionView|
            if s.token == t {
                SessionView { connected: false, disconnected_at: Some(now), ..s }
            } else {
                s
            },
    )
}

pub open spec fn buffer_message_spec(ss: Seq<SessionView>, cfg: PoolConfig, t: Seq<char>, m: Seq<char>) -> Seq<SessionView> {
    ss.map_values(
        |s: SessionView|
            if s.token == t && cfg.buffer_messages && !s.connected && s.buffer.len() < cfg.max_buffer_size {
                SessionView { buffer: s.buffer.push(m), ..s }
            } else {
                s
            },
    )
}

pub open spec fn cache_init_spec(ss: Seq<SessionView>, t: Seq<char>, r: Seq<char>) -> Seq<SessionView> {
    ss.map_values(
        |s: SessionView|
            if s.token == t && s.cached_init is None {
                SessionView { cached_init: Some(r), ..s }
            } else {
                s
            },
    )
}

pub open spec fn cache_session_spec(ss: Seq<SessionView>, t: Seq<char>, r: Seq<char>) -> Seq<SessionView> {
    ss.map_values(
        |s: SessionView|
            if s.token == t && s.cached_session is None {
                SessionView { cached_session: Some(r), ..s }
            } else {
                s
            },
    )
}

/// The sessions without the one of token `t`.
pub open spec fn without_token(ss: Seq<SessionView>, t: Seq<char>) -> Seq<SessionView> {
    if has_token(ss, t) {
        ss.remove(choose|i: int| holds_token(ss, i, t))
    } else {
        ss
    }
}

/// The order of idle sessions by disconnect time.
pub open spec fn idle_key(s: SessionView) -> int {
    match s.disconnected_at {
        Some(d) => d as int,
        None => 0,
    }
}

/// `j` is the idle session with the earliest disconnect time, the first in
/// table order among equals.
pub open spec fn is_oldest_idle(ss: Seq<SessionView>, j: int) -> bool {
    &&& 0 <= j < ss.len()
    &&& !ss[j].connected
    &&& forall|k: int| 0 <= k < ss.len() && !(#[trigger] ss[k]).connected ==> idle_key(ss[j]) <= idle_key(ss[k])
    &&& forall|k: int| 0 <= k < j && !(#[trigger] ss[k]).connected ==> idle_key(ss[j]) < idle_key(ss[k])
}

pub open spec fn has_idle(ss: Seq<SessionView>) -> bool {
    exists|k: int| 0 <= k < ss.len() && !(#[trigger] ss[k]).connected
}

/// Whether a session outlived the idle timeout at time `now`.
pub open spec fn timed_out(s: SessionView, now: u64, timeout: u64) -> bool {
    !s.connected && s.disconnected_at is Some && now - s.disconnected_at->0 > timeout
}

/// Whether the reaper keeps a session.
pub open spec fn survives(s: SessionView, alive: bool, now: u64, timeout: u64) -> bool {
    alive && !timed_out(s, now, timeout)
}

/// The sessions that the reaper keeps, in order; `alive[i]` tells whether the
/// process of session `i` is running.
pub open spec fn reap_spec(ss: Seq<SessionView>, alive: Seq<bool>, now: u64, timeout: u64) -> Seq<SessionView>
    decreases ss.len(),
{
    if ss.len() == 0 || alive.len() == 0 {
        Seq::empty()
    } else {
        let init = reap_spec(ss.drop_last(), alive.drop_last(), now, timeout);
        if survives(ss.last(), alive.last(), now, timeout) {
            init.push(ss.last())
        } else {
            init
        }
    }
}

/// How many sessions are connected.
pub open spec fn connected_count(ss: Seq<SessionView>) -> nat
    decreases ss.len(),
{
    if ss.len() == 0 {
        0
    } else {
        connected_count(ss.drop_last()) + if ss.last().connected { 1nat } else { 0nat }
    }
}

pub proof fn lemma_connected_count_bound(ss: Seq<SessionView>)
    ensures
        connected_count(ss) <= ss.len(),
    decreases ss.len(),
{
    if ss.len() > 0 {
        lemma_connected_count_bound(ss.drop_last());
    }
}

pub proof fn lemma_token_unique(ss: Seq<SessionView>, cfg: PoolConfig, i: int, t: Seq<char>)
    requires
        sessions_wf(ss, cfg),
        holds_token(ss, i, t),
    ensures
        forall|k: int| 0 <= k < ss.len() && k != i ==> (#[trigger] ss[k]).token != t,
{
    assert forall|k: int| 0 <= k < ss.len() && k != i implies (#[trigger] ss[k]).token != t by {
        if k < i {
            assert(ss[k].token != ss[i].token);
        } else {
            assert(ss[i].token != ss[k].token);
        }
    }
}

pub proof fn lemma_token_absent(ss: Seq<SessionView>, t: Seq<char>)
    requires
        !has_token(ss, t),
    ensures
        forall|k: int| 0 <= k < ss.len() ==> (#[trigger] ss[k]).token != t,
{
    assert forall|k: int| 0 <= k < ss.len() implies (#[trigger] ss[k]).token != t by {
        assert(!holds_token(ss, k, t));
    }
}

/// The sessions after buffering each message of `ms` in turn for token `t`.
pub open spec fn buffer_all(ss: Seq<SessionView>, cfg: PoolConfig, t: Seq<char>, ms: Seq<Seq<char>>) -> Seq<SessionView>
    decreases ms.len(),
{
    if ms.len() == 0 {
        ss
    } else {
        buffer_message_spec(buffer_all(ss, cfg, t, ms.drop_last()), cfg, t, ms.last())
    }
}

/// In every pool state the sessions fit the capacity, and the connected and
/// idle sessions together are all of them; every operation of the pool keeps
/// this state well formed.
pub proof fn lemma_stats_consistent(ss: Seq<SessionView>, cfg: PoolConfig)
    requires
        sessions_wf(ss, cfg),
    ensures
        ss.len() <= cfg.max_agents,
        connected_count(ss) <= ss.len(),
        connected_count(ss) + (ss.len() - connected_count(ss)) == ss.len(),
{
    lemma_connected_count_bound(ss);
}

/// With buffering enabled, the messages buffered for a token after its client
/// disconnected, up to the cap, are exactly what the next reuse of the session
/// hands out, in order; the session's buffer is empty afterwards.
pub proof fn lemma_buffer_replay(
    ss: Seq<SessionView>,
    cfg: PoolConfig,
    t: Seq<char>,
    i: int,
    now: u64,
    ms: Seq<Seq<char>>,
)
    requires
        sessions_wf(ss, cfg),
        holds_token(ss, i, t),
        ss[i].connected,
        cfg.buffer_messages,
        ms.len() <= cfg.max_buffer_size,
    ensures
        ({
            let after = buffer_all(mark_disconnected_spec(ss, t, now), cfg, t, ms);
            &&& sessions_wf(after, cfg)
            &&& holds_token(after, i, t)
            &&& !after[i].connected
            &&& after[i].buffer == ms
            &&& forall|j: int| holds_token(after, j, t) ==> after[j].buffer == ms
            &&& reattached(after[i]).buffer.len() == 0
        }),
    decreases ms.len(),
{
    lemma_token_unique(ss, cfg, i, t);
    let d = mark_disconnected_spec(ss, t, now);
    if ms.len() == 0 {
        assert(d[i].buffer == ss[i].buffer);
        assert(d[i].buffer =~= ms);
        assert(sessions_wf(d, cfg)) by {
            assert forall|x: int, y: int| 0 <= x < y < d.len() implies d[x].token != d[y].token by {
                assert(d[x].token == ss[x].token && d[y].token == ss[y].token);
            }
        }
    } else {
        lemma_buffer_replay(ss, cfg, t, i, now, ms.drop_last());
        let prev = buffer_all(d, cfg, t, ms.drop_last());
        let next = buffer_all(d, cfg, t, ms);
        assert(prev[i].buffer.push(ms.last()) =~= ms);
        assert(sessions_wf(next, cfg)) by {
            assert forall|x: int, y: int| 0 <= x < y < next.len() implies next[x].token != next[y].token by {
                assert(next[x].token == prev[x].token && next[y].token == prev[y].token);
            }
        }
    }
    let after = buffer_all(d, cfg, t, ms);
    assert forall|j: int| holds_token(after, j, t) implies after[j].buffer == ms by {
        if j != i {
            assert(after[j].token != after[i].token);
        }
    }
}

/// Once a session caches its `initialize` response, the response stays as it
/// is through disconnects, buffering, further caching and reuse, and every
/// reuse hands it out, until the session is removed.
pub proof fn lemma_cached_init_kept(
    ss: Seq<SessionView>,
    cfg: PoolConfig,
    t: Seq<char>,
    i: int,
    c: Seq<char>,
    other: Seq<char>,
    m: Seq<char>,
    r: Seq<char>,
    now: u64,
)
    requires
        holds_token(ss, i, t),
        ss[i].cached_init == Some(c),
    ensures
        mark_disconnected_spec(ss, other, now)[i].cached_init == Some(c),
        buffer_message_spec(ss, cfg, other, m)[i].cached_init == Some(c),
        cache_init_spec(ss, other, r)[i].cached_init == Some(c),
        cache_session_spec(ss, other, r)[i].cached_init == Some(c),
        reattached(ss[i]).cached_init == Some(c),
        ss.update(i, reattached(ss[i]))[i].cached_init == Some(c),
{
}

/// The idle session with the earliest disconnect time.
pub open spec fn oldest_idle_of(ss: Seq<SessionView>) -> int {
    choose|j: int| is_oldest_idle(ss, j)
}

pub proof fn lemma_oldest_idle_unique(ss: Seq<SessionView>, j: int, k: int)
    requires
        is_oldest_idle(ss, j),
        is_oldest_idle(ss, k),
    ensures
        j == k,
{
    if j < k {
        assert(idle_key(ss[k]) < idle_key(ss[j]));
    } else if k < j {
        assert(idle_key(ss[j]) < idle_key(ss[k]));
    }
}

/// Whether a pool without the token's session has no room: at capacity,
/// every session connected.
pub open spec fn pool_full(ss: Seq<SessionView>, max: usize) -> bool {
    ss.len() >= max && !has_idle(ss)
}

/// The sessions once room is made for a new one: at capacity, the oldest
/// idle session is evicted.
pub open spec fn room_made(ss: Seq<SessionView>, max: usize) -> Seq<SessionView> {
    if ss.len() < max {
        ss
    } else {
        ss.remove(oldest_idle_of(ss))
    }
}

/// `program` and `args` are the words of `command`: the program first.
pub open spec fn launched_with(program: String, args: Vec<String>, command: Seq<char>) -> bool {
    let ws = words(command);
    &&& ws.len() > 0
    &&& program@ == ws[0]
    &&& args@.len() == ws.len() - 1
    &&& forall|i: int| 0 <= i < args@.len() ==> #[trigger] args@[i]@ == ws[i + 1]
}

/// What a client of the pool is handed for its session.
#[derive(Debug, Clone, PartialEq, Eq)]
pub struct Attachment {
    /// Agent output buffered while no client was connected, oldest first.
    pub buffered: Vec<String>,
    /// Whether an existing session was taken over.
    pub was_reused: bool,
    /// The cached `initialize` response.
    pub cached_init: Option<String>,
    /// The cached session-creation response.
    pub cached_session: Option<String>,
}

/// A pool at capacity whose sessions are all connected has no room for a new
/// token: `get_or_spawn` then fails with `PoolFull`.
pub proof fn lemma_full_pool_refuses(ss: Seq<SessionView>, cfg: PoolConfig, t: Seq<char>)
    requires
        sessions_wf(ss, cfg),
        ss.len() == cfg.max_agents,
        forall|i: int| 0 <= i < ss.len() ==> (#[trigger] ss[i]).connected,
        !has_token(ss, t),
    ensures
        without_token(ss, t) == ss,
        pool_full(without_token(ss, t), cfg.max_agents),
{
}

/// A pool at capacity with one disconnected session makes room for a new
/// token by evicting exactly that session.
pub proof fn lemma_evicts_the_idle_one(ss: Seq<SessionView>, cfg: PoolConfig, t: Seq<char>, d: int)
    requires
        sessions_wf(ss, cfg),
        ss.len() == cfg.max_agents,
        0 <= d < ss.len(),
        !ss[d].connected,
        forall|i: int| 0 <= i < ss.len() && i != d ==> (#[trigger] ss[i]).connected,
        !has_token(ss, t),
    ensures
        !pool_full(without_token(ss, t), cfg.max_agents),
        room_made(without_token(ss, t), cfg.max_agents) == ss.remove(d),
{
    assert(is_oldest_idle(ss, d));
    let o = oldest_idle_of(ss);
    lemma_oldest_idle_unique(ss, d, o);
}

/// A session disconnected at `t0` outlives an idle timeout `tau` only after
/// more than `tau` has passed: the reaper keeps it `eps` before the deadline
/// and removes it `eps` after.
pub proof fn lemma_idle_deadline(s: SessionView, t0: u64, tau: u64, eps: u64)
    requires
        !s.connected,
        s.disconnected_at == Some(t0),
        0 < eps <= tau,
        t0 + tau + eps <= u64::MAX,
    ensures
        survives(s, true, (t0 + tau - eps) as u64, tau),
        !survives(s, true, (t0 + tau + eps) as u64, tau),
        reap_spec(seq![s], seq![true], (t0 + tau - eps) as u64, tau) == seq![s],
        reap_spec(seq![s], seq![true], (t0 + tau + eps) as u64, tau) == Seq::<SessionView>::empty(),
{
    let one = seq![s];
    let al = seq![true];
    assert(one.drop_last() =~= Seq::<SessionView>::empty());
    assert(al.drop_last() =~= Seq::<bool>::empty());
    assert(Seq::<SessionView>::empty().push(s) =~= one);
    assert(one.last() == s && al.last() == true);
    assert(reap_spec(one.drop_last(), al.drop_last(), (t0 + tau - eps) as u64, tau) == Seq::<SessionView>::empty());
    assert(reap_spec(one.drop_last(), al.drop_last(), (t0 + tau + eps) as u64, tau) == Seq::<SessionView>::empty());
}

/// Manages a pool of long-lived agent sessions keyed by auth token.
pub struct AgentPool<H> {
    agents: Vec<PooledAgent<H>>,
    config: PoolConfig,
    origin: Instant,
}

impl<H> AgentPool<H> {
    /// The sessions, in table order.
    pub closed spec fn sessions(&self) -> Seq<SessionView> {
        views(self.agents@)
    }

    /// The configuration the pool was made with.
    pub closed spec fn spec_config(&self) -> PoolConfig {
        self.config
    }

    pub closed spec fn wf(&self) -> bool {
        sessions_wf(self.sessions(), self.config)
    }

    /// An empty pool.
    pub fn new(config: PoolConfig) -> (r: Self)
        ensures
            r.wf(),
            r.sessions().len() == 0,
            r.spec_config() == config,
    {
        let r = AgentPool { agents: Vec::new(), config, origin: instant_now() };
        assert(r.sessions() =~= Seq::<SessionView>::empty());
        r
    }

    /// The configuration the pool was made with.
    pub fn config(&self) -> (r: PoolConfig)
        ensures
            r == self.spec_config(),
    {
        self.config
    }

    /// Milliseconds on the pool's clock.
    pub fn now_ms(&self) -> u64 {
        millis_since(&self.origin)
    }

    /// The number of sessions.
    pub fn len(&self) -> (r: usize)
        ensures
            r == self.sessions().len(),
    {
        self.agents.len()
    }

    /// The index of the session of `token`.
    pub fn find(&self, token: &str) -> (r: Option<usize>)
        ensures
            r matches Some(i) ==> holds_token(self.sessions(), i as int, token@),
            r is None ==> !has_token(self.sessions(), token@),
    {
        let mut i: usize = 0;
        while i < self.agents.len()
            invariant
                i <= self.agents@.len(),
                forall|k: int| 0 <= k < i ==> self.sessions()[k].token != token@,
            decreases self.agents@.len() - i,
        {
            if str_eq(self.agents[i].token.as_str(), token) {
                return Some(i);
            }
            i = i + 1;
        }
        None
    }

    /// Whether the pool holds a session for `token`.
    pub fn contains(&self, token: &str) -> (r: bool)
        ensures
            r == has_token(self.sessions(), token@),
    {
        self.find(token).is_some()
    }

    /// The session at index `i`.
    pub fn agent_at(&self, i: usize) -> (r: &PooledAgent<H>)
        requires
            i < self.sessions().len(),
        ensures
            r@ == self.sessions()[i as int],
    {
        &self.agents[i]
    }

    /// Marks the client of `token` disconnected at time `now` on the pool's
    /// clock; does nothing for an unknown token.
    pub fn mark_disconnected_at(&mut self, token: &str, now: u64)
        requires
            old(self).wf(),
        ensures
            final(self).wf(),
            final(self).spec_config() == old(self).spec_config(),
            final(self).sessions() == mark_disconnected_spec(old(self).sessions(), token@, now),
    {
        let ghost ss = self.sessions();
        match self.find(token) {
            Some(i) => {
                self.agents[i].connected = false;
                self.agents[i].disconnected_at = Some(now);
                proof {
                    lemma_token_unique(ss, self.config, i as int, token@);
                    assert(self.sessions() =~= mark_disconnected_spec(ss, token@, now));
                }
            },
            None => {
                proof { lemma_token_absent(ss, token@); }
                assert(self.sessions() =~= mark_disconnected_spec(ss, token@, now));
            },
        }
    }

    /// Marks the client of `token` disconnected now.
    pub fn mark_disconnected(&mut self, token: &str)
        requires
            old(self).wf(),
        ensures
            final(self).wf(),
            final(self).spec_config() == old(self).spec_config(),
            exists|now: u64| final(self).sessions() == mark_disconnected_spec(old(self).sessions(), token@, now),
    {
        let now = self.now_ms();
        self.mark_disconnected_at(token, now);
    }

    /// Keeps `message` for the client of `token` while it is away: only when
    /// buffering is enabled, the session is disconnected and its buffer is
    /// below the cap; otherwise the message is dropped.
    pub fn buffer_message(&mut self, token: &str, message: String)
        requires
            old(self).wf(),
        ensures
            final(self).wf(),
            final(self).spec_config() == old(self).spec_config(),
            final(self).sessions() == buffer_message_spec(old(self).sessions(), old(self).spec_config(), token@, message@),
    {
        let ghost ss = self.sessions();
        let ghost cfg = self.config;
        if !self.config.buffer_messages {
            assert(self.sessions() =~= buffer_message_spec(ss, cfg, token@, message@));
            return;
        }
        match self.find(token) {
            Some(i) => {
                if !self.agents[i].connected && self.agents[i].message_buffer.len() < self.config.max_buffer_size {
                    self.agents[i].message_buffer.push(message);
                    proof {
                        lemma_token_unique(ss, cfg, i as int, token@);
                        assert(self.agents@[i as int].message_buffer.deep_view() =~= ss[i as int].buffer.push(message@));
                        assert(self.sessions() =~= buffer_message_spec(ss, cfg, token@, message@));
                    }
                } else {
                    proof {
                        lemma_token_unique(ss, cfg, i as int, token@);
                    }
                    assert(self.sessions() =~= buffer_message_spec(ss, cfg, token@, message@));
                }
            },
            None => {
                proof { lemma_token_absent(ss, token@); }
                assert(self.sessions() =~= buffer_message_spec(ss, cfg, token@, message@));
            },
        }
    }

    /// Caches the agent's `initialize` response for `token`, unless one is
    /// already cached.
    pub fn cache_init_response(&mut self, token: &str, response: String)
        requires
            old(self).wf(),
        ensures
            final(self).wf(),
            final(self).spec_config() == old(self).spec_config(),
            final(self).sessions() == cache_init_spec(old(self).sessions(), token@, response@),
    {
        let ghost ss = self.sessions();
        match self.find(token) {
            Some(i) => {
                proof {
                    lemma_token_unique(ss, self.config, i as int, token@);
                }
                if self.agents[i].cached_init_response.is_none() {
                    self.agents[i].cached_init_response = Some(response);
                }
                assert(self.sessions() =~= cache_init_spec(ss, token@, response@));
            },
            None => {
                proof { lemma_token_absent(ss, token@); }
                assert(self.sessions() =~= cache_init_spec(ss, token@, response@));
            },
        }
    }

    /// Caches the agent's session-creation response for `token`, unless one
    /// is already cached.
    pub fn cache_session_response(&mut self, token: &str, response: String)
        requires
            old(self).wf(),
        ensures
            final(self).wf(),
            final(self).spec_config() == old(self).spec_config(),
            final(self).sessions() == cache_session_spec(old(self).sessions(), token@, response@),
    {
        let ghost ss = self.sessions();
        match self.find(token) {
            Some(i) => {
                proof {
                    lemma_token_unique(ss, self.config, i as int, token@);
                }
                if self.agents[i].cached_session_response.is_none() {
                    self.agents[i].cached_session_response = Some(response);
                }
                assert(self.sessions() =~= cache_session_spec(ss, token@, response@));
            },
            None => {
                proof { lemma_token_absent(ss, token@); }
                assert(self.sessions() =~= cache_session_spec(ss, token@, response@));
            },
        }
    }

    /// The index of the idle session with the earliest disconnect time.
    fn oldest_idle(&self) -> (r: Option<usize>)
        ensures
            r matches Some(j) ==> is_oldest_idle(self.sessions(), j as int),
            r is None ==> !has_idle(self.sessions()),
    {
        let ghost ss = self.sessions();
        let mut best: Option<usize> = None;
        let mut best_key: u64 = 0;
        let mut i: usize = 0;
        while i < self.agents.len()
            invariant
                ss == self.sessions(),
                i <= ss.len(),
                best is None ==> forall|k: int| 0 <= k < i ==> (#[trigger] ss[k]).connected,
                best matches Some(b) ==> {
                    &&& b < i
                    &&& !ss[b as int].connected
                    &&& best_key == idle_key(ss[b as int])
                    &&& forall|k: int| 0 <= k < i && !(#[trigger] ss[k]).connected ==> idle_key(ss[b as int]) <= idle_key(ss[k])
                    &&& forall|k: int| 0 <= k < b && !(#[trigger] ss[k]).connected ==> idle_key(ss[b as int]) < idle_key(ss[k])
                },
            decreases ss.len() - i,
        {
            let a = &self.agents[i];
            if !a.connected {
                let key: u64 = match a.disconnected_at {
                    Some(d) => d,
                    None => 0,
                };
                match best {
                    None => {
                        best = Some(i);
                        best_key = key;
                    },
                    Some(_) => {
                        if key < best_key {
                            best = Some(i);
                            best_key = key;
                        }
                    },
                }
            }
            i = i + 1;
        }
        proof {
            if best is None {
                assert forall|k: int| 0 <= k < ss.len() implies (#[trigger] ss[k]).connected by {}
            }
        }
        best
    }

    /// Decides what a client of `token` gets. `existing_alive` tells whether
    /// the process of the token's session, if there is one, is still running.
    ///
    /// A live session is taken over: it becomes connected and its buffer and
    /// cached responses are handed out. Otherwise the token's dead session is
    /// dropped and room is made for a new process: when the pool is at
    /// capacity the idle session with the earliest disconnect time is evicted,
    /// and when every session is connected the pool is full.
    fn acquire(&mut self, token: &str, existing_alive: bool) -> (r: Result<Acquired<H>, PoolError>)
        requires
            old(self).wf(),
        ensures
            final(self).wf(),
            final(self).spec_config() == old(self).spec_config(),
            has_token(old(self).sessions(), token@) && existing_alive ==> exists|i: int| {
                &&& holds_token(old(self).sessions(), i, token@)
                &&& final(self).sessions() == old(self).sessions().update(i, reattached(old(self).sessions()[i]))
                &&& r matches Ok(Acquired::Reused { buffered, cached_init, cached_session })
                &&& buffered.deep_view() == old(self).sessions()[i].buffer
                &&& cached_init.deep_view() == old(self).sessions()[i].cached_init
                &&& cached_session.deep_view() == old(self).sessions()[i].cached_session
            },
            !(has_token(old(self).sessions(), token@) && existing_alive) ==> ({
                let ss1 = without_token(old(self).sessions(), token@);
                let max = old(self).spec_config().max_agents;
                &&& ss1.len() < max ==> (final(self).sessions() == ss1
                    && (r matches Ok(Acquired::Spawn { dead, evicted: None })
                    && (dead is Some <==> has_token(old(self).sessions(), token@))))
                &&& ss1.len() >= max && has_idle(ss1) ==> ((r matches Ok(Acquired::Spawn { dead: None, evicted: Some(_) }))
                    && exists|j: int| is_oldest_idle(ss1, j) && final(self).sessions() == ss1.remove(j))
                &&& ss1.len() >= max && !has_idle(ss1) ==> final(self).sessions() == ss1
                    && r == Err::<Acquired<H>, PoolError>(PoolError::PoolFull { max_agents: max })
            }),
            r matches Ok(Acquired::Spawn { .. }) ==> !has_token(final(self).sessions(), token@)
                && final(self).sessions().len() < final(self).spec_config().max_agents,
    {
        let ghost ss = self.sessions();
        let ghost cfg = self.config;
        let mut dead: Option<H> = None;
        match self.find(token) {
            Some(i) => {
                proof { lemma_token_unique(ss, cfg, i as int, token@); }
                if existing_alive {
                    let mut buffered: Vec<String> = Vec::new();
                    std::mem::swap(&mut buffered, &mut self.agents[i].message_buffer);
                    self.agents[i].connected = true;
                    self.agents[i].disconnected_at = None;
                    let cached_init = clone_opt(&self.agents[i].cached_init_response);
                    let cached_session = clone_opt(&self.agents[i].cached_session_response);
                    proof {
                        assert(self.agents@[i as int].message_buffer.deep_view() =~= Seq::<Seq<char>>::empty());
                        assert(self.sessions() =~= ss.update(i as int, reattached(ss[i as int])));
                    }
                    return Ok(Acquired::Reused { buffered, cached_init, cached_session });
                }
                let a = self.agents.remove(i);
                dead = Some(a.process);
                proof {
                    let c = choose|k: int| holds_token(ss, k, token@);
                    assert(holds_token(ss, c, token@));
                    assert(c == i);
                    assert(self.sessions() =~= ss.remove(i as int));
                }
            },
            None => {},
        }
        let ghost ss1 = self.sessions();
        assert(ss1 == without_token(ss, token@));
        assert(!has_token(ss1, token@)) by {
            if has_token(ss1, token@) {
                let k = choose|k: int| holds_token(ss1, k, token@);
                if has_token(ss, token@) {
                    let c = choose|k: int| holds_token(ss, k, token@);
                    if k < c {
                        assert(ss[k] == ss1[k]);
                    } else {
                        assert(ss[k + 1] == ss1[k]);
                    }
                } else {
                    assert(holds_token(ss, k, token@));
                }
            }
        }
        if self.agents.len() >= self.config.max_agents {
            match self.oldest_idle() {
                Some(j) => {
                    let a = self.agents.remove(j);
                    proof {
                        assert(self.sessions() =~= ss1.remove(j as int));
                        assert(dead is None);
                        assert forall|k: int| 0 <= k < self.sessions().len() implies (#[trigger] self.sessions()[k]).token != token@ by {
                            if k < j { assert(self.sessions()[k] == ss1[k]); } else { assert(self.sessions()[k] == ss1[k + 1]); }
                            assert(!holds_token(ss1, if k < j { k } else { k + 1 }, token@));
                        }
                        assert(sessions_wf(self.sessions(), cfg)) by {
                            let f = self.sessions();
                            assert forall|x: int, y: int| 0 <= x < y < f.len() implies f[x].token != f[y].token by {
                                let xx = if x < j { x } else { x + 1 };
                                let yy = if y < j { y } else { y + 1 };
                                assert(f[x] == ss1[xx] && f[y] == ss1[yy]);
                            }
                        }
                    }
                    Ok(Acquired::Spawn { dead, evicted: Some(a.process) })
                },
                None => {
                    Err(PoolError::PoolFull { max_agents: self.config.max_agents })
                },
            }
        } else {
            Ok(Acquired::Spawn { dead, evicted: None })
        }
    }

    /// Gives a client of `token` its session, as `acquire` decides; when a
    /// new process is needed, splits `agent_command` into a program and its
    /// arguments and starts it through `spawn`. An empty command fails
    /// before anything is started. Besides the outcome, hands back the
    /// process handles the pool let go of: the evicted idle session's, which
    /// must be stopped, and the token's exited one.
    pub fn get_or_spawn<F>(&mut self, token: &str, agent_command: &str, existing_alive: bool, spawn: F) -> (r: (
        Result<Attachment, PoolError>,
        Vec<H>,
    )) where F: FnOnce(String, Vec<String>) -> Result<H, String>
        requires
            old(self).wf(),
            forall|p: String, a: Vec<String>| #[trigger] spawn.requires((p, a)),
        ensures
            final(self).wf(),
            final(self).spec_config() == old(self).spec_config(),
            has_token(old(self).sessions(), token@) && existing_alive ==> exists|i: int| {
                &&& holds_token(old(self).sessions(), i, token@)
                &&& final(self).sessions() == old(self).sessions().update(i, reattached(old(self).sessions()[i]))
                &&& r.0 matches Ok(a)
                &&& a.was_reused
                &&& a.buffered.deep_view() == old(self).sessions()[i].buffer
                &&& a.cached_init.deep_view() == old(self).sessions()[i].cached_init
                &&& a.cached_session.deep_view() == old(self).sessions()[i].cached_session
            },
            !(has_token(old(self).sessions(), token@) && existing_alive) ==> ({
                let ss1 = without_token(old(self).sessions(), token@);
                let max = old(self).spec_config().max_agents;
                &&& pool_full(ss1, max) ==> final(self).sessions() == ss1 && r.0 == Err::<Attachment, PoolError>(
                    PoolError::PoolFull { max_agents: max },
                )
                &&& !pool_full(ss1, max) && words(agent_command@).len() == 0 ==> r.0 is Err
                    && r.0->Err_0 is SpawnFailed && r.0->Err_0->reason@ == "Empty agent command"@
                &&& !pool_full(ss1, max) && words(agent_command@).len() > 0 && r.0 is Err ==> exists|
                    p: String,
                    a: Vec<String>,
                    e: String,
                | {
                    &&& launched_with(p, a, agent_command@)
                    &&& #[trigger] spawn.ensures((p, a), Err::<H, String>(e))
                    &&& r.0 == Err::<Attachment, PoolError>(PoolError::SpawnFailed { reason: e })
                }
                &&& !pool_full(ss1, max) && r.0 is Err ==> r.0->Err_0 is SpawnFailed
                    && final(self).sessions() == room_made(ss1, max)
                &&& !pool_full(ss1, max) && r.0 is Ok ==> final(self).sessions() == room_made(ss1, max).push(
                    fresh_session(token@),
                )
                &&& r.0 is Ok ==> !r.0->Ok_0.was_reused && r.0->Ok_0.buffered@.len() == 0
                    && r.0->Ok_0.cached_init is None && r.0->Ok_0.cached_session is None
                &&& r.0 is Ok ==> exists|program: String, args: Vec<String>, h: H| {
                    &&& launched_with(program, args, agent_command@)
                    &&& #[trigger] spawn.ensures((program, args), Ok::<H, String>(h))
                }
            }),
    {
        let ghost ss = self.sessions();
        let ghost max = self.config.max_agents;
        let acq = self.acquire(token, existing_alive);
        let mut released: Vec<H> = Vec::new();
        match acq {
            Err(e) => (Err(e), released),
            Ok(Acquired::Reused { buffered, cached_init, cached_session }) => {
                (Ok(Attachment { buffered, was_reused: true, cached_init, cached_session }), released)
            },
            Ok(Acquired::Spawn { dead, evicted }) => {
                proof {
                    let ss1 = without_token(ss, token@);
                    if ss1.len() >= max && has_idle(ss1) {
                        let j = choose|j: int| is_oldest_idle(ss1, j) && self.sessions() == ss1.remove(j);
                        let o = oldest_idle_of(ss1);
                        assert(is_oldest_idle(ss1, o));
                        lemma_oldest_idle_unique(ss1, j, o);
                    }
                    assert(self.sessions() == room_made(ss1, max));
                }
                match evicted {
                    Some(h) => released.push(h),
                    None => {},
                }
                match dead {
                    Some(h) => released.push(h),
                    None => {},
                }
                let mut parts = split_words(agent_command);
                if parts.len() == 0 {
                    return (Err(PoolError::SpawnFailed { reason: String::from_str("Empty agent command") }), released);
                }
                let ghost all = parts@;
                let program = parts.remove(0);
                proof {
                    assert(launched_with(program, parts, agent_command@)) by {
                        assert forall|i: int| 0 <= i < parts@.len() implies #[trigger] parts@[i]@ == words(
                            agent_command@,
                        )[i + 1] by {
                            assert(parts@[i] == all[i + 1]);
                        }
                    }
                }
                let ghost launched = (program, parts);
                match spawn(program, parts) {
                    Ok(h) => {
                        assert(spawn.ensures(launched, Ok::<H, String>(h)));
                        self.insert_spawned(String::from_str(token), String::from_str(agent_command), h);
                        (
                            Ok(
                                Attachment {
                                    buffered: Vec::new(),
                                    was_reused: false,
                                    cached_init: None,
                                    cached_session: None,
                                },
                            ),
                            released,
                        )
                    },
                    Err(reason) => {
                        assert(spawn.ensures(launched, Err::<H, String>(reason)));
                        (Err(PoolError::SpawnFailed { reason }), released)
                    },
                }
            },
        }
    }

    /// Records the session of a process just started for `token`: connected,
    /// with an empty buffer and no cached responses.
    fn insert_spawned(&mut self, token: String, agent_command: String, process: H)
        requires
            old(self).wf(),
            !has_token(old(self).sessions(), token@),
            old(self).sessions().len() < old(self).spec_config().max_agents,
        ensures
            final(self).wf(),
            final(self).spec_config() == old(self).spec_config(),
            final(self).sessions() == old(self).sessions().push(fresh_session(token@)),
    {
        let ghost ss = self.sessions();
        let ghost t = token@;
        self.agents.push(PooledAgent {
            token,
            process,
            connected: true,
            disconnected_at: None,
            message_buffer: Vec::new(),
            cached_init_response: None,
            cached_session_response: None,
            agent_command,
        });
        proof {
            assert(self.agents@.last().message_buffer.deep_view() =~= Seq::<Seq<char>>::empty());
            assert(self.sessions() =~= ss.push(fresh_session(t)));
            lemma_token_absent(ss, t);
        }
    }

    /// Removes the session of `token` and hands back its process handle.
    pub fn remove_agent(&mut self, token: &str) -> (r: Option<H>)
        requires
            old(self).wf(),
        ensures
            final(self).wf(),
            final(self).spec_config() == old(self).spec_config(),
            final(self).sessions() == without_token(old(self).sessions(), token@),
            r is Some <==> has_token(old(self).sessions(), token@),
    {
        let ghost ss = self.sessions();
        match self.find(token) {
            Some(i) => {
                let a = self.agents.remove(i);
                proof {
                    let c = choose|k: int| holds_token(ss, k, token@);
                    assert(holds_token(ss, c, token@));
                    lemma_token_unique(ss, self.config, i as int, token@);
                    assert(c == i);
                    assert(self.sessions() =~= ss.remove(i as int));
                    let f = self.sessions();
                    assert forall|x: int, y: int| 0 <= x < y < f.len() implies f[x].token != f[y].token by {
                        let xx = if x < i { x } else { x + 1 };
                        let yy = if y < i { y } else { y + 1 };
                        assert(f[x] == ss[xx] && f[y] == ss[yy]);
                    }
                }
                Some(a.process)
            },
            None => None,
        }
    }

    /// Empties the pool and hands back every process handle.
    pub fn shutdown_all(&mut self) -> (r: Vec<H>)
        requires
            old(self).wf(),
        ensures
            final(self).wf(),
            final(self).spec_config() == old(self).spec_config(),
            final(self).sessions().len() == 0,
            r@.len() == old(self).sessions().len(),
    {
        let mut rest: Vec<PooledAgent<H>> = Vec::new();
        std::mem::swap(&mut rest, &mut self.agents);
        let mut handles: Vec<H> = Vec::new();
        let ghost n = rest@.len();
        while rest.len() > 0
            invariant
                handles@.len() + rest@.len() == n,
            decreases rest@.len(),
        {
            let a = rest.pop().unwrap();
            handles.push(a.process);
        }
        assert(self.sessions() =~= Seq::<SessionView>::empty());
        handles
    }

    /// Counts of the pool's sessions.
    pub fn stats(&self) -> (r: PoolStats)
        requires
            self.wf(),
        ensures
            r.total == self.sessions().len(),
            r.connected == connected_count(self.sessions()),
            r.idle == r.total - r.connected,
            r.max == self.spec_config().max_agents,
            r.total <= r.max,
    {
        let ghost ss = self.sessions();
        let mut connected: usize = 0;
        let mut i: usize = 0;
        while i < self.agents.len()
            invariant
                ss == self.sessions(),
                i <= ss.len(),
                connected == connected_count(ss.take(i as int)),
            decreases ss.len() - i,
        {
            proof {
                assert(ss.take(i + 1).drop_last() =~= ss.take(i as int));
                lemma_connected_count_bound(ss.take(i as int));
            }
            if self.agents[i].connected {
                connected = connected + 1;
            }
            i = i + 1;
        }
        proof {
            assert(ss.take(ss.len() as int) =~= ss);
            lemma_connected_count_bound(ss);
        }
        PoolStats { total: self.agents.len(), connected, idle: self.agents.len() - connected, max: self.config.max_agents }
    }

    /// Removes the sessions whose process exited and the idle sessions that
    /// outlived the idle timeout at time `now` on the pool's clock, and hands
    /// back their process handles. `alive[i]` tells whether the process of
    /// session `i` is running.
    pub fn reap_idle_at(&mut self, now: u64, alive: &Vec<bool>) -> (r: Vec<H>)
        requires
            old(self).wf(),
            alive@.len() == old(self).sessions().len(),
        ensures
            final(self).wf(),
            final(self).spec_config() == old(self).spec_config(),
            final(self).sessions() == reap_spec(old(self).sessions(), alive@, now, old(self).spec_config().idle_timeout_ms),
            r@.len() + final(self).sessions().len() == old(self).sessions().len(),
    {
        let ghost ss = self.sessions();
        let ghost cfg = self.config;
        let timeout = self.config.idle_timeout_ms;
        let mut rest: Vec<PooledAgent<H>> = Vec::new();
        std::mem::swap(&mut rest, &mut self.agents);
        let ghost orig = rest@;
        assert(views(orig) == ss);
        let n = rest.len();
        let mut kept: Vec<PooledAgent<H>> = Vec::new();
        let mut removed: Vec<H> = Vec::new();
        let mut i: usize = 0;
        while i < n
            invariant
                n == orig.len(),
                n == ss.len(),
                ss == views(orig),
                alive@.len() == n,
                sessions_wf(ss, cfg),
                timeout == cfg.idle_timeout_ms,
                i <= n,
                rest@ == orig.subrange(i as int, n as int),
                views(kept@) == reap_spec(ss.take(i as int), alive@.take(i as int), now, timeout),
                removed@.len() + kept@.len() == i,
                forall|x: int| 0 <= x < kept@.len() ==> exists|k: int| 0 <= k < i && #[trigger] views(kept@)[x] == ss[k],
                sessions_wf(views(kept@), cfg),
            decreases n - i,
        {
            let a = rest.remove(0);
            let ghost av = a@;
            proof {
                assert(a == orig[i as int]);
                assert(av == ss[i as int]);
                assert(ss.take(i + 1).drop_last() =~= ss.take(i as int));
                assert(alive@.take(i + 1).drop_last() =~= alive@.take(i as int));
                assert(ss.take(i + 1).last() == ss[i as int]);
                assert(alive@.take(i + 1).last() == alive@[i as int]);
            }
            let gone = !alive[i] || (!a.connected && match a.disconnected_at {
                Some(d) => now >= d && now - d > timeout,
                None => false,
            });
            if gone {
                removed.push(a.process);
            } else {
                let ghost before = views(kept@);
                kept.push(a);
                proof {
                    assert(views(kept@) =~= before.push(av));
                    let f = views(kept@);
                    assert forall|x: int| 0 <= x < before.len() implies (#[trigger] f[x]).token != av.token by {
                        assert(f[x] == before[x]);
                        let k = choose|k: int| 0 <= k < i && #[trigger] before[x] == ss[k];
                        assert(ss[k].token != ss[i as int].token);
                    }
                    assert forall|x: int| 0 <= x < f.len() implies exists|k: int| 0 <= k < i + 1 && #[trigger] f[x] == ss[k] by {
                        if x < before.len() {
                            assert(f[x] == before[x]);
                        } else {
                            assert(f[x] == ss[i as int]);
                        }
                    }
                    assert forall|x: int, y: int| 0 <= x < y < f.len() implies f[x].token != f[y].token by {
                        if y < before.len() {
                            assert(f[x] == before[x] && f[y] == before[y]);
                        }
                    }
                }
            }
            i = i + 1;
        }
        proof {
            assert(ss.take(n as int) =~= ss);
            assert(alive@.take(n as int) =~= alive@);
        }
        self.agents = kept;
        removed
    }

    /// Removes dead sessions and the idle ones that outlived the idle timeout
    /// by now; see `reap_idle_at`.
    pub fn reap_idle_agents(&mut self, alive: &Vec<bool>) -> (r: Vec<H>)
        requires
            old(self).wf(),
            alive@.len() == old(self).sessions().len(),
        ensures
            final(self).wf(),
            final(self).spec_config() == old(self).spec_config(),
            exists|now: u64| final(self).sessions() == reap_spec(old(self).sessions(), alive@, now, old(self).spec_config().idle_timeout_ms),
            r@.len() + final(self).sessions().len() == old(self).sessions().len(),
    {
        let now = self.now_ms();
        self.reap_idle_at(now, alive)
    }

    /// The session of `token`, if any.
    pub fn get(&self, token: &str) -> (r: Option<&PooledAgent<H>>)
        ensures
            r is Some <==> has_token(self.sessions(), token@),
            r matches Some(a) ==> a@.token == token@ && exists|i: int|
                holds_token(self.sessions(), i, token@) && a@ == self.sessions()[i],
    {
        match self.find(token) {
            Some(i) => Some(&self.agents[i]),
            None => None,
        }
    }
}

} // verus!
