use bridge::agent_pool::{AgentPool, Attachment, PoolConfig, PoolError};

fn test_config() -> PoolConfig {
    PoolConfig { idle_timeout_ms: 2000, max_agents: 3, buffer_messages: true, max_buffer_size: 5 }
}

/// Handles are plain numbers here; `spawn` hands out the next one.
struct Fake {
    next: u32,
    dead: Vec<u32>,
}

impl Fake {
    fn new() -> Self {
        Fake { next: 1, dead: Vec::new() }
    }

    fn alive(&self, pool: &AgentPool<u32>, token: &str) -> bool {
        match pool.get(token) {
            Some(a) => !self.dead.contains(&a.process),
            None => false,
        }
    }

    fn get_or_spawn(&mut self, pool: &mut AgentPool<u32>, token: &str, cmd: &str) -> Result<Attachment, PoolError> {
        let alive = self.alive(pool, token);
        let id = self.next;
        let (r, _released) = pool.get_or_spawn(token, cmd, alive, |program: String, _args: Vec<String>| {
            if program == "nonexistent_binary_xyz_42" {
                Err("No such file or directory".to_string())
            } else {
                Ok(id)
            }
        });
        if r.is_ok() {
            self.next += 1;
        }
        r
    }

    fn kill(&mut self, pool: &AgentPool<u32>, token: &str) {
        let id = pool.get(token).unwrap().process;
        self.dead.push(id);
    }
}

#[test]
fn pool_config_default_values() {
    let cfg = PoolConfig::default();
    assert_eq!(cfg.idle_timeout_ms, 1_800_000);
    assert_eq!(cfg.max_agents, 10);
    assert!(!cfg.buffer_messages);
    assert_eq!(cfg.max_buffer_size, 1000);
}

#[test]
fn new_pool_is_empty() {
    let pool: AgentPool<u32> = AgentPool::new(test_config());
    let stats = pool.stats();
    assert_eq!(stats.total, 0);
    assert_eq!(stats.connected, 0);
    assert_eq!(stats.idle, 0);
    assert_eq!(stats.max, 3);
}

#[test]
fn spawn_new_agent_with_cat() {
    let mut pool = AgentPool::new(test_config());
    let mut f = Fake::new();
    let result = f.get_or_spawn(&mut pool, "token_a", "cat");
    assert!(result.is_ok());
    let a = result.unwrap();
    assert!(!a.was_reused, "first spawn should not be reused");
    assert!(a.buffered.is_empty(), "first spawn should have no buffered msgs");
    assert!(a.cached_init.is_none(), "first spawn should have no cached init");
    assert!(a.cached_session.is_none());
    let stats = pool.stats();
    assert_eq!(stats.total, 1);
    assert_eq!(stats.connected, 1);
    assert_eq!(pool.shutdown_all().len(), 1);
}

#[test]
fn reuse_existing_agent() {
    let mut pool = AgentPool::new(test_config());
    let mut f = Fake::new();
    let _ = f.get_or_spawn(&mut pool, "token_a", "cat").unwrap();
    pool.mark_disconnected("token_a");
    let a = f.get_or_spawn(&mut pool, "token_a", "cat").unwrap();
    assert!(a.was_reused, "second call should reuse the agent");
    assert_eq!(pool.stats().total, 1);
}

#[test]
fn spawn_different_tokens() {
    let mut pool = AgentPool::new(test_config());
    let mut f = Fake::new();
    let _ = f.get_or_spawn(&mut pool, "token_a", "cat").unwrap();
    let _ = f.get_or_spawn(&mut pool, "token_b", "cat").unwrap();
    assert_eq!(pool.stats().total, 2);
    assert_eq!(pool.stats().connected, 2);
}

#[test]
fn spawn_with_invalid_command_fails() {
    let mut pool = AgentPool::new(test_config());
    let mut f = Fake::new();
    let result = f.get_or_spawn(&mut pool, "token_a", "nonexistent_binary_xyz_42");
    assert!(result.is_err());
    assert!(matches!(result, Err(PoolError::SpawnFailed { .. })));
    assert_eq!(pool.stats().total, 0);
}

#[test]
fn spawn_with_empty_command_fails() {
    let mut pool: AgentPool<u32> = AgentPool::new(test_config());
    let mut started = false;
    let (result, _) = pool.get_or_spawn("token_a", "", false, |_p: String, _a: Vec<String>| {
        started = true;
        Ok(1)
    });
    assert!(result.is_err());
    assert!(!started, "no process may be started for an empty command");
    let (result, _) = pool.get_or_spawn("token_a", "  \t ", false, |_p: String, _a: Vec<String>| Ok(1));
    assert!(matches!(result, Err(PoolError::SpawnFailed { .. })));
}

#[test]
fn command_is_split_into_program_and_arguments() {
    let mut pool: AgentPool<u32> = AgentPool::new(test_config());
    let mut seen: Option<(String, Vec<String>)> = None;
    let (result, _) = pool.get_or_spawn("t", "  npx  agent --stdio ", false, |p: String, a: Vec<String>| {
        seen = Some((p, a));
        Ok(1)
    });
    assert!(result.is_ok());
    let (p, a) = seen.unwrap();
    assert_eq!(p, "npx");
    assert_eq!(a, vec!["agent".to_string(), "--stdio".to_string()]);
}

#[test]
fn mark_disconnected_updates_state() {
    let mut pool = AgentPool::new(test_config());
    let mut f = Fake::new();
    let _ = f.get_or_spawn(&mut pool, "token_a", "cat").unwrap();
    assert!(pool.get("token_a").unwrap().connected);
    pool.mark_disconnected("token_a");
    let agent = pool.get("token_a").unwrap();
    assert!(!agent.connected);
    assert!(agent.disconnected_at.is_some());
    let stats = pool.stats();
    assert_eq!(stats.connected, 0);
    assert_eq!(stats.idle, 1);
}

#[test]
fn mark_disconnected_of_unknown_token_is_a_no_op() {
    let mut pool: AgentPool<u32> = AgentPool::new(test_config());
    pool.mark_disconnected("nobody");
    assert_eq!(pool.stats().total, 0);
}

#[test]
fn reconnect_clears_disconnected_state() {
    let mut pool = AgentPool::new(test_config());
    let mut f = Fake::new();
    let _ = f.get_or_spawn(&mut pool, "token_a", "cat").unwrap();
    pool.mark_disconnected("token_a");
    let _ = f.get_or_spawn(&mut pool, "token_a", "cat").unwrap();
    let agent = pool.get("token_a").unwrap();
    assert!(agent.connected);
    assert!(agent.disconnected_at.is_none());
}

#[test]
fn max_agents_evicts_idle() {
    let mut pool = AgentPool::new(test_config());
    let mut f = Fake::new();
    let _ = f.get_or_spawn(&mut pool, "t1", "cat").unwrap();
    let _ = f.get_or_spawn(&mut pool, "t2", "cat").unwrap();
    let _ = f.get_or_spawn(&mut pool, "t3", "cat").unwrap();
    assert_eq!(pool.stats().total, 3);
    pool.mark_disconnected("t1");
    let _ = f.get_or_spawn(&mut pool, "t4", "cat").unwrap();
    assert_eq!(pool.stats().total, 3);
    assert!(!pool.contains("t1"), "idle agent t1 should be evicted");
}

#[test]
fn max_agents_all_connected_fails() {
    let mut pool = AgentPool::new(test_config());
    let mut f = Fake::new();
    let _ = f.get_or_spawn(&mut pool, "t1", "cat").unwrap();
    let _ = f.get_or_spawn(&mut pool, "t2", "cat").unwrap();
    let _ = f.get_or_spawn(&mut pool, "t3", "cat").unwrap();
    let result = f.get_or_spawn(&mut pool, "t4", "cat");
    assert!(result.is_err());
    assert!(result.unwrap_err().message().contains("Agent pool is full"));
}

#[test]
fn reap_removes_timed_out_agents() {
    let cfg = PoolConfig { idle_timeout_ms: 50, max_agents: 10, buffer_messages: false, max_buffer_size: 100 };
    let mut pool = AgentPool::new(cfg);
    let mut f = Fake::new();
    let _ = f.get_or_spawn(&mut pool, "token_a", "cat").unwrap();
    pool.mark_disconnected_at("token_a", 1000);
    let removed = pool.reap_idle_at(1100, &vec![true]);
    assert_eq!(removed, vec![1]);
    assert_eq!(pool.stats().total, 0, "timed-out agent should be reaped");
}

#[test]
fn reap_keeps_connected_agents() {
    let cfg = PoolConfig { idle_timeout_ms: 50, max_agents: 10, buffer_messages: false, max_buffer_size: 100 };
    let mut pool = AgentPool::new(cfg);
    let mut f = Fake::new();
    let _ = f.get_or_spawn(&mut pool, "token_a", "cat").unwrap();
    let removed = pool.reap_idle_at(100_000, &vec![true]);
    assert!(removed.is_empty());
    assert_eq!(pool.stats().total, 1, "connected agent should survive reaping");
}

#[test]
fn reap_keeps_recently_disconnected() {
    let cfg = PoolConfig { idle_timeout_ms: 60_000, max_agents: 10, buffer_messages: false, max_buffer_size: 100 };
    let mut pool = AgentPool::new(cfg);
    let mut f = Fake::new();
    let _ = f.get_or_spawn(&mut pool, "token_a", "cat").unwrap();
    pool.mark_disconnected("token_a");
    let alive = vec![true];
    pool.reap_idle_agents(&alive);
    assert_eq!(pool.stats().total, 1, "recently-disconnected agent should survive");
}

#[test]
fn reap_removes_dead_agents_even_when_connected() {
    let mut pool = AgentPool::new(test_config());
    let mut f = Fake::new();
    let _ = f.get_or_spawn(&mut pool, "a", "cat").unwrap();
    let _ = f.get_or_spawn(&mut pool, "b", "cat").unwrap();
    let removed = pool.reap_idle_at(0, &vec![true, false]);
    assert_eq!(removed, vec![2]);
    assert!(pool.contains("a"));
    assert!(!pool.contains("b"));
}

#[test]
fn idle_deadline_is_exclusive() {
    let cfg = PoolConfig { idle_timeout_ms: 100, max_agents: 10, buffer_messages: false, max_buffer_size: 100 };
    let mut pool = AgentPool::new(cfg);
    let mut f = Fake::new();
    let _ = f.get_or_spawn(&mut pool, "t1", "cat").unwrap();
    pool.mark_disconnected_at("t1", 5000);
    pool.reap_idle_at(5099, &vec![true]);
    assert_eq!(pool.stats().total, 1);
    pool.reap_idle_at(5100, &vec![true]);
    assert_eq!(pool.stats().total, 1);
    pool.reap_idle_at(5101, &vec![true]);
    assert_eq!(pool.stats().total, 0);
}

#[test]
fn idle_reap_empties_the_pool() {
    let cfg = PoolConfig { idle_timeout_ms: 100, max_agents: 10, buffer_messages: false, max_buffer_size: 100 };
    let mut pool = AgentPool::new(cfg);
    let mut f = Fake::new();
    let _ = f.get_or_spawn(&mut pool, "t1", "cat").unwrap();
    pool.mark_disconnected_at("t1", 0);
    pool.reap_idle_at(200, &vec![true]);
    assert_eq!(pool.stats().total, 0);
}

#[test]
fn buffer_message_stores_messages() {
    let mut pool = AgentPool::new(test_config());
    let mut f = Fake::new();
    let _ = f.get_or_spawn(&mut pool, "token_a", "cat").unwrap();
    pool.mark_disconnected("token_a");
    pool.buffer_message("token_a", "msg1".into());
    pool.buffer_message("token_a", "msg2".into());
    let agent = pool.get("token_a").unwrap();
    assert_eq!(agent.message_buffer.len(), 2);
    assert_eq!(agent.message_buffer[0], "msg1");
    assert_eq!(agent.message_buffer[1], "msg2");
}

#[test]
fn buffer_message_respects_max_size() {
    let mut pool = AgentPool::new(test_config());
    let mut f = Fake::new();
    let _ = f.get_or_spawn(&mut pool, "token_a", "cat").unwrap();
    pool.mark_disconnected("token_a");
    for i in 0..10 {
        pool.buffer_message("token_a", format!("msg{}", i));
    }
    let agent = pool.get("token_a").unwrap();
    assert_eq!(agent.message_buffer.len(), 5, "should cap at max_buffer_size");
    assert_eq!(agent.message_buffer[4], "msg4");
}

#[test]
fn buffer_message_ignored_while_connected() {
    let mut pool = AgentPool::new(test_config());
    let mut f = Fake::new();
    let _ = f.get_or_spawn(&mut pool, "token_a", "cat").unwrap();
    pool.buffer_message("token_a", "live".into());
    assert!(pool.get("token_a").unwrap().message_buffer.is_empty());
}

#[test]
fn buffer_disabled_drops_messages() {
    let cfg = PoolConfig { buffer_messages: false, ..test_config() };
    let mut pool = AgentPool::new(cfg);
    let mut f = Fake::new();
    let _ = f.get_or_spawn(&mut pool, "token_a", "cat").unwrap();
    pool.mark_disconnected("token_a");
    pool.buffer_message("token_a", "msg1".into());
    let agent = pool.get("token_a").unwrap();
    assert!(agent.message_buffer.is_empty(), "buffering disabled, should drop");
}

#[test]
fn reconnect_drains_buffer() {
    let mut pool = AgentPool::new(test_config());
    let mut f = Fake::new();
    let _ = f.get_or_spawn(&mut pool, "token_a", "cat").unwrap();
    pool.mark_disconnected("token_a");
    pool.buffer_message("token_a", "buffered1".into());
    pool.buffer_message("token_a", "buffered2".into());
    let a = f.get_or_spawn(&mut pool, "token_a", "cat").unwrap();
    assert!(a.was_reused);
    assert_eq!(a.buffered.len(), 2);
    assert_eq!(a.buffered[0], "buffered1");
    assert_eq!(a.buffered[1], "buffered2");
    let agent = pool.get("token_a").unwrap();
    assert!(agent.message_buffer.is_empty());
}

#[test]
fn reconnect_replays_buffered_messages() {
    let mut pool = AgentPool::new(test_config());
    let mut f = Fake::new();
    let _ = f.get_or_spawn(&mut pool, "tok", "cat").unwrap();
    pool.mark_disconnected("tok");
    pool.buffer_message("tok", "a".into());
    pool.buffer_message("tok", "b".into());
    let a = f.get_or_spawn(&mut pool, "tok", "cat").unwrap();
    assert!(a.was_reused);
    assert_eq!(a.buffered, vec!["a".to_string(), "b".to_string()]);
    assert!(pool.get("tok").unwrap().message_buffer.is_empty());
}

#[test]
fn remove_agent_kills_and_removes() {
    let mut pool = AgentPool::new(test_config());
    let mut f = Fake::new();
    let _ = f.get_or_spawn(&mut pool, "token_a", "cat").unwrap();
    assert_eq!(pool.stats().total, 1);
    assert_eq!(pool.remove_agent("token_a"), Some(1));
    assert_eq!(pool.stats().total, 0);
    assert_eq!(pool.remove_agent("token_a"), None);
}

#[test]
fn shutdown_all_clears_pool() {
    let mut pool = AgentPool::new(test_config());
    let mut f = Fake::new();
    let _ = f.get_or_spawn(&mut pool, "t1", "cat").unwrap();
    let _ = f.get_or_spawn(&mut pool, "t2", "cat").unwrap();
    let _ = f.get_or_spawn(&mut pool, "t3", "cat").unwrap();
    assert_eq!(pool.stats().total, 3);
    let mut handles = pool.shutdown_all();
    handles.sort();
    assert_eq!(handles, vec![1, 2, 3]);
    assert_eq!(pool.stats().total, 0);
}

#[test]
fn stats_reflect_pool_state() {
    let mut pool = AgentPool::new(test_config());
    let mut f = Fake::new();
    let _ = f.get_or_spawn(&mut pool, "t1", "cat").unwrap();
    let _ = f.get_or_spawn(&mut pool, "t2", "cat").unwrap();
    pool.mark_disconnected("t2");
    let s = pool.stats();
    assert_eq!(s.total, 2);
    assert_eq!(s.connected, 1);
    assert_eq!(s.idle, 1);
    assert_eq!(s.max, 3);
    assert!(s.describe().contains("2/3 agents"));
    assert_eq!(s.describe(), "AgentPool: 2/3 agents (1 connected, 1 idle)");
}

#[test]
fn dead_agent_is_replaced_on_reconnect() {
    let mut pool = AgentPool::new(test_config());
    let mut f = Fake::new();
    let _ = f.get_or_spawn(&mut pool, "token_a", "cat").unwrap();
    f.kill(&pool, "token_a");
    let a = f.get_or_spawn(&mut pool, "token_a", "cat").unwrap();
    assert!(!a.was_reused, "dead agent should be replaced, not reused");
    assert_eq!(pool.get("token_a").unwrap().process, 2);
}

#[test]
fn cache_init_response_stores_and_returns() {
    let mut pool = AgentPool::new(test_config());
    let mut f = Fake::new();
    let _ = f.get_or_spawn(&mut pool, "token_a", "cat").unwrap();
    assert!(pool.get("token_a").unwrap().cached_init_response.is_none());
    let fake_init = r#"{"jsonrpc":"2.0","id":1,"result":{"capabilities":{}}}"#.to_string();
    pool.cache_init_response("token_a", fake_init.clone());
    assert_eq!(pool.get("token_a").unwrap().cached_init_response.as_deref(), Some(fake_init.as_str()));
    pool.mark_disconnected("token_a");
    let a = f.get_or_spawn(&mut pool, "token_a", "cat").unwrap();
    assert!(a.was_reused);
    assert_eq!(a.cached_init.as_deref(), Some(fake_init.as_str()));
}

#[test]
fn cached_responses_are_set_once() {
    let mut pool = AgentPool::new(test_config());
    let mut f = Fake::new();
    let _ = f.get_or_spawn(&mut pool, "t", "cat").unwrap();
    pool.cache_init_response("t", "first".into());
    pool.cache_init_response("t", "second".into());
    pool.cache_session_response("t", "s1".into());
    pool.cache_session_response("t", "s2".into());
    pool.mark_disconnected("t");
    let a = f.get_or_spawn(&mut pool, "t", "cat").unwrap();
    assert_eq!(a.cached_init.as_deref(), Some("first"));
    assert_eq!(a.cached_session.as_deref(), Some("s1"));
}

#[test]
fn no_cached_init_for_fresh_spawn() {
    let mut pool = AgentPool::new(test_config());
    let mut f = Fake::new();
    let a = f.get_or_spawn(&mut pool, "token_a", "cat").unwrap();
    assert!(!a.was_reused);
    assert!(a.cached_init.is_none(), "fresh spawn should have no cached init");
}

#[test]
fn dead_agent_loses_cached_init() {
    let mut pool = AgentPool::new(test_config());
    let mut f = Fake::new();
    let _ = f.get_or_spawn(&mut pool, "token_a", "cat").unwrap();
    pool.cache_init_response("token_a", r#"{"jsonrpc":"2.0","id":1,"result":{"capabilities":{}}}"#.to_string());
    f.kill(&pool, "token_a");
    let a = f.get_or_spawn(&mut pool, "token_a", "cat").unwrap();
    assert!(!a.was_reused, "dead agent should be replaced");
    assert!(a.cached_init.is_none(), "dead agent's cached init should not carry over");
}

#[test]
fn idle_timeout_cleans_up_disconnected_agents() {
    let cfg = PoolConfig { idle_timeout_ms: 200, max_agents: 10, buffer_messages: false, max_buffer_size: 100 };
    let mut pool = AgentPool::new(cfg);
    let mut f = Fake::new();
    let _ = f.get_or_spawn(&mut pool, "tok1", "cat").unwrap();
    let _ = f.get_or_spawn(&mut pool, "tok2", "cat").unwrap();
    pool.mark_disconnected_at("tok1", 0);
    pool.reap_idle_at(300, &vec![true, true]);
    assert!(!pool.contains("tok1"), "idle tok1 should be reaped");
    assert!(pool.contains("tok2"), "connected tok2 should survive");
}

#[test]
fn max_agents_blocks_when_all_connected() {
    let cfg = PoolConfig { max_agents: 2, ..test_config() };
    let mut pool = AgentPool::new(cfg);
    let mut f = Fake::new();
    let _ = f.get_or_spawn(&mut pool, "t1", "cat").unwrap();
    let _ = f.get_or_spawn(&mut pool, "t2", "cat").unwrap();
    let err = f.get_or_spawn(&mut pool, "t3", "cat").unwrap_err();
    assert_eq!(err, PoolError::PoolFull { max_agents: 2 });
    assert!(err.message().contains("pool is full"), "error should mention pool is full: {}", err.message());
}

#[test]
fn max_agents_evicts_oldest_idle() {
    let cfg = PoolConfig { max_agents: 2, ..test_config() };
    let mut pool = AgentPool::new(cfg);
    let mut f = Fake::new();
    let _ = f.get_or_spawn(&mut pool, "t1", "cat").unwrap();
    let _ = f.get_or_spawn(&mut pool, "t2", "cat").unwrap();
    pool.mark_disconnected("t1");
    let alive = f.alive(&pool, "t3");
    let (r, released) = pool.get_or_spawn("t3", "cat", alive, |_p: String, _a: Vec<String>| Ok(3));
    assert!(r.is_ok());
    assert_eq!(released, vec![1]);
    assert!(!pool.contains("t1"));
    assert!(pool.contains("t2"));
    assert!(pool.contains("t3"));
}

#[test]
fn eviction_picks_earliest_disconnect() {
    let mut pool = AgentPool::new(test_config());
    let mut f = Fake::new();
    let _ = f.get_or_spawn(&mut pool, "t1", "cat").unwrap();
    let _ = f.get_or_spawn(&mut pool, "t2", "cat").unwrap();
    let _ = f.get_or_spawn(&mut pool, "t3", "cat").unwrap();
    pool.mark_disconnected_at("t1", 500);
    pool.mark_disconnected_at("t2", 100);
    pool.mark_disconnected_at("t3", 100);
    let _ = f.get_or_spawn(&mut pool, "t4", "cat").unwrap();
    assert!(pool.contains("t1"));
    assert!(!pool.contains("t2"));
    assert!(pool.contains("t3"));
}

#[test]
fn dead_agent_replaced_not_reused() {
    let mut pool = AgentPool::new(test_config());
    let mut f = Fake::new();
    let _ = f.get_or_spawn(&mut pool, "tok1", "cat").unwrap();
    pool.mark_disconnected("tok1");
    f.kill(&pool, "tok1");
    let a = f.get_or_spawn(&mut pool, "tok1", "cat").unwrap();
    assert!(!a.was_reused, "dead agent should be replaced with a fresh spawn");
    assert_eq!(pool.stats().total, 1);
}

#[test]
fn cached_init_response_round_trip() {
    let mut pool = AgentPool::new(test_config());
    let mut f = Fake::new();
    let first = f.get_or_spawn(&mut pool, "tok1", "cat").unwrap();
    assert!(first.cached_init.is_none());
    let init = r#"{"jsonrpc":"2.0","id":1,"result":{"protocolVersion":1}}"#.to_string();
    pool.cache_init_response("tok1", init.clone());
    pool.mark_disconnected("tok1");
    let second = f.get_or_spawn(&mut pool, "tok1", "cat").unwrap();
    assert!(second.was_reused);
    assert_eq!(second.cached_init, Some(init));
}

#[test]
fn cached_init_survives_multiple_reconnects() {
    let mut pool = AgentPool::new(test_config());
    let mut f = Fake::new();
    let _ = f.get_or_spawn(&mut pool, "tok1", "cat").unwrap();
    let init = r#"{"jsonrpc":"2.0","id":1,"result":{"capabilities":{}}}"#.to_string();
    pool.cache_init_response("tok1", init.clone());
    for _ in 0..3 {
        pool.mark_disconnected("tok1");
        let a = f.get_or_spawn(&mut pool, "tok1", "cat").unwrap();
        assert!(a.was_reused);
        assert_eq!(a.cached_init.as_deref(), Some(init.as_str()));
    }
}

#[test]
fn stats_stay_consistent_over_a_run() {
    let cfg = PoolConfig { max_agents: 2, idle_timeout_ms: 10, ..test_config() };
    let mut pool = AgentPool::new(cfg);
    let mut f = Fake::new();
    let tokens = ["a", "b", "c", "a", "d", "b"];
    for (i, t) in tokens.iter().enumerate() {
        let _ = f.get_or_spawn(&mut pool, t, "cat");
        if i % 2 == 0 {
            pool.mark_disconnected_at(t, i as u64);
        }
        let alive = vec![true; pool.len()];
        pool.reap_idle_at(i as u64 * 3, &alive);
        let s = pool.stats();
        assert!(s.total <= s.max);
        assert_eq!(s.connected + s.idle, s.total);
    }
}

#[test]
fn spawn_errors_carry_their_reason() {
    let mut pool: AgentPool<u32> = AgentPool::new(test_config());
    let (r, _) = pool.get_or_spawn("t", " ", false, |_p: String, _a: Vec<String>| Ok(1));
    assert_eq!(r, Err(PoolError::SpawnFailed { reason: "Empty agent command".to_string() }));
    let (r, _) = pool.get_or_spawn("t", "agent", false, |_p: String, _a: Vec<String>| Err("no such file".to_string()));
    assert_eq!(r, Err(PoolError::SpawnFailed { reason: "no such file".to_string() }));
    assert_eq!(pool.stats().total, 0);
    let (r, _) = pool.get_or_spawn("t", "agent", false, |_p: String, _a: Vec<String>| Ok(9));
    assert!(r.is_ok());
    assert_eq!(pool.get("t").unwrap().process, 9);
}
