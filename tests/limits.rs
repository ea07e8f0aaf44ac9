use bridge::push::{relay_base_url, Debounce, PUSH_COOLDOWN_MS};
use bridge::rate_limiter::{RateLimitError, RateLimiter, ATTEMPT_WINDOW_MS};

#[test]
fn attempts_are_limited_per_minute() {
    let mut l = RateLimiter::new(10, 3);
    let ip = 42u128;
    assert_eq!(l.check_connection_at(ip, 1000), Ok(()));
    assert_eq!(l.check_connection_at(ip, 2000), Ok(()));
    assert_eq!(l.check_connection_at(ip, 3000), Ok(()));
    assert_eq!(l.check_connection_at(ip, 4000), Err(RateLimitError::TooManyAttempts { attempts: 3, max: 3 }));
    assert_eq!(l.check_connection_at(7, 4000), Ok(()));
    assert_eq!(l.check_connection_at(ip, 1000 + ATTEMPT_WINDOW_MS), Ok(()));
}

#[test]
fn concurrent_connections_are_limited() {
    let mut l = RateLimiter::new(2, 100);
    let ip = 1u128;
    l.add_connection(ip);
    assert_eq!(l.check_connection_at(ip, 0), Ok(()));
    l.add_connection(ip);
    assert_eq!(l.check_connection_at(ip, 1), Err(RateLimitError::TooManyConnections { current: 2, max: 2 }));
    l.remove_connection(ip);
    assert_eq!(l.check_connection_at(ip, 2), Ok(()));
    l.remove_connection(ip);
    l.remove_connection(ip);
    assert_eq!(l.check_connection(ip), Ok(()));
}

#[test]
fn rate_limit_messages() {
    assert_eq!(
        RateLimitError::TooManyConnections { current: 3, max: 2 }.message(),
        "Too many concurrent connections (3/2)"
    );
    assert_eq!(
        RateLimitError::TooManyAttempts { attempts: 30, max: 30 }.message(),
        "Too many connection attempts (30/30 per minute)"
    );
}

#[test]
fn push_debounce() {
    let mut d = Debounce::new(PUSH_COOLDOWN_MS);
    assert!(d.try_fire_at(100));
    assert!(!d.try_fire_at(100 + PUSH_COOLDOWN_MS - 1));
    assert!(d.try_fire_at(100 + PUSH_COOLDOWN_MS));
    assert!(!d.try_fire_at(50));
}

#[test]
fn relay_url_loses_trailing_slashes() {
    assert_eq!(relay_base_url("https://relay.example.dev//"), "https://relay.example.dev");
    assert_eq!(relay_base_url("https://relay.example.dev"), "https://relay.example.dev");
    assert_eq!(relay_base_url("/"), "");
}
