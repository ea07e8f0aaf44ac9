//! Session core of a bridge between a stdio JSON-RPC agent and WebSocket clients.

pub mod agent_pool;
pub mod clock;
pub mod common_config;
pub mod config;
pub mod http;
pub mod json;
pub mod pairing;
pub mod push;
pub mod qr;
pub mod rate_limiter;
pub mod rpc;
pub mod tailscale;
pub mod text;
pub mod tls;
pub mod token;
pub mod transport;
pub mod tunnel;
