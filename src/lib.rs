//! A host-based reverse proxy core: configuration model, forwarding-rule
//! resolution, per-client token-bucket admission control, request dispatch
//! decisions, the upstream retry policy and the rendering of proxy pages.

pub mod config;
pub mod text;
pub mod resolve;
pub mod limiter;
pub mod rate_limit;
pub mod pages;
pub mod dispatch;
pub mod connector;
pub mod server;
