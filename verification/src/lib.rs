//! The decisions of an SNI router: which connections are taken on, what server
//! name they ask for, where they go, what the fallback site answers, and what
//! is counted on the way. Sockets, files, clocks and TLS sessions are left to
//! the program around it, which hands in what it read and carries out what
//! comes back.

pub mod accept;
pub mod buffers;
pub mod config;
pub mod http_util;
pub mod ip_limiter;
pub mod limiter;
pub mod metrics;
pub mod net;
pub mod prefixed_stream;
pub mod rate;
pub mod rate_limiter;
pub mod reload;
pub mod route;
pub mod sni;
pub mod tables;
pub mod text;
pub mod time;
pub mod tls;
