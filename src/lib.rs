//! A TCP-to-TLS forwarding proxy: the decisions of the server, the fair
//! listener scheduler and the per-connection tunnel sessions, with their
//! contracts. Sockets, timers and the event loop are driven by the caller.
pub mod config;
pub mod endpoint;
pub mod relay;
pub mod select;
pub mod server;
pub mod session;
pub mod tls;
