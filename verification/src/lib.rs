//! Verified core of the Akasha Mihomo controller: log storage, the framing of HTTP
//! requests and responses carried over the controller's local socket, connection-pool
//! policy, subscription usage parsing, configuration accessors, shell integration and
//! the navigation state of the terminal dashboard.

pub mod config;
pub mod display;
pub mod logger;
pub mod logstore;
pub mod navigation;
pub mod pkginfo;
pub mod pool;
pub mod proxies;
pub mod shell;
pub mod socket_http;
pub mod subscription;
pub mod text;
pub mod websocket;
