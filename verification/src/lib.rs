//! The engine of a mock HTTP server: a table of routes matched against requests, the
//! authentication schemes that may guard a route, the response that an instance gives,
//! and the registry of running instances.
//!
//! The library neither listens nor sends. It decides; its caller binds ports, serves
//! requests and delivers log lines.

pub mod auth;
pub mod headers;
pub mod manager;
pub mod matching;
pub mod proxy;
pub mod route;
pub mod server;
pub mod text;

pub use manager::get_running_servers;
pub use manager::start_mock_server;
pub use manager::stop_all_mock_servers;
pub use manager::stop_mock_server;
pub use manager::MockServerState;
pub use route::AuthConfig;
pub use route::MockRoute;
