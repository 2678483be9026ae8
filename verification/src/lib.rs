//! A TLS-terminating reverse proxy and session broker for on-demand Spark
//! Connect backends.
//!
//! The library holds the verified core: the session store (token to backend
//! address), the launcher's version selection and configuration composition,
//! and the per-connection dispatch state machine that authenticates gRPC
//! requests and decides when an upstream channel is created or reused.

pub mod auth;
pub mod config;
pub mod dispatch;
pub mod launcher;
pub mod routes;
pub mod store;
pub mod strutil;

pub use auth::BearerToken;
pub use auth::TokenAuth;
pub use auth::UserAuth;
pub use auth::UserId;
pub use config::ConfigTable;
pub use config::ProxyConfig;
pub use config::SparkVersion;
pub use config::TlsConfig;
pub use dispatch::ConnState;
pub use dispatch::GrpcDecision;
pub use launcher::LaunchPlan;
pub use launcher::Launcher;
pub use store::InMemorySessionStore;
pub use store::Session;
pub use store::SessionStore;
pub use store::SessionView;
