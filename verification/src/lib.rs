//! Core of a sidecar that emulates a Nacos configuration server: a
//! content-addressed configuration cache, a target manager that tracks what
//! each client believes is current and fans out change notifications, and the
//! request/response logic of the HTTP and gRPC front ends.
//!
//! The transports themselves (HTTP and gRPC serving, filesystem and upstream
//! I/O, the runtime event loop) live outside; they hand this crate plain
//! values and carry out the decisions it returns.

pub mod cache;
pub mod config;
pub mod coordinator;
pub mod encoding;
pub mod fs;
pub mod grpcapi;
pub mod httpapi;
pub mod manager;
pub mod numeric;
pub mod proxy;
pub mod target;
pub mod wire;

pub use config::Config;
pub use fs::FsConfigProvider;
pub use grpcapi::{HandlerResult, Payload, PayloadUtils};
pub use manager::TargetManager;
pub use proxy::ProxyConfigProvider;
pub use target::{ListenRecord, Target};
