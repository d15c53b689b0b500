//! A service registry: a catalog of named services and their live network
//! instances, with health tracking, role-based access control, and a signed
//! token scheme for authenticating callers.
//!
//! The registry store keeps three tables (services, instances, identities)
//! with upsert semantics keyed by service code, instance id, and identity
//! common name respectively. A health monitor cycle folds reachability
//! probe outcomes back into the instance table.

pub mod auth;
pub mod codec;
pub mod errors;
pub mod health;
pub mod instance;
pub mod kv;
pub mod metadata;
pub mod monitor;
pub mod protocol;
pub mod registry;
pub mod runtime;
pub mod service;
pub mod strutil;
pub mod time;
pub mod token;

pub use auth::{Claims, Identity, Permission, Role};
pub use errors::{AuthError, RegistryError};
pub use health::HealthStatus;
pub use instance::{Address, ServiceInstance};
pub use metadata::Metadata;
pub use protocol::Protocol;
pub use registry::Registry;
pub use runtime::Runtime;
pub use service::Service;
