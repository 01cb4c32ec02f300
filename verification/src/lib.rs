//! Multi-tenant JSON state store primitives.
//!
//! Documents are kept per tenant, prefix and key, can be read and written at
//! a path inside them, and expire after a time to live. The volatile backend
//! lives in [`inmemory`]; [`redis_store`] holds what a persistent backend
//! decides between its commands to the remote service.

pub mod error;
pub mod inmemory;
pub mod json;
pub mod key;
pub mod redis_store;
pub mod store;
pub mod util;

pub use crate::error::{
    from_redis, from_serde, internal, invalid_input, unavailable, with_context, ErrorCode,
    StateError, StateResult,
};
pub use crate::json::Json;
pub use crate::key::{fqn, fqn_prefix, FqnKey, StateKey, StatePath, TenantCtx};
pub use crate::store::StateStore;
