//! An embedded rate limiter and `credential_version` revocation cache.
//!
//! Two structures, and the rules of the HTTP bridge that exposes them:
//!
//! - [`RateLimiter`]: exact sliding-window counters, in memory only.
//! - [`RevocationCache`]: one `credential_version` integer per user, which can
//!   be warm-loaded from rows kept on disk. The application database remains
//!   the source of truth.
//! - [`server`]: what the bridge answers to each request.

pub mod cache_laws;
pub mod clock;
pub mod error;
pub mod limiter_laws;
pub mod metrics;
pub mod rate_limiter;
pub mod record;
pub mod revocation;
pub mod server;
pub mod store;
pub mod table;
pub mod window;

pub use error::KvError;
pub use metrics::MetricsSnapshot;
pub use rate_limiter::RateLimiter;
pub use revocation::RevocationCache;
