//! The long-lived state of the proxy: the credential pool and the cache of
//! prepared responses.
pub mod cache;
pub mod cookie_manager;
pub mod pool;
pub mod pool_invariants;
pub mod pool_laws;
