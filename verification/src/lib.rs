//! Verified core of a headless web-fetching engine: page-state detection,
//! response caching rules, browser identity profiles and request headers.
pub mod delay;
pub mod error;
pub mod http;
pub mod identity;
pub mod random;
pub mod session;
pub mod text;
pub mod unicode;
