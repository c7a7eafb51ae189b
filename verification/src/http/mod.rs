//! HTTP responses, their classification and caching, and the request
//! headers that a browser identity sends.
pub mod cache;
pub mod client;
pub mod detect;
pub mod headers;
pub mod response;
pub mod transport;

pub use detect::{ChallengeHint, PageState};
pub use response::HttpResponse;
