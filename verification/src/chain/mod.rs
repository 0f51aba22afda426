//! Chain data: what the upstream source returns, and how requests for it are
//! normalised, cached and paced.

pub mod cache;
pub mod fetch;
pub mod normalize;
pub mod session;

pub use cache::Cache;
pub use fetch::{FetchConfig, FetchError};
pub use normalize::normalize_slot_time;
