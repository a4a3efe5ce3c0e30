//! Normalises the rate-limit headers of an HTTP response.
//!
//! Servers announce their quotas under different header names and with
//! different encodings of the reset time. This crate recognises the known
//! conventions and reduces them to one [`RateLimit`] record: the allowed
//! number of requests, the number remaining, the reset time, the window the
//! numbers apply to and the convention that was recognised.
//!
//! All header text is handled as bytes; a header name matches without regard
//! to ASCII case.
//!
//! - [`text`]: whitespace, case folding and searching in byte strings.
//! - [`convert`]: decimal counts.
//! - [`store`]: the header store, filled from raw text.
//! - [`header_map`]: the header store filled from a `headers::HeaderMap`.
//! - [`types`], [`variants`]: the conventions and the search among them.
//! - [`reset`]: reset times; dates and timestamps are judged by `time`.
//! - [`rate_limit`]: the rate limit of a response.

pub mod convert;
pub mod error;
pub mod header_map;
pub mod rate_limit;
pub mod reset;
pub mod store;
pub mod text;
pub mod types;
pub mod variants;

pub use error::Error;
pub use rate_limit::RateLimit;
pub use reset::ResetTime;
pub use store::HeaderStore;
pub use types::{Limit, RateLimitVariant, Remaining, ResetTimeKind, Used, Vendor, Window};
