//! An HTTP client for servers that listen on Unix domain sockets.
//!
//! The socket path is carried inside a `unix://` URL, hex-encoded in the
//! authority, and requests are assembled with a fluent builder that keeps the
//! first error it meets.
use vstd::prelude::*;

pub mod body;
pub mod client;
pub mod error;
pub mod header;
pub mod request;
pub mod response;
pub mod unix_url;

pub use body::Body;
pub use client::Client;
pub use error::{BuilderError, Error, StatusError};
pub use header::{HeaderMap, HeaderName, HeaderValue};
pub use request::{Method, Request, RequestBuilder, Version};
pub use response::{Response, SetCookie};
pub use unix_url::UnixUrl;

verus! {

/// The result of the operations of this crate.
pub type Result<T> = std::result::Result<T, Error>;

} // verus!
