//! The client handle, and the requests that it starts.
use crate::error::Error;
use crate::request::{Method, Request, RequestBuilder, RequestModel, fresh_request};
use crate::unix_url::{UnixUrl, unix_url_text, url_parse};
use hyper_util::client::legacy::Client as PoolClient;
use vstd::prelude::*;
use vstd::string::*;

verus! {

/// `hyper_util::client::legacy::Client`, the connection pool, held opaque.
#[verifier::external_type_specification]
#[verifier::external_body]
#[verifier::reject_recursive_types(C)]
#[verifier::reject_recursive_types(B)]
pub struct ExPool<C, B>(PoolClient<C, B>);

/// `hyperlocal::UnixConnector`, held opaque.
#[verifier::external_type_specification]
#[verifier::external_body]
pub struct ExUnixConnector(hyperlocal::UnixConnector);

/// `http_body_util::Full`, the body type of the pool's requests, held opaque.
#[verifier::external_type_specification]
#[verifier::external_body]
#[verifier::reject_recursive_types(D)]
pub struct ExFull<D>(http_body_util::Full<D>);

/// `bytes::Bytes`, held opaque.
#[verifier::external_type_specification]
#[verifier::external_body]
pub struct ExBytes(bytes::Bytes);

/// Relies on `Clone` of `hyper_util::client::legacy::Client`: a handle on
/// the same pool; nothing more is assumed.
pub assume_specification<C: Clone, B>[ <PoolClient<C, B> as Clone>::clone ](c: &PoolClient<C, B>) -> PoolClient<C, B>;

/// The connection pool over Unix sockets that requests are sent through.
pub type Pool = PoolClient<hyperlocal::UnixConnector, http_body_util::Full<bytes::Bytes>>;

/// Relies on `hyperlocal::UnixClientExt::unix`: a pool that connects to the
/// socket named by each request's address.
#[verifier::external_body]
fn unix_pool() -> (r: Pool) {
    <Pool as hyperlocal::UnixClientExt<http_body_util::Full<bytes::Bytes>>>::unix()
}

/// A handle on a pool of connections over Unix sockets; its clones share
/// the pool.
#[derive(Debug, Clone)]
pub struct Client {
    inner: Pool,
}

/// The state that a new builder starts from: the bare request, or the
/// error of parsing its address.
pub open spec fn started(method: Method, socket: Seq<u8>, path: Seq<char>) -> Option<RequestModel> {
    match url_parse(unix_url_text(socket, path)) {
        Some(u) => Some(fresh_request(method, u)),
        None => None,
    }
}

impl Default for Client {
    /// A client with a new connection pool, as `new` makes.
    fn default() -> (r: Client) {
        Client::new()
    }
}

impl Client {
    /// A client with a new connection pool.
    pub fn new() -> (r: Client) {
        Client { inner: unix_pool() }
    }

    /// The pool that the handle shares.
    pub closed spec fn held_pool(&self) -> Pool {
        self.inner
    }

    /// The pool that requests are sent through.
    pub fn pool(&self) -> (r: &Pool)
        ensures
            *r == self.held_pool(),
    {
        &self.inner
    }

    /// Starts a request with `method` for `path` on the server at `socket`.
    ///
    /// The builder starts failed when the address cannot be parsed.
    pub fn request(&self, method: Method, socket: &str, path: &str) -> (r: RequestBuilder)
        ensures
            match started(method, socket.spec_bytes(), path@) {
                Some(m) => r@ == Ok::<RequestModel, Error>(m),
                None => r@ is Err,
            },
            r@ is Err ==> r@->Err_0 is UrlParseError,
    {
        match UnixUrl::new(socket, path) {
            Ok(url) => RequestBuilder::new(self.clone(), Ok(Request::new(method, url))),
            Err(e) => RequestBuilder::new(self.clone(), Err(Error::UrlParseError(e))),
        }
    }

    /// Starts a `GET` request.
    pub fn get(&self, socket: &str, path: &str) -> (r: RequestBuilder)
        ensures
            match started(Method::Get, socket.spec_bytes(), path@) {
                Some(m) => r@ == Ok::<RequestModel, Error>(m),
                None => r@ is Err,
            },
            r@ is Err ==> r@->Err_0 is UrlParseError,
    {
        self.request(Method::Get, socket, path)
    }

    /// Starts a `POST` request.
    pub fn post(&self, socket: &str, path: &str) -> (r: RequestBuilder)
        ensures
            match started(Method::Post, socket.spec_bytes(), path@) {
                Some(m) => r@ == Ok::<RequestModel, Error>(m),
                None => r@ is Err,
            },
            r@ is Err ==> r@->Err_0 is UrlParseError,
    {
        self.request(Method::Post, socket, path)
    }

    /// Starts a `PUT` request.
    pub fn put(&self, socket: &str, path: &str) -> (r: RequestBuilder)
        ensures
            match started(Method::Put, socket.spec_bytes(), path@) {
                Some(m) => r@ == Ok::<RequestModel, Error>(m),
                None => r@ is Err,
            },
            r@ is Err ==> r@->Err_0 is UrlParseError,
    {
        self.request(Method::Put, socket, path)
    }

    /// Starts a `PATCH` request.
    pub fn patch(&self, socket: &str, path: &str) -> (r: RequestBuilder)
        ensures
            match started(Method::Patch, socket.spec_bytes(), path@) {
                Some(m) => r@ == Ok::<RequestModel, Error>(m),
                None => r@ is Err,
            },
            r@ is Err ==> r@->Err_0 is UrlParseError,
    {
        self.request(Method::Patch, socket, path)
    }

    /// Starts a `DELETE` request.
    pub fn delete(&self, socket: &str, path: &str) -> (r: RequestBuilder)
        ensures
            match started(Method::Delete, socket.spec_bytes(), path@) {
                Some(m) => r@ == Ok::<RequestModel, Error>(m),
                None => r@ is Err,
            },
            r@ is Err ==> r@->Err_0 is UrlParseError,
    {
        self.request(Method::Delete, socket, path)
    }

    /// Starts a `HEAD` request.
    pub fn head(&self, socket: &str, path: &str) -> (r: RequestBuilder)
        ensures
            match started(Method::Head, socket.spec_bytes(), path@) {
                Some(m) => r@ == Ok::<RequestModel, Error>(m),
                None => r@ is Err,
            },
            r@ is Err ==> r@->Err_0 is UrlParseError,
    {
        self.request(Method::Head, socket, path)
    }
}

} // verus!
