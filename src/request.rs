//! Requests, and the fluent builder that assembles them and keeps the first
//! error of the chain.
use crate::body::Body;
use crate::client::Client;
use crate::error::{BuilderError, Error};
use crate::header::{
    HeaderEntry, HeaderMap, HeaderName, HeaderValue, ascii_lower, is_header_name, is_header_value,
    lemma_held_literal, lemma_visible_text_is_value, merged_values, replaced, values_for,
};
use crate::unix_url::{
    UnixUrl, UrlParts, lemma_with_same_query, well_formed, append_pairs, appended_query, lemma_query_accumulates, lemma_with_query_twice,
    opt_str_chars, pairs_view, query_or_empty, with_query,
};
use base64::Engine;
use serde_json::Error as JsonError;
use vstd::prelude::*;
use vstd::string::*;
use vstd::utf8::encode_utf8;

verus! {

/// `http::Extensions`, a map of values by type, carried opaque.
#[verifier::external_type_specification]
#[verifier::external_body]
pub struct ExExtensions(http::Extensions);

/// Relies on `http::Extensions::new`: an empty map.
pub assume_specification[ http::Extensions::new ]() -> http::Extensions;

/// Relies on `Clone` of `http::Extensions`, derived over its map.
pub assume_specification[ <http::Extensions as Clone>::clone ](e: &http::Extensions) -> http::Extensions;

/// The method of a request.
#[derive(Clone, Copy, Debug, PartialEq, Eq, Structural)]
pub enum Method {
    Get,
    Post,
    Put,
    Patch,
    Delete,
    Head,
    Options,
    Connect,
    Trace,
}

/// The name of a method as it stands on the wire.
pub open spec fn method_name(m: Method) -> Seq<char> {
    match m {
        Method::Get => "GET"@,
        Method::Post => "POST"@,
        Method::Put => "PUT"@,
        Method::Patch => "PATCH"@,
        Method::Delete => "DELETE"@,
        Method::Head => "HEAD"@,
        Method::Options => "OPTIONS"@,
        Method::Connect => "CONNECT"@,
        Method::Trace => "TRACE"@,
    }
}

impl Method {
    /// The method's name as it stands on the wire.
    pub fn as_str(&self) -> (r: &'static str)
        ensures
            r@ == method_name(*self),
    {
        match self {
            Method::Get => "GET",
            Method::Post => "POST",
            Method::Put => "PUT",
            Method::Patch => "PATCH",
            Method::Delete => "DELETE",
            Method::Head => "HEAD",
            Method::Options => "OPTIONS",
            Method::Connect => "CONNECT",
            Method::Trace => "TRACE",
        }
    }
}

/// The protocol version of a request or response.
#[derive(Clone, Copy, Debug, PartialEq, Eq, Structural)]
pub enum Version {
    Http09,
    Http10,
    Http11,
    Http2,
    Http3,
}

impl Default for Version {
    fn default() -> (r: Version)
        ensures
            r == Version::Http11,
    {
        Version::Http11
    }
}

/// What a request holds, seen as plain values.
pub struct RequestModel {
    pub method: Method,
    pub url: UrlParts,
    pub headers: Seq<HeaderEntry>,
    pub body: Option<Seq<u8>>,
    pub version: Version,
}

/// A request with no header and no body, in HTTP/1.1.
pub open spec fn fresh_request(method: Method, url: UrlParts) -> RequestModel {
    RequestModel {
        method,
        url,
        headers: Seq::empty(),
        body: None,
        version: Version::Http11,
    }
}

/// An optional body seen as its bytes.
pub open spec fn opt_body(b: Option<Body>) -> Option<Seq<u8>> {
    match b {
        Some(x) => Some(x@),
        None => None,
    }
}

/// A request that can be executed by a client.
#[derive(Debug)]
pub struct Request {
    method: Method,
    url: UnixUrl,
    headers: HeaderMap,
    body: Option<Body>,
    version: Version,
    extensions: http::Extensions,
}

impl View for Request {
    type V = RequestModel;

    closed spec fn view(&self) -> RequestModel {
        RequestModel {
            method: self.method,
            url: self.url@,
            headers: self.headers@,
            body: opt_body(self.body),
            version: self.version,
        }
    }
}

impl Clone for Request {
    fn clone(&self) -> (r: Self)
        ensures
            r@ == self@,
    {
        let body = match &self.body {
            Some(b) => Some(b.clone()),
            None => None,
        };
        Request {
            method: self.method,
            url: self.url.clone(),
            headers: self.headers.clone(),
            body,
            version: self.version,
            extensions: self.extensions.clone(),
        }
    }
}

impl Request {
    /// A request for `url` with no header and no body, in HTTP/1.1.
    pub fn new(method: Method, url: UnixUrl) -> (r: Request)
        ensures
            r@ == fresh_request(method, url@),
    {
        let r = Request {
            method,
            url,
            headers: HeaderMap::new(),
            body: None,
            version: Version::default(),
            extensions: http::Extensions::new(),
        };
        assert(r@.headers =~= Seq::<HeaderEntry>::empty());
        r
    }

    /// The method.
    pub fn method(&self) -> (r: &Method)
        ensures
            *r == self@.method,
    {
        &self.method
    }

    /// The method, to change in place.
    pub fn method_mut(&mut self) -> (r: &mut Method)
        ensures
            *r == old(self)@.method,
            final(self)@ == (RequestModel { method: *final(r), ..old(self)@ }),
    {
        &mut self.method
    }

    /// The address.
    pub fn url(&self) -> (r: &UnixUrl)
        ensures
            r@ == self@.url,
            well_formed(self@.url),
    {
        proof {
            use_type_invariant(&self.url);
        }
        &self.url
    }

    /// The address, to change in place.
    pub fn url_mut(&mut self) -> (r: &mut UnixUrl)
        ensures
            r@ == old(self)@.url,
            final(self)@ == (RequestModel { url: final(r)@, ..old(self)@ }),
    {
        &mut self.url
    }

    /// The headers.
    pub fn headers(&self) -> (r: &HeaderMap)
        ensures
            r@ == self@.headers,
    {
        &self.headers
    }

    /// The headers, to change in place.
    pub fn headers_mut(&mut self) -> (r: &mut HeaderMap)
        ensures
            r@ == old(self)@.headers,
            final(self)@ == (RequestModel { headers: final(r)@, ..old(self)@ }),
    {
        &mut self.headers
    }

    /// The body, if one is set.
    pub fn body(&self) -> (r: Option<&Body>)
        ensures
            match r {
                Some(b) => self@.body == Some(b@),
                None => self@.body is None,
            },
    {
        match &self.body {
            Some(b) => Some(b),
            None => None,
        }
    }

    /// The body slot, to set or clear in place.
    pub fn body_mut(&mut self) -> (r: &mut Option<Body>)
        ensures
            opt_body(*r) == old(self)@.body,
            final(self)@ == (RequestModel { body: opt_body(*final(r)), ..old(self)@ }),
    {
        &mut self.body
    }

    /// The protocol version.
    pub fn version(&self) -> (r: Version)
        ensures
            r == self@.version,
    {
        self.version
    }

    /// The protocol version, to change in place.
    pub fn version_mut(&mut self) -> (r: &mut Version)
        ensures
            *r == old(self)@.version,
            final(self)@ == (RequestModel { version: *final(r), ..old(self)@ }),
    {
        &mut self.version
    }

    /// The extensions that travel with the request to the transport.
    pub fn extensions(&self) -> (r: &http::Extensions) {
        &self.extensions
    }

    /// The extensions, to change in place; the rest of the request stays.
    pub fn extensions_mut(&mut self) -> (r: &mut http::Extensions)
        ensures
            final(self)@ == old(self)@,
    {
        &mut self.extensions
    }

    /// The parts of the request as they go on the wire: the body is empty
    /// when none is set.
    pub fn into_wire_parts(self) -> (r: (Method, UnixUrl, HeaderMap, Vec<u8>, Version, http::Extensions))
        ensures
            r.0 == self@.method,
            r.1@ == self@.url,
            r.2@ == self@.headers,
            r.3@ == match self@.body {
                Some(b) => b,
                None => Seq::<u8>::empty(),
            },
            r.4 == self@.version,
    {
        let body = match self.body {
            Some(b) => b.into_vec(),
            None => Vec::new(),
        };
        (self.method, self.url, self.headers, body, self.version, self.extensions)
    }

    /// The parts of the request, for sending it.
    pub fn into_parts(self) -> (r: (Method, UnixUrl, HeaderMap, Option<Body>, Version))
        ensures
            r.0 == self@.method,
            r.1@ == self@.url,
            r.2@ == self@.headers,
            opt_body(r.3) == self@.body,
            r.4 == self@.version,
    {
        (self.method, self.url, self.headers, self.body, self.version)
    }
}

/// The padded standard base64 encoding of the UTF-8 bytes of a text.
pub uninterp spec fn base64_of(s: Seq<char>) -> Seq<char>;

/// A character of the standard base64 alphabet, or its padding `=`.
pub open spec fn is_base64_char(c: char) -> bool {
    ('A' <= c <= 'Z') || ('a' <= c <= 'z') || ('0' <= c <= '9') || c == '+' || c == '/' || c == '='
}

/// Relies on `base64::engine::general_purpose::STANDARD`'s `encode`: the
/// result depends on the bytes of the text alone, and is written with the
/// standard alphabet and `=` padding.
#[verifier::external_body]
fn base64_encode(s: &str) -> (r: String)
    ensures
        r@ == base64_of(s@),
        forall|i: int| 0 <= i < r@.len() ==> is_base64_char(#[trigger] r@[i]),
{
    base64::engine::general_purpose::STANDARD.encode(s.as_bytes())
}

/// The state of a builder: the request so far, or the first error met.
pub type BuildState = Result<RequestModel, Error>;

/// `r` is what adding the header `key: value` to state `st` gives: an
/// unchanged failure, the value appended under the lowercase name, or a
/// header error when the name or the value is not valid.
pub open spec fn header_added(st: BuildState, key: Seq<char>, value: Seq<char>, sensitive: bool, r: BuildState) -> bool {
    match st {
        Err(_) => r == st,
        Ok(m) => if is_header_name(key) && is_header_value(encode_utf8(value)) {
            r == Ok::<RequestModel, Error>(
                RequestModel { headers: m.headers.push((ascii_lower(key), (encode_utf8(value), sensitive))), ..m },
            )
        } else {
            r matches Err(Error::BuilderError(BuilderError::Http(_)))
        },
    }
}

/// A builder step that leaves a failed state as it is.
pub open spec fn latched(st: BuildState, r: BuildState) -> bool {
    st is Err ==> r == st
}

/// Two requests that differ at most in their headers.
pub open spec fn same_but_headers(a: RequestModel, b: RequestModel) -> bool {
    a.method == b.method && a.url == b.url && a.body == b.body && a.version == b.version
}

/// The credentials of basic authentication: `user:password`, or the user
/// alone.
pub open spec fn credentials(user: Seq<char>, password: Option<Seq<char>>) -> Seq<char> {
    match password {
        Some(p) => user + seq![':'] + p,
        None => user,
    }
}

/// An address with pairs added to its query; a query left empty is removed.
pub open spec fn queried(u: UrlParts, pairs: Seq<(Seq<char>, Seq<char>)>) -> UrlParts {
    let q = appended_query(query_or_empty(u), pairs);
    with_query(u, if q.len() == 0 { None } else { Some(q) })
}

/// A request with a body and the `content-type` that says what it is.
pub open spec fn with_typed_body(m: RequestModel, content_type: Seq<char>, body: Seq<u8>) -> RequestModel {
    RequestModel {
        headers: replaced(m.headers, "content-type"@, (encode_utf8(content_type), false)),
        body: Some(body),
        ..m
    }
}

/// A builder of a request, bound to the client that will send it.
///
/// The first failure of the chain is kept: every later call leaves it as
/// it is.
#[derive(Debug)]
pub struct RequestBuilder {
    client: Client,
    request: Result<Request, Error>,
}

impl View for RequestBuilder {
    type V = BuildState;

    closed spec fn view(&self) -> BuildState {
        match self.request {
            Ok(r) => Ok(r@),
            Err(e) => Err(e),
        }
    }
}

impl RequestBuilder {
    /// A builder in the given state.
    pub(crate) fn new(client: Client, request: Result<Request, Error>) -> (r: RequestBuilder)
        ensures
            r@ == match request {
                Ok(q) => Ok::<RequestModel, Error>(q@),
                Err(e) => Err(e),
            },
    {
        RequestBuilder { client, request }
    }

    /// A builder that starts from an existing client and request.
    pub fn from_parts(client: Client, request: Request) -> (r: RequestBuilder)
        ensures
            r@ == Ok::<RequestModel, Error>(request@),
    {
        RequestBuilder { client, request: Ok(request) }
    }

    /// Adds a header, after any values already under its name.
    pub fn header(self, key: &str, value: &str) -> (r: Self)
        ensures
            latched(self@, r@),
            header_added(self@, key@, value@, false, r@),
    {
        self.header_sensitive(key, value, false)
    }

    /// Adds a header whose value is given ready, with its own sensitive
    /// mark, after any values already under its name.
    pub fn header_value(self, key: &str, value: HeaderValue) -> (r: Self)
        ensures
            latched(self@, r@),
            match self@ {
                Err(_) => r@ == self@,
                Ok(m) => if is_header_name(key@) {
                    r@ == Ok::<RequestModel, Error>(
                        RequestModel { headers: m.headers.push((ascii_lower(key@), value@)), ..m },
                    )
                } else {
                    r@ matches Err(Error::BuilderError(BuilderError::Http(_)))
                },
            },
    {
        let RequestBuilder { client, request } = self;
        match request {
            Err(e) => RequestBuilder { client, request: Err(e) },
            Ok(mut req) => match HeaderName::from_str(key) {
                Err(e) => RequestBuilder { client, request: Err(Error::BuilderError(BuilderError::Http(e))) },
                Ok(name) => {
                    req.headers.append(name, value);
                    RequestBuilder { client, request: Ok(req) }
                },
            },
        }
    }

    /// Adds a header, marked sensitive or not.
    fn header_sensitive(self, key: &str, value: &str, sensitive: bool) -> (r: Self)
        ensures
            header_added(self@, key@, value@, sensitive, r@),
    {
        let RequestBuilder { client, request } = self;
        match request {
            Err(e) => RequestBuilder { client, request: Err(e) },
            Ok(mut req) => match HeaderName::from_str(key) {
                Err(e) => RequestBuilder { client, request: Err(Error::BuilderError(BuilderError::Http(e))) },
                Ok(name) => match HeaderValue::from_str(value) {
                    Err(e) => RequestBuilder {
                        client,
                        request: Err(Error::BuilderError(BuilderError::Http(e))),
                    },
                    Ok(mut v) => {
                        v.set_sensitive(sensitive);
                        req.headers.append(name, v);
                        RequestBuilder { client, request: Ok(req) }
                    },
                },
            },
        }
    }

    /// Merges a set of headers into the request: for each name of `headers`,
    /// its first value replaces what the request held under that name and
    /// its later values are added after it.
    pub fn headers(self, headers: &HeaderMap) -> (r: Self)
        ensures
            latched(self@, r@),
            match self@ {
                Err(_) => r@ == self@,
                Ok(m) => r@ is Ok && same_but_headers(m, r@->Ok_0) && forall|name: Seq<char>| #[trigger]
                    values_for(r@->Ok_0.headers, name) == merged_values(m.headers, headers@, name),
            },
    {
        let RequestBuilder { client, request } = self;
        match request {
            Err(e) => RequestBuilder { client, request: Err(e) },
            Ok(mut req) => {
                req.headers.merge(headers);
                RequestBuilder { client, request: Ok(req) }
            },
        }
    }

    /// Sets a sensitive `authorization` header for HTTP basic
    /// authentication: `Basic ` and the base64 of `username:password`, or of
    /// the user name alone.
    pub fn basic_auth(self, username: &str, password: Option<&str>) -> (r: Self)
        ensures
            latched(self@, r@),
            header_added(
                self@,
                "authorization"@,
                "Basic "@ + base64_of(credentials(username@, opt_str_chars(password))),
                true,
                r@,
            ),
            self@ is Ok ==> r@ is Ok,
    {
        let mut plain = String::from_str(username);
        match password {
            Some(p) => {
                plain.append(":");
                plain.append(p);
            },
            None => {},
        }
        proof {
            reveal_strlit(":");
        }
        assert(plain@ =~= credentials(username@, opt_str_chars(password)));
        let encoded = base64_encode(plain.as_str());
        let mut value = String::from_str("Basic ");
        value.append(encoded.as_str());
        proof {
            reveal_strlit("Basic ");
            reveal_strlit("authorization");
            lemma_held_literal("authorization"@);
            assert forall|i: int| 0 <= i < value@.len() implies ' ' <= #[trigger] value@[i] <= '~' by {
                if i >= 6 {
                    assert(value@[i] == encoded@[i - 6]);
                }
            }
            lemma_visible_text_is_value(value@);
        }
        self.header_sensitive("authorization", value.as_str(), true)
    }

    /// Sets a sensitive `authorization` header for HTTP bearer
    /// authentication: `Bearer ` and the token.
    pub fn bearer_auth(self, token: &str) -> (r: Self)
        ensures
            latched(self@, r@),
            header_added(self@, "authorization"@, "Bearer "@ + token@, true, r@),
    {
        let mut value = String::from_str("Bearer ");
        value.append(token);
        self.header_sensitive("authorization", value.as_str(), true)
    }

    /// Sets the body, in place of any earlier one.
    pub fn body(self, body: Body) -> (r: Self)
        ensures
            latched(self@, r@),
            match self@ {
                Err(_) => r@ == self@,
                Ok(m) => r@ == Ok::<RequestModel, Error>(RequestModel { body: Some(body@), ..m }),
            },
    {
        let RequestBuilder { client, request } = self;
        match request {
            Err(e) => RequestBuilder { client, request: Err(e) },
            Ok(mut req) => {
                req.body = Some(body);
                RequestBuilder { client, request: Ok(req) }
            },
        }
    }

    /// Adds `name=value` pairs, form-encoded, at the end of the query; a
    /// query that stays empty is removed.
    pub fn query(self, pairs: &[(&str, &str)]) -> (r: Self)
        ensures
            latched(self@, r@),
            match self@ {
                Err(_) => r@ == self@,
                Ok(m) => well_formed(m.url) && r@ == Ok::<RequestModel, Error>(
                    RequestModel { url: queried(m.url, pairs_view(pairs@)), ..m },
                ),
            },
    {
        let RequestBuilder { client, request } = self;
        match request {
            Err(e) => RequestBuilder { client, request: Err(e) },
            Ok(mut req) => {
                proof {
                    use_type_invariant(&req.url);
                }
                let ghost u0 = req.url@;
                req.url.query_pairs_mut(pairs);
                let empty = match req.url.query() {
                    Some(q) => q.unicode_len() == 0,
                    None => false,
                };
                if empty {
                    req.url.replace_query(None);
                    proof {
                        lemma_with_query_twice(
                            u0,
                            Some(appended_query(query_or_empty(u0), pairs_view(pairs@))),
                            None,
                        );
                    }
                }
                RequestBuilder { client, request: Ok(req) }
            },
        }
    }

    /// Sets the protocol version.
    pub fn version(self, version: Version) -> (r: Self)
        ensures
            latched(self@, r@),
            match self@ {
                Err(_) => r@ == self@,
                Ok(m) => r@ == Ok::<RequestModel, Error>(RequestModel { version, ..m }),
            },
    {
        let RequestBuilder { client, request } = self;
        match request {
            Err(e) => RequestBuilder { client, request: Err(e) },
            Ok(mut req) => {
                req.version = version;
                RequestBuilder { client, request: Ok(req) }
            },
        }
    }

    /// Sets the body to the form encoding of `pairs`, and `content-type` to
    /// `application/x-www-form-urlencoded`, in place of what was there.
    pub fn form(self, pairs: &[(&str, &str)]) -> (r: Self)
        ensures
            latched(self@, r@),
            match self@ {
                Err(_) => r@ == self@,
                Ok(m) => r@ == Ok::<RequestModel, Error>(
                    with_typed_body(
                        m,
                        "application/x-www-form-urlencoded"@,
                        encode_utf8(appended_query(Seq::empty(), pairs_view(pairs@))),
                    ),
                ),
            },
    {
        let RequestBuilder { client, request } = self;
        match request {
            Err(e) => RequestBuilder { client, request: Err(e) },
            Ok(mut req) => {
                let text = append_pairs(String::new(), pairs);
                req.headers.insert(
                    HeaderName::content_type(),
                    HeaderValue::known("application/x-www-form-urlencoded"),
                );
                req.body = Some(Body::from_str(text.as_str()));
                RequestBuilder { client, request: Ok(req) }
            },
        }
    }

    /// Sets the body to serialized JSON, and `content-type` to
    /// `application/json`, in place of what was there; a failed
    /// serialization fails the builder.
    pub fn json(self, serialized: Result<Vec<u8>, JsonError>) -> (r: Self)
        ensures
            latched(self@, r@),
            match self@ {
                Err(_) => r@ == self@,
                Ok(m) => match serialized {
                    Ok(bytes) => r@ == Ok::<RequestModel, Error>(with_typed_body(m, "application/json"@, bytes@)),
                    Err(e) => r@ == Err::<RequestModel, Error>(Error::BuilderError(BuilderError::SerializeJson(e))),
                },
            },
    {
        let RequestBuilder { client, request } = self;
        match request {
            Err(e) => RequestBuilder { client, request: Err(e) },
            Ok(mut req) => match serialized {
                Ok(bytes) => {
                    req.headers.insert(HeaderName::content_type(), HeaderValue::known("application/json"));
                    req.body = Some(Body::from_vec(bytes));
                    RequestBuilder { client, request: Ok(req) }
                },
                Err(e) => RequestBuilder {
                    client,
                    request: Err(Error::BuilderError(BuilderError::SerializeJson(e))),
                },
            },
        }
    }

    /// Fails the builder with `error`, unless it has already failed.
    pub fn fail(self, error: BuilderError) -> (r: Self)
        ensures
            latched(self@, r@),
            match self@ {
                Err(_) => r@ == self@,
                Ok(_) => r@ == Err::<RequestModel, Error>(Error::BuilderError(error)),
            },
    {
        let RequestBuilder { client, request } = self;
        match request {
            Err(e) => RequestBuilder { client, request: Err(e) },
            Ok(_) => RequestBuilder { client, request: Err(Error::BuilderError(error)) },
        }
    }

    /// The request, or the first error of the chain.
    pub fn build(self) -> (r: Result<Request, Error>)
        ensures
            match r {
                Ok(q) => self@ == Ok::<RequestModel, Error>(q@),
                Err(e) => self@ == Err::<RequestModel, Error>(e),
            },
    {
        self.request
    }

    /// The client, and the request or the first error of the chain.
    pub fn build_split(self) -> (r: (Client, Result<Request, Error>))
        ensures
            match r.1 {
                Ok(q) => self@ == Ok::<RequestModel, Error>(q@),
                Err(e) => self@ == Err::<RequestModel, Error>(e),
            },
    {
        (self.client, self.request)
    }

    /// A copy of the builder, sharing its client, when it has not failed.
    pub fn try_clone(&self) -> (r: Option<RequestBuilder>)
        ensures
            r is Some <==> self@ is Ok,
            r is Some ==> r->Some_0@ == self@,
    {
        match &self.request {
            Ok(req) => Some(RequestBuilder { client: self.client.clone(), request: Ok(req.clone()) }),
            Err(_) => None,
        }
    }
}

/// Along a chain of builder steps that each leave a failure as it is, the
/// first failure is carried unchanged to the end: the chain ends failed
/// exactly when some step failed, and then with that step's error.
pub proof fn lemma_first_error_wins(states: Seq<BuildState>, i: int)
    requires
        0 <= i < states.len(),
        states[i] is Err,
        forall|j: int| 0 <= j < states.len() - 1 ==> #[trigger] latched(states[j], states[j + 1]),
    ensures
        forall|k: int| i <= k < states.len() ==> #[trigger] states[k] == states[i],
        states.last() == states[i],
    decreases states.len() - i,
{
    if i < states.len() - 1 {
        assert(latched(states[i], states[i + 1]));
        lemma_first_error_wins(states, i + 1);
    }
}

/// Two `query` calls add their pairs in order, as one call with all of
/// them does: later pairs accumulate after earlier ones, and repeated names
/// are all kept.
pub proof fn lemma_query_twice(u: UrlParts, first: Seq<(Seq<char>, Seq<char>)>, second: Seq<(Seq<char>, Seq<char>)>)
    ensures
        queried(queried(u, first), second) == queried(u, first + second),
{
    let q1 = appended_query(query_or_empty(u), first);
    let o1: Option<Seq<char>> = if q1.len() == 0 { None } else { Some(q1) };
    assert(query_or_empty(with_query(u, o1)) == q1);
    lemma_query_accumulates(query_or_empty(u), first, second);
    let q2 = appended_query(q1, second);
    lemma_with_query_twice(u, o1, if q2.len() == 0 { None } else { Some(q2) });
}

/// Adding no pairs leaves an address as it is, unless its query is empty:
/// then the query is removed. A query left by `query` is never empty.
pub proof fn lemma_query_no_pairs(u: UrlParts)
    requires
        well_formed(u),
    ensures
        u.2 != Some(Seq::<char>::empty()) ==> queried(u, Seq::empty()) == u,
        queried(u, Seq::empty()).2 != Some(Seq::<char>::empty()),
{
    lemma_with_same_query(u);
    let q = appended_query(query_or_empty(u), Seq::empty());
    assert(q == query_or_empty(u));
    match u.2 {
        Some(x) => {
            if x.len() == 0 {
                assert(x =~= Seq::<char>::empty());
            }
        },
        None => {},
    }
}

/// A query left by `query` is never the empty text.
pub proof fn lemma_query_never_empty(u: UrlParts, pairs: Seq<(Seq<char>, Seq<char>)>)
    ensures
        queried(u, pairs).2 != Some(Seq::<char>::empty()),
{
}

/// Adding no pairs to an address without a query leaves it without one.
pub proof fn lemma_empty_query_absent(u: UrlParts)
    requires
        u.2 is None,
    ensures
        queried(u, Seq::empty()).2 is None,
{
}

} // verus!
