//! The errors of this crate, and the outside error types that they carry.
use http::Error as HttpError;
use hyper::Error as HyperError;
use hyper_util::client::legacy::Error as PoolError;
use serde_json::Error as JsonError;
use serde_urlencoded::ser::Error as UrlEncodeError;
use crate::response::opt_bytes;
use vstd::prelude::*;
use vstd::string::*;
use vstd::utf8::{decode_utf8, valid_utf8};

verus! {

/// `url::ParseError`, the error of `url::Url::parse`, carried as it is.
#[verifier::external_type_specification]
#[verifier::external_body]
pub struct ExUrlParseError(url::ParseError);

/// `http::Error`, the error of `http`'s header and request builders, carried as it is.
#[verifier::external_type_specification]
#[verifier::external_body]
pub struct ExHttpError(HttpError);

/// `http::uri::InvalidUriParts`, carried as it is.
#[verifier::external_type_specification]
#[verifier::external_body]
pub struct ExInvalidUriParts(http::uri::InvalidUriParts);

/// `hyper::Error`, the error of reading a body from the transport, carried as it is.
#[verifier::external_type_specification]
#[verifier::external_body]
pub struct ExHyperError(HyperError);

/// `hyper_util::client::legacy::Error`, the error of the connection pool, carried as it is.
#[verifier::external_type_specification]
#[verifier::external_body]
pub struct ExClientError(PoolError);

/// `serde_urlencoded::ser::Error`, carried as it is.
#[verifier::external_type_specification]
#[verifier::external_body]
pub struct ExSerializeUrlError(UrlEncodeError);

/// `serde_json::Error`, carried as it is.
#[verifier::external_type_specification]
#[verifier::external_body]
pub struct ExJsonError(JsonError);

/// Whether `hyper_util` reports a pool error as arising while connecting.
pub uninterp spec fn pool_is_connect(e: PoolError) -> bool;

/// Relies on `hyper_util::client::legacy::Error::is_connect`: the answer
/// depends on the error alone.
pub assume_specification[ PoolError::is_connect ](e: &PoolError) -> (r: bool)
    ensures
        r == pool_is_connect(*e),
;

/// Every error that this crate reports.
#[derive(Debug)]
pub enum Error {
    /// The address could not be parsed as a URL.
    UrlParseError(url::ParseError),
    /// A request could not be built; the first failure of the chain.
    BuilderError(BuilderError),
    /// The wire request could not be assembled.
    HttpError(http::Error),
    /// The transport failed while reading or writing.
    HyperError(hyper::Error),
    /// A response body was not the JSON that was asked for.
    Decode(serde_json::Error),
    /// The address could not be turned into a request URI.
    InvalidUriParts(http::uri::InvalidUriParts),
    /// The connection pool failed, for instance to connect to the socket.
    ClientError(hyper_util::client::legacy::Error),
    /// The server answered with a client or server error status.
    StatusError(StatusError),
}

/// Why a request could not be built.
#[derive(Debug)]
pub enum BuilderError {
    /// The address could not be parsed as a URL.
    UrlParse(url::ParseError),
    /// A header name or value was not valid.
    Http(http::Error),
    /// A value could not be serialized as URL-encoded pairs.
    SerializeUrl(serde_urlencoded::ser::Error),
    /// A value could not be serialized as JSON.
    SerializeJson(serde_json::Error),
}

/// A response whose status is a client (4xx) or server (5xx) error.
#[derive(Debug)]
pub struct StatusError {
    /// The status code.
    pub code: u16,
    /// The reason phrase that the server sent, when it sent one.
    pub reason: Option<Vec<u8>>,
}

/// The decimal digits of a number, without leading zeros.
pub open spec fn decimal(n: nat) -> Seq<char>
    decreases n,
{
    if n < 10 {
        seq!["0123456789"@[n as int]]
    } else {
        decimal(n / 10) + seq!["0123456789"@[(n % 10) as int]]
    }
}

/// The reason phrase that `http` knows for a status code, if any.
pub uninterp spec fn canonical_reason_of(code: u16) -> Option<Seq<char>>;

/// Relies on `http::StatusCode::from_u16` and `StatusCode::canonical_reason`:
/// the phrase depends on the code alone.
#[verifier::external_body]
fn canonical_reason(code: u16) -> (r: Option<&'static str>)
    ensures
        match r {
            Some(t) => canonical_reason_of(code) == Some(t@),
            None => canonical_reason_of(code) is None,
        },
{
    http::StatusCode::from_u16(code).ok()?.canonical_reason()
}

/// Relies on `std::str::from_utf8`: it accepts exactly the valid UTF-8
/// byte sequences, and yields the characters that they encode.
#[verifier::external_body]
pub(crate) fn utf8_text(b: &[u8]) -> (r: Option<String>)
    ensures
        r is Some <==> valid_utf8(b@),
        r is Some ==> r->Some_0@ == decode_utf8(b@),
{
    Some(std::str::from_utf8(b).ok()?.to_string())
}

/// A status code as the wire shows it: its number, then its reason phrase.
pub open spec fn status_line(code: u16) -> Seq<char> {
    decimal(code as nat) + seq![' '] + match canonical_reason_of(code) {
        Some(r) => r,
        None => "<unknown status code>"@,
    }
}

/// The message of a status error: whether the status is a client or a
/// server error, the status, and the reason phrase when it is UTF-8.
pub open spec fn status_message(code: u16, reason: Option<Seq<u8>>) -> Seq<char> {
    let kind = if 400 <= code < 500 {
        "HTTP status client error"@
    } else {
        "HTTP status server error"@
    };
    let detail = match reason {
        Some(b) => if valid_utf8(b) {
            status_line(code) + seq![' '] + decode_utf8(b)
        } else {
            status_line(code)
        },
        None => status_line(code),
    };
    kind + " ("@ + detail + ")"@
}

/// Appends the decimal digits of `n` to `s`.
fn push_decimal(s: &mut String, n: u16)
    ensures
        final(s)@ == old(s)@ + decimal(n as nat),
    decreases n,
{
    proof {
        reveal_strlit("0123456789");
    }
    if n >= 10 {
        push_decimal(s, n / 10);
    }
    let d = (n % 10) as usize;
    s.append("0123456789".substring_char(d, d + 1));
    assert("0123456789"@.subrange(d as int, d + 1) =~= seq!["0123456789"@[d as int]]);
}

impl StatusError {
    /// The error as a message, such as
    /// `HTTP status server error (500 Internal Server Error)`.
    pub fn message(&self) -> (r: String)
        ensures
            r@ == status_message(self.code, opt_bytes(self.reason)),
    {
        let mut out = if 400 <= self.code && self.code < 500 {
            String::from_str("HTTP status client error")
        } else {
            String::from_str("HTTP status server error")
        };
        out.append(" (");
        push_decimal(&mut out, self.code);
        out.append(" ");
        match canonical_reason(self.code) {
            Some(t) => out.append(t),
            None => out.append("<unknown status code>"),
        }
        match &self.reason {
            Some(v) => match utf8_text(v.as_slice()) {
                Some(t) => {
                    out.append(" ");
                    out.append(t.as_str());
                },
                None => {},
            },
            None => {},
        }
        out.append(")");
        proof {
            reveal_strlit(" ");
            reveal_strlit(" (");
            reveal_strlit(")");
        }
        assert(out@ =~= status_message(self.code, opt_bytes(self.reason)));
        out
    }
}

impl Error {
    /// Whether the error comes from building a request.
    pub fn is_builder(&self) -> (r: bool)
        ensures
            r == (self is BuilderError),
    {
        match self {
            Error::BuilderError(_) => true,
            _ => false,
        }
    }

    /// Whether the error comes from classifying a response status.
    pub fn is_status(&self) -> (r: bool)
        ensures
            r == (self is StatusError),
    {
        match self {
            Error::StatusError(_) => true,
            _ => false,
        }
    }

    /// Whether the error arose while connecting to the socket.
    pub fn is_connect(&self) -> (r: bool)
        ensures
            r == match self {
                Error::ClientError(e) => pool_is_connect(*e),
                _ => false,
            },
    {
        match self {
            Error::ClientError(e) => e.is_connect(),
            _ => false,
        }
    }

    /// The status code of a status error.
    pub fn status(&self) -> (r: Option<u16>)
        ensures
            r == match self {
                Error::StatusError(e) => Some(e.code),
                _ => None,
            },
    {
        match self {
            Error::StatusError(e) => Some(e.code),
            _ => None,
        }
    }
}

} // verus!
