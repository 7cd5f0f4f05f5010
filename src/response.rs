//! Responses: their metadata, the classification of their status, and the
//! decoding of their text.
use crate::error::{Error, StatusError, utf8_text};
use crate::header::{HeaderMap, HeaderName, first_of, values_for, values_view};
use vstd::utf8::{decode_utf8, valid_utf8};
use crate::request::Version;
use crate::unix_url::{UnixUrl, UrlParts, opt_chars};
use vstd::prelude::*;
use vstd::string::*;

verus! {

/// What a response holds besides its body, seen as plain values.
pub struct ResponseModel {
    pub status: u16,
    pub version: Version,
    pub headers: Seq<(Seq<char>, (Seq<u8>, bool))>,
    pub url: UrlParts,
    pub reason: Option<Seq<u8>>,
    pub content_length: Option<u64>,
}

/// Optional bytes seen as a sequence.
pub open spec fn opt_bytes(o: Option<Vec<u8>>) -> Option<Seq<u8>> {
    match o {
        Some(v) => Some(v@),
        None => None,
    }
}

/// A client error (4xx) or a server error (5xx).
pub open spec fn is_error_status(code: u16) -> bool {
    400 <= code <= 599
}

/// A byte of visible ASCII, or a tab.
pub open spec fn is_visible_ascii(b: u8) -> bool {
    (32 <= b < 127) || b == 9
}

/// Bytes that are all visible ASCII or tabs.
pub open spec fn all_visible(b: Seq<u8>) -> bool {
    forall|i: int| 0 <= i < b.len() ==> is_visible_ascii(#[trigger] b[i])
}

/// Whether the bytes are all visible ASCII or tabs.
fn check_visible(b: &[u8]) -> (r: bool)
    ensures
        r == all_visible(b@),
{
    let n = b.len();
    let mut visible = true;
    let mut i: usize = 0;
    while i < n
        invariant
            0 <= i <= n,
            n == b@.len(),
            visible == forall|j: int| 0 <= j < i ==> is_visible_ascii(#[trigger] b@[j]),
        decreases n - i,
    {
        let x = b[i];
        visible = visible && ((32 <= x && x < 127) || x == 9);
        i += 1;
    }
    visible
}

/// `cookie::Cookie`, held opaque.
#[verifier::external_type_specification]
#[verifier::external_body]
pub struct ExCookie<'c>(cookie::Cookie<'c>);

/// The name and value of the cookie that `cookie`'s parser reads from a
/// `set-cookie` text: `None` when it rejects the text.
pub uninterp spec fn cookie_parse(s: Seq<char>) -> Option<(Seq<char>, Seq<char>)>;

/// Relies on `cookie::Cookie::parse` and the accessors `name` and `value`:
/// what they give depends on the text alone.
#[verifier::external_body]
fn parse_cookie(s: String) -> (r: Option<(cookie::Cookie<'static>, String, String)>)
    ensures
        match r {
            Some(c) => cookie_parse(s@) == Some((c.1@, c.2@)),
            None => cookie_parse(s@) is None,
        },
{
    let c = cookie::Cookie::parse(s).ok()?;
    let name = c.name().to_string();
    let value = c.value().to_string();
    Some((c, name, value))
}

/// A cookie that a response sets: its name and value, and the parsed
/// cookie with its attributes.
#[derive(Debug)]
pub struct SetCookie {
    pub name: String,
    pub value: String,
    pub cookie: cookie::Cookie<'static>,
}

/// A `set-cookie` value that yields a cookie: visible ASCII that the
/// cookie parser accepts.
pub open spec fn cookie_accepted(b: Seq<u8>) -> bool {
    all_visible(b) && valid_utf8(b) && cookie_parse(decode_utf8(b)) is Some
}

/// The names and values of the cookies that the values yield, in order.
pub open spec fn accepted_cookies(values: Seq<(Seq<u8>, bool)>) -> Seq<(Seq<char>, Seq<char>)>
    decreases values.len(),
{
    if values.len() == 0 {
        Seq::empty()
    } else {
        let before = accepted_cookies(values.drop_last());
        let b = values.last().0;
        if cookie_accepted(b) {
            before.push(cookie_parse(decode_utf8(b))->Some_0)
        } else {
            before
        }
    }
}

/// Cookies seen as their names and values.
pub open spec fn cookie_pairs(v: Seq<SetCookie>) -> Seq<(Seq<char>, Seq<char>)> {
    v.map_values(|c: SetCookie| (c.name@, c.value@))
}

/// What `mime` finds as the `charset` parameter of a media type, given as
/// ASCII bytes: `None` when the text does not parse or has no such
/// parameter.
pub uninterp spec fn mime_charset(b: Seq<u8>) -> Option<Seq<char>>;

/// Relies on `mime::Mime`'s `FromStr` and `Mime::get_param`: the charset
/// parameter depends on the text alone.
#[verifier::external_body]
fn parse_charset(b: &[u8]) -> (r: Option<String>)
    requires
        all_visible(b@),
    ensures
        match r {
            Some(c) => mime_charset(b@) == Some(c@),
            None => mime_charset(b@) is None,
        },
{
    let text = std::str::from_utf8(b).ok()?;
    let mime = text.parse::<mime::Mime>().ok()?;
    mime.get_param("charset").map(|c| c.as_str().to_string())
}

/// The text that `encoding_rs` decodes from bytes with the encoding that a
/// label names, with a byte order mark stripped and malformed sequences
/// replaced: `None` when the label names no encoding.
pub uninterp spec fn decoded_text(label: Seq<char>, bytes: Seq<u8>) -> Option<Seq<char>>;

/// Relies on `encoding_rs::Encoding::for_label` and `Encoding::decode`: the
/// text depends on the label and the bytes alone, and `utf-8` is a label.
#[verifier::external_body]
fn decode_with_label(label: &str, bytes: &[u8]) -> (r: Option<String>)
    ensures
        opt_chars(r) == decoded_text(label@, bytes@),
        label@ == "utf-8"@ ==> r is Some,
{
    let encoding = encoding_rs::Encoding::for_label(label.as_bytes())?;
    Some(encoding.decode(bytes).0.into_owned())
}

/// The text of a body in the encoding that `label` names, or in UTF-8 when
/// it names none.
pub open spec fn text_in(label: Seq<char>, bytes: Seq<u8>) -> Seq<char> {
    match decoded_text(label, bytes) {
        Some(t) => t,
        None => decoded_text("utf-8"@, bytes)->Some_0,
    }
}

/// Decodes a body with the encoding that `label` names, UTF-8 when it
/// names none.
pub fn decode_text(label: &str, bytes: &[u8]) -> (r: String)
    ensures
        r@ == text_in(label@, bytes@),
{
    match decode_with_label(label, bytes) {
        Some(t) => t,
        None => match decode_with_label("utf-8", bytes) {
            Some(t) => t,
            None => String::new(),
        },
    }
}

/// The charset that the first `content-type` header names, when its value
/// is visible ASCII and parses as a media type with that parameter.
pub open spec fn charset_of(headers: Seq<(Seq<char>, (Seq<u8>, bool))>) -> Option<Seq<char>> {
    match first_of(values_for(headers, "content-type"@)) {
        Some(v) => if all_visible(v.0) {
            mime_charset(v.0)
        } else {
            None
        },
        None => None,
    }
}

/// A response to a request, with a handle on its body.
#[derive(Debug)]
pub struct Response<B> {
    status: u16,
    version: Version,
    headers: HeaderMap,
    url: UnixUrl,
    reason: Option<Vec<u8>>,
    content_length: Option<u64>,
    extensions: http::Extensions,
    body: B,
}

impl<B> View for Response<B> {
    type V = ResponseModel;

    closed spec fn view(&self) -> ResponseModel {
        ResponseModel {
            status: self.status,
            version: self.version,
            headers: self.headers@,
            url: self.url@,
            reason: opt_bytes(self.reason),
            content_length: self.content_length,
        }
    }
}

impl<B> Response<B> {
    /// A response with the given metadata and body handle; `reason` is the
    /// reason phrase that the server sent, `content_length` the exact size
    /// of the body, when known, and `extensions` what the transport attached.
    pub fn new(
        status: u16,
        version: Version,
        headers: HeaderMap,
        url: UnixUrl,
        reason: Option<Vec<u8>>,
        content_length: Option<u64>,
        extensions: http::Extensions,
        body: B,
    ) -> (r: Response<B>)
        ensures
            r@ == (ResponseModel {
                status,
                version,
                headers: headers@,
                url: url@,
                reason: opt_bytes(reason),
                content_length,
            }),
    {
        Response { status, version, headers, url, reason, content_length, extensions, body }
    }

    /// The status code.
    pub fn status(&self) -> (r: u16)
        ensures
            r == self@.status,
    {
        self.status
    }

    /// The protocol version.
    pub fn version(&self) -> (r: Version)
        ensures
            r == self@.version,
    {
        self.version
    }

    /// The headers.
    pub fn headers(&self) -> (r: &HeaderMap)
        ensures
            r@ == self@.headers,
    {
        &self.headers
    }

    /// The headers, to change in place.
    pub fn headers_mut(&mut self) -> (r: &mut HeaderMap)
        ensures
            r@ == old(self)@.headers,
            final(self)@ == (ResponseModel { headers: final(r)@, ..old(self)@ }),
    {
        &mut self.headers
    }

    /// The exact size of the body, when it is known; not the
    /// `content-length` header.
    pub fn content_length(&self) -> (r: Option<u64>)
        ensures
            r == self@.content_length,
    {
        self.content_length
    }

    /// The extensions that the transport attached to the response.
    pub fn extensions(&self) -> (r: &http::Extensions) {
        &self.extensions
    }

    /// The extensions, to change in place; the rest of the response stays.
    pub fn extensions_mut(&mut self) -> (r: &mut http::Extensions)
        ensures
            final(self)@ == old(self)@,
            final(self).held_body() == old(self).held_body(),
    {
        &mut self.extensions
    }

    /// The address that the request was sent to.
    pub fn url(&self) -> (r: &UnixUrl)
        ensures
            r@ == self@.url,
    {
        &self.url
    }

    /// The body handle that the response holds.
    pub closed spec fn held_body(&self) -> B {
        self.body
    }

    /// The body handle, to read from in place.
    pub fn body_mut(&mut self) -> (r: &mut B)
        ensures
            *r == old(self).held_body(),
            final(self)@ == old(self)@,
            final(self).held_body() == *final(r),
    {
        &mut self.body
    }

    /// The body handle, giving up the response.
    pub fn into_body(self) -> (r: B)
        ensures
            r == self.held_body(),
    {
        self.body
    }

    /// The error for a client or server error status.
    fn status_error(&self) -> (r: Error)
        ensures
            r matches Error::StatusError(e) && e.code == self@.status && opt_bytes(e.reason) == self@.reason,
    {
        let reason = match &self.reason {
            Some(v) => {
                let c = v.clone();
                assert(c@ =~= v@);
                Some(c)
            },
            None => None,
        };
        Error::StatusError(StatusError { code: self.status, reason })
    }

    /// The response itself when its status is not a client or server error,
    /// else a status error with its code and reason phrase.
    pub fn error_for_status(self) -> (r: Result<Self, Error>)
        ensures
            is_error_status(self@.status) ==> (r matches Err(Error::StatusError(e)) && e.code == self@.status
                && opt_bytes(e.reason) == self@.reason),
            !is_error_status(self@.status) ==> (r matches Ok(s) && s@ == self@),
    {
        if 400 <= self.status && self.status <= 599 {
            Err(self.status_error())
        } else {
            Ok(self)
        }
    }

    /// As `error_for_status`, on a borrowed response.
    pub fn error_for_status_ref(&self) -> (r: Result<&Self, Error>)
        ensures
            is_error_status(self@.status) ==> (r matches Err(Error::StatusError(e)) && e.code == self@.status
                && opt_bytes(e.reason) == self@.reason),
            !is_error_status(self@.status) ==> (r matches Ok(s) && s@ == self@),
    {
        if 400 <= self.status && self.status <= 599 {
            Err(self.status_error())
        } else {
            Ok(self)
        }
    }

    /// The label of the encoding that the body's text is in: the charset of
    /// the `content-type` header, else `default_encoding`.
    pub fn charset_label(&self, default_encoding: &str) -> (r: String)
        ensures
            r@ == match charset_of(self@.headers) {
                Some(c) => c,
                None => default_encoding@,
            },
    {
        let key = HeaderName::content_type();
        proof {
            reveal_strlit("content-type");
        }
        match self.headers.get_by_name(&key) {
            Some(v) => {
                let b = v.as_bytes();
                let visible = check_visible(b);
                if visible {
                    match parse_charset(b) {
                        Some(c) => c,
                        None => String::from_str(default_encoding),
                    }
                } else {
                    String::from_str(default_encoding)
                }
            },
            None => String::from_str(default_encoding),
        }
    }

    /// The cookies of the `set-cookie` headers, in order; a value that is
    /// not visible ASCII or that the cookie parser rejects is skipped.
    pub fn cookies(&self) -> (r: Vec<SetCookie>)
        ensures
            cookie_pairs(r@) == accepted_cookies(values_for(self@.headers, "set-cookie"@)),
    {
        let key = HeaderName::set_cookie();
        let values = self.headers.get_all_by_name(&key);
        let ghost vs = values_view(values@);
        let mut out: Vec<SetCookie> = Vec::new();
        let n = values.len();
        let mut i: usize = 0;
        while i < n
            invariant
                0 <= i <= n,
                n == values@.len(),
                vs == values_view(values@),
                cookie_pairs(out@) == accepted_cookies(vs.take(i as int)),
            decreases n - i,
        {
            let b = values[i].as_bytes();
            assert(vs.take(i + 1).drop_last() =~= vs.take(i as int));
            assert(vs[i as int].0 == b@);
            let ghost before = out@;
            if check_visible(b) {
                match utf8_text(b) {
                    Some(t) => match parse_cookie(t) {
                        Some((cookie, name, value)) => {
                            out.push(SetCookie { name, value, cookie });
                            assert(cookie_pairs(out@) =~= cookie_pairs(before).push(
                                cookie_parse(decode_utf8(b@))->Some_0,
                            ));
                        },
                        None => {},
                    },
                    None => {},
                }
            }
            i += 1;
        }
        assert(vs.take(n as int) =~= vs);
        out
    }

    /// Decodes a body read whole from this response: with the charset of the
    /// `content-type` header, else with `default_encoding`.
    pub fn text_with_charset(&self, default_encoding: &str, bytes: &[u8]) -> (r: String)
        ensures
            r@ == text_in(
                match charset_of(self@.headers) {
                    Some(c) => c,
                    None => default_encoding@,
                },
                bytes@,
            ),
    {
        let label = self.charset_label(default_encoding);
        decode_text(label.as_str(), bytes)
    }
}

} // verus!
