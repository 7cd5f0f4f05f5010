use http_unix_client::response::decode_text;
use http_unix_client::unix_url::decode_authority;
use http_unix_client::{
    Body, BuilderError, Client, Error, HeaderMap, HeaderName, HeaderValue, Response, UnixUrl, Version,
};

fn value_text(v: &HeaderValue) -> String {
    String::from_utf8(v.as_bytes().to_vec()).unwrap()
}

fn authority(url: &UnixUrl) -> String {
    let rest = url.as_str().strip_prefix("unix://").unwrap();
    rest[..rest.find('/').unwrap()].to_string()
}

fn response(status: u16, headers: HeaderMap) -> Response<()> {
    let url = UnixUrl::new("/tmp/my.socket", "/").unwrap();
    Response::new(status, Version::Http11, headers, url, None, Some(0), http::Extensions::new(), ())
}

#[test]
fn address_round_trips_through_hex() {
    for path in ["/tmp/my.socket", "/var/run/docker.sock", "relative/sock", "/tmp/ünï"] {
        let url = UnixUrl::new(path, "/").unwrap();
        let auth = authority(&url);
        assert_eq!(auth.len(), 2 * path.len());
        assert!(auth.chars().all(|c| c.is_ascii_digit() || ('a'..='f').contains(&c)));
        assert_eq!(hex::decode(&auth).unwrap(), path.as_bytes());
    }
}

#[test]
fn address_of_my_socket_is_exact() {
    let url = UnixUrl::new("/tmp/my.socket", "/").unwrap();
    assert_eq!(url.as_str(), "unix://2f746d702f6d792e736f636b6574/");
    assert_eq!(url.path(), "/");
    assert_eq!(url.query(), None);
    assert_eq!(url.fragment(), None);
}

#[test]
fn set_path_and_set_query_encode() {
    let mut url = UnixUrl::new("/s", "/a?x=1#f").unwrap();
    url.set_path("/b c");
    assert_eq!(url.path(), "/b%20c");
    assert_eq!(url.as_str(), "unix://2f73/b%20c?x=1#f");
    url.set_query(None);
    assert_eq!(url.as_str(), "unix://2f73/b%20c#f");
    url.set_query(Some("k=a b"));
    assert_eq!(url.query(), Some("k=a%20b"));
}

#[test]
fn query_pairs_keep_fragment_and_encode() {
    let mut url = UnixUrl::new("/s", "/p?a=1#frag").unwrap();
    url.query_pairs_mut(&[("b c", "d&e"), ("é", "*-._")]);
    assert_eq!(url.query(), Some("a=1&b+c=d%26e&%C3%A9=*-._"));
    assert_eq!(url.as_str(), "unix://2f73/p?a=1&b+c=d%26e&%C3%A9=*-._#frag");
    assert_eq!(url.fragment(), Some("frag"));
}

#[test]
fn query_calls_accumulate() {
    let client = Client::new();
    let req = client
        .get("/tmp/my.socket", "/?start=0")
        .query(&[("foo", "bar")])
        .query(&[])
        .query(&[("qux", "3"), ("foo", "again")])
        .build()
        .unwrap();
    assert_eq!(req.url().query(), Some("start=0&foo=bar&qux=3&foo=again"));
}

#[test]
fn empty_query_is_removed() {
    let client = Client::new();
    let req = client.get("/tmp/my.socket", "/x?#frag").query(&[]).build().unwrap();
    assert_eq!(req.url().query(), None);
    assert_eq!(req.url().as_str(), "unix://2f746d702f6d792e736f636b6574/x#frag");
}

#[test]
fn merge_replaces_first_and_appends_rest() {
    let mut bulk = HeaderMap::new();
    bulk.append(HeaderName::from_str("Accept").unwrap(), HeaderValue::from_str("a").unwrap());
    bulk.append(HeaderName::from_str("x-new").unwrap(), HeaderValue::from_str("n").unwrap());
    bulk.append(HeaderName::from_str("accept").unwrap(), HeaderValue::from_str("b").unwrap());

    let req = Client::new()
        .get("/tmp/my.socket", "/")
        .header("accept", "old1")
        .header("Accept", "old2")
        .header("keep", "k")
        .headers(&bulk)
        .build()
        .unwrap();
    let accept: Vec<String> = req.headers().get_all("ACCEPT").iter().map(value_text).collect();
    assert_eq!(accept, vec!["a", "b"]);
    assert_eq!(value_text(&req.headers().get("keep").unwrap()), "k");
    assert_eq!(value_text(&req.headers().get("x-new").unwrap()), "n");
}

#[test]
fn header_appends_under_lowercase_name() {
    let req = Client::new()
        .get("/tmp/my.socket", "/")
        .header("X-Tag", "one")
        .header("x-tag", "two")
        .build()
        .unwrap();
    assert_eq!(req.headers().len(), 2);
    let (name, value) = req.headers().entry(0);
    assert_eq!(name, "x-tag");
    assert_eq!(value_text(value), "one");
    assert!(!value.is_sensitive());
    assert_eq!(req.headers().get_all("x-tag").len(), 2);
}

#[test]
fn basic_auth_without_password() {
    let req = Client::new().get("/tmp/my.socket", "/").basic_auth("user", None).build().unwrap();
    let auth = req.headers().get("authorization").unwrap();
    assert_eq!(value_text(&auth), "Basic dXNlcg==");
    assert!(auth.is_sensitive());
}

#[test]
fn invalid_header_name_fails_the_builder() {
    let r = Client::new().get("/tmp/my.socket", "/").header("bad name", "v").build();
    let e = r.unwrap_err();
    assert!(e.is_builder());
    assert!(matches!(e, Error::BuilderError(BuilderError::Http(_))));
}

#[test]
fn invalid_header_value_fails_the_builder() {
    let r = Client::new().get("/tmp/my.socket", "/").bearer_auth("line\nbreak").build();
    assert!(matches!(r, Err(Error::BuilderError(BuilderError::Http(_)))));
}

#[test]
fn first_error_is_kept() {
    let json_error = serde_json::from_str::<u8>("not json").unwrap_err();
    let builder = Client::new()
        .get("/tmp/my.socket", "/")
        .header("bad name", "v")
        .header("good", "v")
        .json(Err(json_error))
        .query(&[("a", "b")])
        .body(Body::from_str("x"))
        .version(Version::Http2);
    assert!(builder.try_clone().is_none());
    let e = builder.build().unwrap_err();
    assert!(matches!(e, Error::BuilderError(BuilderError::Http(_))));
    assert_eq!(e.status(), None);
    assert!(!e.is_status());
    assert!(!e.is_connect());
}

#[test]
fn json_error_fails_the_builder() {
    let json_error = serde_json::from_str::<u8>("not json").unwrap_err();
    let e = Client::new().post("/tmp/my.socket", "/").json(Err(json_error)).build().unwrap_err();
    assert!(matches!(e, Error::BuilderError(BuilderError::SerializeJson(_))));
}

#[test]
fn url_encoding_error_fails_the_builder() {
    let encode_error = serde_urlencoded::to_string(5u8).unwrap_err();
    let e = Client::new()
        .post("/tmp/my.socket", "/")
        .fail(BuilderError::SerializeUrl(encode_error))
        .build()
        .unwrap_err();
    assert!(matches!(e, Error::BuilderError(BuilderError::SerializeUrl(_))));
}

#[test]
fn json_sets_body_and_content_type() {
    let req = Client::new()
        .post("/tmp/my.socket", "/")
        .header("content-type", "text/plain")
        .json(Ok(b"{\"a\":1}".to_vec()))
        .build()
        .unwrap();
    let types = req.headers().get_all("content-type");
    assert_eq!(types.len(), 1);
    assert_eq!(value_text(&types[0]), "application/json");
    assert_eq!(req.body().unwrap().bytes(), b"{\"a\":1}");
}

#[test]
fn form_sets_body_and_content_type() {
    let req = Client::new()
        .post("/tmp/my.socket", "/")
        .body(Body::from_str("earlier"))
        .form(&[("foo", "bar"), ("baz", "qu ux")])
        .build()
        .unwrap();
    assert_eq!(
        value_text(&req.headers().get("Content-Type").unwrap()),
        "application/x-www-form-urlencoded"
    );
    assert_eq!(req.body().unwrap().bytes(), b"foo=bar&baz=qu+ux");
}

#[test]
fn version_and_method_are_kept() {
    let req = Client::new().put("/tmp/my.socket", "/v").version(Version::Http10).build().unwrap();
    assert_eq!(req.version(), Version::Http10);
    assert_eq!(req.method().as_str(), "PUT");
    let req = Client::new().patch("/s", "/").build().unwrap();
    assert_eq!(req.method().as_str(), "PATCH");
    let req = Client::new().delete("/s", "/").build().unwrap();
    assert_eq!(req.method().as_str(), "DELETE");
    let req = Client::new().head("/s", "/").build().unwrap();
    assert_eq!(req.method().as_str(), "HEAD");
}

#[test]
fn clone_is_independent() {
    let source = Client::new().post("/tmp/my.socket", "/p").header("a", "1").body(Body::from_str("b"));
    let copy = source.try_clone().unwrap();
    let changed = copy.header("a", "2").query(&[("q", "1")]).body(Body::from_str("c")).build().unwrap();
    let kept = source.build().unwrap();
    assert_eq!(kept.headers().get_all("a").len(), 1);
    assert_eq!(kept.url().query(), None);
    assert_eq!(kept.body().unwrap().bytes(), b"b");
    assert_eq!(changed.headers().get_all("a").len(), 2);
    assert_eq!(changed.url().query(), Some("q=1"));
    assert_eq!(changed.body().unwrap().bytes(), b"c");
}

#[test]
fn status_errors_are_classified() {
    for ok in [200u16, 204, 301, 302, 399, 600] {
        let resp = response(ok, HeaderMap::new());
        assert!(resp.error_for_status_ref().is_ok());
        let resp = resp.error_for_status().unwrap();
        assert_eq!(resp.status(), ok);
    }
    for bad in [400u16, 404, 499, 500, 503, 599] {
        let e = response(bad, HeaderMap::new()).error_for_status().unwrap_err();
        assert!(e.is_status());
        assert_eq!(e.status(), Some(bad));
        let e = response(bad, HeaderMap::new()).error_for_status_ref().unwrap_err();
        assert_eq!(e.status(), Some(bad));
    }
}

#[test]
fn status_error_keeps_reason() {
    let url = UnixUrl::new("/tmp/my.socket", "/").unwrap();
    let resp = Response::new(500, Version::Http11, HeaderMap::new(), url, Some(b"Oops".to_vec()), None, http::Extensions::new(), ());
    match resp.error_for_status() {
        Err(Error::StatusError(e)) => {
            assert_eq!(e.code, 500);
            assert_eq!(e.reason, Some(b"Oops".to_vec()));
        }
        _ => panic!("expected a status error"),
    }
}

#[test]
fn text_uses_declared_charset() {
    let mut headers = HeaderMap::new();
    headers.insert(
        HeaderName::from_str("content-type").unwrap(),
        HeaderValue::from_str("text/plain; charset=iso-8859-1").unwrap(),
    );
    let resp = response(200, headers);
    assert_eq!(resp.charset_label("utf-8"), "iso-8859-1");
    assert_eq!(resp.text_with_charset("utf-8", &[0x63, 0x61, 0x66, 0xE9]), "café");
}

#[test]
fn text_falls_back_to_default() {
    let mut headers = HeaderMap::new();
    headers.insert(HeaderName::from_str("content-type").unwrap(), HeaderValue::from_str("text/plain").unwrap());
    let resp = response(200, headers);
    assert_eq!(resp.charset_label("utf-8"), "utf-8");
    assert_eq!(resp.text_with_charset("utf-8", "Hello, World!".as_bytes()), "Hello, World!");
    assert_eq!(resp.text_with_charset("utf-8", &[0x66, 0xFF]), "f\u{FFFD}");
    assert_eq!(decode_text("windows-1252", &[0x80]), "€");
}

#[test]
fn header_parsing_rules() {
    assert_eq!(HeaderName::from_str("Content-Type").unwrap().as_str(), "content-type");
    assert!(HeaderName::from_str("").is_err());
    assert!(HeaderName::from_str("a:b").is_err());
    assert!(HeaderValue::from_str("tab\tok").is_ok());
    assert!(HeaderValue::from_str("bell\u{7}").is_err());
    assert_eq!(HeaderValue::from_bytes(&[0x80, 0x41]).unwrap().as_bytes(), &[0x80, 0x41]);
}

#[test]
fn request_parts_and_setters() {
    let mut req = Client::new().get("/tmp/my.socket", "/a").build().unwrap();
    *req.method_mut() = http_unix_client::Method::Options;
    *req.body_mut() = Some(Body::from_vec(vec![1, 2, 3]));
    *req.version_mut() = Version::Http2;
    req.url_mut().set_query(Some("z=9"));
    req.headers_mut().append(HeaderName::from_str("k").unwrap(), HeaderValue::from_str("v").unwrap());
    let (method, url, headers, body, version) = req.into_parts();
    assert_eq!(method.as_str(), "OPTIONS");
    assert_eq!(url.as_str(), "unix://2f746d702f6d792e736f636b6574/a?z=9");
    assert_eq!(headers.len(), 1);
    assert_eq!(body.unwrap().bytes(), &[1, 2, 3]);
    assert_eq!(version, Version::Http2);
}

#[test]
fn status_error_message() {
    let url = UnixUrl::new("/tmp/my.socket", "/").unwrap();
    let resp = Response::new(500, Version::Http11, HeaderMap::new(), url, None, None, http::Extensions::new(), ());
    let e = match resp.error_for_status() {
        Err(Error::StatusError(e)) => e,
        _ => panic!("expected a status error"),
    };
    assert_eq!(e.message(), "HTTP status server error (500 Internal Server Error)");
    let e = http_unix_client::StatusError { code: 404, reason: Some(b"Gone Fishing".to_vec()) };
    assert_eq!(e.message(), "HTTP status client error (404 Not Found Gone Fishing)");
    let e = http_unix_client::StatusError { code: 599, reason: Some(vec![0xFF]) };
    assert_eq!(e.message(), "HTTP status server error (599 <unknown status code>)");
}

#[test]
fn path_segments_split_at_slashes() {
    let url = UnixUrl::new("/s", "/a/b%20c/").unwrap();
    assert_eq!(url.path_segments().unwrap(), vec!["a", "b%20c", ""]);
    let url = UnixUrl::new("/s", "/").unwrap();
    assert_eq!(url.path_segments().unwrap(), vec![""]);
}

#[test]
fn unknown_label_decodes_as_utf8() {
    assert_eq!(decode_text("no-such-charset", "héllo".as_bytes()), "héllo");
    assert_eq!(decode_text("utf-8", &[0xEF, 0xBB, 0xBF, 0x61]), "a");
}

#[test]
fn authority_decodes_to_socket_path() {
    for path in ["/tmp/my.socket", "/a", "/tmp/ünï"] {
        let url = UnixUrl::new(path, "/x").unwrap();
        assert_eq!(decode_authority(&authority(&url)).unwrap(), path.as_bytes());
    }
    assert_eq!(decode_authority("2F73").unwrap(), b"/s");
    assert!(decode_authority("2f7").is_none());
    assert!(decode_authority("zz").is_none());
}

#[test]
fn addresses_compare_by_serialization() {
    let a = UnixUrl::new("/tmp/my.socket", "x").unwrap();
    let b = UnixUrl::new("/tmp/my.socket", "/x").unwrap();
    let c = UnixUrl::new("/tmp/other.socket", "/x").unwrap();
    assert!(a == b);
    assert!(a != c);
    assert!(a.clone() == a);
}

#[test]
fn wire_parts_fill_in_empty_body() {
    let req = Client::new().get("/tmp/my.socket", "/").build().unwrap();
    let (_, _, _, body, _, _) = req.into_wire_parts();
    assert!(body.is_empty());
    let req = Client::new().post("/tmp/my.socket", "/").body(Body::from_slice(b"abc")).build().unwrap();
    let (_, _, _, body, _, _) = req.into_wire_parts();
    assert_eq!(body, b"abc");
}

#[test]
fn cookies_skip_malformed_values() {
    let mut headers = HeaderMap::new();
    for v in ["token=jwt123; Path=/", "no pair here", "user=alice"] {
        headers.append(HeaderName::from_str("Set-Cookie").unwrap(), HeaderValue::from_str(v).unwrap());
    }
    headers.append(HeaderName::from_str("set-cookie").unwrap(), HeaderValue::from_bytes(&[0x61, 0x3D, 0xE9]).unwrap());
    let resp = response(204, headers);
    let cookies = resp.cookies();
    let pairs: Vec<(String, String)> =
        cookies.iter().map(|c| (c.name.clone(), c.value.clone())).collect();
    assert_eq!(cookies[0].cookie.path(), Some("/"));
    assert_eq!(
        pairs,
        vec![("token".to_string(), "jwt123".to_string()), ("user".to_string(), "alice".to_string())]
    );
}

#[test]
fn default_client_builds_requests() {
    let req = Client::default().get("/tmp/my.socket", "/d").build().unwrap();
    assert_eq!(req.url().as_str(), "unix://2f746d702f6d792e736f636b6574/d");
}

#[test]
fn header_value_keeps_given_mark() {
    let mut v = HeaderValue::from_str("secret").unwrap();
    v.set_sensitive(true);
    let req = Client::new().get("/s", "/").header_value("X-Key", v).build().unwrap();
    let got = req.headers().get("x-key").unwrap();
    assert!(got.is_sensitive());
    assert_eq!(value_text(&got), "secret");
    let e = Client::new().get("/s", "/").header_value("bad key", HeaderValue::from_str("v").unwrap()).build();
    assert!(matches!(e, Err(Error::BuilderError(BuilderError::Http(_)))));
}

#[test]
fn connect_predicate_is_false_off_the_pool() {
    let e = Client::new().get("/s", "/").header("bad name", "v").build().unwrap_err();
    assert!(!e.is_connect());
}

#[test]
fn extensions_travel_with_request() {
    let mut req = Client::new().get("/s", "/").build().unwrap();
    req.extensions_mut().insert(7u32);
    let copy = req.clone();
    assert_eq!(copy.extensions().get::<u32>(), Some(&7));
    let (_, _, _, _, _, ext) = req.into_wire_parts();
    assert_eq!(ext.get::<u32>(), Some(&7));
    let mut resp = response(200, HeaderMap::new());
    resp.extensions_mut().insert(String::from("x"));
    assert_eq!(resp.extensions().get::<String>().map(|s| s.as_str()), Some("x"));
}
