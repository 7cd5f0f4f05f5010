use http_unix_client::{Body, Client, HeaderMap, HeaderName, HeaderValue, Method, RequestBuilder};

fn value_text(v: &HeaderValue) -> String {
    String::from_utf8(v.as_bytes().to_vec()).unwrap()
}

#[test]
fn add_query_append() {
    let client = Client::new();
    let builder = client.get("/tmp/my.socket", "/");

    let builder = builder.query(&[("foo", "bar")]);
    let builder = builder.query(&[("qux", "3")]);

    let req = builder.build().expect("request is invalid");
    assert_eq!(req.url().query(), Some("foo=bar&qux=3"));
}

#[test]
fn add_query_append_same() {
    let client = Client::new();
    let builder = client.get("/tmp/my.socket", "/");

    let builder = builder.query(&[("foo", "a"), ("foo", "b")]);

    let req = builder.build().expect("request is valid");
    assert_eq!(req.url().query(), Some("foo=a&foo=b"));
}

#[test]
fn add_query_struct() {
    let client = Client::new();
    let builder = client.get("/tmp/my.socket", "/");

    let foo = String::from("bar");
    let qux = 3.to_string();
    let builder = builder.query(&[("foo", foo.as_str()), ("qux", qux.as_str())]);

    let req = builder.build().expect("request is invalid");
    assert_eq!(req.url().query(), Some("foo=bar&qux=3"));
}

#[test]
fn add_query_map() {
    let mut params = std::collections::BTreeMap::new();
    params.insert("foo", "bar");
    params.insert("qux", "three");
    let encoded = serde_urlencoded::to_string(&params).unwrap();
    let owned: Vec<(String, String)> = url::form_urlencoded::parse(encoded.as_bytes()).into_owned().collect();
    let pairs: Vec<(&str, &str)> = owned.iter().map(|(k, v)| (k.as_str(), v.as_str())).collect();

    let client = Client::new();
    let builder = client.get("/tmp/my.socket", "/");

    let builder = builder.query(&pairs);

    let req = builder.build().expect("request is invalid");
    assert_eq!(req.url().query(), Some("foo=bar&qux=three"));
}

#[test]
fn test_replace_headers() {
    let mut headers = HeaderMap::new();
    headers.insert(HeaderName::from_str("foo").unwrap(), HeaderValue::from_str("bar").unwrap());
    headers.append(HeaderName::from_str("foo").unwrap(), HeaderValue::from_str("baz").unwrap());

    let client = Client::new();
    let req = client
        .get("/tmp/my.socket", "/")
        .header("im-a", "keeper")
        .header("foo", "pop me")
        .headers(&headers)
        .build()
        .expect("request build");

    assert_eq!(value_text(&req.headers().get("im-a").unwrap()), "keeper");

    let foo = req.headers().get_all("foo");
    assert_eq!(foo.len(), 2);
    assert_eq!(value_text(&foo[0]), "bar");
    assert_eq!(value_text(&foo[1]), "baz");
}

#[test]
fn normalize_empty_query() {
    let client = Client::new();
    let empty_query: &[(&str, &str)] = &[];

    let req = client
        .get("/tmp/my.socket", "/")
        .query(empty_query)
        .build()
        .expect("request build");

    assert_eq!(req.url().query(), None);
    assert_eq!(req.url().as_str(), "unix://2f746d702f6d792e736f636b6574/");
}

#[test]
fn try_clone_reusable() {
    let client = Client::new();
    let builder = client
        .post("/tmp/my.socket", "/post")
        .header("foo", "bar")
        .body(Body::from_str("from a &str!"));
    let req = builder
        .try_clone()
        .expect("clone successful")
        .build()
        .expect("request is valid");
    assert_eq!(req.url().as_str(), "unix://2f746d702f6d792e736f636b6574/post");
    assert_eq!(*req.method(), Method::Post);
    assert_eq!(value_text(&req.headers().get("foo").unwrap()), "bar");
}

#[test]
fn try_clone_no_body() {
    let client = Client::new();
    let builder = client.get("/tmp/my.socket", "/get");

    let req = builder
        .try_clone()
        .expect("clone successful")
        .build()
        .expect("request is valid");
    assert_eq!(req.url().as_str(), "unix://2f746d702f6d792e736f636b6574/get");
    assert_eq!(*req.method(), Method::Get);
    assert!(req.body().is_none());
}

#[test]
fn test_basic_auth_sensitive_header() {
    let client = Client::new();

    let req = client
        .get("/tmp/my.socket", "/")
        .basic_auth("Aladdin", Some("open sesame"))
        .build()
        .expect("request build");

    assert_eq!(req.url().as_str(), "unix://2f746d702f6d792e736f636b6574/");
    let auth = req.headers().get("authorization").unwrap();
    assert_eq!(value_text(&auth), "Basic QWxhZGRpbjpvcGVuIHNlc2FtZQ==");
    assert!(auth.is_sensitive());
}

#[test]
fn test_bearer_auth_sensitive_header() {
    let client = Client::new();

    let req = client
        .get("/tmp/my.socket", "/")
        .bearer_auth("Hold my bear")
        .build()
        .expect("request build");

    assert_eq!(req.url().as_str(), "unix://2f746d702f6d792e736f636b6574/");
    let auth = req.headers().get("authorization").unwrap();
    assert_eq!(value_text(&auth), "Bearer Hold my bear");
    assert!(auth.is_sensitive());
}

#[test]
fn test_explicit_sensitive_header() {
    let client = Client::new();

    let mut header = HeaderValue::from_str("in plain sight").unwrap();
    header.set_sensitive(true);

    let req = client
        .get("/tmp/my.socket", "/")
        .header_value("hiding", header)
        .build()
        .expect("request build");

    assert_eq!(req.url().as_str(), "unix://2f746d702f6d792e736f636b6574/");
    let hiding = req.headers().get("hiding").unwrap();
    assert_eq!(value_text(&hiding), "in plain sight");
    assert!(hiding.is_sensitive());
}

#[test]
fn builder_split_reassemble() {
    let builder = {
        let client = Client::new();
        client.get("/tmp/my.socket", "/")
    };
    let (client, inner) = builder.build_split();
    let request = inner.unwrap();
    let builder = RequestBuilder::from_parts(client, request);
    builder.build().unwrap();
}
