use http_unix_client::UnixUrl;

#[test]
fn test_new_and_to_string() {
    let url = UnixUrl::new("/tmp/my.socket", "/").unwrap();
    assert_eq!(url.as_str(), "unix://2f746d702f6d792e736f636b6574/");
}

#[test]
fn test_path_normalization() {
    let url = UnixUrl::new("/tmp/my.socket", "v1/status").unwrap();
    assert_eq!(url.path(), "/v1/status");
}

#[test]
fn test_query_and_fragment() {
    let url = UnixUrl::new("/tmp/my.socket", "/hello/world?debug=true#frag").unwrap();
    assert_eq!(url.query(), Some("debug=true"));
    assert_eq!(url.fragment(), Some("frag"));
}

#[test]
fn test_query_mutation() {
    let mut url = UnixUrl::new("/tmp/my.socket", "/foo").unwrap();
    url.set_query(Some("x=1"));
    assert_eq!(url.query(), Some("x=1"));

    url.query_pairs_mut(&[("y", "2")]);

    assert!(url.query().unwrap().contains("x=1"));
    assert!(url.query().unwrap().contains("y=2"));
}
