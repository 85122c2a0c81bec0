use fadfada::endpoint::Endpoint;

#[test]
fn test_endpoint_create() {
    let orig_url = "https://localhost:8521/foo";
    let e: Endpoint = Endpoint::new(orig_url, None).unwrap();
    assert_eq!(e.url_string(), "https://localhost:8521/foo");
}

#[test]
fn test_endpoint_pointer() {
    let orig_url = "https://localhost:8521/foo";
    let e: Endpoint = Endpoint::new(orig_url, None).unwrap();
    let endpoint_url = e.url_for("deadbeef");
    assert_eq!(endpoint_url, "https://localhost:8521/foo/deadbeef");
}

#[test]
fn test_endpoint_file() {
    let orig_url = "file:///tmp/foobar";
    let e: Endpoint = Endpoint::new(orig_url, None).unwrap();
    let endpoint_url = e.url_for("deadbeef");
    assert_eq!(endpoint_url, "file:///tmp/foobar/deadbeef");
}

#[test]
fn test_endpoint_empty_base_path() {
    let e: Endpoint = Endpoint::new("https://foo.com", None).unwrap();
    let endpoint_url = e.url_for("deadbeef");
    assert_eq!(endpoint_url, "https://foo.com/deadbeef");
}

#[test]
fn test_endpoint_normalizes_url() {
    let e: Endpoint = Endpoint::new("HTTPS://EXAMPLE.com:443/x", None).unwrap();
    assert_eq!(e.url_string(), "https://example.com/x");
}

#[test]
fn test_endpoint_malformed_url() {
    let r = Endpoint::new("not a url", None);
    match r {
        Ok(_) => panic!("malformed URL accepted"),
        Err(e) => assert_eq!(e.url, "not a url"),
    }
}
