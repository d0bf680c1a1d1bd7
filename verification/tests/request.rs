use tercen_http::headers::HeaderMap;
use tercen_http::request::{
    body_encoding, build_url, get_host_and_port, multipart_headers, parse_proxy, parse_u16,
    request_headers, uses_tls, with_content_type, BodyEncoding, HostError, RequestError,
};

fn q(pairs: &[(&str, &str)]) -> Vec<(String, String)> {
    pairs.iter().map(|(k, v)| (k.to_string(), v.to_string())).collect()
}

#[test]
fn url_with_query() {
    let u = build_url("https://example.com/api", &q(&[("a", "b c"), ("x", "&")])).ok().unwrap();
    assert_eq!(u.as_str(), "https://example.com/api?a=b+c&x=%26");
    let u = build_url("http://h:8080/p?k=v#frag", &q(&[("n", "1")])).ok().unwrap();
    assert_eq!(u.as_str(), "http://h:8080/p?k=v&n=1#frag");
    let u = build_url("http://example.com", &q(&[])).ok().unwrap();
    assert_eq!(u.as_str(), "http://example.com/");
}

#[test]
fn invalid_url() {
    match build_url("not a url", &q(&[("a", "b")])) {
        Err(RequestError::InvalidUrl(m)) => assert_eq!(m, "relative URL without a base"),
        _ => panic!("expected a parse error"),
    }
}

#[test]
fn host_and_port() {
    let u = build_url("https://example.com/x", &q(&[])).ok().unwrap();
    assert_eq!(get_host_and_port(&u).ok().unwrap(), ("example.com".to_string(), 443));
    assert!(uses_tls(&u));
    let u = build_url("http://127.0.0.1:4040", &q(&[])).ok().unwrap();
    assert_eq!(get_host_and_port(&u).ok().unwrap(), ("127.0.0.1".to_string(), 4040));
    assert!(!uses_tls(&u));
    let u = build_url("unix:/run/foo.socket", &q(&[])).ok().unwrap();
    assert_eq!(get_host_and_port(&u).err(), Some(HostError::EmptyHost));
    let u = build_url("foo://example.com", &q(&[])).ok().unwrap();
    assert_eq!(get_host_and_port(&u).err(), Some(HostError::InvalidPort));
}

#[test]
fn body_encodings() {
    assert_eq!(body_encoding("application/json"), ("application/json".to_string(), BodyEncoding::Json));
    assert_eq!(body_encoding("application/tson"), ("application/tson".to_string(), BodyEncoding::Tson));
    assert_eq!(
        body_encoding("text/plain"),
        ("application/octet-stream".to_string(), BodyEncoding::Tson)
    );
}

#[test]
fn content_type_header_is_set() {
    let h = HeaderMap::from_pairs(q(&[("content-type", "old"), ("accept", "*/*")]));
    let (h, e) = request_headers(h, "application/json");
    assert_eq!(e, BodyEncoding::Json);
    assert_eq!(h.entries(), &q(&[("content-type", "application/json"), ("accept", "*/*")]));
    let h = with_content_type(HeaderMap::new(), "x".to_string());
    assert_eq!(h.entries(), &q(&[("content-type", "x")]));
    let h = multipart_headers(HeaderMap::from_pairs(q(&[("a", "b")])), "zz");
    assert_eq!(h.entries(), &q(&[("a", "b"), ("content-type", "multipart/mixed; boundary=zz")]));
}

#[test]
fn proxy_values() {
    assert_eq!(parse_proxy("proxy.example:3128"), Some(("proxy.example".to_string(), 3128)));
    assert_eq!(parse_proxy("proxy"), Some(("proxy".to_string(), 80)));
    assert_eq!(parse_proxy("http://proxy:8080"), Some(("http://proxy".to_string(), 8080)));
    assert_eq!(parse_proxy("p:+8080"), Some(("p".to_string(), 8080)));
    assert_eq!(parse_proxy("p:65535"), Some(("p".to_string(), 65535)));
    assert_eq!(parse_proxy("p:65536"), None);
    assert_eq!(parse_proxy("p:abc"), None);
    assert_eq!(parse_proxy("p:"), None);
    assert_eq!(parse_proxy("p:+"), None);
    assert_eq!(parse_proxy("p:-1"), None);
    assert_eq!(parse_proxy(":1"), Some(("".to_string(), 1)));
}

#[test]
fn u16_parsing_matches_std() {
    for s in ["0", "+0", "007", "65535", "65536", "99999999999", "", "+", "1a", " 1", "-0", "++1"] {
        assert_eq!(parse_u16(s.as_bytes(), 0), s.parse::<u16>().ok(), "{}", s);
    }
    assert_eq!(parse_u16(b"xx12", 2), Some(12));
}

#[test]
fn host_is_not_read_off_the_text() {
    // two URLs with one serialisation, one with a host and one without
    let with_host = build_url("a://b", &q(&[])).ok().unwrap();
    let without_host = build_url("a:/..//b/", &q(&[])).ok().unwrap();
    assert_eq!(with_host.as_str(), without_host.as_str());
    assert_eq!(get_host_and_port(&with_host).err(), Some(HostError::InvalidPort));
    assert_eq!(get_host_and_port(&without_host).err(), Some(HostError::EmptyHost));
}

#[test]
fn scheme_is_the_text_before_the_colon() {
    let u = build_url("HTTPS://Example.com", &q(&[])).ok().unwrap();
    assert!(u.as_str().starts_with("https:"));
    assert!(uses_tls(&u));
    let u = build_url("httpsx://example.com", &q(&[])).ok().unwrap();
    assert!(!uses_tls(&u));
}
