use tercen_http::response::{Decoder, ResponseReader, ResponseType};

#[test]
fn names_map_to_response_types() {
    assert_eq!(ResponseType::from("default"), ResponseType::DEFAULT);
    assert_eq!(ResponseType::from("application/tson"), ResponseType::TSON);
    assert_eq!(ResponseType::from("application/json"), ResponseType::JSON);
    assert_eq!(ResponseType::from("text/html; charset=utf-8"), ResponseType::UTF8);
    assert_eq!(ResponseType::from("text/plain; charset=utf-8"), ResponseType::UTF8);
    assert_eq!(ResponseType::from("text/csv"), ResponseType::UTF8);
    assert_eq!(ResponseType::from("text"), ResponseType::UTF8);
    assert_eq!(ResponseType::from("tex"), ResponseType::BINARY);
    assert_eq!(ResponseType::from("application/octet-stream"), ResponseType::BINARY);
    assert_eq!(ResponseType::from("Text/plain"), ResponseType::BINARY);
    assert_eq!(ResponseType::from(""), ResponseType::BINARY);
    assert_eq!(ResponseType::from("application/json".to_string()), ResponseType::JSON);
}

#[test]
fn default_reader_follows_the_content_type() {
    let r = ResponseReader::new(ResponseType::DEFAULT);
    assert_eq!(r.response_type_from(None), ResponseType::BINARY);
    assert_eq!(r.response_type_from(Some("application/tson")), ResponseType::TSON);
    assert_eq!(r.response_type_from(Some("application/json")), ResponseType::JSON);
    assert_eq!(r.response_type_from(Some("text/xml")), ResponseType::UTF8);
    assert_eq!(r.response_type_from(Some("image/png")), ResponseType::BINARY);
    // the name `default` is no content type
    assert_eq!(r.response_type_from(Some("default")), ResponseType::BINARY);
}

#[test]
fn configured_reader_ignores_the_content_type() {
    let r = ResponseReader::new(ResponseType::JSON);
    assert_eq!(r.response_type_from(Some("application/tson")), ResponseType::JSON);
    assert_eq!(r.response_type_from(None), ResponseType::JSON);
    let r = ResponseReader::new(ResponseType::UTF8);
    assert_eq!(r.response_type_from(Some("image/png")), ResponseType::UTF8);
}

#[test]
fn resolution_agrees_with_naming() {
    let r = ResponseReader::new(ResponseType::DEFAULT);
    for ct in ["application/tson", "application/json", "text/a", "x"] {
        assert_eq!(r.response_type_from(Some(ct)), ResponseType::from(ct));
    }
}

#[test]
fn decoders() {
    assert_eq!(ResponseType::TSON.decoder(), Decoder::Tson);
    assert_eq!(ResponseType::JSON.decoder(), Decoder::Json);
    assert_eq!(ResponseType::UTF8.decoder(), Decoder::Utf8);
    assert_eq!(ResponseType::BINARY.decoder(), Decoder::Binary);
    assert_eq!(ResponseType::DEFAULT.decoder(), Decoder::Binary);
}

#[test]
fn response_lists_headers_flat() {
    let r = ResponseReader::new(ResponseType::DEFAULT);
    let out = r.build_r_response(
        404,
        vec![
            ("Content-Type".to_string(), "text/plain".to_string()),
            ("Server".to_string(), "x".to_string()),
        ],
        "body",
    );
    assert_eq!(out.status, 404);
    assert_eq!(out.headers, vec!["Content-Type", "text/plain", "Server", "x"]);
    assert_eq!(out.content, "body");
    let empty = r.build_r_response(200, vec![], 1);
    assert!(empty.headers.is_empty());
}
