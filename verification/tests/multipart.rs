use tercen_http::headers::HeaderMap;
use tercen_http::multipart::{
    entry_role, headers_from_value, BodyObject, BodySegment, EntryRole, HeaderScalar,
    HeadersValue, MultiPart, MultiPartError, Part, PartContent, PartEntry, PartObject, RawContent,
};

fn named(pairs: &[(&str, &str)]) -> HeadersValue {
    HeadersValue::Named(
        pairs.iter().map(|(k, v)| (k.to_string(), HeaderScalar::Str(v.to_string()))).collect(),
    )
}

fn content(object: u32, raw: Option<Vec<u8>>) -> PartContent<u32> {
    let raw = match raw {
        Some(bytes) => RawContent::Bytes(bytes),
        None => RawContent::NotRaw,
    };
    PartContent { object, raw }
}

fn part(ct: &str, object: u32, raw: Option<Vec<u8>>) -> PartObject<u32> {
    PartObject::List(vec![
        PartEntry::Headers(named(&[("content-type", ct)])),
        PartEntry::Content(content(object, raw)),
    ])
}

#[test]
fn header_map_replaces_and_keeps_order() {
    let mut h = HeaderMap::new();
    h.insert("a".to_string(), "1".to_string());
    h.insert("b".to_string(), "2".to_string());
    h.insert("a".to_string(), "3".to_string());
    assert_eq!(h.len(), 2);
    assert_eq!(h.get("a"), Some(&"3".to_string()));
    assert_eq!(h.get("c"), None);
    assert!(h.contains_key("b"));
    assert!(!h.contains_key("B"));
    assert_eq!(
        h.entries(),
        &vec![("a".to_string(), "3".to_string()), ("b".to_string(), "2".to_string())]
    );
    let g = HeaderMap::from_pairs(vec![
        ("x".to_string(), "1".to_string()),
        ("x".to_string(), "2".to_string()),
    ]);
    assert_eq!(g.entries(), &vec![("x".to_string(), "2".to_string())]);
}

#[test]
fn roles_by_name() {
    assert_eq!(entry_role("headers"), EntryRole::Headers);
    assert_eq!(entry_role("content"), EntryRole::Content);
    assert_eq!(entry_role("Content"), EntryRole::Ignored);
    assert_eq!(entry_role(""), EntryRole::Ignored);
}

#[test]
fn headers_value_errors() {
    assert!(matches!(
        headers_from_value(HeadersValue::NotMap),
        Err(MultiPartError::HeadersNotMap)
    ));
    match headers_from_value(HeadersValue::Invalid("boom".to_string())) {
        Err(MultiPartError::Conversion(m)) => assert_eq!(m, "boom"),
        _ => panic!("expected a conversion error"),
    }
    assert!(matches!(
        headers_from_value(HeadersValue::Named(vec![
            ("content-type".to_string(), HeaderScalar::Str("a".to_string())),
            ("x".to_string(), HeaderScalar::Other),
        ])),
        Err(MultiPartError::HeaderValueNotString)
    ));
    assert!(matches!(
        headers_from_value(named(&[("x", "y")])),
        Err(MultiPartError::MissingContentType)
    ));
    let m = headers_from_value(named(&[("content-type", "a"), ("x", "y")])).ok().unwrap();
    assert_eq!(m.get("x"), Some(&"y".to_string()));
}

#[test]
fn part_requires_headers_and_content() {
    assert!(matches!(
        Part::from_object(PartObject::<u32>::Other(14)),
        Err(MultiPartError::BadObjectType(14))
    ));
    assert!(matches!(
        Part::from_object(PartObject::List(vec![PartEntry::Content(content(1, None))])),
        Err(MultiPartError::MissingHeaders)
    ));
    assert!(matches!(
        Part::<u32>::from_object(PartObject::List(vec![PartEntry::Headers(named(&[(
            "content-type",
            "application/json"
        )]))])),
        Err(MultiPartError::MissingContent)
    ));
    // the first rejected headers element decides, even before a good one
    assert!(matches!(
        Part::from_object(PartObject::List(vec![
            PartEntry::Headers(HeadersValue::NotMap),
            PartEntry::Headers(named(&[("content-type", "application/json")])),
            PartEntry::Content(content(1, None)),
        ])),
        Err(MultiPartError::HeadersNotMap)
    ));
}

#[test]
fn later_elements_win() {
    let p = Part::from_object(PartObject::List(vec![
        PartEntry::Headers(named(&[("content-type", "application/json")])),
        PartEntry::Content(content(1, None)),
        PartEntry::Ignored,
        PartEntry::Headers(named(&[("content-type", "application/tson")])),
        PartEntry::Content(content(2, None)),
    ]))
    .ok()
    .unwrap();
    assert_eq!(p.content().object, 2);
    assert_eq!(p.headers().get("content-type"), Some(&"application/tson".to_string()));
}

#[test]
fn body_must_be_a_list() {
    assert!(matches!(MultiPart::<u32>::from_r(BodyObject::Other), Err(MultiPartError::BodyNotList)));
    assert!(matches!(
        MultiPart::from_r(BodyObject::List(vec![
            part("application/json", 1, None),
            PartObject::Other(3),
            PartObject::List(vec![]),
        ])),
        Err(MultiPartError::BadObjectType(3))
    ));
}

#[test]
fn framing_of_a_body() {
    let mp = MultiPart::from_r(BodyObject::List(vec![
        part("application/octet-stream", 10, Some(vec![1, 2])),
        part("application/json", 11, None),
        part("application/tson", 12, None),
    ]))
    .ok()
    .unwrap();
    assert_eq!(mp.frontier(), "ab63a1363ab349aa8627be56b0479de2");
    assert_eq!(mp.parts().len(), 3);
    let plan = mp.write_multipart();
    assert!(plan.error.is_none());
    let open = b"--ab63a1363ab349aa8627be56b0479de2\r\n".to_vec();
    let close = b"--ab63a1363ab349aa8627be56b0479de2--\r\n".to_vec();
    assert_eq!(mp.frontier_bytes(), open);
    assert_eq!(mp.end_bytes(), close);
    let head = |ct: &str| format!("content-type: {}\r\n\r\n", ct).into_bytes();
    let mut expected = Vec::new();
    expected.push(BodySegment::Bytes(open.clone()));
    expected.push(BodySegment::Bytes(head("application/octet-stream")));
    expected.push(BodySegment::Bytes(vec![1, 2]));
    expected.push(BodySegment::Bytes(b"\r\n".to_vec()));
    expected.push(BodySegment::Bytes(open.clone()));
    expected.push(BodySegment::Bytes(head("application/json")));
    expected.push(BodySegment::Json(1));
    expected.push(BodySegment::Bytes(b"\r\n".to_vec()));
    expected.push(BodySegment::Bytes(open));
    expected.push(BodySegment::Bytes(head("application/tson")));
    expected.push(BodySegment::Tson(2));
    expected.push(BodySegment::Bytes(b"\r\n".to_vec()));
    expected.push(BodySegment::Bytes(close));
    assert_eq!(plan.segments.len(), expected.len());
    for (a, b) in plan.segments.iter().zip(expected.iter()) {
        match (a, b) {
            (BodySegment::Bytes(x), BodySegment::Bytes(y)) => assert_eq!(x, y),
            (BodySegment::Json(x), BodySegment::Json(y)) => assert_eq!(x, y),
            (BodySegment::Tson(x), BodySegment::Tson(y)) => assert_eq!(x, y),
            _ => panic!("segments differ"),
        }
    }
}

#[test]
fn header_block_lists_every_header() {
    let p = Part::from_object(PartObject::List(vec![
        PartEntry::Headers(named(&[("content-type", "application/json"), ("x-id", "7")])),
        PartEntry::Content(content(0, None)),
    ]))
    .ok()
    .unwrap();
    assert_eq!(
        p.header_bytes(),
        b"content-type: application/json\r\nx-id: 7\r\n\r\n".to_vec()
    );
}

#[test]
fn framing_stops_at_content_that_cannot_be_written() {
    let mp = MultiPart::from_r(BodyObject::List(vec![
        part("application/json", 1, None),
        part("application/octet-stream", 2, None),
        part("application/json", 3, None),
    ]))
    .ok()
    .unwrap();
    let plan = mp.write_multipart();
    assert!(matches!(plan.error, Some(MultiPartError::RawContentRequired)));
    // first part complete, then the opening line and headers of the second
    assert_eq!(plan.segments.len(), 6);

    let mp = MultiPart::from_r(BodyObject::List(vec![part("text/plain", 1, None)])).ok().unwrap();
    let plan = mp.write_multipart();
    assert!(matches!(plan.error, Some(MultiPartError::UnknownContentType)));
    assert_eq!(plan.segments.len(), 2);
}

#[test]
fn empty_body_is_only_the_closing_line() {
    let mp = MultiPart::<u32>::from_r(BodyObject::List(vec![])).ok().unwrap();
    let plan = mp.write_multipart();
    assert!(plan.error.is_none());
    assert_eq!(plan.segments.len(), 1);
    match &plan.segments[0] {
        BodySegment::Bytes(b) => assert_eq!(b, &b"--ab63a1363ab349aa8627be56b0479de2--\r\n".to_vec()),
        _ => panic!("expected bytes"),
    }
}

#[test]
fn unreadable_values_are_rejected_in_order() {
    // an earlier part's rejection wins over a later part that could not be read
    assert!(matches!(
        MultiPart::from_r(BodyObject::List(vec![
            PartObject::List(vec![PartEntry::Content(content(1, None))]),
            PartObject::Unreadable("bad list".to_string()),
        ])),
        Err(MultiPartError::MissingHeaders)
    ));
    match MultiPart::<u32>::from_r(BodyObject::List(vec![
        part("application/json", 1, None),
        PartObject::Unreadable("bad list".to_string()),
    ])) {
        Err(MultiPartError::Conversion(m)) => assert_eq!(m, "bad list"),
        _ => panic!("expected a conversion error"),
    }
    // an element that could not be read stops the part where it stands
    assert!(matches!(
        Part::<u32>::from_object(PartObject::List(vec![
            PartEntry::Headers(HeadersValue::NotMap),
            PartEntry::Unreadable("bad name".to_string()),
        ])),
        Err(MultiPartError::HeadersNotMap)
    ));
    match Part::<u32>::from_object(PartObject::List(vec![
        PartEntry::Unreadable("bad name".to_string()),
        PartEntry::Headers(HeadersValue::NotMap),
    ])) {
        Err(MultiPartError::Conversion(m)) => assert_eq!(m, "bad name"),
        _ => panic!("expected a conversion error"),
    }
}

#[test]
fn unreadable_raw_content_fails_only_as_octet_stream() {
    let unreadable = |ct: &str| {
        PartObject::List(vec![
            PartEntry::Headers(named(&[("content-type", ct)])),
            PartEntry::Content(PartContent { object: 5u32, raw: RawContent::Unreadable("no bytes".to_string()) }),
        ])
    };
    let mp = MultiPart::from_r(BodyObject::List(vec![unreadable("application/octet-stream")])).ok().unwrap();
    match mp.write_multipart().error {
        Some(MultiPartError::Conversion(m)) => assert_eq!(m, "no bytes"),
        _ => panic!("expected a conversion error"),
    }
    let mp = MultiPart::from_r(BodyObject::List(vec![unreadable("application/tson")])).ok().unwrap();
    assert!(mp.write_multipart().error.is_none());
}

#[test]
fn distinct_headers_pass_unchanged() {
    let pairs = vec![
        ("b".to_string(), "1".to_string()),
        ("a".to_string(), "2".to_string()),
        ("c".to_string(), "3".to_string()),
    ];
    let h = HeaderMap::from_pairs(pairs.clone());
    assert_eq!(h.entries(), &pairs);
}
