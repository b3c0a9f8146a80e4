use containers_api::conn::headers::Headers;
use containers_api::conn::payload::Payload;
use containers_api::conn::transport::{
    build_request, check_upgrade, classify, classify_body, fault_from_body, fault_message,
    is_success, json_frames, make_request, upgrade_headers, upgrade_request, JsonFrameDecoder,
    Transport,
};
use containers_api::conn::{Error, AUTH_HEADER};

fn pairs(h: Headers) -> Vec<(String, String)> {
    h.into_iter().map(|(k, v)| (k.to_string(), v)).collect()
}

fn uri(s: &str) -> http::Uri {
    s.parse().unwrap()
}

#[test]
fn content_type_follows_payload_variant() {
    let cases: Vec<(Payload<Vec<u8>>, Option<&str>)> = vec![
        (Payload::Empty, None),
        (Payload::Text(b"t".to_vec()), None),
        (Payload::Json(b"{}".to_vec()), Some("application/json")),
        (Payload::Tar(b"t".to_vec()), Some("application/tar")),
        (Payload::XTar(b"x".to_vec()), Some("application/x-tar")),
    ];
    for (payload, want) in cases {
        let empty = payload.is_none();
        assert_eq!(payload.mime_type(), want);
        let req = build_request(http::Method::POST, uri("http://h/x"), payload, None);
        let hs = pairs(req.headers);
        let ct: Vec<&(String, String)> = hs.iter().filter(|(k, _)| k == "content-type").collect();
        match want {
            Some(w) => assert_eq!(ct, vec![&("content-type".to_string(), w.to_string())]),
            None => assert!(ct.is_empty()),
        }
        assert_eq!(req.body.is_none(), empty);
    }
}

#[test]
fn request_headers_are_host_then_caller_then_content_type() {
    let mut h = Headers::single(AUTH_HEADER, "abc");
    h.add("X-Dup", "1");
    h.add("X-Dup", "2");
    let req = build_request(
        http::Method::POST,
        uri("http://h/x"),
        Payload::Json(b"{}".to_vec()),
        Some(h),
    );
    assert_eq!(req.method, http::Method::POST);
    assert_eq!(req.uri, uri("http://h/x"));
    assert_eq!(req.body, Some(b"{}".to_vec()));
    let want = vec![
        ("host".to_string(), "".to_string()),
        ("X-Registry-Auth".to_string(), "abc".to_string()),
        ("X-Dup".to_string(), "1".to_string()),
        ("X-Dup".to_string(), "2".to_string()),
        ("content-type".to_string(), "application/json".to_string()),
    ];
    assert_eq!(pairs(req.headers), want);
}

#[test]
fn payload_into_inner_and_empty() {
    assert!(Payload::<Vec<u8>>::empty().is_none());
    assert_eq!(Payload::<Vec<u8>>::empty().into_inner(), None);
    assert_eq!(Payload::Tar(vec![1u8]).into_inner(), Some(vec![1u8]));
    assert!(Headers::none().is_none());
}

#[test]
fn success_codes_pass_the_body_through() {
    for code in [200u16, 201, 101, 204] {
        assert!(is_success(code));
        assert_eq!(classify(code, "body"), Ok("body"));
        match classify_body(code, b"raw".to_vec()) {
            Ok(b) => assert_eq!(b, b"raw".to_vec()),
            Err(e) => panic!("unexpected {:?}", e),
        }
    }
}

#[test]
fn other_codes_become_faults_with_their_code() {
    for code in [0u16, 100, 202, 301, 400, 404, 409, 500, 999, 1000, 65535] {
        assert!(!is_success(code));
        assert_eq!(classify(code, "body"), Err("body"));
        match classify_body(code, b"{\"message\":\"boom\"}".to_vec()) {
            Err(Error::Fault { code: c, message }) => {
                assert_eq!(c, code);
                assert_eq!(message, "boom");
            }
            other => panic!("unexpected {:?}", other),
        }
    }
}

#[test]
fn fault_message_falls_back_to_reason_phrase() {
    match fault_from_body(404, b"not json".to_vec()) {
        Error::Fault { code, message } => {
            assert_eq!(code, 404);
            assert_eq!(message, "Not Found");
        }
        other => panic!("unexpected {:?}", other),
    }
    match fault_from_body(500, b"{\"message\": 5}".to_vec()) {
        Error::Fault { message, .. } => assert_eq!(message, "Internal Server Error"),
        other => panic!("unexpected {:?}", other),
    }
    match fault_from_body(599, b"".to_vec()) {
        Error::Fault { message, .. } => assert_eq!(message, "unknown error code"),
        other => panic!("unexpected {:?}", other),
    }
}

#[test]
fn fault_body_that_is_not_utf8_is_an_encoding_error() {
    assert!(matches!(fault_from_body(500, vec![0xff, 0xfe]), Error::Encoding(_)));
}

#[test]
fn fault_message_prefers_the_body() {
    assert_eq!(fault_message(Some("m".to_string()), Some("Not Found")), "m");
    assert_eq!(fault_message(None, Some("Not Found")), "Not Found");
    assert_eq!(fault_message(None, None), "unknown error code");
}

#[test]
fn json_decoder_splits_on_terminator() {
    let chunks = vec![b"{\"a\":1}".to_vec(), b"\r\n".to_vec(), b"{\"b\":2}\r\n".to_vec()];
    let frames = json_frames(&chunks);
    assert_eq!(frames.len(), 2);
    assert_eq!(frames[0], b"{\"a\":1}\r\n".to_vec());
    assert_eq!(frames[1], b"{\"b\":2}\r\n".to_vec());
    let a: serde_json::Value = serde_json::from_slice(&frames[0]).unwrap();
    let b: serde_json::Value = serde_json::from_slice(&frames[1]).unwrap();
    assert_eq!(a.get("a").and_then(|v| v.as_i64()), Some(1));
    assert_eq!(b.get("b").and_then(|v| v.as_i64()), Some(2));
}

#[test]
fn json_decoder_drops_unterminated_tail() {
    let chunks = vec![b"{\"a\":1}\r\n".to_vec(), b"{\"b\":2}".to_vec()];
    let frames = json_frames(&chunks);
    assert_eq!(frames, vec![b"{\"a\":1}\r\n".to_vec()]);
    let only_tail = vec![b"{\"c\":3}".to_vec()];
    assert!(json_frames(&only_tail).is_empty());
}

#[test]
fn json_decoder_sees_terminator_split_across_chunks() {
    let mut dec = JsonFrameDecoder::new();
    assert_eq!(dec.push_chunk(b"{\"a\":1}\r"), None);
    assert_eq!(dec.push_chunk(b"\n"), Some(b"{\"a\":1}\r\n".to_vec()));
    assert_eq!(dec.push_chunk(b""), None);
    assert_eq!(dec.push_chunk(b"\r\n"), Some(b"\r\n".to_vec()));
}

#[test]
fn tcp_endpoint_makes_an_absolute_uri() {
    let t = Transport::Tcp { host: "http://localhost:8080".to_string() };
    assert_eq!(t.remote_addr(), "http://localhost:8080");
    assert_eq!(t.request_target("/v1/info"), "http://localhost:8080/v1/info");
    let u = t.make_uri("/v1/info").unwrap();
    assert_eq!(u, uri("http://localhost:8080/v1/info"));
    assert!(matches!(t.make_uri("/bad path"), Err(Error::InvalidUri(_))));
}

#[test]
fn unix_endpoint_addresses_the_socket() {
    let t = Transport::Unix { path: "foo.sock".to_string() };
    assert_eq!(t.remote_addr(), "foo.sock");
    assert_eq!(t.request_target("/"), "unix://666f6f2e736f636b:0/");
    assert_eq!(t.make_uri("/").unwrap(), uri("unix://666f6f2e736f636b:0/"));
    assert!(matches!(t.make_uri("/a b"), Err(Error::InvalidUri(_))));
}

#[test]
fn make_request_fails_on_invalid_uri() {
    let t = Transport::EncryptedTcp { host: "https://h".to_string() };
    let bad = make_request(&t, http::Method::GET, "/x y", Payload::<Vec<u8>>::Empty, None);
    assert!(matches!(bad, Err(Error::InvalidUri(_))));
    let ok = make_request(&t, http::Method::GET, "/x", Payload::<Vec<u8>>::Empty, None).unwrap();
    assert_eq!(ok.uri, uri("https://h/x"));
    assert_eq!(pairs(ok.headers), vec![("host".to_string(), "".to_string())]);
}

#[test]
fn upgrade_refused_on_any_status_but_101() {
    assert!(check_upgrade(101).is_ok());
    for code in 0u16..=1000 {
        if code != 101 {
            assert!(matches!(check_upgrade(code), Err(Error::ConnectionNotUpgraded)));
        }
    }
}

#[test]
fn upgrade_request_carries_upgrade_headers() {
    let want = vec![
        ("connection".to_string(), "Upgrade".to_string()),
        ("upgrade".to_string(), "tcp".to_string()),
    ];
    assert_eq!(pairs(upgrade_headers()), want);
    let t = Transport::Tcp { host: "http://h".to_string() };
    let req = upgrade_request(&t, http::Method::POST, "/exec/1/start", Payload::Json(b"{}".to_vec()))
        .unwrap();
    let hs = pairs(req.headers);
    assert_eq!(hs[0], ("host".to_string(), "".to_string()));
    assert_eq!(hs[1..3].to_vec(), want);
    assert_eq!(hs[3], ("content-type".to_string(), "application/json".to_string()));
}
