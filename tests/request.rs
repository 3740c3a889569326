use octopus::request::{parse, url_is_relative, Request, RequestError};

fn parse_all(buf: &[u8]) -> Result<Option<(Request, Vec<u8>)>, RequestError> {
    let buf = buf.to_vec();
    let mut headers = [httparse::EMPTY_HEADER; 16];
    let total_read = buf.len();
    parse(&buf, &mut headers, total_read)
}

#[test]
fn test_parse_on_relative_url() {
    let buf = b"GET / HTTP/1.1\r\nHost: google.com\r\n\r\nHello".to_vec();
    let mut headers = [httparse::EMPTY_HEADER; 16];
    let total_read = buf.len();

    let (req, body) = parse(&buf, &mut headers, total_read).unwrap().unwrap();

    assert_eq!(req.headers.get("Host").unwrap(), b"google.com");
    assert!(req.headers.get("Foo").is_none());

    assert_eq!(req.method, "GET");
    assert_eq!(req.version, 1u8);

    assert_eq!(body.len(), 5);
    assert_eq!(body, b"Hello");

    assert_eq!(req.url.as_str(), "http://google.com/");
}

#[test]
fn test_parse_on_absolute_url() {
    let buf = b"GET http://google.com/ HTTP/1.1\r\n\r\nHello".to_vec();
    let mut headers = [httparse::EMPTY_HEADER; 16];
    let total_read = buf.len();

    let (req, _) = parse(&buf, &mut headers, total_read).unwrap().unwrap();
    assert_eq!(req.url.as_str(), "http://google.com/");
}

#[test]
fn test_parse_on_relative_url_without_host() {
    let buf = b"GET / HTTP/1.1\r\n\r\nHello".to_vec();
    let mut headers = [httparse::EMPTY_HEADER; 16];
    let total_read = buf.len();

    assert!(parse(&buf, &mut headers, total_read).is_err());
}

#[test]
fn test_parse_on_nonhttp() {
    let buf = b"frozen brains tell no tales\r\n".to_vec();
    let mut headers = [httparse::EMPTY_HEADER; 16];
    let total_read = buf.len();

    assert!(parse(&buf, &mut headers, total_read).is_err());
}

#[test]
fn missing_host_is_named() {
    let r = parse_all(b"GET / HTTP/1.1\r\n\r\n");
    assert_eq!(r.err(), Some(RequestError::MissingHost));
}

#[test]
fn nonhttp_is_malformed_not_partial() {
    match parse_all(b"frozen brains tell no tales\r\n") {
        Err(RequestError::Malformed(_)) => {}
        _ => panic!("expected a malformed request"),
    }
    match parse_all(b"\x00\x01\x02 not http at all") {
        Err(RequestError::Malformed(_)) => {}
        _ => panic!("expected a malformed request"),
    }
}

#[test]
fn incomplete_head_is_partial() {
    assert!(matches!(parse_all(b"GET / HTTP/1.1\r\nHost: exa"), Ok(None)));
    assert!(matches!(parse_all(b""), Ok(None)));
}

#[test]
fn only_bytes_read_so_far_are_parsed() {
    let buf = b"GET / HTTP/1.1\r\nHost: a\r\n\r\n".to_vec();
    let mut headers = [httparse::EMPTY_HEADER; 16];
    assert!(matches!(parse(&buf, &mut headers, 10), Ok(None)));
}

#[test]
fn duplicate_host_in_request_is_refused() {
    let r = parse_all(b"GET / HTTP/1.1\r\nHost: a\r\nHost: b\r\n\r\n");
    assert_eq!(r.err(), Some(RequestError::ConflictingHeaders));
}

#[test]
fn too_many_headers_is_malformed() {
    let mut buf = b"GET / HTTP/1.1\r\n".to_vec();
    for i in 0..17 {
        buf.extend_from_slice(format!("X-{}: v\r\n", i).as_bytes());
    }
    buf.extend_from_slice(b"\r\n");
    assert!(matches!(parse_all(&buf), Err(RequestError::Malformed(_))));
}

#[test]
fn host_that_is_not_utf8_is_an_invalid_url() {
    let r = parse_all(b"GET / HTTP/1.1\r\nHost: \xff\xfe\r\n\r\n");
    assert_eq!(r.err(), Some(RequestError::InvalidUrl("Host header is not valid UTF-8".to_string())));
}

#[test]
fn unparsable_url_is_invalid() {
    match parse_all(b"GET / HTTP/1.1\r\nHost: exa mple.com\r\n\r\n") {
        Err(RequestError::InvalidUrl(d)) => assert!(!d.is_empty()),
        _ => panic!("expected an invalid url"),
    }
}

#[test]
fn url_parts_come_from_the_url_parser() {
    let (req, body) = parse_all(b"GET HTTP://Example.COM:8080/a/b?q=1 HTTP/1.0\r\n\r\n").unwrap().unwrap();
    assert_eq!(req.url.as_str(), "http://example.com:8080/a/b?q=1");
    assert_eq!(req.url.scheme(), "http");
    assert_eq!(req.url.host_str(), Some("example.com"));
    assert_eq!(req.url.port(), Some(8080));
    assert_eq!(req.url.path(), "/a/b");
    assert_eq!(req.version, 0);
    assert!(body.is_empty());
}

#[test]
fn relative_and_absolute_targets() {
    assert!(url_is_relative("/"));
    assert!(url_is_relative("/a:b"));
    assert!(!url_is_relative("http://google.com/"));
    assert!(!url_is_relative("google.com"));
    assert!(!url_is_relative("a:/b"));
}

#[test]
fn request_wire_form() {
    let (req, _) = parse_all(b"POST /x?y=1 HTTP/1.1\r\nHost: h.example\r\nX-A: 1\r\n\r\n").unwrap().unwrap();
    assert_eq!(
        req.serialize(),
        b"POST /x HTTP/1.1\r\nHost: h.example\r\nX-A: 1\r\n\r\n\r\n".to_vec()
    );
}

#[test]
fn from_raw_builds_from_parts() {
    let raw = [httparse::Header { name: "Host", value: b"example.com" }];
    let req = Request::from_raw("GET", "/index.html", 1, &raw).unwrap();
    assert_eq!(req.url.as_str(), "http://example.com/index.html");
    assert_eq!(req.method, "GET");
    let none: [httparse::Header; 0] = [];
    assert_eq!(Request::from_raw("GET", "/", 1, &none).err(), Some(RequestError::MissingHost));
}

#[test]
fn request_into_bytes_is_its_wire_form() {
    let (req, _) = parse_all(b"GET /a HTTP/1.1\r\nHost: h\r\n\r\n").unwrap().unwrap();
    let expected = req.serialize();
    let bytes: Vec<u8> = req.into();
    assert_eq!(bytes, expected);
    assert_eq!(bytes, b"GET /a HTTP/1.1\r\nHost: h\r\n\r\n\r\n".to_vec());
}
