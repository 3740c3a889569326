use octopus::headers::{parse_length, HeaderError, Headers, DEFAULT_INTO_BUFFER_CAPACITY};

fn create_huge_headers() -> Headers {
    // Greatly exceed the default header capacity with demo headers.
    let mut headers = Headers::new();
    let test_value: Vec<u8> = "Test-Value".as_bytes().to_vec();
    for _ in 0..DEFAULT_INTO_BUFFER_CAPACITY {
        headers.insert("Test-Header", &test_value);
    }
    headers
}

const STANDARD: &[u8] = b"Cache-Control: private, max-age=0\r\nContent-Encoding: gzip\r\nContent-Type: text/html; charset=UTF-8\r\nDate: Sat 28 Jan 2017 10:10:10 GMT\r\nExpires: -1\r\nServer: Foobar Server\r\nStrict-Transport-Security: max-age=86400\r\nX-XSS-Protection: 1; mode=block\r\nX-Frame-Options: SAMEORIGIN\r\n\r\n";

fn create_standard_headers() -> (Vec<u8>, Headers) {
    let mut headers = [httparse::EMPTY_HEADER; 64];
    let (_, parsed) = httparse::parse_headers(STANDARD, &mut headers).unwrap().unwrap();
    (STANDARD.to_vec(), Headers::from_raw(parsed).unwrap())
}

fn table(block: &[u8]) -> Result<Headers, HeaderError> {
    let mut headers = [httparse::EMPTY_HEADER; 16];
    let (_, parsed) = httparse::parse_headers(block, &mut headers).unwrap().unwrap();
    Headers::from_raw(parsed)
}

#[test]
fn test_headers() {
    let mut headers = Headers::new();
    let value: Vec<u8> = "google.com".as_bytes().to_vec();
    headers.insert("Host", &value);
    assert_eq!(headers.get("Host"), Some(value));
    assert_eq!(headers.get("Most"), None);
}

#[test]
fn test_multiple_content_length() {
    let mut headers = Headers::new();
    let value1: Vec<u8> = "1234".as_bytes().to_vec();
    let value2: Vec<u8> = "5678".as_bytes().to_vec();
    headers.insert("Content-Length", &value1);
    headers.insert("Content-Length", &value2);
    assert_eq!(headers.content_length(), Err(HeaderError::Conflicting));
}

#[test]
fn test_good_parse() {
    let headers_buf = b"Host: foo.bar\r\nContent-Length: 10\r\nAccept: *\r\n\r\n";
    let mut headers = [httparse::EMPTY_HEADER; 4];
    let (_, parsed) = httparse::parse_headers(headers_buf, &mut headers).unwrap().unwrap();
    let result = Headers::from_raw(parsed);
    assert!(result.is_ok());
}

#[test]
fn test_bad_parse_1() {
    let headers_buf = b"Host: foo.bar\r\nContent-Length: 10\r\nAccept: *\r\nHost: bar.baz\r\n\r\n";
    let mut headers = [httparse::EMPTY_HEADER; 4];
    let (_, parsed) = httparse::parse_headers(headers_buf, &mut headers).unwrap().unwrap();
    let result = Headers::from_raw(parsed);
    assert!(result.is_err());
}

#[test]
fn test_bad_parse_2() {
    let headers_buf = b"Host: foo.bar\r\nContent-Length: 10\r\nAccept: *\r\nContent-Length: 15\r\n\r\n";
    let mut headers = [httparse::EMPTY_HEADER; 4];
    let (_, parsed) = httparse::parse_headers(headers_buf, &mut headers).unwrap().unwrap();
    let result = Headers::from_raw(parsed);
    assert!(result.is_err());
}

#[test]
fn test_small_into() {
    let (source, headers) = create_standard_headers();
    let buffer: Vec<u8> = headers.into();
    assert_eq!(String::from_utf8(buffer).unwrap(), String::from_utf8(source).unwrap());
}

#[test]
fn test_massive_into() {
    let headers = create_huge_headers();
    let buffer: Vec<u8> = headers.into();
    assert!(buffer.len() > DEFAULT_INTO_BUFFER_CAPACITY);
}

#[test]
fn round_trip_keeps_case_and_interleaved_order() {
    let block = b"X-B: 1\r\nhost: a\r\nX-A: 2\r\nx-b: 3\r\nACCEPT: */*\r\n\r\n";
    let headers = table(block).unwrap();
    assert_eq!(headers.to_utf8(), block.to_vec());
}

#[test]
fn empty_table_serializes_to_blank_line() {
    assert_eq!(Headers::new().to_utf8(), b"\r\n".to_vec());
}

#[test]
fn duplicates_of_other_names_are_accepted() {
    let block = b"Accept: a\r\nAccept: b\r\nHost: x\r\nContent-Length: 0\r\n\r\n";
    assert!(table(block).is_ok());
}

#[test]
fn duplicate_host_differing_in_case_is_refused() {
    let block = b"Host: a\r\nHOST: a\r\n\r\n";
    assert_eq!(table(block).err(), Some(HeaderError::Conflicting));
}

#[test]
fn conflicting_lengths_are_refused() {
    let block = b"Content-Length: 1234\r\ncontent-length: 99\r\n\r\n";
    assert_eq!(table(block).err(), Some(HeaderError::Conflicting));
}

#[test]
fn lookup_ignores_case() {
    let mut headers = Headers::new();
    headers.insert("Content-Length", &b"42".to_vec());
    assert_eq!(headers.get("content-length"), headers.get("Content-Length"));
    assert_eq!(headers.get("CONTENT-LENGTH"), Some(b"42".to_vec()));
    assert_eq!(headers.get_folded("content-length"), Some(b"42".to_vec()));
    assert_eq!(headers.get_folded("Content-Length"), None);
}

#[test]
fn lookup_returns_first_inserted() {
    let mut headers = Headers::new();
    headers.insert("Accept", &b"first".to_vec());
    headers.insert("accept", &b"second".to_vec());
    assert_eq!(headers.get("ACCEPT"), Some(b"first".to_vec()));
}

#[test]
fn content_length_absent_and_malformed() {
    let mut headers = Headers::new();
    assert_eq!(headers.content_length(), Ok(None));
    headers.insert("Content-Length", &b"12a".to_vec());
    assert_eq!(headers.content_length(), Err(HeaderError::MalformedLength));
}

#[test]
fn validate_counts_host_and_length() {
    let mut headers = Headers::new();
    headers.insert("Host", &b"a".to_vec());
    assert!(headers.validate());
    headers.insert("host", &b"b".to_vec());
    assert!(!headers.validate());
}

#[test]
fn length_parsing() {
    assert_eq!(parse_length(b"0"), Some(0));
    assert_eq!(parse_length(b"1234"), Some(1234));
    assert_eq!(parse_length(b"18446744073709551615"), Some(usize::MAX));
    assert_eq!(parse_length(b"18446744073709551616"), None);
    assert_eq!(parse_length(b""), None);
    assert_eq!(parse_length(b"+5"), None);
    assert_eq!(parse_length(b" 5"), None);
}

#[test]
fn header_entry_accessors() {
    let h = octopus::headers::OctopusHeader::new("X-Thing".to_string(), &b"v".to_vec(), 3);
    assert_eq!(h.original_name(), "X-Thing");
    assert_eq!(h.value(), &b"v".to_vec());
    assert_eq!(h.order(), 3);
}

#[test]
fn single_length_is_read() {
    let mut headers = Headers::new();
    headers.insert("Content-Length", &b"1234".to_vec());
    assert_eq!(headers.content_length(), Ok(Some(1234)));
}
