use http_req::headers::Headers;
use http_req::method::Method;
use http_req::request::{Request, RequestBuilder};
use http_req::response::{Error, Response};
use http_req::scan::{copy_until, ByteReader, HeadScan, ScanError};
use http_req::uri::Uri;

const URI: &str = "http://doc.rust-lang.org/std/string/index.html";
const URI_S: &str = "https://doc.rust-lang.org/std/string/index.html";
const BODY: [u8; 14] = [78, 97, 109, 101, 61, 74, 97, 109, 101, 115, 43, 74, 97, 121];
const CR_LF_2: [u8; 4] = [13, 10, 13, 10];

const RESPONSE: &[u8; 129] = b"HTTP/1.1 200 OK\r\n\
                               Date: Sat, 11 Jan 2003 02:44:04 GMT\r\n\
                               Content-Type: text/html\r\n\
                               Content-Length: 100\r\n\r\n\
                               <html>hello</html>\r\n\r\nhello";

const RESPONSE_H: &[u8; 102] = b"HTTP/1.1 200 OK\r\n\
                                 Date: Sat, 11 Jan 2003 02:44:04 GMT\r\n\
                                 Content-Type: text/html\r\n\
                                 Content-Length: 100\r\n\r\n";

fn uri(s: &str) -> Uri {
    Uri::parse(s).unwrap()
}

#[test]
fn copy_data_until() {
    let mut reader = ByteReader::new(RESPONSE.to_vec());
    let mut writer = Vec::new();

    copy_until(&mut reader, &mut writer, &CR_LF_2).unwrap();
    assert_eq!(writer, &RESPONSE_H[..]);
}

#[test]
fn method_display() {
    const METHOD: Method = Method::HEAD;
    assert_eq!(&METHOD.to_string(), "HEAD");
}

#[test]
fn request_b_new() {
    RequestBuilder::new(&uri(URI));
    RequestBuilder::new(&uri(URI_S));
}

#[test]
fn request_b_method() {
    let uri = uri(URI);
    let mut req = RequestBuilder::new(&uri);
    req.method(Method::HEAD);

    assert_eq!(req.method, Method::HEAD);
}

#[test]
fn request_b_headers() {
    let mut headers = Headers::new();
    headers.insert("Accept-Charset", "utf-8");
    headers.insert("Accept-Language", "en-US");
    headers.insert("Host", "doc.rust-lang.org");
    headers.insert("Connection", "Close");

    let uri = uri(URI);
    let mut req = RequestBuilder::new(&uri);
    req.headers(headers.clone());

    assert_eq!(req.headers, headers);
}

#[test]
fn request_b_header() {
    let uri = uri(URI);
    let mut req = RequestBuilder::new(&uri);
    let k = "Connection";
    let v = "Close";

    let mut expect_headers = Headers::new();
    expect_headers.insert("Host", "doc.rust-lang.org");
    expect_headers.insert("Referer", "http://doc.rust-lang.org/std/string/index.html");
    expect_headers.insert(k, v);

    req.header(k, v);

    assert_eq!(req.headers, expect_headers);
}

#[test]
fn request_b_body() {
    let uri = uri(URI);
    let mut req = RequestBuilder::new(&uri);
    req.body(&BODY);

    assert_eq!(req.body, Some(BODY.as_ref()));
}

#[test]
fn request_b_parse_msg() {
    let uri = uri(URI);
    let req = RequestBuilder::new(&uri);

    const DEFAULT_MSG: &str = "GET /std/string/index.html HTTP/1.1\r\n\
                               Referer: http://doc.rust-lang.org/std/string/index.html\r\n\
                               Host: doc.rust-lang.org\r\n\r\n";
    let msg = req.parse_msg();
    let msg = String::from_utf8_lossy(&msg).into_owned();

    for line in DEFAULT_MSG.lines() {
        assert!(msg.contains(line));
    }

    for line in msg.lines() {
        assert!(DEFAULT_MSG.contains(line));
    }
}

#[test]
fn request_new() {
    let uri = uri(URI);
    Request::new(&uri);
}

#[test]
fn request_method() {
    let uri = uri(URI);
    let mut req = Request::new(&uri);
    req.set_method(Method::HEAD);

    assert_eq!(req.inner.method, Method::HEAD);
}

#[test]
fn request_headers() {
    let mut headers = Headers::new();
    headers.insert("Accept-Charset", "utf-8");
    headers.insert("Accept-Language", "en-US");
    headers.insert("Host", "doc.rust-lang.org");
    headers.insert("Connection", "Close");

    let uri = uri(URI);
    let mut req = Request::new(&uri);
    req.headers(headers.clone());

    assert_eq!(req.inner.headers, headers);
}

#[test]
fn request_header() {
    let uri = uri(URI);
    let mut req = Request::new(&uri);
    let k = "Accept-Language";
    let v = "en-US";

    let mut expect_headers = Headers::new();
    expect_headers.insert("Host", "doc.rust-lang.org");
    expect_headers.insert("Referer", "http://doc.rust-lang.org/std/string/index.html");
    expect_headers.insert("Connection", "Close");
    expect_headers.insert(k, v);

    req.header(k, v);

    assert_eq!(req.inner.headers, expect_headers);
}

#[test]
fn scan_single_delimiter_count() {
    let data = b"0123456789abc--xyz".to_vec();
    let mut reader = ByteReader::new(data);
    let mut writer = Vec::new();
    let n = copy_until(&mut reader, &mut writer, b"--").unwrap();
    assert_eq!(n, 15);
    assert_eq!(writer, b"0123456789abc--".to_vec());
    assert_eq!(reader.remaining(), b"xyz".to_vec());
}

#[test]
fn scan_runs_out_is_error() {
    let mut reader = ByteReader::new(b"HTTP/1.1 200 OK\r\nHost: x\r\n".to_vec());
    let mut writer = Vec::new();
    let r = copy_until(&mut reader, &mut writer, &CR_LF_2);
    assert_eq!(r, Err(ScanError::UnexpectedEof));
    assert!(writer.is_empty());
}

#[test]
fn scan_delimiter_longer_than_stream() {
    let mut reader = ByteReader::new(b"ab".to_vec());
    let mut writer = Vec::new();
    let r = copy_until(&mut reader, &mut writer, b"abcdefghijklmnop");
    assert_eq!(r, Err(ScanError::UnexpectedEof));
}

#[test]
fn scan_round_trip_leaves_body() {
    let mut reader = ByteReader::new(b"HTTP/1.1 200 OK\r\nContent-Length: 5\r\n\r\nhello".to_vec());
    let mut writer = Vec::new();
    let n = copy_until(&mut reader, &mut writer, &CR_LF_2).unwrap();
    assert_eq!(writer, b"HTTP/1.1 200 OK\r\nContent-Length: 5\r\n\r\n".to_vec());
    assert_eq!(n, writer.len());
    assert_eq!(reader.remaining(), b"hello".to_vec());
}

#[test]
fn method_names() {
    assert_eq!(Method::GET.to_string(), "GET");
    assert_eq!(Method::DELETE.to_string(), "DELETE");
    assert_eq!(Method::OPTIONS.token_bytes(), b"OPTIONS".to_vec());
    assert_eq!(Method::PATCH.token_bytes(), b"PATCH".to_vec());
}

#[test]
fn message_one_header_no_body() {
    let uri = uri("http://example.com/a?b=1");
    let mut req = RequestBuilder::new(&uri);
    let mut h = Headers::new();
    h.insert("Accept", "text/html");
    req.headers(h);
    assert_eq!(req.parse_msg(), b"GET /a?b=1 HTTP/1.1\r\nAccept: text/html\r\n\r\n".to_vec());
}

#[test]
fn message_body_verbatim() {
    let uri = uri("http://example.com");
    let mut req = RequestBuilder::new(&uri);
    req.method(Method::POST);
    req.headers(Headers::new());
    req.body(&BODY);
    let mut expected = b"POST / HTTP/1.1\r\n\r\n".to_vec();
    expected.extend_from_slice(&BODY);
    assert_eq!(req.parse_msg(), expected);
}

#[test]
fn header_override_keeps_others() {
    let mut h = Headers::new();
    h.insert("A", "1");
    h.insert("B", "2");
    h.insert("C", "3");
    h.insert("B", "20");
    assert_eq!(h.len(), 3);
    assert_eq!((h.key(1), h.value(1)), ("B", "20"));
    assert_eq!((h.key(0), h.value(0)), ("A", "1"));
    assert_eq!((h.key(2), h.value(2)), ("C", "3"));
}

#[test]
fn replace_headers_discards_old() {
    let uri = uri(URI);
    let mut req = Request::new(&uri);
    let mut h = Headers::new();
    h.insert("X", "y");
    req.headers(h);
    assert_eq!(req.inner.headers.len(), 1);
    assert_eq!(req.inner.headers.key(0), "X");
}

#[test]
fn connection_close_survives_other_headers() {
    let uri = uri(URI);
    let mut req = Request::new(&uri);
    req.header("Accept", "*/*");
    req.header("Host", "other");
    req.set_method(Method::PUT);
    let h = &req.inner.headers;
    let found = (0..h.len()).any(|i| h.key(i) == "Connection" && h.value(i) == "Close");
    assert!(found);
    let msg = String::from_utf8(req.inner.parse_msg()).unwrap();
    assert!(msg.contains("\r\nConnection: Close\r\n"));
    assert!(msg.starts_with("PUT /std/string/index.html HTTP/1.1\r\n"));
}

#[test]
fn head_never_writes_body() {
    let uri = uri(URI);
    let mut req = RequestBuilder::new(&uri);
    req.method(Method::HEAD);
    let mut stream = ByteReader::new(RESPONSE.to_vec());
    let mut sink = Vec::new();
    let res = req.receive(&mut stream, &mut sink).unwrap();
    assert_eq!(res.status_code(), 200);
    assert!(sink.is_empty());
}

#[test]
fn get_streams_body() {
    let uri = uri(URI);
    let req = RequestBuilder::new(&uri);
    let mut stream = ByteReader::new(RESPONSE.to_vec());
    let mut sink = Vec::new();
    let res = req.receive(&mut stream, &mut sink).unwrap();
    assert_eq!(res.status_code(), 200);
    assert_eq!(sink, b"<html>hello</html>\r\n\r\nhello".to_vec());
}

#[test]
fn malformed_head_is_parse_error() {
    let uri = uri(URI);
    let req = RequestBuilder::new(&uri);
    let mut stream = ByteReader::new(b"garbage line here\r\n\r\nbody".to_vec());
    let mut sink = Vec::new();
    assert!(matches!(req.receive(&mut stream, &mut sink), Err(Error::Parse)));
    assert!(sink.is_empty());
}

#[test]
fn truncated_head_is_eof_error() {
    let uri = uri(URI);
    let req = RequestBuilder::new(&uri);
    let mut stream = ByteReader::new(b"HTTP/1.1 200 OK\r\n".to_vec());
    assert!(matches!(req.read_head(&mut stream), Err(Error::UnexpectedEof)));
}

#[test]
fn status_code_of_head() {
    let r = Response::from_head(&b"HTTP/1.0 404 Not Found\r\n\r\n".to_vec()).unwrap();
    assert_eq!(r.status_code(), 404);
    assert!(Response::from_head(&b"HTTP/1.1 2x0 OK\r\n\r\n".to_vec()).is_err());
}

#[test]
fn write_msg_appends() {
    let uri = uri(URI);
    let req = RequestBuilder::new(&uri);
    let mut out = b"x".to_vec();
    req.write_msg(&mut out, b"yz");
    assert_eq!(out, b"xyz".to_vec());
}

#[test]
fn uri_parts() {
    let u = uri("https://example.com:8443/p?q=1");
    assert_eq!(u.scheme(), "https");
    assert_eq!(u.host(), Some("example.com"));
    assert_eq!(u.authority(), "example.com:8443");
    assert_eq!(u.corr_port(), 8443);
    assert_eq!(u.resource(), "/p?q=1");
    assert!(u.is_secure());
    let d = uri(URI_S);
    assert_eq!(d.corr_port(), 443);
    let p = uri("http://example.com");
    assert_eq!(p.corr_port(), 80);
    assert_eq!(p.resource(), "/");
    assert!(Uri::parse("example.com/x").is_none());
    assert!(Uri::parse("http://h:99999/").is_none());
    assert!(Uri::parse("http://h:8a/").is_none());
}

#[test]
fn request_transport_choice() {
    let s = uri(URI_S);
    let r = Request::new(&s);
    assert!(r.uses_tls());
    assert_eq!(r.target(), ("doc.rust-lang.org", 443));
    let p = uri("http:///x");
    let r = Request::new(&p);
    assert!(!r.uses_tls());
    assert_eq!(r.target(), ("", 80));
}

#[test]
fn default_builder_headers() {
    let uri = uri(URI);
    let req = RequestBuilder::new(&uri);
    let h = &req.headers;
    assert_eq!(h.len(), 2);
    assert_eq!((h.key(0), h.value(0)), ("Host", "doc.rust-lang.org"));
    assert_eq!((h.key(1), h.value(1)), ("Referer", URI));
}

#[test]
fn scan_delimiter_at_end_of_first_read() {
    let mut reader = ByteReader::new(b"abcdefgh\r\n".to_vec());
    let mut writer = Vec::new();
    assert_eq!(copy_until(&mut reader, &mut writer, b"\r\n"), Ok(10));
    assert_eq!(writer, b"abcdefgh\r\n".to_vec());
}

#[test]
fn scan_early_delimiter_leaves_rest() {
    let mut reader = ByteReader::new(b"ab\r\ncd".to_vec());
    let mut writer = Vec::new();
    assert_eq!(copy_until(&mut reader, &mut writer, b"\r\n"), Ok(4));
    assert_eq!(writer, b"ab\r\n".to_vec());
    assert_eq!(reader.remaining(), b"cd".to_vec());
}

#[test]
fn scan_stops_at_first_occurrence() {
    let mut reader = ByteReader::new(b"a--bcdefgh--".to_vec());
    let mut writer = Vec::new();
    assert_eq!(copy_until(&mut reader, &mut writer, b"--"), Ok(3));
    assert_eq!(writer, b"a--".to_vec());
    assert_eq!(reader.remaining(), b"bcdefgh--".to_vec());
}

#[test]
fn short_malformed_head_is_parse_error() {
    let uri = uri(URI);
    let req = RequestBuilder::new(&uri);
    let mut stream = ByteReader::new(b"ab\r\n\r\nrest".to_vec());
    assert!(matches!(req.read_head(&mut stream), Err(Error::Parse)));
    assert_eq!(stream.remaining(), b"rest".to_vec());
}

#[test]
fn head_leaves_body_unread() {
    let uri = uri(URI);
    let mut req = RequestBuilder::new(&uri);
    req.method(Method::HEAD);
    let mut stream = ByteReader::new(RESPONSE.to_vec());
    let mut sink = Vec::new();
    req.receive(&mut stream, &mut sink).unwrap();
    assert_eq!(stream.remaining(), b"<html>hello</html>\r\n\r\nhello".to_vec());
    assert!(!req.wants_body());
}

#[test]
fn head_scan_byte_by_byte() {
    let mut scan = HeadScan::new(&CR_LF_2);
    let mut stop = 0;
    for (i, b) in RESPONSE.iter().enumerate() {
        if scan.feed(*b) {
            stop = i + 1;
            break;
        }
    }
    assert_eq!(stop, RESPONSE_H.len());
    assert_eq!(scan.head(), &RESPONSE_H.to_vec());
    let uri = uri(URI);
    let req = RequestBuilder::new(&uri);
    assert!(req.wants_body());
    assert_eq!(req.head_response(scan.head()).unwrap().status_code(), 200);
}
