use rust_socksd::base64::decode_base64;
use rust_socksd::http_proxy::{
    parse_basic_credentials, HttpError, HttpFeed, HttpParser, HttpParseState, HttpProxyHandler,
    HttpRequest,
};

fn feed_all(parser: &mut HttpParser, lines: &[&str]) -> HttpFeed {
    let mut last = HttpFeed::NeedMore;
    for line in lines {
        let raw = line.len() + 2;
        last = parser.feed_line(line, if line.is_empty() { 0 } else { raw });
        match last {
            HttpFeed::NeedMore => continue,
            _ => break,
        }
    }
    last
}

#[test]
fn connect_with_valid_basic_auth() {
    let mut parser = HttpParser::new(1_048_576);
    let outcome = feed_all(
        &mut parser,
        &[
            "CONNECT example.com:443 HTTP/1.1",
            "Host: example.com:443",
            "Proxy-Authorization: Basic YWxpY2U6c2Vj",
            "",
        ],
    );
    assert_eq!(outcome, HttpFeed::Done);
    let request = parser.to_request();
    assert!(request.is_connect());
    let (host, port) = request.get_host_port().unwrap();
    assert_eq!(host, "example.com");
    assert_eq!(port, 443);

    let auth = request.header_value("proxy-authorization").unwrap().clone();
    let (user, pass) = parse_basic_credentials(&auth).unwrap();
    assert_eq!(user, b"alice".to_vec());
    assert_eq!(pass, b"sec".to_vec());

    let handler = HttpProxyHandler;
    assert_eq!(
        handler.connection_established(),
        "HTTP/1.1 200 Connection Established\r\n\r\n"
    );
}

#[test]
fn absolute_uri_without_auth_gets_407_challenge() {
    let mut parser = HttpParser::new(1_048_576);
    let outcome = feed_all(&mut parser, &["GET http://example.com/ HTTP/1.1", ""]);
    assert_eq!(outcome, HttpFeed::Done);
    let request = parser.to_request();
    assert!(!request.is_connect());
    let (host, port) = request.get_host_port().unwrap();
    assert_eq!(host, "example.com");
    assert_eq!(port, 80);
    assert!(request.header_value("proxy-authorization").is_none());

    let handler = HttpProxyHandler;
    let challenge = handler.auth_required_response();
    assert!(challenge.starts_with("HTTP/1.1 407 Proxy Authentication Required\r\n"));
    assert!(challenge.contains("Proxy-Authenticate: Basic realm=\"Proxy\""));
    assert!(challenge.contains("Connection: close"));
}

#[test]
fn header_names_fold_and_values_trim() {
    let mut parser = HttpParser::new(4096);
    feed_all(
        &mut parser,
        &[
            "GET http://h/ HTTP/1.1",
            "HoSt:   padded.example   ",
            "X-One: 1",
            "X-One: 2",
            "no-colon-line",
            "",
        ],
    );
    let request = parser.to_request();
    assert_eq!(request.header_value("host").unwrap(), "padded.example");
    // A repeated name replaces the stored value, and lookup is by folded name.
    assert_eq!(request.header_value("x-one").unwrap(), "2");
    assert!(request.header_value("HoSt").is_none());
    assert_eq!(request.headers.len(), 2);
}

#[test]
fn request_line_must_have_exactly_three_tokens() {
    let mut parser = HttpParser::new(4096);
    let r = parser.feed_line("GET /", 7);
    assert_eq!(r, HttpFeed::Reject(HttpError::MalformedRequestLine));
    assert_eq!(parser.state, HttpParseState::Failed);

    let mut parser = HttpParser::new(4096);
    let r = parser.feed_line("GET / HTTP/1.1 extra", 22);
    assert_eq!(r, HttpFeed::Reject(HttpError::MalformedRequestLine));

    let mut parser = HttpParser::new(4096);
    let r = parser.feed_line("", 0);
    assert_eq!(r, HttpFeed::Reject(HttpError::EmptyRequest));
}

#[test]
fn oversize_preface_is_rejected() {
    let mut parser = HttpParser::new(30);
    let r = parser.feed_line("GET http://example.com/ HTTP/1.1", 34);
    assert_eq!(r, HttpFeed::Reject(HttpError::OversizeRequest));
    assert_eq!(parser.state, HttpParseState::Failed);

    let mut parser = HttpParser::new(40);
    assert_eq!(parser.feed_line("GET http://e/ HTTP/1.1", 24), HttpFeed::NeedMore);
    let r = parser.feed_line("Header: value-that-overflows", 30);
    assert_eq!(r, HttpFeed::Reject(HttpError::OversizeRequest));
}

fn request_with_uri(method: &str, uri: &str) -> HttpRequest {
    HttpRequest {
        method: method.to_string(),
        uri: uri.to_string(),
        version: "HTTP/1.1".to_string(),
        headers: Vec::new(),
    }
}

#[test]
fn connect_uri_rules() {
    let r = request_with_uri("CONNECT", "example.com:443");
    assert_eq!(r.get_host_port().unwrap(), ("example.com".to_string(), 443));

    let r = request_with_uri("connect", "example.com:443");
    assert!(r.is_connect());

    let r = request_with_uri("CONNECT", "example.com");
    assert_eq!(r.get_host_port().unwrap_err(), HttpError::InvalidUri);

    let r = request_with_uri("CONNECT", "example.com:99999");
    assert_eq!(r.get_host_port().unwrap_err(), HttpError::InvalidPort);

    let r = request_with_uri("CONNECT", "a:b:443");
    assert_eq!(r.get_host_port().unwrap_err(), HttpError::InvalidUri);

    let r = request_with_uri("CONNECT", "example.com:+443");
    assert_eq!(r.get_host_port().unwrap(), ("example.com".to_string(), 443));
}

#[test]
fn proxy_uri_rules() {
    let r = request_with_uri("GET", "http://example.com/path");
    assert_eq!(r.get_host_port().unwrap(), ("example.com".to_string(), 80));

    let r = request_with_uri("GET", "https://example.com/");
    assert_eq!(r.get_host_port().unwrap(), ("example.com".to_string(), 443));

    let r = request_with_uri("GET", "http://example.com:8080/x");
    assert_eq!(r.get_host_port().unwrap(), ("example.com".to_string(), 8080));

    let r = request_with_uri("GET", "example.com:81");
    assert_eq!(r.get_host_port().unwrap(), ("example.com".to_string(), 81));

    let r = request_with_uri("GET", "example.com");
    assert_eq!(r.get_host_port().unwrap(), ("example.com".to_string(), 80));

    let r = request_with_uri("GET", "http:///path");
    assert_eq!(r.get_host_port().unwrap_err(), HttpError::InvalidUri);

    let r = request_with_uri("GET", "http://example.com:notaport/");
    assert_eq!(r.get_host_port().unwrap_err(), HttpError::InvalidPort);
}

#[test]
fn forwarded_request_strips_hop_by_hop_headers() {
    let request = HttpRequest {
        method: "GET".to_string(),
        uri: "http://example.com/".to_string(),
        version: "HTTP/1.1".to_string(),
        headers: vec![
            ("host".to_string(), "example.com".to_string()),
            ("proxy-connection".to_string(), "keep-alive".to_string()),
            ("proxy-authorization".to_string(), "Basic YWxpY2U6c2Vj".to_string()),
            ("accept".to_string(), "*/*".to_string()),
        ],
    };
    let handler = HttpProxyHandler;
    let forwarded = handler.build_forward_request(&request);
    assert_eq!(
        forwarded,
        "GET http://example.com/ HTTP/1.1\r\nhost: example.com\r\naccept: */*\r\n\r\n"
    );
}

#[test]
fn error_response_carries_length_and_close() {
    let handler = HttpProxyHandler;
    let response = handler.error_response(502, "Bad Gateway");
    assert_eq!(
        response,
        "HTTP/1.1 502 Bad Gateway\r\nContent-Length: 11\r\nConnection: close\r\n\r\nBad Gateway"
    );
}

#[test]
fn basic_credentials_parsing() {
    let (u, p) = parse_basic_credentials("Basic YWxpY2U6c2Vj").unwrap();
    assert_eq!(u, b"alice".to_vec());
    assert_eq!(p, b"sec".to_vec());

    // Scheme word is case-insensitive; password may contain further colons.
    let (u, p) = parse_basic_credentials("basic YTpiOmM=").unwrap();
    assert_eq!(u, b"a".to_vec());
    assert_eq!(p, b"b:c".to_vec());

    assert!(parse_basic_credentials("Bearer YWxpY2U6c2Vj").is_none());
    assert!(parse_basic_credentials("Basic !!!!").is_none());
    assert!(parse_basic_credentials("Basic YWJj").is_none()); // no colon
    assert!(parse_basic_credentials("Basic").is_none());
}

#[test]
fn base64_decoding() {
    assert_eq!(decode_base64("YWxpY2U6c2Vj", 0).unwrap(), b"alice:sec".to_vec());
    assert_eq!(decode_base64("QQ==", 0).unwrap(), b"A".to_vec());
    assert_eq!(decode_base64("QUI=", 0).unwrap(), b"AB".to_vec());
    assert_eq!(decode_base64("QUJD", 0).unwrap(), b"ABC".to_vec());
    assert_eq!(decode_base64("", 0).unwrap(), Vec::<u8>::new());
    assert!(decode_base64("QQ=", 0).is_none());
    assert!(decode_base64("Q", 0).is_none());
    assert!(decode_base64("====", 0).is_none());
    assert!(decode_base64("QQ==QUJD", 0).is_none()); // padding not at the end
    assert!(decode_base64("QR==", 0).is_none()); // non-canonical trailing bits
}
