use base64::engine::general_purpose;
use base64::Engine as _;

use resocks5::http::byte_lines::{find_double_crlf, find_from, ByteLines};
use resocks5::http::connect::{
    connect_target, finish_http_connect, parse_http_connect, proxy_credentials, read_credentials,
    split_basic_token, Admission, ConnectError, ConnectRequest,
};
use resocks5::http::header::{HeaderBuffer, HeaderProgress, MAX_HEADER_BYTES};
use resocks5::http::response::Response;

/// Stands for the authority grammar of the upstream side.
fn is_authority(target: &str) -> bool {
    match target.rsplit_once(':') {
        Some((host, port)) => !host.is_empty() && port.parse::<u16>().is_ok(),
        None => false,
    }
}

/// Reads a request in pieces of `piece` bytes, as a connection would.
fn parse_in_pieces(
    request: &[u8],
    piece: usize,
    has_users: bool,
    allow_anonymous: bool,
    verified: bool,
) -> Result<ConnectRequest, ConnectError> {
    let mut buffer = HeaderBuffer::new();
    let mut rest = request;
    let end = loop {
        if rest.is_empty() {
            return Err(ConnectError::ClosedEarly);
        }
        let n = rest.len().min(piece);
        let progress = buffer.push(&rest[..n]);
        rest = &rest[n..];
        match progress {
            HeaderProgress::NeedMore => {}
            HeaderProgress::TooLarge => return Err(ConnectError::HeadersTooLarge),
            HeaderProgress::Complete(end) => break end,
        }
    };
    let (head, mut pipelined) = buffer.split(end);
    pipelined.extend_from_slice(rest);
    let target = connect_target(&head)?;
    let handshake =
        parse_http_connect(&head, is_authority(&target), has_users, allow_anonymous)?;
    finish_http_connect(handshake, pipelined, verified)
}

/// An anonymous server without users, as most of the cases below need it.
fn parse_request(request: &[u8]) -> (Result<ConnectRequest, ConnectError>, Vec<u8>) {
    let result = parse_in_pieces(request, 1024, false, true, false);
    let response = match &result {
        Ok(_) => Vec::new(),
        Err(e) => match e.response() {
            Some(r) => r.text().as_bytes().to_vec(),
            None => Vec::new(),
        },
    };
    (result, response)
}

#[test]
fn tests_unsupported_auth_does_not_expose_credentials() {
    let (result, response) = parse_request(
        b"CONNECT example.com:443 HTTP/1.1\r\nProxy-Authorization: Bearer private-token\r\n\r\n",
    );
    let error = result.err().expect("unsupported auth must fail").message();
    assert!(!error.contains("private-token"));
    assert!(response.starts_with(b"HTTP/1.1 407 "));
}

#[test]
fn tests_header_limit_includes_the_terminating_delimiter() {
    let mut request = b"CONNECT example.com:443 HTTP/1.1\r\nX-Pad: ".to_vec();
    request.resize(MAX_HEADER_BYTES - 4, b'a');
    request.extend_from_slice(b"\r\n\r\n");
    assert!(parse_request(&request).0.is_ok());
    request.insert(MAX_HEADER_BYTES - 4, b'a');
    let (result, response) = parse_request(&request);
    assert!(result.is_err());
    assert!(response.starts_with(b"HTTP/1.1 431 "));
}

#[test]
fn tests_invalid_connect_port_is_rejected_with_400_without_dialing() {
    for target in [
        "example.com:notaport",
        "example.com:",
        "example.com:99999",
        "example.com:65536",
        "example.com:-1",
        ":443",
        "[::1]",
    ] {
        let request = format!("CONNECT {target} HTTP/1.1\r\nHost: example.com\r\n\r\n");
        let (result, response) = parse_request(request.as_bytes());
        let error = result.err().expect("the target must be rejected");
        assert!(!error.message().contains("upstream"));
        assert!(matches!(error, ConnectError::TargetNotAuthority(ref t) if t == target));
        assert!(response.starts_with(b"HTTP/1.1 400 "), "{target:?}");
    }
}

#[test]
fn control_bytes_in_connect_target_are_rejected_with_400_without_dialing() {
    for target in [
        "exa\x00mple.com:443",
        "exa\x01mple.com:443",
        "exa\x7Fmple.com:443",
        "exa\nmple.com:443",
    ] {
        let request = format!("CONNECT {target} HTTP/1.1\r\nHost: example.com\r\n\r\n");
        let (result, response) = parse_request(request.as_bytes());
        let error = result.err().expect("the target must be rejected");
        assert!(!error.message().contains("upstream"));
        assert_eq!(
            error.message(),
            format!("CONNECT target contains control or whitespace bytes — {target:?}")
        );
        assert!(response.starts_with(b"HTTP/1.1 400 "), "{target:?}");
    }
}

#[test]
fn tests_valid_connect_authorities_still_parse() {
    for target in [
        "example.com:443",
        "1.2.3.4:443",
        "[2001:db8::1]:443",
        "2001:db8::1:443",
    ] {
        let request = format!("CONNECT {target} HTTP/1.1\r\nHost: example.com\r\n\r\n");
        let (result, _) = parse_request(request.as_bytes());
        assert_eq!(result.unwrap().target, target);
    }
}

#[test]
fn tests_opaque_byte_in_unused_header_does_not_break_connect() {
    let request =
        b"CONNECT example.com:443 HTTP/1.1\r\nHost: example.com\r\nX-Opaque: \xE9\r\n\r\n".to_vec();
    let (result, response) = parse_request(&request);
    let req = result.expect("obs-text in an unused header must not fail the parse");
    assert_eq!(req.target, "example.com:443");
    assert!(response.is_empty());
}

#[test]
fn tests_non_utf8_proxy_authorization_value_is_rejected_with_407() {
    let (result, response) = parse_request(
        b"CONNECT example.com:443 HTTP/1.1\r\nProxy-Authorization: Basic \xE9\r\n\r\n",
    );
    assert!(matches!(result, Err(ConnectError::CredentialsFieldNotUtf8)));
    assert!(response.starts_with(b"HTTP/1.1 407 "));
}

#[test]
fn tests_non_utf8_request_line_is_rejected_with_400() {
    let (result, response) =
        parse_request(b"CONNECT ex\xE9ample.com:443 HTTP/1.1\r\nHost: example.com\r\n\r\n");
    assert!(matches!(result, Err(ConnectError::RequestLineNotUtf8)));
    assert!(response.starts_with(b"HTTP/1.1 400 "));
}

#[test]
fn byte_lines_yields_the_old_collect_semantics_without_the_table() {
    fn old_lines(mut rest: &[u8]) -> Vec<&[u8]> {
        let mut lines = Vec::new();
        while let Some(pos) = rest.windows(2).position(|w| w == b"\r\n") {
            lines.push(&rest[..pos]);
            rest = &rest[pos + 2..];
        }
        lines.push(rest);
        lines
    }

    let buffers: [&[u8]; 6] = [
        b"CONNECT example.com:443 HTTP/1.1\r\nHost: example.com",
        b"CONNECT example.com:443 HTTP/1.1\r\nHost: example.com\r\n",
        b"\r\nFAST-OPEN-CLIENTHELLO",
        b"single line without terminator",
        b"",
        b"first\r\n\r\nthird",
    ];
    for buf in buffers {
        let mut expected = old_lines(buf);
        if expected.last().is_some_and(|last| last.is_empty()) {
            expected.pop();
        }
        let mut lines = ByteLines { rest: buf };
        let mut collected: Vec<&[u8]> = Vec::new();
        while let Some(line) = lines.next() {
            collected.push(line);
        }
        assert_eq!(collected, expected, "byte-lines mismatch for buffer {buf:?}");
        assert!(lines.next().is_none());
    }
}

#[test]
fn thousands_of_header_lines_are_still_fully_scanned() {
    let mut request = b"CONNECT example.com:443 HTTP/1.1\r\n".to_vec();
    request.extend_from_slice(&b"X:\r\n".repeat(4000));

    let mut with_auth = request.clone();
    with_auth.extend_from_slice(b"Proxy-Authorization: Basic dXNlcjpwYXNz\r\n\r\n");
    let (result, response) = parse_request(&with_auth);
    assert!(matches!(result, Err(ConnectError::NoUsersConfigured)));
    assert!(response.starts_with(b"HTTP/1.1 407 "));

    request.extend_from_slice(b"\r\n");
    let (result, response) = parse_request(&request);
    let req = result.expect("filler headers alone must parse");
    assert_eq!(req.target, "example.com:443");
    assert!(response.is_empty());
}

#[test]
fn proxy_auth_challenge_declares_utf8_charset() {
    let (_, response) = parse_request(
        b"CONNECT example.com:443 HTTP/1.1\r\nProxy-Authorization: Bearer token\r\n\r\n",
    );
    assert!(response.starts_with(b"HTTP/1.1 407 "));
    let text = String::from_utf8_lossy(&response);
    assert!(
        text.contains("Proxy-Authenticate: Basic realm=\"resocks5\", charset=\"UTF-8\""),
        "the 407 challenge must declare charset=UTF-8, got: {text:?}"
    );
}

#[test]
fn every_response_closes_the_connection() {
    let all = [
        (Response::BadRequest, "HTTP/1.1 400 Bad Request\r\n"),
        (Response::Forbidden, "HTTP/1.1 403 Forbidden\r\n"),
        (Response::ProxyAuthenticationRequired, "HTTP/1.1 407 "),
        (Response::HeaderFieldsTooLarge, "HTTP/1.1 431 Request Header Fields Too Large\r\n"),
        (Response::NotImplemented, "HTTP/1.1 501 Not Implemented\r\n"),
        (Response::BadGateway, "HTTP/1.1 502 Bad Gateway\r\n"),
        (Response::ServiceUnavailable, "HTTP/1.1 503 Service Unavailable\r\n"),
    ];
    for (response, start) in all {
        assert!(response.text().starts_with(start));
        assert!(response.text().ends_with("\r\nConnection: close\r\nContent-Length: 0\r\n\r\n"));
    }
}

#[test]
fn header_is_independent_of_the_pieces() {
    let request = b"CONNECT example.com:443 HTTP/1.1\r\nHost: x\r\n\r\n\x16\x03\x01hello";
    for piece in 1..=request.len() {
        let r = parse_in_pieces(request, piece, false, true, false).unwrap();
        assert_eq!(r.target, "example.com:443");
        assert_eq!(r.pipelined, b"\x16\x03\x01hello".to_vec());
        assert_eq!(r.client_user, None);
    }
    for total in [MAX_HEADER_BYTES, MAX_HEADER_BYTES + 1] {
        let open = vec![b'a'; total];
        for piece in [1, 3, 1024, total] {
            let e = parse_in_pieces(&open, piece, false, true, false).unwrap_err();
            if total > MAX_HEADER_BYTES {
                assert!(matches!(e, ConnectError::HeadersTooLarge));
            } else {
                assert!(matches!(e, ConnectError::ClosedEarly));
            }
        }
    }
    assert!(ConnectError::ClosedEarly.response().is_none());
    assert_eq!(
        ConnectError::ClosedEarly.message(),
        "client closed before sending HTTP request line"
    );
    assert_eq!(ConnectError::HeadersTooLarge.message(), "HTTP headers exceeded 16384 bytes");
}

#[test]
fn request_line_errors() {
    let cases: [(&[u8], &str, Response); 8] = [
        (b"", "malformed HTTP request line: \"\"", Response::BadRequest),
        (b"CONNECT", "malformed HTTP request line: \"CONNECT\"", Response::BadRequest),
        (b"CONNECT a:1", "malformed HTTP request line: \"CONNECT a:1\"", Response::BadRequest),
        (b"CONNECT a:1 http/1.1", "malformed HTTP request line: \"CONNECT a:1 http/1.1\"", Response::BadRequest),
        (b" a:1 HTTP/1.1", "malformed HTTP request line: \" a:1 HTTP/1.1\"", Response::BadRequest),
        (b"CONNECT  HTTP/1.1", "malformed HTTP request line: \"CONNECT  HTTP/1.1\"", Response::BadRequest),
        (b"GET http://x/ HTTP/1.1", "only CONNECT is supported, client sent \"GET\"", Response::NotImplemented),
        (b"connect a:1 HTTP/1.1", "only CONNECT is supported, client sent \"connect\"", Response::NotImplemented),
    ];
    for (line, message, response) in cases {
        let e = connect_target(line).unwrap_err();
        assert_eq!(e.message(), message);
        assert_eq!(e.response(), Some(response));
    }
    assert_eq!(connect_target(b"CONNECT a:1 HTTP/1.1 x\r\nB: c").unwrap(), "a:1");
    assert_eq!(connect_target("CONNECT bücher.example:1 HTTP/2".as_bytes()).unwrap(), "bücher.example:1");
}

#[test]
fn credentials_are_read_from_the_first_field() {
    let token = general_purpose::STANDARD.encode("alice:pa:ss wörd");
    let head = format!(
        "CONNECT a:1 HTTP/1.1\r\nno colon here\r\n \tPROXY-authorization\t : \tbAsIc   {token}  \r\nProxy-Authorization: Bearer x"
    );
    let c = proxy_credentials(head.as_bytes()).unwrap().unwrap();
    assert_eq!(c.user, "alice");
    assert_eq!(c.password, "pa:ss wörd");

    assert!(proxy_credentials(b"CONNECT a:1 HTTP/1.1\r\nAuthorization: Basic eA==").unwrap().is_none());
    assert!(proxy_credentials(b"Proxy-Authorization: Basic eDp5").unwrap().is_none());
    assert!(proxy_credentials(b"").unwrap().is_none());
}

#[test]
fn credential_errors() {
    let of = |value: &str| {
        proxy_credentials(format!("CONNECT a:1 HTTP/1.1\r\nProxy-Authorization: {value}").as_bytes())
            .err()
            .unwrap()
    };
    assert_eq!(of("").message(), "unsupported Proxy-Authorization scheme");
    assert_eq!(of("Basic").message(), "unsupported Proxy-Authorization scheme");
    assert_eq!(of("Basic !!!").message(), "Proxy-Authorization base64 decode failed");
    assert_eq!(of("Basic YTpi====").message(), "Proxy-Authorization base64 decode failed");
    assert_eq!(of("Basic YTp").message(), "Proxy-Authorization base64 decode failed");
    let bad = general_purpose::STANDARD.encode([0x61u8, 0x3a, 0xff]);
    assert_eq!(of(&format!("Basic {bad}")).message(), "Proxy-Authorization not valid UTF-8");
    assert_eq!(of("Basic YWJj").message(), "Proxy-Authorization missing ':'");
    for value in ["", "Basic !!!", "Basic YWJj"] {
        assert_eq!(of(value).response(), Some(Response::ProxyAuthenticationRequired));
    }

    assert!(matches!(read_credentials(None), Err(ConnectError::Base64Invalid)));
    let c = read_credentials(Some(b":".to_vec())).unwrap();
    assert_eq!((c.user.as_str(), c.password.as_str()), ("", ""));
    assert_eq!(split_basic_token("BASIC  x "), Some("x"));
    assert_eq!(split_basic_token("Basic"), None);
    assert_eq!(split_basic_token("Basic "), Some(""));
    assert_eq!(split_basic_token("Digest x"), None);
}

#[test]
fn access_policy() {
    let plain = b"CONNECT a:1 HTTP/1.1\r\n\r\n";
    let with = b"CONNECT a:1 HTTP/1.1\r\nProxy-Authorization: Basic dXNlcjpwYXNz\r\n\r\n";
    for verified in [false, true] {
        // No users.
        assert!(parse_in_pieces(plain, 9, false, true, verified).unwrap().client_user.is_none());
        let e = parse_in_pieces(plain, 9, false, false, verified).unwrap_err();
        assert_eq!(e.message(), "anonymous HTTP CONNECT not allowed (allow_anonymous=false)");
        for anonymous in [false, true] {
            let e = parse_in_pieces(with, 9, false, anonymous, verified).unwrap_err();
            assert_eq!(
                e.message(),
                "client sent Proxy-Authorization but server has no users configured"
            );
            assert_eq!(e.response(), Some(Response::ProxyAuthenticationRequired));
        }
        // Users.
        assert!(parse_in_pieces(plain, 9, true, true, verified).unwrap().client_user.is_none());
        assert!(parse_in_pieces(plain, 9, true, false, verified).is_err());
    }
    for anonymous in [false, true] {
        let r = parse_in_pieces(with, 9, true, anonymous, true).unwrap();
        assert_eq!(r.client_user.as_deref(), Some("user"));
        let e = parse_in_pieces(with, 9, true, anonymous, false).unwrap_err();
        assert_eq!(e.message(), "HTTP auth failed for user \"user\"");
        assert_eq!(e.response(), Some(Response::ProxyAuthenticationRequired));
    }
    let h = parse_http_connect(&with[..with.len() - 4], true, true, false).unwrap();
    match h.admission {
        Admission::Verify(c) => assert_eq!(c.password, "pass"),
        Admission::Anonymous => panic!("expected credentials"),
    }
}

#[test]
fn patterns_are_found_where_they_first_stand() {
    assert_eq!(find_double_crlf(b""), None);
    assert_eq!(find_double_crlf(b"\r\n\r"), None);
    assert_eq!(find_double_crlf(b"\r\n\r\n"), Some(0));
    assert_eq!(find_double_crlf(b"a\r\n\r\r\n\r\n\r\n"), Some(4));
    assert_eq!(find_from(b"abab", b"ab", 1), Some(2));
    assert_eq!(find_from(b"abab", b"ab", 3), None);
    assert_eq!(find_from(b"ab", b"ab", 9), None);
}
