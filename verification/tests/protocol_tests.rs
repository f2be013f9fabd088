use rubyshd::protocol::{
    chars_climb, header_is_host, host_of_request, move_of_segment, target_climbs,
    url_text_climbs, url_text_of_head, url_text_of_line, DecodeError, HttpHead, HttpHeader,
    Protocol, Segment, CACHEABLE_MAX_AGE_SECONDS,
};
use rubyshd::response::{Response, Status};

fn statuses() -> Vec<Status> {
    vec![
        Status::Success,
        Status::TemporaryRedirect,
        Status::PermanentRedirect,
        Status::Unauthenticated,
        Status::Unauthorized,
        Status::NotFound,
        Status::RequestTooLarge,
        Status::RateLimit,
        Status::OtherServerError,
        Status::OtherClientError,
    ]
}

#[test]
fn protocols_have_their_names_media_types_and_extensions() {
    assert_eq!(Protocol::Gemini.to_string(), "Gemini");
    assert_eq!(Protocol::Https.to_string(), "HTTPS");
    assert_eq!(Protocol::Gemini.media_type(), "text/gemini");
    assert_eq!(Protocol::Https.media_type(), "text/html; charset=utf-8");
    assert_eq!(Protocol::Gemini.media_type_file_extensions(), vec!["gmi".to_string()]);
    assert_eq!(
        Protocol::Https.media_type_file_extensions(),
        vec!["html".to_string(), "htm".to_string()]
    );
    assert_eq!(CACHEABLE_MAX_AGE_SECONDS, 14_400);
}

#[test]
fn the_scheme_decides_the_protocol() {
    assert_eq!(Protocol::from_scheme("gemini"), Protocol::Gemini);
    assert_eq!(Protocol::from_scheme("https"), Protocol::Https);
    assert_eq!(Protocol::from_scheme("http"), Protocol::Https);
    assert_eq!(Protocol::from_scheme("Gemini"), Protocol::Https);
    assert_eq!(Protocol::from_scheme(""), Protocol::Https);
}

#[test]
fn gemini_codes() {
    let expected: Vec<u16> = vec![20, 30, 31, 60, 61, 51, 50, 44, 40, 59];
    let got: Vec<u16> = statuses().into_iter().map(|s| Protocol::Gemini.code_of(s)).collect();
    assert_eq!(got, expected);
}

#[test]
fn https_codes() {
    let expected: Vec<u16> = vec![200, 302, 301, 401, 403, 404, 413, 429, 500, 400];
    let got: Vec<u16> = statuses().into_iter().map(|s| Protocol::Https.code_of(s)).collect();
    assert_eq!(got, expected);
}

#[test]
fn codes_are_distinct_under_each_protocol_and_between_them() {
    for p in [Protocol::Gemini, Protocol::Https] {
        for a in statuses() {
            for b in statuses() {
                if a != b {
                    assert_ne!(p.code_of(a), p.code_of(b));
                }
            }
        }
    }
    for a in statuses() {
        for b in statuses() {
            assert_ne!(Protocol::Gemini.code_of(a), Protocol::Https.code_of(b));
        }
    }
}

#[test]
fn gemini_success_sends_header_line_and_body() {
    let response = Response::new(Status::Success, "text/gemini", b"# hi\n", true);
    let wire = Protocol::Gemini.write_response(&response);
    assert_eq!(wire, b"20 text/gemini\r\n# hi\n".to_vec());
}

#[test]
fn gemini_sends_the_body_with_code_20_only() {
    for status in statuses() {
        let response = Response::new(status, "text/gemini", b"BODY", false);
        let wire = Protocol::Gemini.write_response(&response);
        let ends_with_body = wire.ends_with(b"\r\nBODY");
        assert_eq!(ends_with_body, status == Status::Success);
        if status != Status::Success {
            assert!(wire.ends_with(b"\r\n"));
            assert_eq!(wire.iter().filter(|b| **b == b'\n').count(), 1);
        }
    }
}

#[test]
fn gemini_redirects_send_the_target() {
    let response = Response::new_with_redirect_uri(Status::TemporaryRedirect, "/elsewhere");
    assert_eq!(Protocol::Gemini.write_response(&response), b"30 /elsewhere\r\n".to_vec());
    let response = Response::new_with_redirect_uri(Status::PermanentRedirect, "gemini://b/");
    assert_eq!(Protocol::Gemini.write_response(&response), b"31 gemini://b/\r\n".to_vec());
}

#[test]
fn gemini_errors_send_their_text() {
    let texts = vec![
        (Status::Unauthenticated, "60 Unauthorized\r\n"),
        (Status::Unauthorized, "61 Forbidden\r\n"),
        (Status::NotFound, "51 Not Found\r\n"),
        (Status::RequestTooLarge, "50 Payload Too Large\r\n"),
        (Status::RateLimit, "44 Too Many Requests\r\n"),
        (Status::OtherServerError, "40 Internal Server Error\r\n"),
        (Status::OtherClientError, "59 Bad Request\r\n"),
    ];
    for (status, line) in texts {
        let response = Response::new(status, "text/plain", b"ignored", false);
        assert_eq!(Protocol::Gemini.write_response(&response), line.as_bytes().to_vec());
    }
}

#[test]
fn https_success_sends_all_headers_and_the_body() {
    let response = Response::new(Status::Success, "text/html; charset=utf-8", b"hello", true);
    let wire = Protocol::Https.write_response(&response);
    let expected = "HTTP/1.1 200 OK\r\n\
        Content-Length: 5\r\n\
        Content-Type: text/html; charset=utf-8\r\n\
        Cache-Control: public, max-age=14400, must-revalidate\r\n\
        Server: rubyshd\r\n\
        \r\n\
        hello";
    assert_eq!(String::from_utf8(wire).unwrap(), expected);
}

#[test]
fn https_without_a_body_sends_neither_type_nor_cache_control() {
    let response = Response::new(Status::Success, "text/html", b"", true);
    let wire = Protocol::Https.write_response(&response);
    let expected = "HTTP/1.1 200 OK\r\nContent-Length: 0\r\nServer: rubyshd\r\n\r\n";
    assert_eq!(String::from_utf8(wire).unwrap(), expected);
}

#[test]
fn https_redirects_send_the_location() {
    let response = Response::new_with_redirect_uri(Status::PermanentRedirect, "/new");
    let wire = Protocol::Https.write_response(&response);
    let expected = "HTTP/1.1 301 Moved Permanently\r\nContent-Length: 0\r\nServer: rubyshd\r\n\
        Location: /new\r\n\r\n";
    assert_eq!(String::from_utf8(wire).unwrap(), expected);
    let response = Response::new_with_redirect_uri(Status::TemporaryRedirect, "/tmp");
    let wire = String::from_utf8(Protocol::Https.write_response(&response)).unwrap();
    assert!(wire.starts_with("HTTP/1.1 302 Found\r\n"));
    assert!(wire.contains("\r\nLocation: /tmp\r\n"));
}

#[test]
fn https_caches_a_cacheable_success_only() {
    let not_cacheable = Response::new(Status::Success, "text/html", b"x", false);
    let wire = String::from_utf8(Protocol::Https.write_response(&not_cacheable)).unwrap();
    assert!(wire.contains("Cache-Control: public, max-age=0, must-revalidate\r\n"));
    let failed = Response::new(Status::NotFound, "text/html", b"x", true);
    let wire = String::from_utf8(Protocol::Https.write_response(&failed)).unwrap();
    assert!(wire.starts_with("HTTP/1.1 404 Not Found\r\n"));
    assert!(wire.contains("Cache-Control: public, max-age=0, must-revalidate\r\n"));
}

#[test]
fn https_status_lines() {
    let lines = vec![
        (Status::OtherClientError, "HTTP/1.1 400 Bad Request\r\n"),
        (Status::Unauthenticated, "HTTP/1.1 401 Unauthenticated\r\n"),
        (Status::Unauthorized, "HTTP/1.1 403 Forbidden\r\n"),
        (Status::RequestTooLarge, "HTTP/1.1 413 Payload Too Large\r\n"),
        (Status::RateLimit, "HTTP/1.1 429 Too Many Requests\r\n"),
        (Status::OtherServerError, "HTTP/1.1 500 Internal Server Error\r\n"),
    ];
    for (status, line) in lines {
        let response = Response::new(status, "text/plain", b"x", false);
        let wire = String::from_utf8(Protocol::Https.write_response(&response)).unwrap();
        assert!(wire.starts_with(line));
        assert!(wire.ends_with("\r\n\r\nx"));
    }
}

#[test]
fn header_values_are_cut_down_to_their_first_line() {
    let response = Response::new(Status::Success, "text/html\r\nX-Evil: 1", b"x", false);
    let wire = String::from_utf8(Protocol::Https.write_response(&response)).unwrap();
    assert!(wire.contains("\r\nContent-Type: text/html\r\n"));
    assert!(!wire.contains("X-Evil"));
    let response = Response::new_with_redirect_uri(Status::TemporaryRedirect, "/a\n20 text/gemini");
    assert_eq!(Protocol::Gemini.write_response(&response), b"30 /a\r\n".to_vec());
    let response = Response::new(Status::Success, "\ntext/gemini", b"x", false);
    assert_eq!(Protocol::Gemini.write_response(&response), b"20 \r\nx".to_vec());
}

#[test]
fn gemini_request_is_decoded_to_its_url() {
    let url = Protocol::parse_req_buf("localhost", b"gemini://example.org/a/b\r\n\0\0").unwrap();
    assert_eq!(url.scheme, "gemini");
    assert_eq!(url.path, "/a/b");
    let url = Protocol::parse_req_buf("localhost", b"gemini://example.org").unwrap();
    assert_eq!(url.scheme, "gemini");
    assert_eq!(url.path, "");
}

#[test]
fn gemini_request_that_is_not_utf8_is_refused() {
    let r = Protocol::parse_req_buf("localhost", b"gemini://example.org/\xff\r\n");
    assert_eq!(r.unwrap_err(), DecodeError::GeminiNotUtf8);
    assert_eq!(DecodeError::GeminiNotUtf8.protocol(), Protocol::Gemini);
    assert_eq!(DecodeError::GeminiNotUtf8.status(), Status::OtherClientError);
}

#[test]
fn gemini_request_without_a_url_is_refused() {
    let r = Protocol::parse_req_buf("localhost", b"gemini://exa mple.org/\r\n");
    assert_eq!(r.unwrap_err(), DecodeError::GeminiBadUrl);
    assert_eq!(DecodeError::GeminiBadUrl.protocol(), Protocol::Gemini);
    assert_eq!(DecodeError::GeminiBadUrl.status(), Status::OtherClientError);
}

#[test]
fn http_request_uses_the_host_header() {
    let buf = b"GET /x/../y HTTP/1.1\r\nhOsT: example.org\r\n\r\n";
    let url = Protocol::parse_req_buf("localhost", buf).unwrap();
    assert_eq!(url.scheme, "https");
    assert_eq!(url.path, "/y");
}

#[test]
fn http_request_that_is_cut_short_is_too_large() {
    let e = Protocol::parse_req_buf("localhost", b"GET / HTTP/1.1\r\n").unwrap_err();
    assert_eq!(e, DecodeError::HttpTooLarge);
    assert_eq!(e.protocol(), Protocol::Https);
    assert_eq!(e.status(), Status::RequestTooLarge);
    assert_eq!(e.message(), "http request is too large");
}

#[test]
fn http_request_that_is_none_is_refused() {
    let e = Protocol::parse_req_buf("localhost", b"\x01\x02 nonsense\r\n\r\n").unwrap_err();
    assert_eq!(e, DecodeError::HttpBadRequest);
    assert_eq!(e.protocol(), Protocol::Https);
    assert_eq!(e.status(), Status::OtherClientError);
}

#[test]
fn http_request_with_more_than_sixteen_headers_is_refused() {
    let mut buf = b"GET / HTTP/1.1\r\n".to_vec();
    for i in 0..17 {
        buf.extend_from_slice(format!("X-H{}: v\r\n", i).as_bytes());
    }
    buf.extend_from_slice(b"\r\n");
    assert_eq!(
        Protocol::parse_req_buf("localhost", &buf).unwrap_err(),
        DecodeError::HttpBadRequest
    );
}

#[test]
fn http_request_whose_host_makes_no_url_is_refused() {
    let buf = b"GET / HTTP/1.1\r\nHost: exa mple\r\n\r\n";
    let e = Protocol::parse_req_buf("localhost", buf).unwrap_err();
    assert_eq!(e, DecodeError::HttpBadUrl);
    assert_eq!(e.status(), Status::OtherClientError);
}

#[test]
fn the_default_host_stands_in_for_a_missing_or_broken_one() {
    let none: Vec<HttpHeader> = vec![];
    assert_eq!(host_of_request(&none, "fallback.example"), "fallback.example");
    let headers = vec![
        HttpHeader { name: "Accept".to_string(), value: b"*/*".to_vec() },
        HttpHeader { name: "HOST".to_string(), value: b"first.example".to_vec() },
        HttpHeader { name: "Host".to_string(), value: b"second.example".to_vec() },
    ];
    assert_eq!(host_of_request(&headers, "fallback.example"), "first.example");
    let broken = vec![HttpHeader { name: "host".to_string(), value: vec![0xff, 0xfe] }];
    assert_eq!(host_of_request(&broken, "fallback.example"), "fallback.example");
}

#[test]
fn host_is_matched_in_any_case() {
    assert!(header_is_host("Host"));
    assert!(header_is_host("HOST"));
    assert!(header_is_host("hOsT"));
    assert!(!header_is_host("Hosts"));
    assert!(!header_is_host("Hos"));
    assert!(!header_is_host("Ho\u{17f}t"));
    assert!(!header_is_host(""));
}

#[test]
fn the_url_of_a_line_request_is_its_first_line() {
    assert_eq!(url_text_of_line(b"gemini://a/b\r\nrest\n"), Ok("gemini://a/b".to_string()));
    assert_eq!(url_text_of_line(b"gemini://a/b"), Ok("gemini://a/b".to_string()));
    assert_eq!(url_text_of_line(b"gemini://a/\xc3\xa9\n"), Ok("gemini://a/\u{e9}".to_string()));
    assert_eq!(url_text_of_line(b"gemini://a/\xc3\n"), Err(DecodeError::GeminiNotUtf8));
}

#[test]
fn the_url_of_a_head_is_made_of_host_and_target() {
    let head = HttpHead::Complete {
        path: Some("/a?b=c".to_string()),
        headers: vec![HttpHeader { name: "Host".to_string(), value: b"example.org:8443".to_vec() }],
    };
    assert_eq!(url_text_of_head(&head, "localhost"), Ok("https://example.org:8443/a?b=c".to_string()));
    let head = HttpHead::Complete { path: None, headers: vec![] };
    assert_eq!(url_text_of_head(&head, "localhost"), Ok("https://localhost/".to_string()));
    assert_eq!(url_text_of_head(&HttpHead::Partial, "localhost"), Err(DecodeError::HttpTooLarge));
    assert_eq!(url_text_of_head(&HttpHead::Invalid, "localhost"), Err(DecodeError::HttpBadRequest));
}

#[test]
fn every_failure_has_its_sentence() {
    assert_eq!(
        DecodeError::GeminiNotUtf8.message(),
        "request looks like gemini but is not a valid UTF-8 seq"
    );
    assert_eq!(DecodeError::GeminiBadUrl.message(), "error parsing gemini url");
    assert_eq!(DecodeError::HttpBadRequest.message(), "error parsing http request");
    assert_eq!(DecodeError::HttpBadUrl.message(), "error converting http req to a url");
    assert_eq!(DecodeError::GeminiPathClimbs.message(), "gemini url climbs above its root");
    assert_eq!(
        DecodeError::HttpPathClimbs.message(),
        "http request target climbs above its root"
    );
}

#[test]
fn a_gemini_request_that_climbs_above_the_root_is_a_client_error() {
    let e = Protocol::parse_req_buf("localhost", b"gemini://example.org/secret/../../etc/passwd\r\n")
        .unwrap_err();
    assert_eq!(e, DecodeError::GeminiPathClimbs);
    assert_eq!(e.status(), Status::OtherClientError);
    assert_eq!(e.protocol(), Protocol::Gemini);
    assert_eq!(
        url_text_of_line(b"gemini://example.org/%2e%2e/x\r\n"),
        Err(DecodeError::GeminiPathClimbs)
    );
}

#[test]
fn an_http_request_that_climbs_above_the_root_is_a_client_error() {
    let buf = b"GET /secret/../../etc/passwd HTTP/1.1\r\nHost: example.org\r\n\r\n";
    let e = Protocol::parse_req_buf("localhost", buf).unwrap_err();
    assert_eq!(e, DecodeError::HttpPathClimbs);
    assert_eq!(e.status(), Status::OtherClientError);
    assert_eq!(e.protocol(), Protocol::Https);
    let head = HttpHead::Complete { path: Some("/a\\..\\..\\b".to_string()), headers: vec![] };
    assert_eq!(url_text_of_head(&head, "localhost"), Err(DecodeError::HttpPathClimbs));
}

#[test]
fn a_request_that_stays_below_the_root_is_decoded() {
    let url = Protocol::parse_req_buf("localhost", b"gemini://example.org/a/b/../../c\r\n").unwrap();
    assert_eq!(url.path, "/c");
    let buf = b"GET /a/./../b?next=/../.. HTTP/1.1\r\nHost: example.org\r\n\r\n";
    let url = Protocol::parse_req_buf("localhost", buf).unwrap();
    assert_eq!(url.path, "/b");
}

#[test]
fn segments_move_down_stay_or_go_up() {
    let chars = |s: &str| s.chars().collect::<Vec<char>>();
    assert_eq!(move_of_segment(&chars("..")), Segment::Up);
    assert_eq!(move_of_segment(&chars("%2e.")), Segment::Up);
    assert_eq!(move_of_segment(&chars(".%2E")), Segment::Up);
    assert_eq!(move_of_segment(&chars("%2E%2e")), Segment::Up);
    assert_eq!(move_of_segment(&chars(".")), Segment::Stay);
    assert_eq!(move_of_segment(&chars("%2e")), Segment::Stay);
    assert_eq!(move_of_segment(&chars("")), Segment::Down);
    assert_eq!(move_of_segment(&chars("...")), Segment::Down);
    assert_eq!(move_of_segment(&chars("a")), Segment::Down);
    assert_eq!(move_of_segment(&chars("..a")), Segment::Down);
    assert_eq!(move_of_segment(&chars(".%2")), Segment::Down);
    assert_eq!(move_of_segment(&chars("%2f%2e")), Segment::Down);
}

#[test]
fn a_path_climbs_where_two_dots_go_up_from_its_start() {
    for path in ["/..", "..", "/a/../..", "a/../..", "/./..", "/%2e%2e/x", "/a/%2E%2e/%2e./y", "/..#f", "/..?q", "/a/b/../../../c"] {
        assert!(target_climbs(path, false), "{}", path);
        assert!(target_climbs(path, true), "{}", path);
    }
    for path in ["", "/", "/a/..", "/...", "//..", "/a/..?x=/../..", "/?/../..", "/a/b/../../c", "/a/.", "*", "/..a/b"] {
        assert!(!target_climbs(path, false), "{}", path);
        assert!(!target_climbs(path, true), "{}", path);
    }
    assert!(target_climbs("\\..\\..", true));
    assert!(!target_climbs("\\..\\..", false));
    assert!(target_climbs("/a\\../..", true));
    assert!(!target_climbs("/a\\../..", false));
    let chars: Vec<char> = "/x/../..".chars().collect();
    assert!(chars_climb(&chars, false));
}

#[test]
fn the_path_of_a_url_starts_behind_its_authority() {
    assert!(url_text_climbs("gemini://h/../x"));
    assert!(url_text_climbs("gemini:/../x"));
    assert!(url_text_climbs("gemini:.."));
    assert!(url_text_climbs("nocolon/../.."));
    assert!(url_text_climbs("gemini://h/a/../../b?x"));
    assert!(!url_text_climbs("gemini://h"));
    assert!(!url_text_climbs("gemini://.."));
    assert!(!url_text_climbs("gemini://../a"));
    assert!(!url_text_climbs("gemini://h/a/b/../../c"));
    assert!(!url_text_climbs("gemini://h?/../.."));
    assert!(!url_text_climbs("gemini:"));
    assert!(!url_text_climbs(""));
}
