use reqwest::header::{HeaderMap, HeaderName, HeaderValue};
use reqwest::StatusCode;
use vertx_http_gateway_connector::response_info::render_response_info;
use vertx_http_gateway_connector::{
    build_response_info_chunk_body, try_build_response_info_chunk_body, HttpVersion,
    ResponseInfoError,
};

fn headers(fields: &[(&'static str, &[u8])]) -> HeaderMap<HeaderValue> {
    let mut map = HeaderMap::new();
    for (name, value) in fields {
        map.append(HeaderName::from_static(name), HeaderValue::from_bytes(value).unwrap());
    }
    map
}

#[test]
fn response_head_is_written() {
    let map = headers(&[("content-type", b"text/plain"), ("x-tab", b"a\tb")]);
    let data = build_response_info_chunk_body(&map, HttpVersion::Http11, 200);
    assert_eq!(
        String::from_utf8(data).unwrap(),
        "http/1.1 200 OK\r\ncontent-type:text/plain\r\nx-tab:a\tb\r\n"
    );
}

#[test]
fn response_head_without_fields_is_written() {
    let data = build_response_info_chunk_body(&headers(&[]), HttpVersion::Http2, 404);
    assert_eq!(String::from_utf8(data).unwrap(), "h2 404 Not Found\r\n");
}

#[test]
fn repeated_fields_are_written_each() {
    let map = headers(&[("set-cookie", b"a=1"), ("set-cookie", b"b=2")]);
    let data = try_build_response_info_chunk_body(&map, HttpVersion::Http11, 302).unwrap();
    assert_eq!(
        String::from_utf8(data).unwrap(),
        "http/1.1 302 Found\r\nset-cookie:a=1\r\nset-cookie:b=2\r\n"
    );
}

#[test]
fn every_known_status_is_written() {
    for code in 0..1200 {
        let result = try_build_response_info_chunk_body(&headers(&[]), HttpVersion::Http11, code);
        let reason = StatusCode::from_u16(code).ok().and_then(|status| status.canonical_reason());
        match reason {
            Some(reason) => {
                let expected = format!("http/1.1 {} {}\r\n", code, reason);
                assert_eq!(String::from_utf8(result.unwrap()).unwrap(), expected);
            }
            None => assert_eq!(result, Err(ResponseInfoError::NoReason)),
        }
    }
}

#[test]
fn unknown_versions_are_refused() {
    for version in [HttpVersion::Http09, HttpVersion::Http10, HttpVersion::Http3] {
        assert_eq!(
            try_build_response_info_chunk_body(&headers(&[]), version, 200),
            Err(ResponseInfoError::UnsupportedVersion)
        );
        // The version is looked at first.
        assert_eq!(
            try_build_response_info_chunk_body(&headers(&[("a", b"\xff")]), version, 299),
            Err(ResponseInfoError::UnsupportedVersion)
        );
    }
}

#[test]
fn unreadable_headers_are_refused() {
    let map = headers(&[("good", b"x"), ("bad", b"caf\xe9")]);
    assert_eq!(
        try_build_response_info_chunk_body(&map, HttpVersion::Http2, 200),
        Err(ResponseInfoError::UnreadableHeader)
    );
    assert_eq!(
        try_build_response_info_chunk_body(&map, HttpVersion::Http2, 299),
        Err(ResponseInfoError::NoReason)
    );
}

#[test]
fn any_reason_can_be_written() {
    let fields = vec![("a".to_string(), "b".to_string())];
    let data = render_response_info(HttpVersion::Http11, 999, "Gr\u{fc}n", &fields);
    assert_eq!(String::from_utf8(data).unwrap(), "http/1.1 999 Gr\u{fc}n\r\na:b\r\n");
}

#[test]
fn one_line_is_written_per_field() {
    let map = headers(&[("a", b"1"), ("b", b"2"), ("c", b"3")]);
    let data = build_response_info_chunk_body(&map, HttpVersion::Http11, 200);
    let text = String::from_utf8(data).unwrap();
    let lines: Vec<&str> = text.split("\r\n").collect();
    assert_eq!(lines, vec!["http/1.1 200 OK", "a:1", "b:2", "c:3", ""]);
}

#[test]
fn heads_tell_responses_apart() {
    let write = |version, status, fields: &[(&'static str, &[u8])]| {
        build_response_info_chunk_body(&headers(fields), version, status)
    };
    let first = write(HttpVersion::Http11, 200, &[("a", b"1:2"), ("b", b"")]);
    assert_eq!(first, write(HttpVersion::Http11, 200, &[("a", b"1:2"), ("b", b"")]));
    assert_ne!(first, write(HttpVersion::Http2, 200, &[("a", b"1:2"), ("b", b"")]));
    assert_ne!(first, write(HttpVersion::Http11, 201, &[("a", b"1:2"), ("b", b"")]));
    assert_ne!(first, write(HttpVersion::Http11, 200, &[("b", b""), ("a", b"1:2")]));
    assert_ne!(first, write(HttpVersion::Http11, 200, &[("a", b"1:2b:")]));
    assert_ne!(first, write(HttpVersion::Http11, 200, &[("a", b"1:2")]));
}

#[test]
fn unchecked_names_add_no_line_and_no_colon() {
    let name = "a-name-of-more-than-sixty-four-characters-which-is-taken-unchecked:\r\nx";
    let mut map: HeaderMap<HeaderValue> = HeaderMap::new();
    map.append(name, HeaderValue::from_static("v"));
    let data = build_response_info_chunk_body(&map, HttpVersion::Http11, 200);
    let expected = name.replace([':', '\r', '\n'], "\0");
    assert_eq!(
        String::from_utf8(data).unwrap(),
        format!("http/1.1 200 OK\r\n{}:v\r\n", expected)
    );
}
