use vertx_http_gateway_connector::{RequestHeaders, RequestMessageInfoChunkBody};

fn read(text: &str) -> RequestMessageInfoChunkBody {
    RequestMessageInfoChunkBody::new(text.to_string())
}

fn header(info: &RequestMessageInfoChunkBody, name: &str) -> Option<String> {
    info.headers.get(name).cloned()
}

#[test]
fn request_head_is_read() {
    let info = read("HTTP/1.1 POST /a/b?c=d\r\nHost: example.com:80\r\nX-Id:7\r\n");
    assert_eq!(info.http_version, "HTTP/1.1");
    assert_eq!(info.http_method, "POST");
    assert_eq!(info.uri, "/a/b?c=d");
    assert_eq!(header(&info, "host"), Some("example.com:80".to_string()));
    assert_eq!(header(&info, "x-id"), Some("7".to_string()));
    assert_eq!(info.headers.entries().len(), 2);
}

#[test]
fn header_names_are_lowered() {
    let info = read("HTTP/1.1 GET /\r\nX-ABC-\u{c4}: Value\r\nHOST: A");
    assert_eq!(header(&info, "x-abc-\u{e4}"), Some("Value".to_string()));
    assert_eq!(header(&info, "host"), Some("A".to_string()));
    assert_eq!(header(&info, "HOST"), None);
}

#[test]
fn last_header_wins() {
    let info = read("HTTP/1.1 GET /\r\nA: 1\r\nB: 2\r\na: 3\r\n");
    assert_eq!(header(&info, "a"), Some("3".to_string()));
    assert_eq!(header(&info, "b"), Some("2".to_string()));
    assert_eq!(info.headers.entries().len(), 2);
}

#[test]
fn lines_without_a_field_are_skipped() {
    let info = read("HTTP/1.1 GET /\r\nnothing\r\n: value\r\nname:\r\n  :  \r\n\r\nok: yes");
    assert_eq!(info.headers.entries().len(), 1);
    assert_eq!(header(&info, "ok"), Some("yes".to_string()));
}

#[test]
fn names_and_values_are_trimmed() {
    let info = read("HTTP/1.1 GET /\r\n \t name \u{3000}: \u{a0}two words\t \r\n");
    assert_eq!(header(&info, "name"), Some("two words".to_string()));
}

#[test]
fn uri_is_trimmed_and_the_rest_of_the_line_dropped() {
    let info = read("v m \t/x\t more words\r\n");
    assert_eq!(info.uri, "/x");
    // An empty word counts as a word.
    let info = read(" GET ");
    assert_eq!(info.http_version, "");
    assert_eq!(info.http_method, "GET");
    assert_eq!(info.uri, "");
}

#[test]
fn lone_line_feeds_do_not_end_lines() {
    let info = read("v m /x\na: b\r\nc: d");
    assert_eq!(info.uri, "/x\na:");
    assert_eq!(header(&info, "a"), None);
    assert_eq!(header(&info, "c"), Some("d".to_string()));
    let info = read("v m /\r\r\na: 1\r\r\nb: 2");
    assert_eq!(info.uri, "/");
    assert_eq!(header(&info, "a"), Some("1".to_string()));
    assert_eq!(header(&info, "b"), Some("2".to_string()));
}

#[test]
fn incomplete_request_lines_are_refused() {
    for text in ["", "HTTP/1.1", "HTTP/1.1 GET", "HTTP/1.1 GET\r\n/ x: y"] {
        assert!(RequestMessageInfoChunkBody::try_new(text.to_string()).is_none());
    }
    assert!(RequestMessageInfoChunkBody::try_new("  ".to_string()).is_some());
}

#[test]
fn white_space_is_that_of_unicode() {
    for c in '\0'..=char::MAX {
        let listed = matches!(
            c,
            '\u{9}'..='\u{d}' | ' ' | '\u{85}' | '\u{a0}' | '\u{1680}' | '\u{2000}'..='\u{200a}'
                | '\u{2028}' | '\u{2029}' | '\u{202f}' | '\u{205f}' | '\u{3000}'
        );
        assert_eq!(c.is_whitespace(), listed);
    }
    let info = read("v m /\r\nname:\u{85}\u{2003}x\u{2028}");
    assert_eq!(header(&info, "name"), Some("x".to_string()));
}

#[test]
fn headers_keep_one_value_per_name() {
    let mut headers = RequestHeaders::new();
    assert_eq!(headers.get("a"), None);
    headers.insert("a".to_string(), "1".to_string());
    headers.insert("b".to_string(), "2".to_string());
    headers.insert("a".to_string(), "3".to_string());
    assert_eq!(headers.get("a"), Some(&"3".to_string()));
    assert_eq!(headers.get("b"), Some(&"2".to_string()));
    assert_eq!(headers.entries().len(), 2);
}

#[test]
fn written_head_is_read_back() {
    let mut text = "HTTP/2 PUT /p\r\n".to_string();
    for i in 0..50 {
        text.push_str(&format!("Name-{}:value: {}\r\n", i, i * i));
    }
    let info = read(&text);
    assert_eq!(info.http_version, "HTTP/2");
    assert_eq!(info.http_method, "PUT");
    assert_eq!(info.uri, "/p");
    assert_eq!(info.headers.entries().len(), 50);
    for i in 0..50 {
        assert_eq!(header(&info, &format!("name-{}", i)), Some(format!("value: {}", i * i)));
    }
}

#[test]
fn carriage_returns_alone_are_kept() {
    let info = read("v\r m\r \r\nA\rB:x\ry\r\n");
    assert_eq!(info.http_version, "v\r");
    assert_eq!(info.http_method, "m\r");
    assert_eq!(info.uri, "");
    assert_eq!(header(&info, "a\rb"), Some("x\ry".to_string()));
    assert_eq!(info.headers.entries().len(), 1);
}

#[test]
fn names_that_are_read_have_no_capitals() {
    for c in '\0'..=char::MAX {
        assert!(!c.to_string().to_lowercase().contains(|l: char| l.is_ascii_uppercase()));
    }
    let info = read("v m /\r\nX-\u{c4}B\u{130}\u{3a3}: v\r\n\u{212a}EY: w");
    assert_eq!(header(&info, "x-\u{e4}bi\u{307}\u{3c2}"), Some("v".to_string()));
    assert_eq!(header(&info, "key"), Some("w".to_string()));
}
