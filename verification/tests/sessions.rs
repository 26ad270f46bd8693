use tokio_tungstenite::tungstenite::Message;
use vertx_http_gateway_connector::message_chunk::encode_chunk;
use vertx_http_gateway_connector::{Action, MessageChunk, ProxyRequest, Session, SessionError};

fn session() -> Session {
    Session::new("localhost".to_string(), 12345, false)
}

fn take(session: &mut Session, chunk_type: i8, id: u64, body: &[u8]) -> Result<Action, SessionError> {
    session.on_message(Message::Binary(encode_chunk(chunk_type, id, body)))
}

fn begin(session: &mut Session, id: u64, head: &str) -> ProxyRequest {
    match take(session, 0, id, head.as_bytes()) {
        Ok(Action::Begin(request)) => request,
        _ => panic!("no request was begun"),
    }
}

fn error(result: Result<Action, SessionError>) -> SessionError {
    match result {
        Ok(_) => panic!("no error"),
        Err(error) => error,
    }
}

#[test]
fn request_is_begun() {
    let mut session = session();
    assert!(!session.is_in_progress(7));
    let request = begin(&mut session, 7, "HTTP/1.1 POST /api?q=1\r\nHost: gw\r\n");
    assert_eq!(request.request_id, 7);
    assert_eq!(request.method, "POST");
    assert_eq!(request.url, "http://localhost:12345/api?q=1");
    assert_eq!(request.headers.get("host"), Some(&"gw".to_string()));
    assert!(request.streams_body);
    assert!(session.is_in_progress(7));
    assert!(!session.is_in_progress(8));
}

#[test]
fn request_goes_over_tls_if_the_service_does() {
    let mut session = Session::new("svc".to_string(), 443, true);
    let request = begin(&mut session, 1, "HTTP/1.1 GET /");
    assert_eq!(request.url, "https://svc:443/");
    assert!(!request.streams_body);
}

#[test]
fn only_get_has_no_body() {
    let mut session = session();
    assert!(!begin(&mut session, 1, "v GET /").streams_body);
    for method in ["get", "HEAD", "POST", "DELETE", "X-Custom"] {
        let request = begin(&mut session, 1, &format!("v {} /", method));
        assert_eq!(request.method, method);
        assert!(request.streams_body);
    }
}

#[test]
fn bodies_go_to_the_last_request_with_a_body() {
    let mut session = session();
    assert!(matches!(take(&mut session, 1, 1, b"x"), Ok(Action::Ignore)));
    assert!(matches!(take(&mut session, 2, 1, b""), Ok(Action::Ignore)));
    begin(&mut session, 1, "v POST /");
    begin(&mut session, 2, "v PUT /");
    begin(&mut session, 3, "v GET /");
    match take(&mut session, 1, 1, b"piece") {
        Ok(Action::ForwardBody { owner, body }) => {
            assert_eq!(owner, 2);
            assert_eq!(&body[..], b"piece");
        }
        _ => panic!("the piece was not forwarded"),
    }
    assert!(matches!(take(&mut session, 2, 1, b""), Ok(Action::CloseBody { owner: 2 })));
    assert!(matches!(take(&mut session, 2, 1, b""), Ok(Action::CloseBody { owner: 2 })));
    assert_eq!(error(take(&mut session, 1, 2, b"late")), SessionError::BodyClosed);
    begin(&mut session, 4, "v POST /");
    assert!(matches!(take(&mut session, 1, 4, b"y"), Ok(Action::ForwardBody { owner: 4, .. })));
}

#[test]
fn closed_requests_are_forgotten() {
    let mut session = session();
    begin(&mut session, 1, "v GET /");
    begin(&mut session, 2, "v GET /");
    assert!(matches!(take(&mut session, 3, 1, b""), Ok(Action::Closed { request_id: 1 })));
    assert!(!session.is_in_progress(1));
    assert!(session.is_in_progress(2));
    assert!(matches!(take(&mut session, 3, 9, b""), Ok(Action::Closed { request_id: 9 })));
    begin(&mut session, 1, "v GET /");
    assert!(session.is_in_progress(1));
}

#[test]
fn other_chunks_and_messages_are_ignored() {
    let mut session = session();
    for chunk_type in [i8::MIN, -2, -1, 4, i8::MAX] {
        assert!(matches!(take(&mut session, chunk_type, 1, b"x"), Ok(Action::Ignore)));
    }
    let messages = vec![
        Message::Text("hello".to_string()),
        Message::Ping(vec![1]),
        Message::Pong(vec![0; 20]),
        Message::Close(None),
    ];
    for message in messages {
        assert!(matches!(session.on_message(message), Ok(Action::Ignore)));
    }
    assert!(!session.is_in_progress(1));
}

#[test]
fn short_messages_end_a_session() {
    let mut session = session();
    for len in 0..9 {
        let result = session.on_message(Message::Binary(vec![0; len]));
        assert_eq!(error(result), SessionError::ShortChunk);
    }
    assert!(session.on_message(Message::Binary(vec![9; 9])).is_ok());
}

#[test]
fn bad_heads_end_a_session() {
    let mut session = session();
    assert_eq!(error(take(&mut session, 0, 1, b"v GET /\xff")), SessionError::InvalidUtf8);
    assert!(!session.is_in_progress(1));
    assert_eq!(error(take(&mut session, 0, 1, b"v GET")), SessionError::MalformedRequestLine);
    assert_eq!(error(take(&mut session, 0, 1, b"")), SessionError::MalformedRequestLine);
    assert!(!session.is_in_progress(1));
    for head in ["v  /", "v G\u{c4}T /", "v G@T /", "v a#b /"] {
        assert_eq!(error(take(&mut session, 0, 2, head.as_bytes())), SessionError::InvalidMethod);
    }
    assert!(session.is_in_progress(2));
}

#[test]
fn method_characters_are_those_of_the_client() {
    for b in 33u8..127 {
        let head = format!("v {} /", b as char);
        let mut session = session();
        let result = take(&mut session, 0, 1, head.as_bytes());
        assert_eq!(result.is_ok(), reqwest::Method::from_bytes(&[b]).is_ok());
    }
    let mut session = session();
    let long = "M".repeat(40);
    assert_eq!(begin(&mut session, 1, &format!("v {} /", long)).method.as_str(), long);
}

#[test]
fn chunks_are_taken_as_messages_are() {
    let mut session = session();
    let chunk = MessageChunk::from_data(encode_chunk(0, 5, b"v GET /"));
    assert!(matches!(session.on_chunk(chunk), Ok(Action::Begin(_))));
    assert!(session.is_in_progress(5));
}

#[test]
fn service_is_kept() {
    let mut session = session();
    let before = begin(&mut session, 1, "v GET /x").url;
    begin(&mut session, 2, "v POST https://elsewhere/");
    assert!(take(&mut session, 2, 2, b"").is_ok());
    assert!(take(&mut session, 3, 1, b"").is_ok());
    assert_eq!(begin(&mut session, 3, "v GET /x").url, before);
}
