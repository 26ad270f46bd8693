use bytes::Bytes;
use vertx_http_gateway_connector::message_chunk::encode_chunk;
use vertx_http_gateway_connector::{MessageChunk, RelayEvent, RelayPhase, ResponseRelay};

fn piece(data: &'static [u8], in_progress: bool) -> RelayEvent {
    RelayEvent::Piece { data: Bytes::from_static(data), in_progress }
}

#[test]
fn failed_request_is_answered_by_one_error_chunk() {
    let mut relay = ResponseRelay::new(258);
    assert_eq!(relay.phase(), RelayPhase::AwaitingResponse);
    let frame = relay.on_event(RelayEvent::Failed("n\u{f6}".to_string()));
    assert_eq!(frame, vec![254, 0, 0, 0, 0, 0, 0, 1, 2, 110, 0xc3, 0xb6]);
    assert_eq!(relay.phase(), RelayPhase::Done);
}

#[test]
fn answer_is_relayed_whole() {
    let mut relay = ResponseRelay::new(1);
    let mut frames = vec![relay.on_event(RelayEvent::Responded(b"head".to_vec()))];
    assert_eq!(relay.phase(), RelayPhase::Streaming);
    frames.push(relay.on_event(piece(b"ab", true)));
    frames.push(relay.on_event(piece(b"", true)));
    frames.push(relay.on_event(piece(b"c", true)));
    assert_eq!(relay.phase(), RelayPhase::Streaming);
    frames.push(relay.on_event(RelayEvent::Exhausted));
    assert_eq!(relay.phase(), RelayPhase::Done);
    assert_eq!(
        frames,
        vec![
            encode_chunk(0, 1, b"head"),
            encode_chunk(1, 1, b"ab"),
            encode_chunk(1, 1, b""),
            encode_chunk(1, 1, b"c"),
            encode_chunk(2, 1, b""),
        ]
    );
    let chunks: Vec<MessageChunk> = frames.into_iter().map(MessageChunk::from_data).collect();
    let types: Vec<i8> = chunks.iter().map(|chunk| chunk.chunk_type).collect();
    assert_eq!(types, vec![0, 1, 1, 1, 2]);
    assert!(chunks.iter().all(|chunk| chunk.request_id == 1));
}

#[test]
fn unwanted_answer_ends() {
    let mut relay = ResponseRelay::new(3);
    relay.on_event(RelayEvent::Responded(Vec::new()));
    relay.on_event(piece(b"wanted", true));
    assert_eq!(relay.on_event(piece(b"unwanted", false)), encode_chunk(2, 3, b""));
    assert_eq!(relay.phase(), RelayPhase::Done);
}

#[test]
fn answer_has_its_shape_at_every_moment() {
    let mut relay = ResponseRelay::new(9);
    let events = vec![
        RelayEvent::Responded(b"head".to_vec()),
        piece(b"a", true),
        piece(b"b", true),
        piece(b"c", false),
    ];
    let mut types: Vec<i8> = Vec::new();
    for event in events {
        assert!(!types.contains(&2));
        assert_ne!(relay.phase(), RelayPhase::Done);
        let chunk = MessageChunk::from_data(relay.on_event(event));
        assert_eq!(chunk.request_id, 9);
        types.push(chunk.chunk_type);
        assert_eq!(types[..], [0, 1, 1, 2][..types.len()]);
        assert_eq!(relay.phase() == RelayPhase::Done, types.ends_with(&[2]));
    }
    assert_eq!(types, vec![0, 1, 1, 2]);
}
