use tokio_tungstenite::tungstenite::Message;
use vertx_http_gateway_connector::message_chunk::encode_chunk;
use vertx_http_gateway_connector::transport::{outgoing_message, ping, PING_INTERVAL_SECS};
use vertx_http_gateway_connector::MessageChunk;

#[test]
fn pings_go_out_as_pings() {
    assert_eq!(ping(), b"ping".to_vec());
    assert_eq!(outgoing_message(ping()), Message::Ping(b"ping".to_vec()));
    assert_eq!(PING_INTERVAL_SECS, 5);
}

#[test]
fn all_else_goes_out_as_binary() {
    let others: [&[u8]; 6] = [b"", b"pin", b"pong", b"Ping", b"ping ", b"pingping"];
    for data in others {
        assert_eq!(outgoing_message(data.to_vec()), Message::Binary(data.to_vec()));
    }
}

#[test]
fn chunks_go_out_and_are_read() {
    let id = u64::from_be_bytes(*b"pingping");
    let message = outgoing_message(encode_chunk(112, id, b"ping"));
    assert!(message.is_binary());
    let chunk = MessageChunk::new(message);
    assert_eq!(chunk.chunk_type, 112);
    assert_eq!(chunk.request_id, id);
    assert_eq!(&chunk.chunk_body[..], b"ping");
}
