use tokio_tungstenite::tungstenite::Message;
use vertx_http_gateway_connector::message_chunk::{
    encode_chunk, CHUNK_HEADER_LEN, CHUNK_TYPE_BODY, CHUNK_TYPE_CLOSED, CHUNK_TYPE_END,
    CHUNK_TYPE_ERROR, CHUNK_TYPE_INFO,
};
use vertx_http_gateway_connector::MessageChunk;

#[test]
fn it_works() {
    // let result = add(2, 2);
    // assert_eq!(result, 4);
}

#[test]
fn chunk_types_have_their_numbers() {
    let types = [
        CHUNK_TYPE_ERROR,
        CHUNK_TYPE_INFO,
        CHUNK_TYPE_BODY,
        CHUNK_TYPE_END,
        CHUNK_TYPE_CLOSED,
    ];
    assert_eq!(types, [-2, 0, 1, 2, 3]);
    assert_eq!(CHUNK_HEADER_LEN, 9);
}

#[test]
fn chunk_is_read_from_bytes() {
    let chunk = MessageChunk::from_data(vec![254, 1, 2, 3, 4, 5, 6, 7, 8, 9, 10]);
    assert_eq!(chunk.chunk_type, -2);
    assert_eq!(chunk.request_id, 0x0102030405060708);
    assert_eq!(&chunk.chunk_body[..], &[9, 10]);
}

#[test]
fn chunk_is_read_from_message() {
    let chunk = MessageChunk::new(Message::Binary(vec![1, 0, 0, 0, 0, 0, 0, 1, 0, 65]));
    assert_eq!(chunk.chunk_type, 1);
    assert_eq!(chunk.request_id, 256);
    assert_eq!(&chunk.chunk_body[..], b"A");
}

#[test]
fn chunk_without_body_is_read() {
    let chunk = MessageChunk::new(Message::Binary(vec![2, 255, 255, 255, 255, 255, 255, 255, 255]));
    assert_eq!(chunk.chunk_type, 2);
    assert_eq!(chunk.request_id, u64::MAX);
    assert!(chunk.chunk_body.is_empty());
}

#[test]
fn chunk_is_written() {
    assert_eq!(
        encode_chunk(-2, 0x0102030405060708, b"no"),
        vec![254, 1, 2, 3, 4, 5, 6, 7, 8, 110, 111]
    );
    assert_eq!(encode_chunk(2, 7, b""), vec![2, 0, 0, 0, 0, 0, 0, 0, 7]);
}

#[test]
fn chunk_comes_back_as_written() {
    for chunk_type in [i8::MIN, -2, -1, 0, 1, 2, 3, i8::MAX] {
        for request_id in [0, 1, 255, 256, u64::MAX / 3, u64::MAX] {
            let data = encode_chunk(chunk_type, request_id, b"body");
            let chunk = MessageChunk::from_data(data.clone());
            assert_eq!(chunk.chunk_type, chunk_type);
            assert_eq!(chunk.request_id, request_id);
            assert_eq!(&chunk.chunk_body[..], b"body");
            assert_eq!(encode_chunk(chunk.chunk_type, chunk.request_id, &chunk.chunk_body), data);
        }
    }
}
