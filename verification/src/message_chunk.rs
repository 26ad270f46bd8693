//! Chunks, the unit of exchange with the gateway.
//!
//! A chunk travels as one binary websocket message: a type byte, the request
//! id as eight bytes with the most significant first, and the body.

use crate::external::{be_u64, bytes_content, message_data};
use crate::external::{bytes_from_vec, bytes_get_i8, bytes_get_u64, bytes_slice};
use bytes::Bytes;
use tokio_tungstenite::tungstenite::Message;
use vstd::prelude::*;

verus! {

/// Tells the gateway that a request could not be forwarded.
pub const CHUNK_TYPE_ERROR: i8 = -2;

/// Carries the head of a request or of a response.
pub const CHUNK_TYPE_INFO: i8 = 0;

/// Carries a piece of a body.
pub const CHUNK_TYPE_BODY: i8 = 1;

/// Ends a body.
pub const CHUNK_TYPE_END: i8 = 2;

/// Tells the connector that the gateway's client has gone away.
pub const CHUNK_TYPE_CLOSED: i8 = 3;

/// The number of bytes before the body of a chunk.
pub const CHUNK_HEADER_LEN: usize = 9;

/// A chunk as it was received.
#[derive(Debug)]
pub struct MessageChunk {
    pub chunk_type: i8,
    pub request_id: u64,
    pub chunk_body: Bytes,
}

/// What a chunk says.
pub struct ChunkView {
    pub chunk_type: i8,
    pub request_id: u64,
    pub body: Seq<u8>,
}

impl View for MessageChunk {
    type V = ChunkView;

    open spec fn view(&self) -> ChunkView {
        ChunkView {
            chunk_type: self.chunk_type,
            request_id: self.request_id,
            body: bytes_content(self.chunk_body),
        }
    }
}

/// The eight bytes of a number, most significant first.
pub open spec fn be_bytes(x: u64) -> Seq<u8> {
    seq![
        (x >> 56u64) as u8,
        (x >> 48u64) as u8,
        (x >> 40u64) as u8,
        (x >> 32u64) as u8,
        (x >> 24u64) as u8,
        (x >> 16u64) as u8,
        (x >> 8u64) as u8,
        x as u8,
    ]
}

/// The bytes by which a chunk travels.
pub open spec fn encode(chunk: ChunkView) -> Seq<u8> {
    seq![chunk.chunk_type as u8] + be_bytes(chunk.request_id) + chunk.body
}

/// The chunk that some bytes stand for, which are at least a chunk header.
pub open spec fn decode(data: Seq<u8>) -> ChunkView {
    ChunkView {
        chunk_type: data[0] as i8,
        request_id: be_u64(data.subrange(1, 9)) as u64,
        body: data.skip(9),
    }
}

impl MessageChunk {
    /// Reads the chunk that a message carries.
    pub fn new(message: Message) -> (chunk: MessageChunk)
        requires
            message_data(message).len() >= CHUNK_HEADER_LEN,
        ensures
            chunk@ == decode(message_data(message)),
    {
        MessageChunk::from_data(message.into_data())
    }

    /// Reads the chunk that some bytes stand for.
    pub fn from_data(data: Vec<u8>) -> (chunk: MessageChunk)
        requires
            data@.len() >= CHUNK_HEADER_LEN,
        ensures
            chunk@ == decode(data@),
    {
        let end: usize = data.len();
        let whole = bytes_from_vec(data);
        let mut type_part = bytes_slice(&whole, 0, 1);
        let mut id_part = bytes_slice(&whole, 1, 9);
        let chunk_type: i8 = bytes_get_i8(&mut type_part);
        let request_id: u64 = bytes_get_u64(&mut id_part);
        MessageChunk { chunk_type, request_id, chunk_body: bytes_slice(&whole, 9, end) }
    }
}

/// Writes the bytes by which a chunk travels.
pub fn encode_chunk(chunk_type: i8, request_id: u64, body: &[u8]) -> (data: Vec<u8>)
    ensures
        data@ == encode(ChunkView { chunk_type, request_id, body: body@ }),
{
    let mut data: Vec<u8> = Vec::new();
    data.push(chunk_type as u8);
    data.push((request_id >> 56) as u8);
    data.push((request_id >> 48) as u8);
    data.push((request_id >> 40) as u8);
    data.push((request_id >> 32) as u8);
    data.push((request_id >> 24) as u8);
    data.push((request_id >> 16) as u8);
    data.push((request_id >> 8) as u8);
    data.push(request_id as u8);
    data.extend_from_slice(body);
    data
}

proof fn lemma_be_u64_bounds(s: Seq<u8>)
    ensures
        0 <= be_u64(s) <= u64::MAX,
{
}

proof fn lemma_be_u64_of_be_bytes(x: u64)
    ensures
        be_u64(be_bytes(x)) == x,
{
    assert(x == ((x >> 56u64) as u8) * 0x100_0000_0000_0000 + ((x >> 48u64) as u8)
        * 0x1_0000_0000_0000 + ((x >> 40u64) as u8) * 0x100_0000_0000 + ((x >> 32u64) as u8)
        * 0x1_0000_0000 + ((x >> 24u64) as u8) * 0x100_0000 + ((x >> 16u64) as u8) * 0x1_0000 + ((x
        >> 8u64) as u8) * 0x100 + (x as u8)) by (bit_vector);
}

/// What is written comes back: a chunk that was encoded is read as itself.
pub proof fn law_encode_decode(chunk: ChunkView)
    ensures
        encode(chunk).len() == CHUNK_HEADER_LEN + chunk.body.len(),
        decode(encode(chunk)) == chunk,
{
    let data = encode(chunk);
    lemma_be_u64_of_be_bytes(chunk.request_id);
    assert(data.subrange(1, 9) =~= be_bytes(chunk.request_id));
    assert(data.skip(9) =~= chunk.body);
    let t = chunk.chunk_type;
    assert((t as u8) as i8 == t) by (bit_vector);
}

/// What is read is what was written: encoding the chunk that some bytes stand
/// for gives these bytes again, so no two byte strings stand for one chunk.
pub proof fn law_decode_encode(data: Seq<u8>)
    requires
        data.len() >= CHUNK_HEADER_LEN,
    ensures
        encode(decode(data)) == data,
{
    let b = data[0];
    assert((b as i8) as u8 == b) by (bit_vector);
    let s = data.subrange(1, 9);
    lemma_be_u64_bounds(s);
    let x = be_u64(s) as u64;
    let (s0, s1, s2, s3, s4, s5, s6, s7) = (s[0], s[1], s[2], s[3], s[4], s[5], s[6], s[7]);
    assert((x >> 56u64) as u8 == s0 && (x >> 48u64) as u8 == s1 && (x >> 40u64) as u8 == s2 && (x
        >> 32u64) as u8 == s3 && (x >> 24u64) as u8 == s4 && (x >> 16u64) as u8 == s5 && (x
        >> 8u64) as u8 == s6 && x as u8 == s7) by (bit_vector)
        requires
            x == s0 * 0x100_0000_0000_0000 + s1 * 0x1_0000_0000_0000 + s2 * 0x100_0000_0000 + s3
                * 0x1_0000_0000 + s4 * 0x100_0000 + s5 * 0x1_0000 + s6 * 0x100 + s7,
    ;
    assert(be_bytes(x) =~= s);
    assert(encode(decode(data)) =~= data);
}

/// The number that some bytes stand for, most significant first.
pub open spec fn number(s: Seq<u8>) -> int
    decreases s.len(),
{
    if s.len() == 0 {
        0
    } else {
        number(s.drop_last()) * 256 + s.last()
    }
}

proof fn lemma_number_of_eight(s: Seq<u8>)
    requires
        s.len() == 8,
    ensures
        number(s) == be_u64(s),
{
    reveal_with_fuel(number, 9);
    let s7 = s.drop_last();
    let s6 = s7.drop_last();
    let s5 = s6.drop_last();
    let s4 = s5.drop_last();
    let s3 = s4.drop_last();
    let s2 = s3.drop_last();
    let s1 = s2.drop_last();
    assert(number(s1) == s[0]);
    assert(number(s2) == s[0] * 256 + s[1]);
    assert(number(s3) == number(s2) * 256 + s[2]);
    assert(number(s4) == number(s3) * 256 + s[3]);
    assert(number(s5) == number(s4) * 256 + s[4]);
    assert(number(s6) == number(s5) * 256 + s[5]);
    assert(number(s7) == number(s6) * 256 + s[6]);
    assert(number(s) == number(s7) * 256 + s[7]);
}

/// Where things stand in a chunk: the first byte is the type, with 256 added
/// to a negative one. The next eight are the request id, the most significant
/// first. The body follows, and nothing comes after it.
pub proof fn law_layout_when_written(chunk: ChunkView)
    ensures
        encode(chunk).len() == 9 + chunk.body.len(),
        encode(chunk)[0] == (if chunk.chunk_type < 0 {
            chunk.chunk_type + 256
        } else {
            chunk.chunk_type as int
        }),
        number(encode(chunk).subrange(1, 9)) == chunk.request_id,
        encode(chunk).subrange(9, 9 + chunk.body.len() as int) == chunk.body,
{
    let data = encode(chunk);
    let t = chunk.chunk_type;
    assert(t < 0 ==> (t as u8) == t + 256) by (bit_vector);
    assert(t >= 0 ==> (t as u8) == t) by (bit_vector);
    assert(data.subrange(1, 9) =~= be_bytes(chunk.request_id));
    lemma_number_of_eight(be_bytes(chunk.request_id));
    lemma_be_u64_of_be_bytes(chunk.request_id);
    assert(data.subrange(9, 9 + chunk.body.len() as int) =~= chunk.body);
}

/// The same places are read: the first byte for the type, the next eight for
/// the request id, and all that follow for the body.
pub proof fn law_layout_when_read(data: Seq<u8>)
    requires
        data.len() >= 9,
    ensures
        decode(data).chunk_type == (if data[0] < 128 {
            data[0] as int
        } else {
            data[0] - 256
        }),
        decode(data).request_id == number(data.subrange(1, 9)),
        decode(data).body == data.subrange(9, data.len() as int),
{
    let b = data[0];
    assert(b < 128 ==> (b as i8) == b) by (bit_vector);
    assert(b >= 128 ==> (b as i8) == b - 256) by (bit_vector);
    let s = data.subrange(1, 9);
    lemma_number_of_eight(s);
    lemma_be_u64_bounds(s);
    assert(decode(data).body =~= data.subrange(9, data.len() as int));
}

/// What a chunk says is what it holds.
pub proof fn law_chunk_says_what_it_holds(chunk: MessageChunk)
    ensures
        chunk@.chunk_type == chunk.chunk_type,
        chunk@.request_id == chunk.request_id,
        chunk@.body == bytes_content(chunk.chunk_body),
{
}

} // verus!
