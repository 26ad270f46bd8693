//! What goes out over the websocket.

use crate::external::{binary_message, ping_message};
use crate::external::{message_data, message_is_binary, message_is_ping};
use crate::message_chunk::{decode, encode, ChunkView};
use crate::message_chunk::{law_encode_decode, CHUNK_HEADER_LEN};
use tokio_tungstenite::tungstenite::Message;
use vstd::prelude::*;

verus! {

/// The number of seconds between two pings.
pub const PING_INTERVAL_SECS: u64 = 5;

/// The payload that asks for a ping: the word `ping`.
pub open spec fn ping_payload() -> Seq<u8> {
    seq![0x70u8, 0x69u8, 0x6eu8, 0x67u8]
}

/// The payload that asks for a ping.
pub fn ping() -> (data: Vec<u8>)
    ensures
        data@ == ping_payload(),
{
    let data: Vec<u8> = vec![0x70, 0x69, 0x6e, 0x67];
    assert(data@ =~= ping_payload());
    data
}

/// The message by which some bytes go out: a ping for the ping payload, a
/// binary message for all else.
pub fn outgoing_message(data: Vec<u8>) -> (message: Message)
    ensures
        message_data(message) == data@,
        message_is_ping(message) <==> data@ == ping_payload(),
        message_is_binary(message) <==> data@ != ping_payload(),
{
    if data.len() == 4 && data[0] == 0x70 && data[1] == 0x69 && data[2] == 0x6e && data[3] == 0x67 {
        assert(data@ =~= ping_payload());
        ping_message(data)
    } else {
        binary_message(data)
    }
}

/// No chunk is taken for a ping, whatever it holds, so every chunk goes out as
/// a binary message and is read as itself at the other end.
pub proof fn law_chunks_are_no_pings(chunk: ChunkView)
    ensures
        encode(chunk) != ping_payload(),
        encode(chunk).len() >= CHUNK_HEADER_LEN,
        decode(encode(chunk)) == chunk,
{
    law_encode_decode(chunk);
}

/// Only the word `ping` asks for a ping: four bytes, one for each letter.
pub proof fn law_ping_is_the_word(data: Seq<u8>)
    ensures
        data == ping_payload() <==> data.len() == 4 && data[0] == 'p' as u8 && data[1] == 'i' as u8
            && data[2] == 'n' as u8 && data[3] == 'g' as u8,
{
    if data.len() == 4 && data[0] == 'p' as u8 && data[1] == 'i' as u8 && data[2] == 'n' as u8
        && data[3] == 'g' as u8 {
        assert(data =~= ping_payload());
    }
}

} // verus!
