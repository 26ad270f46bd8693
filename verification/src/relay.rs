//! The answer to one request, from the service back to the gateway.
//!
//! A relay takes what happens to a request at the service and says which chunk
//! tells the gateway so.

use crate::external::bytes_content;
use crate::external::bytes_to_vec;
use crate::message_chunk::encode_chunk;
use crate::message_chunk::{decode, encode, law_encode_decode, ChunkView};
use crate::message_chunk::{CHUNK_TYPE_BODY, CHUNK_TYPE_END, CHUNK_TYPE_ERROR, CHUNK_TYPE_INFO};
use bytes::Bytes;
use vstd::prelude::*;

verus! {

/// How far the answer to a request has come.
#[derive(Clone, Copy, Debug, PartialEq, Eq, Structural)]
pub enum RelayPhase {
    /// The service has not answered yet.
    AwaitingResponse,
    /// The body of the answer is on its way.
    Streaming,
    /// The gateway has been told all.
    Done,
}

/// What happens to a request at the service.
pub enum RelayEvent {
    /// The request could not be sent, for the given reason.
    Failed(String),
    /// The service answers. These bytes are the head of the answer.
    Responded(Vec<u8>),
    /// A piece of the body arrives, while the answer is wanted or not.
    Piece { data: Bytes, in_progress: bool },
    /// The body has ended.
    Exhausted,
}

/// What an event says.
#[verifier::ext_equal]
pub enum RelayEventView {
    Failed(Seq<char>),
    Responded(Seq<u8>),
    Piece { data: Seq<u8>, in_progress: bool },
    Exhausted,
}

impl View for RelayEvent {
    type V = RelayEventView;

    open spec fn view(&self) -> RelayEventView {
        match self {
            RelayEvent::Failed(error) => RelayEventView::Failed(error@),
            RelayEvent::Responded(info) => RelayEventView::Responded(info@),
            RelayEvent::Piece { data, in_progress } => RelayEventView::Piece {
                data: bytes_content(*data),
                in_progress: *in_progress,
            },
            RelayEvent::Exhausted => RelayEventView::Exhausted,
        }
    }
}

/// Whether an event can happen in a phase.
pub open spec fn can_happen(phase: RelayPhase, event: RelayEventView) -> bool {
    match event {
        RelayEventView::Failed(_) => phase == RelayPhase::AwaitingResponse,
        RelayEventView::Responded(_) => phase == RelayPhase::AwaitingResponse,
        RelayEventView::Piece { .. } => phase == RelayPhase::Streaming,
        RelayEventView::Exhausted => phase == RelayPhase::Streaming,
    }
}

/// The phase after an event.
pub open spec fn phase_after(event: RelayEventView) -> RelayPhase {
    match event {
        RelayEventView::Failed(_) => RelayPhase::Done,
        RelayEventView::Responded(_) => RelayPhase::Streaming,
        RelayEventView::Piece { in_progress, .. } => if in_progress {
            RelayPhase::Streaming
        } else {
            RelayPhase::Done
        },
        RelayEventView::Exhausted => RelayPhase::Done,
    }
}

/// The chunk that tells the gateway of an event. A piece that is no longer
/// wanted is dropped, and the body ends there.
pub open spec fn chunk_for(request_id: u64, event: RelayEventView) -> ChunkView {
    match event {
        RelayEventView::Failed(error) => ChunkView {
            chunk_type: CHUNK_TYPE_ERROR,
            request_id,
            body: vstd::utf8::encode_utf8(error),
        },
        RelayEventView::Responded(info) => ChunkView {
            chunk_type: CHUNK_TYPE_INFO,
            request_id,
            body: info,
        },
        RelayEventView::Piece { data, in_progress } => if in_progress {
            ChunkView { chunk_type: CHUNK_TYPE_BODY, request_id, body: data }
        } else {
            ChunkView { chunk_type: CHUNK_TYPE_END, request_id, body: Seq::empty() }
        },
        RelayEventView::Exhausted => ChunkView {
            chunk_type: CHUNK_TYPE_END,
            request_id,
            body: Seq::empty(),
        },
    }
}

/// The answer to one request.
pub struct ResponseRelay {
    request_id: u64,
    phase: RelayPhase,
}

/// What a relay knows.
pub struct RelayView {
    pub request_id: u64,
    pub phase: RelayPhase,
}

impl View for ResponseRelay {
    type V = RelayView;

    closed spec fn view(&self) -> RelayView {
        RelayView { request_id: self.request_id, phase: self.phase }
    }
}

impl ResponseRelay {
    /// The relay of a request that has just been sent.
    pub fn new(request_id: u64) -> (relay: ResponseRelay)
        ensures
            relay@ == (RelayView { request_id, phase: RelayPhase::AwaitingResponse }),
    {
        ResponseRelay { request_id, phase: RelayPhase::AwaitingResponse }
    }

    /// How far the answer has come.
    pub fn phase(&self) -> (phase: RelayPhase)
        ensures
            phase == self@.phase,
    {
        self.phase
    }

    /// Takes an event and writes the chunk that tells the gateway of it.
    pub fn on_event(&mut self, event: RelayEvent) -> (frame: Vec<u8>)
        requires
            can_happen(old(self)@.phase, event@),
        ensures
            final(self)@ == (RelayView {
                request_id: old(self)@.request_id,
                phase: phase_after(event@),
            }),
            frame@ == encode(chunk_for(old(self)@.request_id, event@)),
    {
        let nothing: Vec<u8> = Vec::new();
        assert(nothing@ =~= Seq::empty());
        match event {
            RelayEvent::Failed(error) => {
                self.phase = RelayPhase::Done;
                encode_chunk(CHUNK_TYPE_ERROR, self.request_id, error.as_str().as_bytes())
            },
            RelayEvent::Responded(info) => {
                self.phase = RelayPhase::Streaming;
                encode_chunk(CHUNK_TYPE_INFO, self.request_id, info.as_slice())
            },
            RelayEvent::Piece { data, in_progress } => {
                if in_progress {
                    let piece = bytes_to_vec(&data);
                    encode_chunk(CHUNK_TYPE_BODY, self.request_id, piece.as_slice())
                } else {
                    self.phase = RelayPhase::Done;
                    encode_chunk(CHUNK_TYPE_END, self.request_id, nothing.as_slice())
                }
            },
            RelayEvent::Exhausted => {
                self.phase = RelayPhase::Done;
                encode_chunk(CHUNK_TYPE_END, self.request_id, nothing.as_slice())
            },
        }
    }
}

/// The phase after some events.
pub open spec fn phase_after_all(events: Seq<RelayEventView>) -> RelayPhase {
    if events.len() == 0 {
        RelayPhase::AwaitingResponse
    } else {
        phase_after(events.last())
    }
}

/// Whether events can happen to a request one after the other.
pub open spec fn is_course(events: Seq<RelayEventView>) -> bool {
    forall|i: int|
        0 <= i < events.len() ==> can_happen(
            phase_after_all(events.take(i)),
            #[trigger] events[i],
        )
}

/// The chunks that tell the gateway of some events.
pub open spec fn chunks_for(request_id: u64, events: Seq<RelayEventView>) -> Seq<ChunkView> {
    events.map_values(|event: RelayEventView| chunk_for(request_id, event))
}

proof fn lemma_successor(events: Seq<RelayEventView>, i: int)
    requires
        is_course(events),
        0 < i < events.len(),
    ensures
        can_happen(phase_after(events[i - 1]), events[i]),
{
    assert(can_happen(phase_after_all(events.take(i)), events[i]));
    assert(events.take(i).last() == events[i - 1]);
}

/// Every request is answered in one of two ways. If it fails, the gateway gets
/// one error chunk and nothing else. Otherwise it gets the head of the answer,
/// then pieces of the body, and, once the relay is done, one end chunk. All
/// chunks carry the id of the request.
pub proof fn law_shape_of_answer(request_id: u64, events: Seq<RelayEventView>)
    requires
        is_course(events),
        phase_after_all(events) == RelayPhase::Done,
    ensures
        ({
            let chunks = chunks_for(request_id, events);
            let last = chunks.len() - 1;
            &&& chunks.len() >= 1
            &&& forall|i: int|
                0 <= i < chunks.len() ==> (#[trigger] chunks[i]).request_id == request_id
            &&& {
                ||| chunks.len() == 1 && chunks[0].chunk_type == CHUNK_TYPE_ERROR
                ||| {
                    &&& chunks.len() >= 2
                    &&& chunks[0].chunk_type == CHUNK_TYPE_INFO
                    &&& forall|i: int|
                        0 < i < last ==> (#[trigger] chunks[i]).chunk_type == CHUNK_TYPE_BODY
                    &&& chunks[last].chunk_type == CHUNK_TYPE_END
                }
            }
        }),
{
    let chunks = chunks_for(request_id, events);
    let last = chunks.len() - 1;
    assert(can_happen(phase_after_all(events.take(0)), events[0]));
    if events[0] is Failed {
        if chunks.len() > 1 {
            lemma_successor(events, 1);
        }
    } else {
        assert forall|i: int| 0 < i < last implies (#[trigger] chunks[i]).chunk_type
            == CHUNK_TYPE_BODY by {
            lemma_successor(events, i);
            lemma_successor(events, i + 1);
        }
        lemma_successor(events, last);
    }
}

/// At every moment the gateway has got the beginning of such an answer: nothing
/// yet, or one error chunk, or the head and then pieces of the body, of which
/// an end chunk may be the last. An error or an end chunk has come exactly if
/// the relay is done. All chunks carry the id of the request.
pub proof fn law_shape_so_far(request_id: u64, events: Seq<RelayEventView>)
    requires
        is_course(events),
    ensures
        ({
            let chunks = chunks_for(request_id, events);
            let last = chunks.len() - 1;
            &&& forall|i: int|
                0 <= i < chunks.len() ==> (#[trigger] chunks[i]).request_id == request_id
            &&& {
                ||| chunks.len() == 0
                ||| chunks.len() == 1 && chunks[0].chunk_type == CHUNK_TYPE_ERROR
                ||| {
                    &&& chunks.len() >= 1
                    &&& chunks[0].chunk_type == CHUNK_TYPE_INFO
                    &&& forall|i: int|
                        0 < i < last ==> (#[trigger] chunks[i]).chunk_type == CHUNK_TYPE_BODY
                    &&& last > 0 ==> chunks[last].chunk_type == CHUNK_TYPE_BODY
                        || chunks[last].chunk_type == CHUNK_TYPE_END
                }
            }
            &&& phase_after_all(events) == RelayPhase::Done <==> chunks.len() > 0 && (
            chunks[last].chunk_type == CHUNK_TYPE_ERROR || chunks[last].chunk_type
                == CHUNK_TYPE_END)
        }),
{
    let chunks = chunks_for(request_id, events);
    let last = chunks.len() - 1;
    if events.len() > 0 {
        assert(can_happen(phase_after_all(events.take(0)), events[0]));
        if events[0] is Failed {
            if chunks.len() > 1 {
                lemma_successor(events, 1);
            }
        } else {
            assert forall|i: int| 0 < i < last implies (#[trigger] chunks[i]).chunk_type
                == CHUNK_TYPE_BODY by {
                lemma_successor(events, i);
                lemma_successor(events, i + 1);
            }
            if last > 0 {
                lemma_successor(events, last);
            }
        }
    }
}

/// The body arrives whole: if the answer is wanted to the end, the bodies of
/// the chunks between head and end are the pieces, in order.
pub proof fn law_body_is_relayed(request_id: u64, info: Seq<u8>, pieces: Seq<Seq<u8>>)
    ensures
        ({
            let events = seq![RelayEventView::Responded(info)] + pieces.map_values(
                |data: Seq<u8>| RelayEventView::Piece { data, in_progress: true },
            ) + seq![RelayEventView::Exhausted];
            &&& is_course(events)
            &&& phase_after_all(events) == RelayPhase::Done
            &&& chunks_for(request_id, events) == seq![
                ChunkView { chunk_type: CHUNK_TYPE_INFO, request_id, body: info },
            ] + pieces.map_values(
                |body: Seq<u8>| ChunkView { chunk_type: CHUNK_TYPE_BODY, request_id, body },
            ) + seq![ChunkView { chunk_type: CHUNK_TYPE_END, request_id, body: Seq::empty() }]
        }),
{
    let events = seq![RelayEventView::Responded(info)] + pieces.map_values(
        |data: Seq<u8>| RelayEventView::Piece { data, in_progress: true },
    ) + seq![RelayEventView::Exhausted];
    assert forall|i: int| 0 <= i < events.len() implies can_happen(
        phase_after_all(events.take(i)),
        #[trigger] events[i],
    ) by {
        if i > 0 {
            assert(events.take(i).last() == events[i - 1]);
        }
    }
    assert(chunks_for(request_id, events) =~= seq![
        ChunkView { chunk_type: CHUNK_TYPE_INFO, request_id, body: info },
    ] + pieces.map_values(
        |body: Seq<u8>| ChunkView { chunk_type: CHUNK_TYPE_BODY, request_id, body },
    ) + seq![ChunkView { chunk_type: CHUNK_TYPE_END, request_id, body: Seq::empty() }]);
}

/// Once an answer is no longer wanted, the gateway gets no further piece of
/// it: the end chunk for the first unwanted piece is the last chunk.
pub proof fn law_unwanted_answer_ends(events: Seq<RelayEventView>, i: int)
    requires
        is_course(events),
        0 <= i < events.len(),
        events[i] is Piece,
        !events[i]->in_progress,
    ensures
        i == events.len() - 1,
        forall|request_id: u64| #[trigger]
            chunk_for(request_id, events[i]).chunk_type == CHUNK_TYPE_END,
{
    if i + 1 < events.len() {
        lemma_successor(events, i + 1);
    }
}

/// The gateway is told why a request failed: the error chunk carries the whole
/// text of the reason.
pub proof fn law_failure_is_told(request_id: u64, error: Seq<char>)
    ensures
        ({
            let event = RelayEventView::Failed(error);
            let chunk = decode(encode(chunk_for(request_id, event)));
            &&& chunk.chunk_type == CHUNK_TYPE_ERROR
            &&& chunk.request_id == request_id
            &&& vstd::utf8::valid_utf8(chunk.body)
            &&& vstd::utf8::decode_utf8(chunk.body) == error
            &&& phase_after(event) == RelayPhase::Done
            &&& can_happen(RelayPhase::AwaitingResponse, event)
        }),
{
    law_encode_decode(chunk_for(request_id, RelayEventView::Failed(error)));
    vstd::utf8::encode_utf8_decode_utf8(error);
    vstd::utf8::encode_utf8_valid_utf8(error);
}

/// What the gateway reads of each other event: the whole head, the whole of a
/// piece that is wanted, and an empty end chunk for one that is not and for the
/// end of the body. The relay goes on after a head and a wanted piece, and after
/// nothing else.
pub proof fn law_answer_is_told(request_id: u64, data: Seq<u8>)
    ensures
        ({
            let head = RelayEventView::Responded(data);
            let wanted = RelayEventView::Piece { data, in_progress: true };
            let unwanted = RelayEventView::Piece { data, in_progress: false };
            let exhausted = RelayEventView::Exhausted;
            let read = |event: RelayEventView| decode(encode(chunk_for(request_id, event)));
            &&& read(head).chunk_type == CHUNK_TYPE_INFO && read(head).request_id == request_id
            &&& read(head).body == data
            &&& read(wanted).chunk_type == CHUNK_TYPE_BODY && read(wanted).request_id == request_id
            &&& read(wanted).body == data
            &&& read(unwanted).chunk_type == CHUNK_TYPE_END
            &&& read(unwanted).request_id == request_id && read(unwanted).body.len() == 0
            &&& read(exhausted).chunk_type == CHUNK_TYPE_END
            &&& read(exhausted).request_id == request_id && read(exhausted).body.len() == 0
            &&& phase_after(head) == RelayPhase::Streaming
            &&& phase_after(wanted) == RelayPhase::Streaming
            &&& phase_after(unwanted) == RelayPhase::Done
            &&& phase_after(exhausted) == RelayPhase::Done
            &&& can_happen(RelayPhase::AwaitingResponse, head)
            &&& can_happen(RelayPhase::Streaming, wanted)
            &&& can_happen(RelayPhase::Streaming, unwanted)
            &&& can_happen(RelayPhase::Streaming, exhausted)
        }),
{
    law_encode_decode(chunk_for(request_id, RelayEventView::Responded(data)));
    law_encode_decode(chunk_for(request_id, RelayEventView::Piece { data, in_progress: true }));
    law_encode_decode(chunk_for(request_id, RelayEventView::Piece { data, in_progress: false }));
    law_encode_decode(chunk_for(request_id, RelayEventView::Exhausted));
}

/// What an event says is what it holds.
pub proof fn law_events_say_what_they_hold(
    error: String,
    info: Vec<u8>,
    data: Bytes,
    in_progress: bool,
)
    ensures
        RelayEvent::Failed(error)@ == RelayEventView::Failed(error@),
        RelayEvent::Responded(info)@ == RelayEventView::Responded(info@),
        (RelayEvent::Piece { data, in_progress })@ == (RelayEventView::Piece {
            data: bytes_content(data),
            in_progress,
        }),
        RelayEvent::Exhausted@ == RelayEventView::Exhausted,
{
}

} // verus!
