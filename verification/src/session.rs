//! The requests of one connection to the gateway.
//!
//! A session takes the chunks that the gateway sends, one after the other, and
//! says what is to be done about each.

use crate::external::{bytes_content, is_method, is_method_byte};
use crate::external::{message_data, message_is_binary, method_name};
use crate::external::{bytes_to_vec, method_from_bytes, string_from_utf8};
use crate::message_chunk::{ChunkView, MessageChunk};
use crate::message_chunk::{CHUNK_HEADER_LEN, CHUNK_TYPE_BODY, CHUNK_TYPE_CLOSED};
use crate::message_chunk::{CHUNK_TYPE_END, CHUNK_TYPE_INFO};
use crate::message_chunk::decode;
use crate::request_headers::RequestHeaders;
use crate::request_message_info_chunk_body::RequestMessageInfoChunkBody;
use crate::request_message_info_chunk_body::{has_request_line, names_lowered, request_info};
use crate::request_message_info_chunk_body::{head_text, is_head, law_head_is_read};
use crate::request_message_info_chunk_body::{law_short_first_line, written_fields, WrittenHead};
use crate::text::decimal;
use crate::text::decimal_text;
use crate::text::{holds_line_end, join, law_decimal, value_of};
use bytes::Bytes;
use reqwest::Method;
use std::collections::HashMap;
use tokio_tungstenite::tungstenite::Message;
use vstd::prelude::*;
use vstd::string::StringExecFns;

verus! {

/// A request that is to be sent to the service.
pub struct ProxyRequest {
    /// The id by which the gateway knows the request.
    pub request_id: u64,
    /// The HTTP method.
    pub method: Method,
    /// The URL at the service.
    pub url: String,
    /// The header fields.
    pub headers: RequestHeaders,
    /// Whether a body follows in further chunks.
    pub streams_body: bool,
}

/// What a request says.
#[verifier::ext_equal]
pub struct ProxyRequestView {
    pub request_id: u64,
    pub method: Seq<char>,
    pub url: Seq<char>,
    pub headers: Map<Seq<char>, Seq<char>>,
    pub streams_body: bool,
}

impl View for ProxyRequest {
    type V = ProxyRequestView;

    open spec fn view(&self) -> ProxyRequestView {
        ProxyRequestView {
            request_id: self.request_id,
            method: method_name(self.method),
            url: self.url@,
            headers: self.headers@,
            streams_body: self.streams_body,
        }
    }
}

/// What is to be done about a chunk.
pub enum Action {
    /// Nothing.
    Ignore,
    /// Send a request to the service. If it streams a body, bodies go to this
    /// request from now on.
    Begin(ProxyRequest),
    /// Append to the body of request `owner`.
    ForwardBody { owner: u64, body: Bytes },
    /// End the body of request `owner`.
    CloseBody { owner: u64 },
    /// The answer to this request is no longer wanted.
    Closed { request_id: u64 },
}

/// What an action says.
#[verifier::ext_equal]
pub enum ActionView {
    Ignore,
    Begin(ProxyRequestView),
    ForwardBody { owner: u64, body: Seq<u8> },
    CloseBody { owner: u64 },
    Closed { request_id: u64 },
}

impl View for Action {
    type V = ActionView;

    open spec fn view(&self) -> ActionView {
        match self {
            Action::Ignore => ActionView::Ignore,
            Action::Begin(request) => ActionView::Begin(request@),
            Action::ForwardBody { owner, body } => ActionView::ForwardBody {
                owner: *owner,
                body: bytes_content(*body),
            },
            Action::CloseBody { owner } => ActionView::CloseBody { owner: *owner },
            Action::Closed { request_id } => ActionView::Closed { request_id: *request_id },
        }
    }
}

/// Why a session cannot go on.
#[derive(Clone, Copy, Debug, PartialEq, Eq, Structural)]
pub enum SessionError {
    /// A binary message is too short to be a chunk.
    ShortChunk,
    /// The head of a request is not UTF-8.
    InvalidUtf8,
    /// The first line of the head of a request is incomplete.
    MalformedRequestLine,
    /// The method of a request is none.
    InvalidMethod,
    /// A piece of a body arrived after the end of the body.
    BodyClosed,
}

/// The request that bodies go to.
#[derive(Clone, Copy, Debug, PartialEq, Eq, Structural)]
pub struct BodySink {
    pub owner: u64,
    pub closed: bool,
}

/// The requests of one connection.
pub struct Session {
    service_host: String,
    service_port: u16,
    service_ssl: bool,
    in_progress: HashMap<u64, bool>,
    body: Option<BodySink>,
}

/// What a session knows.
#[verifier::ext_equal]
pub struct SessionView {
    /// The host of the service.
    pub host: Seq<char>,
    /// The port of the service.
    pub port: u16,
    /// Whether the service is reached over TLS.
    pub ssl: bool,
    /// The requests whose answers are wanted.
    pub in_progress: Set<u64>,
    /// The request that bodies go to, if there was one with a body.
    pub body: Option<BodySink>,
}

impl View for Session {
    type V = SessionView;

    closed spec fn view(&self) -> SessionView {
        SessionView {
            host: self.service_host@,
            port: self.service_port,
            ssl: self.service_ssl,
            in_progress: self.in_progress@.dom(),
            body: self.body,
        }
    }
}

/// The URL of a resource at the service.
pub open spec fn target_url(state: SessionView, uri: Seq<char>) -> Seq<char> {
    let scheme = if state.ssl {
        "https://"@
    } else {
        "http://"@
    };
    scheme + state.host + seq![':'] + decimal(state.port as nat) + uri
}

/// What happens when the head of a request arrives.
pub open spec fn on_info(state: SessionView, id: u64, body: Seq<u8>) -> (
    SessionView,
    Result<ActionView, SessionError>,
) {
    if !vstd::utf8::valid_utf8(body) {
        (state, Err(SessionError::InvalidUtf8))
    } else if !has_request_line(vstd::utf8::decode_utf8(body)) {
        (state, Err(SessionError::MalformedRequestLine))
    } else {
        let info = request_info(vstd::utf8::decode_utf8(body));
        let started = SessionView { in_progress: state.in_progress.insert(id), ..state };
        let streams_body = info.http_method != seq!['G', 'E', 'T'];
        let request = ProxyRequestView {
            request_id: id,
            method: info.http_method,
            url: target_url(state, info.uri),
            headers: info.headers,
            streams_body,
        };
        if !is_method(vstd::utf8::encode_utf8(info.http_method)) {
            (started, Err(SessionError::InvalidMethod))
        } else if streams_body {
            (
                SessionView { body: Some(BodySink { owner: id, closed: false }), ..started },
                Ok(ActionView::Begin(request)),
            )
        } else {
            (started, Ok(ActionView::Begin(request)))
        }
    }
}

/// What happens when a piece of a body arrives.
pub open spec fn on_body(state: SessionView, body: Seq<u8>) -> (
    SessionView,
    Result<ActionView, SessionError>,
) {
    match state.body {
        Some(sink) => if sink.closed {
            (state, Err(SessionError::BodyClosed))
        } else {
            (state, Ok(ActionView::ForwardBody { owner: sink.owner, body }))
        },
        None => (state, Ok(ActionView::Ignore)),
    }
}

/// What happens when the end of a body arrives.
pub open spec fn on_end(state: SessionView) -> (SessionView, Result<ActionView, SessionError>) {
    match state.body {
        Some(sink) => (
            SessionView { body: Some(BodySink { owner: sink.owner, closed: true }), ..state },
            Ok(ActionView::CloseBody { owner: sink.owner }),
        ),
        None => (state, Ok(ActionView::Ignore)),
    }
}

/// What happens when a chunk arrives: what the session then knows, and what
/// is to be done.
pub open spec fn next(state: SessionView, chunk: ChunkView) -> (
    SessionView,
    Result<ActionView, SessionError>,
) {
    if chunk.chunk_type == CHUNK_TYPE_INFO {
        on_info(state, chunk.request_id, chunk.body)
    } else if chunk.chunk_type == CHUNK_TYPE_BODY {
        on_body(state, chunk.body)
    } else if chunk.chunk_type == CHUNK_TYPE_END {
        on_end(state)
    } else if chunk.chunk_type == CHUNK_TYPE_CLOSED {
        (
            SessionView { in_progress: state.in_progress.remove(chunk.request_id), ..state },
            Ok(ActionView::Closed { request_id: chunk.request_id }),
        )
    } else {
        (state, Ok(ActionView::Ignore))
    }
}

/// What an outcome says.
pub open spec fn outcome(result: Result<Action, SessionError>) -> Result<ActionView, SessionError> {
    match result {
        Ok(action) => Ok(action@),
        Err(error) => Err(error),
    }
}

impl Session {
    /// A session that knows of no request yet.
    pub fn new(service_host: String, service_port: u16, service_ssl: bool) -> (session: Session)
        ensures
            session@ == (SessionView {
                host: service_host@,
                port: service_port,
                ssl: service_ssl,
                in_progress: Set::empty(),
                body: None,
            }),
    {
        let session = Session {
            service_host,
            service_port,
            service_ssl,
            in_progress: HashMap::new(),
            body: None,
        };
        assert(session@.in_progress =~= Set::<u64>::empty());
        session
    }

    /// Whether the answer to a request is wanted.
    pub fn is_in_progress(&self, request_id: u64) -> (wanted: bool)
        ensures
            wanted == self@.in_progress.contains(request_id),
    {
        self.in_progress.contains_key(&request_id)
    }

    /// Takes a message of the gateway. Only binary messages say anything.
    pub fn on_message(&mut self, message: Message) -> (result: Result<Action, SessionError>)
        ensures
            if !message_is_binary(message) {
                final(self)@ == old(self)@ && outcome(result) == Ok::<_, SessionError>(
                    ActionView::Ignore,
                )
            } else if message_data(message).len() < CHUNK_HEADER_LEN {
                final(self)@ == old(self)@ && outcome(result) == Err::<ActionView, _>(
                    SessionError::ShortChunk,
                )
            } else {
                (final(self)@, outcome(result)) == next(
                    old(self)@,
                    decode(message_data(message)),
                ) && (decode(message_data(message)).chunk_type == CHUNK_TYPE_INFO && result is Ok
                    ==> names_lowered(
                    vstd::utf8::decode_utf8(decode(message_data(message)).body),
                ))
            },
    {
        if !message.is_binary() {
            return Ok(Action::Ignore);
        }
        if message.len() < CHUNK_HEADER_LEN {
            return Err(SessionError::ShortChunk);
        }
        self.on_chunk(MessageChunk::new(message))
    }

    /// Takes a chunk of the gateway.
    pub fn on_chunk(&mut self, chunk: MessageChunk) -> (result: Result<Action, SessionError>)
        ensures
            (final(self)@, outcome(result)) == next(old(self)@, chunk@),
            chunk.chunk_type == CHUNK_TYPE_INFO && result is Ok ==> names_lowered(
                vstd::utf8::decode_utf8(chunk@.body),
            ),
    {
        if chunk.chunk_type == CHUNK_TYPE_INFO {
            self.begin(chunk.request_id, &chunk.chunk_body)
        } else if chunk.chunk_type == CHUNK_TYPE_BODY {
            match self.body {
                Some(sink) => {
                    if sink.closed {
                        Err(SessionError::BodyClosed)
                    } else {
                        Ok(Action::ForwardBody { owner: sink.owner, body: chunk.chunk_body })
                    }
                },
                None => Ok(Action::Ignore),
            }
        } else if chunk.chunk_type == CHUNK_TYPE_END {
            match self.body {
                Some(sink) => {
                    self.body = Some(BodySink { owner: sink.owner, closed: true });
                    Ok(Action::CloseBody { owner: sink.owner })
                },
                None => Ok(Action::Ignore),
            }
        } else if chunk.chunk_type == CHUNK_TYPE_CLOSED {
            self.in_progress.remove(&chunk.request_id);
            assert(self@.in_progress =~= old(self)@.in_progress.remove(chunk.request_id));
            Ok(Action::Closed { request_id: chunk.request_id })
        } else {
            Ok(Action::Ignore)
        }
    }

    /// Takes the head of a request.
    fn begin(&mut self, request_id: u64, body: &Bytes) -> (result: Result<Action, SessionError>)
        ensures
            (final(self)@, outcome(result)) == on_info(
                old(self)@,
                request_id,
                bytes_content(*body),
            ),
            result is Ok ==> names_lowered(vstd::utf8::decode_utf8(bytes_content(*body))),
    {
        let text = match string_from_utf8(bytes_to_vec(body)) {
            Some(text) => text,
            None => {
                return Err(SessionError::InvalidUtf8);
            },
        };
        let info = match RequestMessageInfoChunkBody::try_new(text) {
            Some(info) => info,
            None => {
                return Err(SessionError::MalformedRequestLine);
            },
        };
        self.in_progress.insert(request_id, true);
        assert(self@.in_progress =~= old(self)@.in_progress.insert(request_id));
        let url = self.url(info.uri.as_str());
        let method = match method_from_bytes(info.http_method.as_str().as_bytes()) {
            Some(method) => method,
            None => {
                return Err(SessionError::InvalidMethod);
            },
        };
        proof {
            lemma_method_text(info.http_method@);
            reveal_strlit("GET");
            assert("GET"@ =~= seq!['G', 'E', 'T']);
        }
        let streams_body = info.http_method != "GET".to_string();
        if streams_body {
            self.body = Some(BodySink { owner: request_id, closed: false });
        }
        Ok(
            Action::Begin(
                ProxyRequest { request_id, method, url, headers: info.headers, streams_body },
            ),
        )
    }

    /// The URL of a resource at the service.
    fn url(&self, uri: &str) -> (url: String)
        ensures
            url@ == target_url(self@, uri@),
    {
        let mut url = if self.service_ssl {
            "https://".to_string()
        } else {
            "http://".to_string()
        };
        url.append(self.service_host.as_str());
        url.push(':');
        url.append(decimal_text(self.service_port).as_str());
        url.append(uri);
        assert(url@ =~= target_url(self@, uri@));
        url
    }
}

/// A text whose encoding has only ASCII bytes has only ASCII characters.
proof fn lemma_ascii_bytes(chars: Seq<char>)
    requires
        forall|i: int|
            0 <= i < vstd::utf8::encode_utf8(chars).len()
                ==> #[trigger] vstd::utf8::encode_utf8(chars)[i] < 0x80,
    ensures
        vstd::utf8::is_ascii_chars(chars),
    decreases chars.len(),
{
    if chars.len() > 0 {
        let bytes = vstd::utf8::encode_utf8(chars);
        let c = chars[0] as u32;
        let first = vstd::utf8::encode_scalar(c);
        let rest = chars.drop_first();
        assert(bytes == first + vstd::utf8::encode_utf8(rest));
        assert(bytes[0] == first[0]);
        assert(0xC0 | ((c >> 6) & 0x1F) as u8 >= 0x80u8) by (bit_vector);
        assert(0xE0 | ((c >> 12) & 0x0F) as u8 >= 0x80u8) by (bit_vector);
        assert(0xF0 | ((c >> 18) & 0x7) as u8 >= 0x80u8) by (bit_vector);
        assert(c < 0x80);
        assert forall|i: int| 0 <= i < vstd::utf8::encode_utf8(rest).len() implies #[trigger]
            vstd::utf8::encode_utf8(rest)[i] < 0x80 by {
            assert(bytes[i + first.len()] == vstd::utf8::encode_utf8(rest)[i]);
        }
        lemma_ascii_bytes(rest);
        assert forall|i: int| 0 <= i < chars.len() implies '\0' <= #[trigger] chars[i] <= '\u{7f}' by {
            if i > 0 {
                assert(chars[i] == rest[i - 1]);
            } else {
                vstd::utf8::char_u32_cast(chars[0], c);
            }
        }
    }
}

/// The name of a method is ASCII, so its characters are its bytes.
proof fn lemma_method_text(method: Seq<char>)
    requires
        is_method(vstd::utf8::encode_utf8(method)),
    ensures
        vstd::utf8::encode_utf8(method).map_values(|b: u8| b as char) == method,
{
    let bytes = vstd::utf8::encode_utf8(method);
    assert forall|i: int| 0 <= i < bytes.len() implies #[trigger] bytes[i] < 0x80 by {
        assert(is_method_byte(bytes[i]));
    }
    lemma_ascii_bytes(method);
    vstd::utf8::is_ascii_chars_encode_utf8(method);
    assert(bytes.map_values(|b: u8| b as char) =~= method);
}

/// What a session knows after some chunks.
pub open spec fn run(state: SessionView, chunks: Seq<ChunkView>) -> SessionView
    decreases chunks.len(),
{
    if chunks.len() == 0 {
        state
    } else {
        next(run(state, chunks.drop_last()), chunks.last()).0
    }
}

/// Whether a chunk is the head of request `id`.
pub open spec fn starts(chunk: ChunkView, id: u64) -> bool {
    &&& chunk.chunk_type == CHUNK_TYPE_INFO
    &&& chunk.request_id == id
    &&& vstd::utf8::valid_utf8(chunk.body)
    &&& has_request_line(vstd::utf8::decode_utf8(chunk.body))
}

/// Whether a chunk says that the answer to request `id` is no longer wanted.
pub open spec fn closes(chunk: ChunkView, id: u64) -> bool {
    chunk.chunk_type == CHUNK_TYPE_CLOSED && chunk.request_id == id
}

/// Whether a chunk is the head of a request with a body.
pub open spec fn opens_body(chunk: ChunkView) -> bool {
    let method = request_info(vstd::utf8::decode_utf8(chunk.body)).http_method;
    &&& starts(chunk, chunk.request_id)
    &&& is_method(vstd::utf8::encode_utf8(method))
    &&& method != seq!['G', 'E', 'T']
}

/// Whether request `id` was started by one of some chunks and by none of the
/// later ones closed.
pub open spec fn started_and_not_closed(chunks: Seq<ChunkView>, id: u64) -> bool {
    exists|i: int|
        0 <= i < chunks.len() && #[trigger] starts(chunks[i], id) && not_closed_since(
            chunks,
            i,
            id,
        )
}

/// Whether no chunk after chunk `i` closes request `id`.
pub open spec fn not_closed_since(chunks: Seq<ChunkView>, i: int, id: u64) -> bool {
    forall|j: int| i < j < chunks.len() ==> !closes(#[trigger] chunks[j], id)
}

/// The answer to a request is wanted from the head of the request until the
/// gateway says otherwise, whatever is said of other requests.
pub proof fn law_in_progress(state: SessionView, chunks: Seq<ChunkView>, id: u64)
    requires
        !state.in_progress.contains(id),
    ensures
        run(state, chunks).in_progress.contains(id) <==> started_and_not_closed(chunks, id),
    decreases chunks.len(),
{
    if chunks.len() > 0 {
        let before = chunks.drop_last();
        let last = chunks.last();
        let n = chunks.len() - 1;
        law_in_progress(state, before, id);
        if started_and_not_closed(before, id) && !closes(last, id) {
            let i = choose|i: int|
                0 <= i < before.len() && #[trigger] starts(before[i], id) && not_closed_since(
                    before,
                    i,
                    id,
                );
            assert(chunks[i] == before[i]);
            assert forall|j: int| i < j < chunks.len() implies !closes(#[trigger] chunks[j], id) by {
                if j < n {
                    assert(chunks[j] == before[j]);
                }
            }
            assert(starts(chunks[i], id) && not_closed_since(chunks, i, id));
        }
        if starts(last, id) {
            assert(starts(chunks[n], id) && not_closed_since(chunks, n, id));
        }
        if started_and_not_closed(chunks, id) {
            let i = choose|i: int|
                0 <= i < chunks.len() && #[trigger] starts(chunks[i], id) && not_closed_since(
                    chunks,
                    i,
                    id,
                );
            if i < n {
                assert(!closes(chunks[n], id));
                assert(before[i] == chunks[i]);
                assert forall|j: int| i < j < before.len() implies !closes(
                    #[trigger] before[j],
                    id,
                ) by {
                    assert(before[j] == chunks[j]);
                }
                assert(starts(before[i], id) && not_closed_since(before, i, id));
            }
        }
    }
}

/// Whether the end of a body is among the chunks after chunk `i`.
pub open spec fn ended_since(chunks: Seq<ChunkView>, i: int) -> bool {
    exists|j: int| i < j < chunks.len() && (#[trigger] chunks[j]).chunk_type == CHUNK_TYPE_END
}

/// Bodies go to the last request that was started with a body, until the end
/// of a body arrives.
pub proof fn law_bodies_go_to_the_last_request(state: SessionView, chunks: Seq<ChunkView>, i: int)
    requires
        0 <= i < chunks.len(),
        opens_body(chunks[i]),
        forall|j: int| i < j < chunks.len() ==> !opens_body(#[trigger] chunks[j]),
    ensures
        run(state, chunks).body == Some(
            BodySink { owner: chunks[i].request_id, closed: ended_since(chunks, i) },
        ),
    decreases chunks.len(),
{
    let before = chunks.drop_last();
    let n = chunks.len() - 1;
    if i < n {
        assert(before[i] == chunks[i]);
        assert forall|j: int| i < j < before.len() implies !opens_body(#[trigger] before[j]) by {
            assert(before[j] == chunks[j]);
        }
        law_bodies_go_to_the_last_request(state, before, i);
        assert(!opens_body(chunks[n]));
        if ended_since(before, i) {
            let j = choose|j: int|
                i < j < before.len() && (#[trigger] before[j]).chunk_type == CHUNK_TYPE_END;
            assert(chunks[j] == before[j]);
        }
        if ended_since(chunks, i) && chunks[n].chunk_type != CHUNK_TYPE_END {
            let j = choose|j: int|
                i < j < chunks.len() && (#[trigger] chunks[j]).chunk_type == CHUNK_TYPE_END;
            assert(before[j] == chunks[j]);
        }
    }
}

/// As long as no request with a body was started, pieces and ends of bodies
/// are ignored.
pub proof fn law_no_body_without_request(state: SessionView, chunks: Seq<ChunkView>)
    requires
        state.body is None,
        forall|j: int| 0 <= j < chunks.len() ==> !opens_body(#[trigger] chunks[j]),
    ensures
        run(state, chunks).body is None,
        forall|chunk: ChunkView|
            chunk.chunk_type == CHUNK_TYPE_BODY || chunk.chunk_type == CHUNK_TYPE_END
                ==> #[trigger] next(run(state, chunks), chunk) == (
                run(state, chunks),
                Ok::<_, SessionError>(ActionView::Ignore),
            ),
    decreases chunks.len(),
{
    if chunks.len() > 0 {
        let before = chunks.drop_last();
        assert forall|j: int| 0 <= j < before.len() implies !opens_body(#[trigger] before[j]) by {
            assert(before[j] == chunks[j]);
        }
        law_no_body_without_request(state, before);
        assert(!opens_body(chunks[chunks.len() - 1]));
    }
}

/// A session stays with its service: all requests go to one host and port, in
/// one scheme.
pub proof fn law_service_is_kept(state: SessionView, chunks: Seq<ChunkView>, uri: Seq<char>)
    ensures
        target_url(run(state, chunks), uri) == target_url(state, uri),
    decreases chunks.len(),
{
    if chunks.len() > 0 {
        law_service_is_kept(state, chunks.drop_last(), uri);
    }
}

/// Every request begins as its head says: with the id of the chunk, the method
/// and the header fields that are written, whatever the method is, at the URL
/// that the service and the written URI make up. A body follows exactly if the
/// method is not `GET`, and then bodies go to this request.
pub proof fn law_request_begins_as_written(state: SessionView, id: u64, head: WrittenHead)
    requires
        is_head(head),
        is_method(vstd::utf8::encode_utf8(head.method)),
    ensures
        ({
            let chunk = ChunkView {
                chunk_type: CHUNK_TYPE_INFO,
                request_id: id,
                body: vstd::utf8::encode_utf8(head_text(head)),
            };
            let (after, result) = next(state, chunk);
            &&& result is Ok
            &&& result->Ok_0 is Begin
            &&& {
                let request = result->Ok_0->Begin_0;
                &&& request.request_id == id
                &&& request.method == head.method
                &&& request.headers == written_fields(head.lines)
                &&& request.url == (if state.ssl {
                    "https://"@
                } else {
                    "http://"@
                }) + state.host + seq![':'] + decimal(state.port as nat) + head.uri
                &&& request.streams_body <==> head.method != seq!['G', 'E', 'T']
            }
            &&& after.host == state.host && after.port == state.port && after.ssl == state.ssl
            &&& after.in_progress == state.in_progress.insert(id)
            &&& after.body == (if head.method != seq!['G', 'E', 'T'] {
                Some(BodySink { owner: id, closed: false })
            } else {
                state.body
            })
        }),
{
    law_head_is_read(head);
    vstd::utf8::encode_utf8_decode_utf8(head_text(head));
    vstd::utf8::encode_utf8_valid_utf8(head_text(head));
}

/// The URL of a request tells the service and the resource: the port is the
/// number between the host and the URI.
pub proof fn law_url_of_request(state: SessionView, uri: Seq<char>)
    ensures
        ({
            let url = target_url(state, uri);
            let n = if state.ssl {
                8int
            } else {
                7
            };
            let h = state.host.len();
            let d = decimal(state.port as nat).len();
            &&& url.len() == n + h + 1 + d + uri.len()
            &&& url.subrange(0, n) == (if state.ssl {
                seq!['h', 't', 't', 'p', 's', ':', '/', '/']
            } else {
                seq!['h', 't', 't', 'p', ':', '/', '/']
            })
            &&& url.subrange(n, n + h) == state.host
            &&& url[n + h] == ':'
            &&& value_of(url.subrange(n + h + 1, n + h + 1 + d)) == state.port
            &&& url.subrange(n + h + 1 + d, url.len() as int) == uri
        }),
{
    reveal_strlit("https://");
    reveal_strlit("http://");
    let url = target_url(state, uri);
    let n = if state.ssl {
        8int
    } else {
        7
    };
    let h = state.host.len();
    let digits = decimal(state.port as nat);
    law_decimal(state.port as nat);
    assert(url.subrange(n, n + h) =~= state.host);
    assert(url.subrange(n + h + 1, n + h + 1 + digits.len()) =~= digits);
    assert(url.subrange(n + h + 1 + digits.len(), url.len() as int) =~= uri);
}

/// A head that is no text stops a session and leaves nothing behind.
pub proof fn law_head_must_be_text(state: SessionView, id: u64, body: Seq<u8>)
    requires
        !vstd::utf8::valid_utf8(body),
    ensures
        next(state, ChunkView { chunk_type: CHUNK_TYPE_INFO, request_id: id, body }) == (
            state,
            Err::<ActionView, _>(SessionError::InvalidUtf8),
        ),
{
}

/// A head whose first line has fewer than three words stops a session and
/// leaves nothing behind, whatever lines follow.
pub proof fn law_first_line_must_be_complete(
    state: SessionView,
    id: u64,
    first: Seq<char>,
    i: int,
    lines: Seq<Seq<char>>,
)
    requires
        forall|j: int| 0 <= j < first.len() && j != i ==> #[trigger] first[j] != ' ',
        !holds_line_end(first),
        forall|j: int| 0 <= j < lines.len() ==> !holds_line_end(#[trigger] lines[j]),
    ensures
        next(
            state,
            ChunkView {
                chunk_type: CHUNK_TYPE_INFO,
                request_id: id,
                body: vstd::utf8::encode_utf8(join(seq![first] + lines, seq!['\r', '\n'])),
            },
        ) == (state, Err::<ActionView, _>(SessionError::MalformedRequestLine)),
{
    let text = join(seq![first] + lines, seq!['\r', '\n']);
    law_short_first_line(first, i, lines);
    vstd::utf8::encode_utf8_decode_utf8(text);
    vstd::utf8::encode_utf8_valid_utf8(text);
}

/// A head with a bad method stops a session. The request counts as begun, and
/// bodies go where they went.
pub proof fn law_bad_method_is_refused(state: SessionView, id: u64, head: WrittenHead)
    requires
        is_head(head),
        !is_method(vstd::utf8::encode_utf8(head.method)),
    ensures
        ({
            let chunk = ChunkView {
                chunk_type: CHUNK_TYPE_INFO,
                request_id: id,
                body: vstd::utf8::encode_utf8(head_text(head)),
            };
            let (after, result) = next(state, chunk);
            &&& result == Err::<ActionView, _>(SessionError::InvalidMethod)
            &&& after.host == state.host && after.port == state.port && after.ssl == state.ssl
            &&& after.in_progress == state.in_progress.insert(id)
            &&& after.body == state.body
        }),
{
    law_head_is_read(head);
    vstd::utf8::encode_utf8_decode_utf8(head_text(head));
    vstd::utf8::encode_utf8_valid_utf8(head_text(head));
}

/// A piece of a body goes whole to the request that bodies go to, whatever id
/// it carries. After the end of that body it stops the session, and without
/// such a request it is ignored. The session does not change.
pub proof fn law_piece_is_forwarded_whole(state: SessionView, chunk: ChunkView)
    requires
        chunk.chunk_type == CHUNK_TYPE_BODY,
    ensures
        next(state, chunk).0 == state,
        state.body matches Some(sink) ==> !sink.closed ==> next(state, chunk).1 is Ok && next(
            state,
            chunk,
        ).1->Ok_0 is ForwardBody && next(state, chunk).1->Ok_0->ForwardBody_owner == sink.owner
            && next(state, chunk).1->Ok_0->ForwardBody_body == chunk.body,
        state.body matches Some(sink) ==> sink.closed ==> next(state, chunk).1 == Err::<
            ActionView,
            _,
        >(SessionError::BodyClosed),
        state.body is None ==> next(state, chunk).1 == Ok::<_, SessionError>(ActionView::Ignore),
{
}

/// The end of a body ends the body of the request that bodies go to, and
/// changes nothing else. Without such a request it is ignored.
pub proof fn law_end_closes_body(state: SessionView, chunk: ChunkView)
    requires
        chunk.chunk_type == CHUNK_TYPE_END,
    ensures
        ({
            let (after, result) = next(state, chunk);
            &&& after.host == state.host && after.port == state.port && after.ssl == state.ssl
            &&& after.in_progress == state.in_progress
            &&& state.body is None ==> after.body is None && result == Ok::<_, SessionError>(
                ActionView::Ignore,
            )
            &&& state.body matches Some(sink) ==> result is Ok && result->Ok_0 is CloseBody
                && result->Ok_0->CloseBody_owner == sink.owner && after.body == Some(
                BodySink { owner: sink.owner, closed: true },
            )
        }),
{
}

/// A request that the gateway gives up is given up, and no other; chunks of
/// unknown types say nothing.
pub proof fn law_closing_and_unknown_chunks(state: SessionView, chunk: ChunkView)
    ensures
        ({
            let (after, result) = next(state, chunk);
            let t = chunk.chunk_type;
            &&& t == CHUNK_TYPE_CLOSED ==> {
                &&& result is Ok && result->Ok_0 is Closed
                &&& result->Ok_0->Closed_request_id == chunk.request_id
                &&& after.host == state.host && after.port == state.port && after.ssl == state.ssl
                &&& after.body == state.body
                &&& !after.in_progress.contains(chunk.request_id)
                &&& forall|id: u64|
                    id != chunk.request_id ==> (#[trigger] after.in_progress.contains(id)
                        <==> state.in_progress.contains(id))
            }
            &&& t != CHUNK_TYPE_INFO && t != CHUNK_TYPE_BODY && t != CHUNK_TYPE_END && t
                != CHUNK_TYPE_CLOSED ==> after == state && result == Ok::<_, SessionError>(
                ActionView::Ignore,
            )
        }),
{
}

/// The bytes that a session forwards while it takes some chunks.
pub open spec fn forwarded(state: SessionView, chunks: Seq<ChunkView>) -> Seq<u8>
    decreases chunks.len(),
{
    if chunks.len() == 0 {
        Seq::empty()
    } else {
        forwarded(state, chunks.drop_last()) + match next(
            run(state, chunks.drop_last()),
            chunks.last(),
        ).1 {
            Ok(ActionView::ForwardBody { body, .. }) => body,
            _ => Seq::empty(),
        }
    }
}

/// The bodies of all body chunks among some chunks, one after the other.
pub open spec fn body_bytes(chunks: Seq<ChunkView>) -> Seq<u8>
    decreases chunks.len(),
{
    if chunks.len() == 0 {
        Seq::empty()
    } else if chunks.last().chunk_type == CHUNK_TYPE_BODY {
        body_bytes(chunks.drop_last()) + chunks.last().body
    } else {
        body_bytes(chunks.drop_last())
    }
}

/// From the head of a request with a body until its end or the next such head,
/// what is forwarded is what the body chunks hold, nothing lost and nothing
/// added.
pub proof fn law_body_is_forwarded_whole(state: SessionView, owner: u64, chunks: Seq<ChunkView>)
    requires
        state.body == Some(BodySink { owner, closed: false }),
        forall|i: int|
            0 <= i < chunks.len() ==> (#[trigger] chunks[i]).chunk_type != CHUNK_TYPE_END
                && !opens_body(chunks[i]),
    ensures
        run(state, chunks).body == state.body,
        forwarded(state, chunks) == body_bytes(chunks),
    decreases chunks.len(),
{
    if chunks.len() > 0 {
        let before = chunks.drop_last();
        assert forall|i: int| 0 <= i < before.len() implies (#[trigger] before[i]).chunk_type
            != CHUNK_TYPE_END && !opens_body(before[i]) by {
            assert(before[i] == chunks[i]);
        }
        law_body_is_forwarded_whole(state, owner, before);
        let last = chunks[chunks.len() - 1];
        assert(last.chunk_type != CHUNK_TYPE_END && !opens_body(last));
        assert(forwarded(state, before) + Seq::<u8>::empty() =~= forwarded(state, before));
    }
}

/// No chunk changes where the service is.
pub proof fn law_chunks_leave_the_service(state: SessionView, chunks: Seq<ChunkView>)
    ensures
        run(state, chunks).host == state.host,
        run(state, chunks).port == state.port,
        run(state, chunks).ssl == state.ssl,
    decreases chunks.len(),
{
    if chunks.len() > 0 {
        law_chunks_leave_the_service(state, chunks.drop_last());
    }
}

/// What a request, an action and an outcome say is what they hold.
pub proof fn law_actions_say_what_they_hold(
    request: ProxyRequest,
    owner: u64,
    body: Bytes,
    action: Action,
    error: SessionError,
)
    ensures
        request@.request_id == request.request_id,
        request@.method == method_name(request.method),
        request@.url == request.url@,
        request@.headers == request.headers@,
        request@.streams_body == request.streams_body,
        Action::Ignore@ == ActionView::Ignore,
        Action::Begin(request)@ == ActionView::Begin(request@),
        (Action::ForwardBody { owner, body })@ == (ActionView::ForwardBody {
            owner,
            body: bytes_content(body),
        }),
        (Action::CloseBody { owner })@ == (ActionView::CloseBody { owner }),
        (Action::Closed { request_id: owner })@ == (ActionView::Closed { request_id: owner }),
        outcome(Ok(action)) == Ok::<_, SessionError>(action@),
        outcome(Err(error)) == Err::<ActionView, _>(error),
{
}

} // verus!
