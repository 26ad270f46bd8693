//! Everything this library believes of code it does not verify.
//!
//! Each item names the function it stands for and what is believed of it. The
//! contents of a foreign value are spoken of through the names declared here.

use bytes::{Buf, Bytes};
use reqwest::header::{HeaderMap, HeaderName, HeaderValue, ToStrError};
use reqwest::{Client, Method, RequestBuilder, StatusCode};
use tokio_tungstenite::tungstenite::Message;
use tokio_tungstenite::Connector;
use vstd::prelude::*;
use vstd::utf8::{decode_utf8, is_ascii_chars, valid_utf8};

verus! {

// ---------------------------------------------------------------------------
// bytes
// ---------------------------------------------------------------------------

/// `bytes::Bytes`, a shared byte buffer.
#[verifier::external_type_specification]
#[verifier::external_body]
pub struct ExBytes(Bytes);

/// The bytes that a `Bytes` handle can still read.
pub uninterp spec fn bytes_content(bytes: Bytes) -> Seq<u8>;

/// The unsigned number that eight bytes hold, most significant byte first.
pub open spec fn be_u64(s: Seq<u8>) -> int {
    s[0] * 0x100_0000_0000_0000 + s[1] * 0x1_0000_0000_0000 + s[2] * 0x100_0000_0000 + s[3]
        * 0x1_0000_0000 + s[4] * 0x100_0000 + s[5] * 0x1_0000 + s[6] * 0x100 + s[7]
}

/// `Bytes::from(Vec<u8>)`: the handle reads exactly the bytes of the vector.
#[verifier::external_body]
pub(crate) fn bytes_from_vec(data: Vec<u8>) -> (bytes: Bytes)
    ensures
        bytes_content(bytes) == data@,
{
    Bytes::from(data)
}

/// `Bytes::slice`: a handle on the bytes from `begin` up to, and without,
/// `end`. It panics outside the bounds that are required here.
#[verifier::external_body]
pub(crate) fn bytes_slice(bytes: &Bytes, begin: usize, end: usize) -> (part: Bytes)
    requires
        begin <= end <= bytes_content(*bytes).len(),
    ensures
        bytes_content(part) == bytes_content(*bytes).subrange(begin as int, end as int),
{
    bytes.slice(begin..end)
}

/// `Buf::get_i8` on `Bytes`: reads one byte as a two's complement number and
/// moves past it. It panics on an empty buffer.
#[verifier::external_body]
pub(crate) fn bytes_get_i8(bytes: &mut Bytes) -> (value: i8)
    requires
        bytes_content(*old(bytes)).len() >= 1,
    ensures
        value == bytes_content(*old(bytes))[0] as i8,
        bytes_content(*final(bytes)) == bytes_content(*old(bytes)).skip(1),
{
    bytes.get_i8()
}

/// `Buf::get_u64` on `Bytes`: reads eight bytes, most significant first, and
/// moves past them. It panics when fewer are left.
#[verifier::external_body]
pub(crate) fn bytes_get_u64(bytes: &mut Bytes) -> (value: u64)
    requires
        bytes_content(*old(bytes)).len() >= 8,
    ensures
        value == be_u64(bytes_content(*old(bytes))),
        bytes_content(*final(bytes)) == bytes_content(*old(bytes)).skip(8),
{
    bytes.get_u64()
}

/// `<[u8]>::to_vec` through `Bytes`: a vector of the same bytes.
#[verifier::external_body]
pub(crate) fn bytes_to_vec(bytes: &Bytes) -> (data: Vec<u8>)
    ensures
        data@ == bytes_content(*bytes),
{
    bytes.to_vec()
}

// ---------------------------------------------------------------------------
// tokio_tungstenite
// ---------------------------------------------------------------------------

/// `tokio_tungstenite::tungstenite::Message`, a websocket message.
#[verifier::external_type_specification]
#[verifier::external_body]
pub struct ExMessage(Message);

/// The payload of a websocket message.
pub uninterp spec fn message_data(message: Message) -> Seq<u8>;

/// Whether a websocket message is a binary one.
pub uninterp spec fn message_is_binary(message: Message) -> bool;

/// Whether a websocket message is a ping.
pub uninterp spec fn message_is_ping(message: Message) -> bool;

/// `Message::is_binary`: tells binary messages from all others.
pub assume_specification[ Message::is_binary ](message: &Message) -> (binary: bool)
    ensures
        binary == message_is_binary(*message),
;

/// `Message::into_data`: hands out the payload.
pub assume_specification[ Message::into_data ](message: Message) -> (data: Vec<u8>)
    ensures
        data@ == message_data(message),
;

/// `Message::len`: of a binary message, the length of its payload. Of other
/// messages nothing is claimed: of a raw frame it also counts the frame header.
pub assume_specification[ Message::len ](message: &Message) -> (len: usize)
    ensures
        message_is_binary(*message) ==> len == message_data(*message).len(),
;

/// `Message::Binary`: a binary message with the given payload.
#[verifier::external_body]
pub(crate) fn binary_message(data: Vec<u8>) -> (message: Message)
    ensures
        message_is_binary(message),
        !message_is_ping(message),
        message_data(message) == data@,
{
    Message::Binary(data)
}

/// `Message::Ping`: a ping with the given payload.
#[verifier::external_body]
pub(crate) fn ping_message(data: Vec<u8>) -> (message: Message)
    ensures
        message_is_ping(message),
        !message_is_binary(message),
        message_data(message) == data@,
{
    Message::Ping(data)
}

/// `tokio_tungstenite::Connector`, the TLS set-up of a websocket client. It is
/// carried, never looked into.
#[verifier::external_type_specification]
#[verifier::external_body]
pub struct ExConnector(Connector);

// ---------------------------------------------------------------------------
// reqwest
// ---------------------------------------------------------------------------

/// `reqwest::Client`, the HTTP client. It is carried, never looked into.
#[verifier::external_type_specification]
#[verifier::external_body]
pub struct ExClient(Client);

/// `reqwest::header::HeaderMap`, a multimap of header fields.
#[verifier::external_type_specification]
#[verifier::external_body]
#[verifier::reject_recursive_types(T)]
pub struct ExHeaderMap<T>(HeaderMap<T>);

/// `reqwest::header::HeaderValue`, the bytes of one header field.
#[verifier::external_type_specification]
#[verifier::external_body]
pub struct ExHeaderValue(HeaderValue);

/// `reqwest::header::ToStrError`, what `HeaderValue::to_str` fails with.
#[verifier::external_type_specification]
#[verifier::external_body]
pub struct ExToStrError(ToStrError);

/// The header fields of a map in the order in which it is walked: the name of
/// each, and the bytes of its value.
pub uninterp spec fn header_fields(headers: HeaderMap<HeaderValue>) -> Seq<(Seq<char>, Seq<u8>)>;

/// The bytes of a header value.
pub uninterp spec fn header_value_bytes(value: HeaderValue) -> Seq<u8>;

/// Whether a byte may stand in a header value that is read as text.
pub open spec fn is_visible_ascii(b: u8) -> bool {
    32 <= b < 127 || b == 9
}

/// Whether a character may stand in the name of a header.
pub open spec fn is_header_name_char(c: char) -> bool {
    ||| '0' <= c <= '9' || 'A' <= c <= 'Z' || '^' <= c <= 'z'
    ||| '!' <= c <= '\'' || c == '*' || c == '+' || c == '-' || c == '.' || c == '|' || c == '~'
}

/// Whether a text is the name of a header.
pub open spec fn is_header_name(s: Seq<char>) -> bool {
    0 < s.len() <= 0xffff && forall|i: int|
        0 <= i < s.len() ==> is_header_name_char(#[trigger] s[i])
}

/// Whether a text can be the value of a header: it has no control characters
/// but tabs.
pub open spec fn is_header_value(s: Seq<char>) -> bool {
    forall|i: int|
        0 <= i < s.len() ==> {
            let c = #[trigger] s[i];
            c == '\t' || (c >= ' ' && c != '\u{7f}')
        }
}

/// Whether a text can be the name under which a map holds a field: a header
/// name, in which a NUL may stand for a character that no name can have.
pub open spec fn is_entry_name(s: Seq<char>) -> bool {
    0 < s.len() <= 0xffff && forall|i: int|
        0 <= i < s.len() ==> (#[trigger] s[i] == '\0' || is_header_name_char(s[i]))
}

/// `HeaderMap::iter`: walks all fields, each as its name and its value. A name
/// has only characters that header names can have, but for NULs: `append` and
/// `insert` put these in the place of others when they take a long text for a
/// name unchecked.
#[verifier::external_body]
pub(crate) fn header_entries(headers: &HeaderMap<HeaderValue>) -> (entries: Vec<
    (String, HeaderValue),
>)
    ensures
        entries@.len() == header_fields(*headers).len(),
        forall|i: int|
            #![trigger entries@[i]]
            0 <= i < entries@.len() ==> header_fields(*headers)[i] == (
                entries@[i].0@,
                header_value_bytes(entries@[i].1),
            ) && is_entry_name(entries@[i].0@),
{
    headers.iter().map(|(name, value)| (name.as_str().to_string(), value.clone())).collect()
}

/// `HeaderValue::to_str`: the text of a value, if all its bytes are visible
/// ASCII characters or tabs; an error otherwise.
pub assume_specification[ HeaderValue::to_str ](value: &HeaderValue) -> (text: Result<
    &str,
    ToStrError,
>)
    ensures
        text is Ok <==> forall|i: int|
            0 <= i < header_value_bytes(*value).len() ==> is_visible_ascii(
                #[trigger] header_value_bytes(*value)[i],
            ),
        text is Ok ==> text->Ok_0@ == header_value_bytes(*value).map_values(|b: u8| b as char),
;

/// The reason phrase that is standard for a status code.
pub uninterp spec fn canonical_reason(code: u16) -> Option<Seq<char>>;

/// Whether a text has only printable ASCII characters.
pub open spec fn is_printable(s: Seq<char>) -> bool {
    forall|i: int| 0 <= i < s.len() ==> ' ' <= #[trigger] s[i] <= '~'
}

/// `StatusCode::canonical_reason`, of the status code with the given number:
/// its standard reason phrase, if it has one. Only numbers of three digits are
/// status codes. All phrases are printable ASCII.
#[verifier::external_body]
pub(crate) fn status_reason(code: u16) -> (reason: Option<String>)
    ensures
        reason is Some ==> canonical_reason(code) == Some(reason->Some_0@),
        reason is None ==> canonical_reason(code) is None,
        reason is Some ==> 100 <= code <= 999,
        reason is Some ==> is_printable(reason->Some_0@),
{
    StatusCode::from_u16(code).ok()?.canonical_reason().map(|reason| reason.to_string())
}

/// The character of a decimal digit.
pub open spec fn digit(d: int) -> char {
    (d + '0' as int) as char
}

/// `StatusCode::as_str`, of the status code with the given number: its three
/// decimal digits.
#[verifier::external_body]
pub(crate) fn status_text(code: u16) -> (text: String)
    requires
        100 <= code <= 999,
    ensures
        text@ == seq![
            digit(code as int / 100),
            digit(code as int / 10 % 10),
            digit(code as int % 10),
        ],
{
    StatusCode::from_u16(code).unwrap().as_str().to_string()
}

/// `reqwest::Method`, an HTTP method.
#[verifier::external_type_specification]
#[verifier::external_body]
pub struct ExMethod(Method);

/// The name of an HTTP method.
pub uninterp spec fn method_name(method: Method) -> Seq<char>;

/// Whether a byte may stand in the name of an HTTP method.
pub open spec fn is_method_byte(b: u8) -> bool {
    ||| '0' as u8 <= b <= '9' as u8
    ||| 'A' as u8 <= b <= 'Z' as u8
    ||| '^' as u8 <= b <= 'z' as u8
    ||| b == '!' as u8 || b == '*' as u8 || b == '+' as u8 || b == '-' as u8 || b == '.' as u8
    ||| b == '|' as u8 || b == '~' as u8
}

/// Whether some bytes are the name of an HTTP method.
pub open spec fn is_method(src: Seq<u8>) -> bool {
    src.len() > 0 && forall|i: int| 0 <= i < src.len() ==> is_method_byte(#[trigger] src[i])
}

/// `Method::from_bytes`: the method whose name is the given bytes, if these are
/// one or more method characters.
#[verifier::external_body]
pub(crate) fn method_from_bytes(src: &[u8]) -> (method: Option<Method>)
    ensures
        method is Some <==> is_method(src@),
        method is Some ==> method_name(method->Some_0) == src@.map_values(|b: u8| b as char),
{
    Method::from_bytes(src).ok()
}

/// `reqwest::RequestBuilder`, a request on its way to the service.
#[verifier::external_type_specification]
#[verifier::external_body]
pub struct ExRequestBuilder(RequestBuilder);

/// What a request is so far: its method, its URL, for each header name the
/// values in the order in which they are sent, and whether it has a body.
#[verifier::ext_equal]
pub struct OutgoingRequest {
    pub method: Seq<char>,
    pub url: Seq<char>,
    pub headers: Map<Seq<char>, Seq<Seq<u8>>>,
    pub has_body: bool,
}

/// The request that a builder holds. It holds none once something was wrong.
pub uninterp spec fn request_content(builder: RequestBuilder) -> Option<OutgoingRequest>;

/// The client that a builder sends its request with.
pub uninterp spec fn request_client(builder: RequestBuilder) -> Client;

/// What the client reads from the text of a URL: the URL that it sends to, and
/// the headers that a user name or password in the text asks for. It reads
/// nothing from a text that is no URL with a host.
pub uninterp spec fn parsed_url(url: Seq<char>) -> Option<
    (Seq<char>, Map<Seq<char>, Seq<Seq<u8>>>),
>;

/// `Client::request`: starts a request, which this client will send. It has no
/// body yet, and besides what the text of the URL asks for no headers; that is
/// no other than `authorization`.
#[verifier::external_body]
pub(crate) fn new_request(client: &Client, method: Method, url: &str) -> (builder: RequestBuilder)
    ensures
        request_client(builder) == *client,
        request_content(builder) == (match parsed_url(url@) {
            Some((target, headers)) => Some(
                OutgoingRequest {
                    method: method_name(method),
                    url: target,
                    headers,
                    has_body: false,
                },
            ),
            None => None,
        }),
        request_content(builder) matches Some(request) ==> forall|name: Seq<char>| #[trigger]
            request.headers.contains_key(name) ==> name == "authorization"@,
{
    client.request(method, url)
}

/// Headers with one value more, behind those of the same name.
pub open spec fn with_value(
    headers: Map<Seq<char>, Seq<Seq<u8>>>,
    name: Seq<char>,
    value: Seq<u8>,
) -> Map<Seq<char>, Seq<Seq<u8>>> {
    if headers.contains_key(name) {
        headers.insert(name, headers[name].push(value))
    } else {
        headers.insert(name, seq![value])
    }
}

/// `RequestBuilder::try_clone`, of a builder whose request has no body: there is
/// a copy exactly if the builder holds a request.
#[verifier::external_body]
pub(crate) fn has_request(builder: &RequestBuilder) -> (has: bool)
    requires
        request_content(*builder) matches Some(request) ==> !request.has_body,
    ensures
        has == (request_content(*builder) is Some),
{
    builder.try_clone().is_some()
}

/// `reqwest::header::HeaderName`, the name of a header.
#[verifier::external_type_specification]
#[verifier::external_body]
pub struct ExHeaderName(HeaderName);

/// The text of a header name.
pub uninterp spec fn header_name_text(name: HeaderName) -> Seq<char>;

/// `HeaderName::from_bytes`, of the bytes of a text: the header name that the
/// text is in lower case, if it is one.
#[verifier::external_body]
pub(crate) fn header_name(text: &str) -> (name: Option<HeaderName>)
    ensures
        name is Some <==> is_header_name(text@),
        name is Some ==> header_name_text(name->Some_0) == text@.map_values(
            |c: char| ascii_lower(c),
        ),
{
    HeaderName::from_bytes(text.as_bytes()).ok()
}

/// `HeaderValue::from_str`: the header value with the bytes of the text, if the
/// text can be one.
#[verifier::external_body]
pub(crate) fn header_value(text: &str) -> (value: Option<HeaderValue>)
    ensures
        value is Some <==> is_header_value(text@),
        value is Some ==> header_value_bytes(value->Some_0) == vstd::utf8::encode_utf8(text@),
{
    HeaderValue::from_str(text).ok()
}

/// How many header names a map can take in any case. Beyond that it is up to
/// their hash values whether there is room for one more.
pub const SURE_HEADER_NAMES: usize = 6554;

/// `HeaderMap::try_append` on the headers of a request, which
/// `RequestBuilder::build_split` takes out of the builder and
/// `RequestBuilder::from_parts` puts back: the builder with one header more, if
/// the map has room for it. It has room as long as it has fewer than
/// [`SURE_HEADER_NAMES`] names; of a map with more nothing is claimed.
#[verifier::external_body]
pub(crate) fn try_add_header(builder: RequestBuilder, name: HeaderName, value: HeaderValue) -> (added:
    Option<RequestBuilder>)
    requires
        request_content(builder) is Some,
    ensures
        request_content(builder)->Some_0.headers.dom().finite()
            && request_content(builder)->Some_0.headers.dom().len() < SURE_HEADER_NAMES
            ==> added is Some,
        added is Some ==> request_client(added->Some_0) == request_client(builder),
        added is Some ==> request_content(added->Some_0) == Some(
            OutgoingRequest {
                headers: with_value(
                    request_content(builder)->Some_0.headers,
                    header_name_text(name),
                    header_value_bytes(value),
                ),
                ..request_content(builder)->Some_0
            },
        ),
{
    let (client, request) = builder.build_split();
    let mut request = request.ok()?;
    request.headers_mut().try_append(name, value).ok()?;
    Some(RequestBuilder::from_parts(client, request))
}

/// `RequestBuilder::header`, of a bad name or value or without a request: the
/// builder holds no request any more.
#[verifier::external_body]
pub(crate) fn add_bad_header(builder: RequestBuilder, name: &str, value: &str) -> (added:
    RequestBuilder)
    requires
        request_content(builder) is None || !is_header_name(name@) || !is_header_value(value@),
    ensures
        request_client(added) == request_client(builder),
        request_content(added) is None,
{
    builder.header(name, value)
}

/// `reqwest::Error`, what the HTTP client fails with.
#[verifier::external_type_specification]
#[verifier::external_body]
pub struct ExReqwestError(reqwest::Error);

/// `ClientBuilder::build` with the default settings. Whether there is a client
/// rests on the TLS library and the resolver of the machine, so nothing is
/// claimed of the result.
#[verifier::external_body]
pub(crate) fn build_client() -> (client: Result<Client, reqwest::Error>) {
    Client::builder().build()
}

// ---------------------------------------------------------------------------
// uuid
// ---------------------------------------------------------------------------

/// Whether a character is a lower case hexadecimal digit.
pub open spec fn is_hex_digit(c: char) -> bool {
    '0' <= c <= '9' || 'a' <= c <= 'f'
}

/// Whether a text is a random UUID: groups of 8, 4, 4, 4 and 12 hexadecimal
/// digits between hyphens, with the version and the variant in their places.
pub open spec fn is_random_uuid(s: Seq<char>) -> bool {
    &&& s.len() == 36
    &&& forall|i: int|
        #![trigger s[i]]
        0 <= i < 36 ==> if i == 8 || i == 13 || i == 18 || i == 23 {
            s[i] == '-'
        } else {
            is_hex_digit(s[i])
        }
    &&& s[14] == '4'
    &&& s[19] == '8' || s[19] == '9' || s[19] == 'a' || s[19] == 'b'
}

/// `Uuid::new_v4` as text: a random UUID. Which one is left to chance. It
/// panics on a machine that gives out no random numbers.
#[verifier::external_body]
pub(crate) fn random_uuid() -> (id: String)
    ensures
        is_random_uuid(id@),
{
    uuid::Uuid::new_v4().to_string()
}

// ---------------------------------------------------------------------------
// std
// ---------------------------------------------------------------------------

/// Whether a character has the White_Space property of Unicode.
pub open spec fn is_white_space(c: char) -> bool {
    let u = c as u32;
    ||| 0x9 <= u <= 0xd
    ||| u == 0x20 || u == 0x85 || u == 0xa0 || u == 0x1680
    ||| 0x2000 <= u <= 0x200a
    ||| u == 0x2028 || u == 0x2029 || u == 0x202f || u == 0x205f || u == 0x3000
}

/// `char::is_whitespace`: tests the White_Space property.
pub assume_specification[ char::is_whitespace ](c: char) -> (white: bool)
    ensures
        white == is_white_space(c),
;

/// `String::push`: appends one character.
pub assume_specification[ String::push ](s: &mut String, c: char)
    ensures
        final(s)@ == old(s)@.push(c),
;

/// The lower case form of a text, as Unicode defines it.
pub uninterp spec fn lowercase(s: Seq<char>) -> Seq<char>;

/// The lower case form of an ASCII character.
pub open spec fn ascii_lower(c: char) -> char {
    if 'A' <= c <= 'Z' {
        (c as u32 + 32) as char
    } else {
        c
    }
}

/// Whether a text has no capital letters of ASCII.
pub open spec fn is_lower(s: Seq<char>) -> bool {
    forall|i: int| 0 <= i < s.len() ==> !('A' <= #[trigger] s[i] <= 'Z')
}

/// `str::to_lowercase`: the lower case form of a text. It has no capital
/// letters of ASCII. Of an ASCII text it is the text with its capital letters
/// replaced.
#[verifier::external_body]
pub(crate) fn to_lowercase(s: &str) -> (lower: String)
    ensures
        lower@ == lowercase(s@),
        is_lower(lower@),
        is_ascii_chars(s@) ==> lower@ == s@.map_values(|c: char| ascii_lower(c)),
{
    s.to_lowercase()
}

/// `String::from_utf8`: the text that some bytes encode, if they are UTF-8.
#[verifier::external_body]
pub(crate) fn string_from_utf8(data: Vec<u8>) -> (text: Option<String>)
    ensures
        text is Some <==> valid_utf8(data@),
        text is Some ==> text->Some_0@ == decode_utf8(data@),
{
    String::from_utf8(data).ok()
}

} // verus!
