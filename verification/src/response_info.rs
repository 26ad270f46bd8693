//! The head of a response, as it is sent to the gateway.
//!
//! It is a text of lines that end in CR LF: first the HTTP version, the status
//! code and its reason phrase, then one line for each header field.

use crate::external::{canonical_reason, digit, header_fields, header_value_bytes};
use crate::external::{is_entry_name, is_printable, is_visible_ascii};
use crate::external::{header_entries, status_reason, status_text};
use crate::text::{decimal, field_line, field_lines, find, split, value_of};
use crate::text::{law_decimal, law_split_join};
use crate::text::{lemma_head_lines, lemma_joined_without, lemma_split_after, lemma_split_none};
use reqwest::header::{HeaderMap, HeaderValue};
use vstd::prelude::*;
use vstd::string::{StrSliceExecFns, StringExecFns};

verus! {

/// The versions of HTTP in which a service can answer.
#[derive(Clone, Copy, Debug, PartialEq, Eq, Structural)]
pub enum HttpVersion {
    Http09,
    Http10,
    Http11,
    Http2,
    Http3,
}

/// Why the head of a response cannot be sent.
#[derive(Clone, Copy, Debug, PartialEq, Eq, Structural)]
pub enum ResponseInfoError {
    /// The gateway does not know the HTTP version.
    UnsupportedVersion,
    /// The status code has no standard reason phrase.
    NoReason,
    /// A header value is not plain text.
    UnreadableHeader,
}

/// How the gateway calls a version of HTTP, if it knows it.
pub open spec fn version_label(version: HttpVersion) -> Option<Seq<char>> {
    match version {
        HttpVersion::Http11 => Some("http/1.1"@),
        HttpVersion::Http2 => Some("h2"@),
        _ => None,
    }
}

/// The digits of a status code.
pub open spec fn status_digits(status: u16) -> Seq<char> {
    seq![
        digit(status as int / 100),
        digit(status as int / 10 % 10),
        digit(status as int % 10),
    ]
}

/// Whether some bytes can be read as the text of a header value.
pub open spec fn is_readable(value: Seq<u8>) -> bool {
    forall|i: int| 0 <= i < value.len() ==> is_visible_ascii(#[trigger] value[i])
}

/// Whether all values of some header fields can be read as text.
pub open spec fn all_readable(fields: Seq<(Seq<char>, Seq<u8>)>) -> bool {
    forall|i: int| 0 <= i < fields.len() ==> is_readable((#[trigger] fields[i]).1)
}

/// The text of a readable header value.
pub open spec fn value_text(value: Seq<u8>) -> Seq<char> {
    value.map_values(|b: u8| b as char)
}

/// Header fields with their values as texts.
pub open spec fn field_texts(fields: Seq<(Seq<char>, Seq<u8>)>) -> Seq<(Seq<char>, Seq<char>)> {
    fields.map_values(|field: (Seq<char>, Seq<u8>)| (field.0, value_text(field.1)))
}

/// Names and values of header fields.
pub open spec fn field_views(fields: Seq<(String, String)>) -> Seq<(Seq<char>, Seq<char>)> {
    fields.map_values(|field: (String, String)| (field.0@, field.1@))
}

/// The head of a response.
pub open spec fn response_head(
    label: Seq<char>,
    status: u16,
    reason: Seq<char>,
    fields: Seq<(Seq<char>, Seq<char>)>,
) -> Seq<char> {
    label + seq![' '] + status_digits(status) + seq![' '] + reason + seq!['\r', '\n']
        + field_lines(fields)
}

/// Whether all names of some header fields can be those of header fields.
pub open spec fn all_named(fields: Seq<(Seq<char>, Seq<u8>)>) -> bool {
    forall|i: int| 0 <= i < fields.len() ==> is_entry_name((#[trigger] fields[i]).0)
}

/// Whether the gateway can be told of a response.
pub open spec fn is_sendable(
    version: HttpVersion,
    status: u16,
    fields: Seq<(Seq<char>, Seq<u8>)>,
) -> bool {
    &&& version_label(version) is Some
    &&& 100 <= status <= 999
    &&& canonical_reason(status) is Some
    &&& is_printable(canonical_reason(status)->Some_0)
    &&& all_named(fields)
    &&& all_readable(fields)
}

/// The bytes by which the gateway is told of a response.
pub open spec fn response_bytes(
    version: HttpVersion,
    status: u16,
    fields: Seq<(Seq<char>, Seq<u8>)>,
) -> Seq<u8> {
    vstd::utf8::encode_utf8(
        response_head(
            version_label(version)->Some_0,
            status,
            canonical_reason(status)->Some_0,
            field_texts(fields),
        ),
    )
}

/// Writes the head of a response with the given reason phrase.
pub fn render_response_info(
    version: HttpVersion,
    status_code: u16,
    reason: &str,
    fields: &Vec<(String, String)>,
) -> (data: Vec<u8>)
    requires
        version_label(version) is Some,
        100 <= status_code <= 999,
    ensures
        data@ == vstd::utf8::encode_utf8(
            response_head(
                version_label(version)->Some_0,
                status_code,
                reason@,
                field_views(fields@),
            ),
        ),
{
    let mut head = match version {
        HttpVersion::Http11 => "http/1.1".to_string(),
        _ => "h2".to_string(),
    };
    head.push(' ');
    head.append(status_text(status_code).as_str());
    head.push(' ');
    head.append(reason);
    head.push('\r');
    head.push('\n');
    let ghost whole = response_head(
        version_label(version)->Some_0,
        status_code,
        reason@,
        field_views(fields@),
    );
    assert(field_views(fields@).skip(0) =~= field_views(fields@));
    assert(head@ + field_lines(field_views(fields@)) =~= whole);
    let mut i: usize = 0;
    while i < fields.len()
        invariant
            i <= fields@.len(),
            head@ + field_lines(field_views(fields@).skip(i as int)) == whole,
        decreases fields.len() - i,
    {
        let ghost before = head@;
        let ghost rest = field_views(fields@).skip(i as int);
        assert(rest.drop_first() =~= field_views(fields@).skip(i + 1));
        head.append(fields[i].0.as_str());
        head.push(':');
        head.append(fields[i].1.as_str());
        head.push('\r');
        head.push('\n');
        assert(head@ =~= before + field_line(rest[0]));
        assert(head@ + field_lines(rest.drop_first()) =~= before + field_lines(rest));
        i = i + 1;
    }
    assert(head@ =~= whole);
    head.as_str().as_bytes_vec()
}

/// Reads the values of all header fields as texts, if they can be.
fn read_fields(header_map: &HeaderMap<HeaderValue>) -> (fields: Option<Vec<(String, String)>>)
    ensures
        fields is Some <==> all_readable(header_fields(*header_map)),
        fields is Some ==> field_views(fields->Some_0@) == field_texts(header_fields(*header_map)),
        fields is Some ==> all_named(header_fields(*header_map)),
{
    let entries = header_entries(header_map);
    let ghost all = header_fields(*header_map);
    let mut fields: Vec<(String, String)> = Vec::new();
    let mut i: usize = 0;
    while i < entries.len()
        invariant
            i <= entries@.len(),
            all == header_fields(*header_map),
            all.len() == entries@.len(),
            forall|k: int|
                #![trigger entries@[k]]
                0 <= k < entries@.len() ==> all[k] == (
                    entries@[k].0@,
                    header_value_bytes(entries@[k].1),
                ) && is_entry_name(entries@[k].0@),
            forall|k: int| 0 <= k < i ==> is_readable((#[trigger] all[k]).1),
            field_views(fields@) == field_texts(all).take(i as int),
        decreases entries.len() - i,
    {
        let ghost before = fields@;
        assert(all[i as int] == (entries@[i as int].0@, header_value_bytes(entries@[i as int].1)));
        match entries[i].1.to_str() {
            Ok(value) => {
                fields.push((entries[i].0.clone(), value.to_string()));
                assert(field_views(fields@) =~= field_views(before).push(
                    field_texts(all)[i as int],
                ));
                assert(field_texts(all).take(i + 1) =~= field_texts(all).take(i as int).push(
                    field_texts(all)[i as int],
                ));
            },
            Err(_) => {
                assert(!is_readable(all[i as int].1));
                return None;
            },
        }
        i = i + 1;
    }
    assert(field_texts(all).take(i as int) =~= field_texts(all));
    assert forall|k: int| 0 <= k < all.len() implies is_entry_name((#[trigger] all[k]).0) by {
        assert(is_entry_name(entries@[k].0@));
    }
    Some(fields)
}

/// Writes the head of a response.
pub fn build_response_info_chunk_body(
    header_map: &HeaderMap<HeaderValue>,
    http_version: HttpVersion,
    status_code: u16,
) -> (data: Vec<u8>)
    requires
        version_label(http_version) is Some,
        canonical_reason(status_code) is Some,
        all_readable(header_fields(*header_map)),
    ensures
        data@ == response_bytes(http_version, status_code, header_fields(*header_map)),
        is_sendable(http_version, status_code, header_fields(*header_map)),
{
    let reason = status_reason(status_code).unwrap();
    let fields = read_fields(header_map).unwrap();
    render_response_info(http_version, status_code, reason.as_str(), &fields)
}

/// Writes the head of a response, if the gateway can be told of it.
pub fn try_build_response_info_chunk_body(
    header_map: &HeaderMap<HeaderValue>,
    http_version: HttpVersion,
    status_code: u16,
) -> (data: Result<Vec<u8>, ResponseInfoError>)
    ensures
        match data {
            Ok(data) => data@ == response_bytes(
                http_version,
                status_code,
                header_fields(*header_map),
            ) && is_sendable(http_version, status_code, header_fields(*header_map)),
            Err(ResponseInfoError::UnsupportedVersion) => version_label(http_version) is None,
            Err(ResponseInfoError::NoReason) => version_label(http_version) is Some
                && canonical_reason(status_code) is None,
            Err(ResponseInfoError::UnreadableHeader) => version_label(http_version) is Some
                && canonical_reason(status_code) is Some && !all_readable(
                header_fields(*header_map),
            ),
        },
{
    match http_version {
        HttpVersion::Http11 => {},
        HttpVersion::Http2 => {},
        _ => {
            return Err(ResponseInfoError::UnsupportedVersion);
        },
    }
    if status_reason(status_code).is_none() {
        return Err(ResponseInfoError::NoReason);
    }
    if read_fields(header_map).is_none() {
        return Err(ResponseInfoError::UnreadableHeader);
    }
    Ok(build_response_info_chunk_body(header_map, http_version, status_code))
}

proof fn lemma_label(version: HttpVersion)
    requires
        version_label(version) is Some,
    ensures
        !version_label(version)->Some_0.contains(' '),
        !version_label(version)->Some_0.contains('\r'),
{
    reveal_strlit("http/1.1");
    reveal_strlit("h2");
}

proof fn lemma_entry_name(name: Seq<char>)
    requires
        is_entry_name(name),
    ensures
        find(name, seq![':']) is None,
        find(name, seq!['\r', '\n']) is None,
{
    lemma_split_none(name, seq![':']);
    lemma_split_none(name, seq!['\r', '\n']);
}

/// The status line of a response.
pub open spec fn status_line(version: HttpVersion, status: u16) -> Seq<char> {
    version_label(version)->Some_0 + seq![' '] + status_digits(status) + seq![' ']
        + canonical_reason(status)->Some_0
}

/// The line of a header field, without its end.
pub open spec fn field_text(field: (Seq<char>, Seq<u8>)) -> Seq<char> {
    field.0 + seq![':'] + value_text(field.1)
}

/// The head of a response has one line for the status, one for each header
/// field, and no more: neither a name nor a value can add a line.
pub proof fn law_one_line_per_field(
    version: HttpVersion,
    status: u16,
    fields: Seq<(Seq<char>, Seq<u8>)>,
)
    requires
        is_sendable(version, status, fields),
    ensures
        split(vstd::utf8::decode_utf8(response_bytes(version, status, fields)), seq!['\r', '\n'])
            == seq![status_line(version, status)] + fields.map_values(
            |field: (Seq<char>, Seq<u8>)| field_text(field),
        ) + seq![Seq::<char>::empty()],
{
    let line_end = seq!['\r', '\n'];
    let label = version_label(version)->Some_0;
    let digits = status_digits(status);
    let reason = canonical_reason(status)->Some_0;
    let texts = field_texts(fields);
    lemma_label(version);
    lemma_split_none(label, line_end);
    lemma_split_none(digits, line_end);
    lemma_split_none(reason, line_end);
    lemma_joined_without(label, ' ', digits, line_end);
    lemma_joined_without(label + seq![' '] + digits, ' ', reason, line_end);
    assert forall|i: int| 0 <= i < texts.len() implies find(
        (#[trigger] texts[i]).0,
        line_end,
    ) is None && find(texts[i].1, line_end) is None by {
        assert(is_entry_name(fields[i].0));
        lemma_entry_name(fields[i].0);
        let value = fields[i].1;
        assert(is_readable(value));
        assert forall|k: int| 0 <= k < value.len() implies value_text(value)[k] != '\r' by {
            assert(is_visible_ascii(value[k]));
        }
        lemma_split_none(texts[i].1, line_end);
    }
    lemma_head_lines(status_line(version, status), texts);
    assert(texts.map_values(|field: (Seq<char>, Seq<char>)| field.0 + seq![':'] + field.1)
        =~= fields.map_values(|field: (Seq<char>, Seq<u8>)| field_text(field)));
    vstd::utf8::encode_utf8_decode_utf8(
        response_head(label, status, reason, texts),
    );
}

proof fn lemma_status_line(v1: HttpVersion, s1: u16, v2: HttpVersion, s2: u16)
    requires
        version_label(v1) is Some,
        version_label(v2) is Some,
        100 <= s1 <= 999,
        100 <= s2 <= 999,
        status_line(v1, s1) == status_line(v2, s2),
    ensures
        v1 == v2,
        s1 == s2,
{
    let space = seq![' '];
    let (l1, l2) = (version_label(v1)->Some_0, version_label(v2)->Some_0);
    let t1 = status_digits(s1) + space + canonical_reason(s1)->Some_0;
    let t2 = status_digits(s2) + space + canonical_reason(s2)->Some_0;
    lemma_label(v1);
    lemma_label(v2);
    lemma_split_none(l1, space);
    lemma_split_none(l2, space);
    assert(status_line(v1, s1) =~= l1 + space + t1);
    assert(status_line(v2, s2) =~= l2 + space + t2);
    lemma_split_after(l1, space, t1);
    lemma_split_after(l2, space, t2);
    assert(l1.len() == l2.len());
    assert(v1 == v2) by {
        reveal_strlit("http/1.1");
        reveal_strlit("h2");
    }
    let line = status_line(v1, s1);
    let n = l1.len() as int;
    assert(line[n + 1] == t1[0] && line[n + 2] == t1[1] && line[n + 3] == t1[2]);
    assert(line[n + 1] == t2[0] && line[n + 2] == t2[1] && line[n + 3] == t2[2]);
    lemma_digit(s1 as int / 100, s2 as int / 100);
    lemma_digit(s1 as int / 10 % 10, s2 as int / 10 % 10);
    lemma_digit(s1 as int % 10, s2 as int % 10);
}

proof fn lemma_digit(a: int, b: int)
    requires
        0 <= a < 10,
        0 <= b < 10,
        digit(a) == digit(b),
    ensures
        a == b,
{
}

proof fn lemma_field_text(a: (Seq<char>, Seq<u8>), b: (Seq<char>, Seq<u8>))
    requires
        is_entry_name(a.0),
        is_entry_name(b.0),
        field_text(a) == field_text(b),
    ensures
        a == b,
{
    let colon = seq![':'];
    lemma_entry_name(a.0);
    lemma_entry_name(b.0);
    lemma_split_after(a.0, colon, value_text(a.1));
    lemma_split_after(b.0, colon, value_text(b.1));
    let n = a.0.len() as int;
    assert(b.0.len() == n);
    assert(a.0 =~= field_text(a).take(n));
    assert(b.0 =~= field_text(b).take(n));
    assert(value_text(a.1) =~= field_text(a).skip(n + 1));
    assert(value_text(b.1) =~= field_text(b).skip(n + 1));
    assert(a.1.len() == b.1.len());
    assert forall|i: int| 0 <= i < a.1.len() implies a.1[i] == b.1[i] by {
        assert(value_text(a.1)[i] == value_text(b.1)[i]);
    }
    assert(a.1 =~= b.1);
}

/// The bytes determine the response: two responses of which the gateway can be
/// told are told of by the same bytes exactly if they have the same version,
/// the same status and the same header fields in the same order.
pub proof fn law_heads_tell_responses_apart(
    v1: HttpVersion,
    s1: u16,
    fields1: Seq<(Seq<char>, Seq<u8>)>,
    v2: HttpVersion,
    s2: u16,
    fields2: Seq<(Seq<char>, Seq<u8>)>,
)
    requires
        is_sendable(v1, s1, fields1),
        is_sendable(v2, s2, fields2),
    ensures
        response_bytes(v1, s1, fields1) == response_bytes(v2, s2, fields2) <==> v1 == v2 && s1 == s2
            && fields1 == fields2,
{
    if response_bytes(v1, s1, fields1) == response_bytes(v2, s2, fields2) {
        let empty = Seq::<char>::empty();
        let lines1 = fields1.map_values(|field: (Seq<char>, Seq<u8>)| field_text(field));
        let lines2 = fields2.map_values(|field: (Seq<char>, Seq<u8>)| field_text(field));
        let all1 = seq![status_line(v1, s1)] + lines1 + seq![empty];
        let all2 = seq![status_line(v2, s2)] + lines2 + seq![empty];
        assert(all1 == all2) by {
            law_one_line_per_field(v1, s1, fields1);
            law_one_line_per_field(v2, s2, fields2);
        }
        assert(all1[0] == status_line(v1, s1) && all2[0] == status_line(v2, s2));
        lemma_status_line(v1, s1, v2, s2);
        assert(all1.len() == all2.len());
        assert forall|i: int| 0 <= i < fields1.len() implies fields1[i] == fields2[i] by {
            assert(all1[i + 1] == lines1[i] && all2[i + 1] == lines2[i]);
            lemma_field_text(fields1[i], fields2[i]);
        }
        assert(fields1 =~= fields2);
    }
}

proof fn lemma_status_digits(status: u16)
    requires
        100 <= status <= 999,
    ensures
        status_digits(status) == decimal(status as nat),
        value_of(decimal(status as nat)) == status,
{
    let n = status as nat;
    law_decimal(n);
    reveal_with_fuel(decimal, 4);
    assert(n / 10 / 10 == n / 100);
    assert(decimal(n) =~= status_digits(status));
}

/// Only two versions of HTTP can be told of, each under its own label.
pub proof fn law_labels(version: HttpVersion)
    ensures
        version_label(version) is Some <==> version == HttpVersion::Http11 || version
            == HttpVersion::Http2,
        version == HttpVersion::Http11 ==> version_label(version)->Some_0 == seq![
            'h',
            't',
            't',
            'p',
            '/',
            '1',
            '.',
            '1',
        ],
        version == HttpVersion::Http2 ==> version_label(version)->Some_0 == seq!['h', '2'],
{
    reveal_strlit("http/1.1");
    reveal_strlit("h2");
    if version == HttpVersion::Http11 {
        assert("http/1.1"@ =~= seq!['h', 't', 't', 'p', '/', '1', '.', '1']);
    } else if version == HttpVersion::Http2 {
        assert("h2"@ =~= seq!['h', '2']);
    }
}

/// A header value can be told of exactly if all its bytes are visible ASCII
/// characters, spaces or tabs, and header fields exactly if all their values
/// can be.
pub proof fn law_readable_values(fields: Seq<(Seq<char>, Seq<u8>)>)
    ensures
        all_readable(fields) <==> forall|i: int, k: int|
            0 <= i < fields.len() && 0 <= k < fields[i].1.len() ==> 32 <= #[trigger] fields[i].1[k]
                < 127 || fields[i].1[k] == 9,
{
    if all_readable(fields) {
        assert forall|i: int, k: int| 0 <= i < fields.len() && 0 <= k < fields[i].1.len() implies 32
            <= #[trigger] fields[i].1[k] < 127 || fields[i].1[k] == 9 by {
            assert(is_readable(fields[i].1));
            assert(is_visible_ascii(fields[i].1[k]));
        }
    } else {
        let i = choose|i: int| 0 <= i < fields.len() && !is_readable((#[trigger] fields[i]).1);
        let value = fields[i].1;
        let k = choose|k: int| 0 <= k < value.len() && !is_visible_ascii(#[trigger] value[k]);
        assert(!(32 <= fields[i].1[k] < 127 || fields[i].1[k] == 9));
    }
}

/// The head of a response without header fields is one line: label, status in
/// decimal, and reason.
pub proof fn law_head_without_fields(label: Seq<char>, status: u16, reason: Seq<char>)
    requires
        100 <= status <= 999,
    ensures
        response_head(label, status, reason, Seq::empty()) == label + seq![' '] + decimal(
            status as nat,
        ) + seq![' '] + reason + seq!['\r', '\n'],
{
    lemma_status_digits(status);
    assert(field_lines(Seq::empty()) =~= Seq::empty());
    assert(response_head(label, status, reason, Seq::empty()) =~= label + seq![' '] + decimal(
        status as nat,
    ) + seq![' '] + reason + seq!['\r', '\n']);
}

proof fn lemma_field_lines_push(
    fields: Seq<(Seq<char>, Seq<char>)>,
    name: Seq<char>,
    value: Seq<char>,
)
    ensures
        field_lines(fields.push((name, value))) == field_lines(fields) + name + seq![':'] + value
            + seq!['\r', '\n'],
    decreases fields.len(),
{
    let longer = fields.push((name, value));
    if fields.len() == 0 {
        assert(longer.drop_first() =~= Seq::empty());
        assert(field_lines(longer.drop_first()) =~= Seq::empty());
    } else {
        lemma_field_lines_push(fields.drop_first(), name, value);
        assert(longer.drop_first() =~= fields.drop_first().push((name, value)));
        assert(longer[0] == fields[0]);
    }
    assert(field_lines(longer) =~= field_lines(fields) + name + seq![':'] + value + seq![
        '\r',
        '\n',
    ]);
}

/// One header field more adds its line at the end of the head and changes
/// nothing before it.
pub proof fn law_field_adds_its_line(
    label: Seq<char>,
    status: u16,
    reason: Seq<char>,
    fields: Seq<(Seq<char>, Seq<char>)>,
    name: Seq<char>,
    value: Seq<char>,
)
    ensures
        response_head(label, status, reason, fields.push((name, value))) == response_head(
            label,
            status,
            reason,
            fields,
        ) + name + seq![':'] + value + seq!['\r', '\n'],
{
    lemma_field_lines_push(fields, name, value);
    assert(response_head(label, status, reason, fields.push((name, value))) =~= response_head(
        label,
        status,
        reason,
        fields,
    ) + name + seq![':'] + value + seq!['\r', '\n']);
}

/// The gateway reads from the first line of a head what the response is: the
/// first word is the label of the version, the second the status in decimal,
/// and the reason follows.
pub proof fn law_status_is_told(
    version: HttpVersion,
    status: u16,
    fields: Seq<(Seq<char>, Seq<u8>)>,
)
    requires
        is_sendable(version, status, fields),
    ensures
        ({
            let text = vstd::utf8::decode_utf8(response_bytes(version, status, fields));
            let first = split(text, seq!['\r', '\n'])[0];
            let words = split(first, seq![' ']);
            &&& words.len() >= 3
            &&& words[0] == (if version == HttpVersion::Http2 {
                seq!['h', '2']
            } else {
                seq!['h', 't', 't', 'p', '/', '1', '.', '1']
            })
            &&& words[1] == decimal(status as nat)
            &&& value_of(words[1]) == status
            &&& first == words[0] + seq![' '] + words[1] + seq![' ']
                + canonical_reason(status)->Some_0
        }),
{
    let space = seq![' '];
    let label = version_label(version)->Some_0;
    let digits = status_digits(status);
    let reason = canonical_reason(status)->Some_0;
    law_one_line_per_field(version, status, fields);
    let first = status_line(version, status);
    let text = vstd::utf8::decode_utf8(response_bytes(version, status, fields));
    assert(split(text, seq!['\r', '\n'])[0] == first);
    law_labels(version);
    lemma_label(version);
    lemma_status_digits(status);
    lemma_split_none(label, space);
    lemma_split_none(digits, space);
    assert(first =~= label + space + (digits + space + reason));
    lemma_split_after(label, space, digits + space + reason);
    lemma_split_after(digits, space, reason);
    law_split_join(reason, space);
    let words = split(first, space);
    assert(words == seq![label] + (seq![digits] + split(reason, space)));
}

/// The gateway reads from each further line of a head one header field: its
/// name before the first colon, and after it its value, byte for byte.
pub proof fn law_fields_are_told(
    version: HttpVersion,
    status: u16,
    fields: Seq<(Seq<char>, Seq<u8>)>,
    i: int,
)
    requires
        is_sendable(version, status, fields),
        0 <= i < fields.len(),
    ensures
        ({
            let text = vstd::utf8::decode_utf8(response_bytes(version, status, fields));
            let lines = split(text, seq!['\r', '\n']);
            let n = fields[i].0.len() as int;
            &&& lines.len() == fields.len() + 2
            &&& lines[lines.len() - 1].len() == 0
            &&& find(lines[i + 1], seq![':']) == Some(n)
            &&& lines[i + 1].take(n) == fields[i].0
            &&& lines[i + 1].len() == n + 1 + fields[i].1.len()
            &&& forall|k: int|
                0 <= k < fields[i].1.len() ==> lines[i + 1][n + 1 + k] as int
                    == #[trigger] fields[i].1[k]
        }),
{
    law_one_line_per_field(version, status, fields);
    let text = vstd::utf8::decode_utf8(response_bytes(version, status, fields));
    let lines = split(text, seq!['\r', '\n']);
    let (name, value) = fields[i];
    let n = name.len() as int;
    let line = field_text(fields[i]);
    assert(lines[i + 1] == line);
    assert(is_entry_name(name));
    lemma_entry_name(name);
    lemma_split_after(name, seq![':'], value_text(value));
    assert(line.take(n) =~= name);
    assert forall|k: int| 0 <= k < value.len() implies line[n + 1 + k] as int
        == #[trigger] value[k] by {
        assert(line[n + 1 + k] == value_text(value)[k]);
    }
}

/// Header fields are taken as they are, one for one and in order.
pub proof fn law_fields_are_viewed_in_order(fields: Seq<(String, String)>, i: int)
    requires
        0 <= i < fields.len(),
    ensures
        field_views(fields).len() == fields.len(),
        field_views(fields)[i].0 == fields[i].0@,
        field_views(fields)[i].1 == fields[i].1@,
{
}

} // verus!
