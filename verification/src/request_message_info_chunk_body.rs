//! The head of a request, as the gateway sends it.
//!
//! It is a text of lines that end in CR LF. The first line holds the HTTP
//! version, the method and the URI, with a space between them. Each further
//! line may hold a header field: a name, a colon and a value.

use crate::external::{ascii_lower, is_lower, is_white_space, lowercase};
use crate::external::to_lowercase;
use crate::request_headers::RequestHeaders;
use crate::text::{chars_of, split_chars, split_once_chars, string_of, trim_chars};
use crate::text::{all_white, contents, field_lines, find, holds_line_end, is_trimmed, join};
use crate::text::{law_find_is_first, law_join_split, law_padding_is_trimmed};
use crate::text::{lemma_no_line_end, lemma_split_none, occurs, split, trim};
use crate::text::{law_parts_hold_nothing_new, law_parts_without_separator, law_split_join, law_trim};
use crate::text::{lemma_head_lines, lemma_joined_without, lemma_part_without, lemma_split_after};
use vstd::prelude::*;

verus! {

/// The head of a request.
pub struct RequestMessageInfoChunkBody {
    pub http_version: String,
    pub http_method: String,
    pub uri: String,
    pub headers: RequestHeaders,
}

/// What the head of a request says.
#[verifier::ext_equal]
pub struct RequestInfo {
    pub http_version: Seq<char>,
    pub http_method: Seq<char>,
    pub uri: Seq<char>,
    pub headers: Map<Seq<char>, Seq<char>>,
}

impl View for RequestMessageInfoChunkBody {
    type V = RequestInfo;

    open spec fn view(&self) -> RequestInfo {
        RequestInfo {
            http_version: self.http_version@,
            http_method: self.http_method@,
            uri: self.uri@,
            headers: self.headers@,
        }
    }
}

/// The lines of a text.
pub open spec fn lines_of(text: Seq<char>) -> Seq<Seq<char>> {
    split(text, seq!['\r', '\n'])
}

/// The words of a line, of which some may be empty.
pub open spec fn words_of(line: Seq<char>) -> Seq<Seq<char>> {
    split(line, seq![' '])
}

/// Whether the first line of a text holds a version, a method and a URI.
pub open spec fn has_request_line(text: Seq<char>) -> bool {
    words_of(lines_of(text)[0]).len() >= 3
}

/// The name, as it is written, and the value of the header field in a line. A
/// line without a colon holds none, nor does one whose name or value is blank.
pub open spec fn written_field(line: Seq<char>) -> Option<(Seq<char>, Seq<char>)> {
    let line = trim(line);
    match find(line, seq![':']) {
        Some(i) => {
            let name = trim(line.take(i));
            let value = trim(line.skip(i + 1));
            if name.len() > 0 && value.len() > 0 {
                Some((name, value))
            } else {
                None
            }
        },
        None => None,
    }
}

/// The header field in a line, its name in lower case.
pub open spec fn field_of(line: Seq<char>) -> Option<(Seq<char>, Seq<char>)> {
    match written_field(line) {
        Some((name, value)) => Some((lowercase(name), value)),
        None => None,
    }
}

/// Whether the lower case form of the name in a line has no capital letters of
/// ASCII and, if the name is ASCII, is the name with these replaced.
pub open spec fn is_lowered(line: Seq<char>) -> bool {
    match written_field(line) {
        Some((name, _)) => is_lower(lowercase(name)) && (vstd::utf8::is_ascii_chars(name)
            ==> lowercase(name) == name.map_values(|c: char| ascii_lower(c))),
        None => true,
    }
}

/// Whether that holds of all lines of a text but the first.
pub open spec fn names_lowered(text: Seq<char>) -> bool {
    forall|i: int| 1 <= i < lines_of(text).len() ==> is_lowered(#[trigger] lines_of(text)[i])
}

/// The header fields in all lines but the first. Of two fields with one name
/// the later counts.
pub open spec fn fields_of(lines: Seq<Seq<char>>) -> Map<Seq<char>, Seq<char>>
    decreases lines.len(),
{
    if lines.len() <= 1 {
        Map::empty()
    } else {
        match field_of(lines.last()) {
            Some((name, value)) => fields_of(lines.drop_last()).insert(name, value),
            None => fields_of(lines.drop_last()),
        }
    }
}

/// The head of a request that a text stands for.
pub open spec fn request_info(text: Seq<char>) -> RequestInfo {
    let words = words_of(lines_of(text)[0]);
    RequestInfo {
        http_version: words[0],
        http_method: words[1],
        uri: trim(words[2]),
        headers: fields_of(lines_of(text)),
    }
}

/// Reads the header field in a line.
fn read_field(line: &Vec<char>) -> (field: Option<(String, String)>)
    ensures
        match field {
            Some((name, value)) => field_of(line@) == Some((name@, value@)),
            None => field_of(line@) is None,
        },
        is_lowered(line@),
{
    let colon: Vec<char> = vec![':'];
    assert(colon@ =~= seq![':']);
    let line = trim_chars(line);
    match split_once_chars(&line, &colon) {
        Some((before, after)) => {
            let name = trim_chars(&before);
            let value = trim_chars(&after);
            if name.len() > 0 && value.len() > 0 {
                Some((to_lowercase(string_of(&name).as_str()), string_of(&value)))
            } else {
                None
            }
        },
        None => None,
    }
}

impl RequestMessageInfoChunkBody {
    /// Reads the head of a request.
    pub fn new(request_message_info_chunk_body: String) -> (info: RequestMessageInfoChunkBody)
        requires
            has_request_line(request_message_info_chunk_body@),
        ensures
            info@ == request_info(request_message_info_chunk_body@),
            names_lowered(request_message_info_chunk_body@),
            forall|name: Seq<char>| #[trigger] info@.headers.contains_key(name) ==> is_lower(name),
    {
        RequestMessageInfoChunkBody::try_new(request_message_info_chunk_body).unwrap()
    }

    /// Reads the head of a request, if the first line is complete.
    pub fn try_new(request_message_info_chunk_body: String) -> (info: Option<
        RequestMessageInfoChunkBody,
    >)
        ensures
            info is Some <==> has_request_line(request_message_info_chunk_body@),
            info is Some ==> info->Some_0@ == request_info(request_message_info_chunk_body@),
            info is Some ==> names_lowered(request_message_info_chunk_body@),
            info is Some ==> forall|name: Seq<char>| #[trigger]
                info->Some_0@.headers.contains_key(name) ==> is_lower(name),
    {
        let ghost text = request_message_info_chunk_body@;
        let line_end: Vec<char> = vec!['\r', '\n'];
        assert(line_end@ =~= seq!['\r', '\n']);
        let space: Vec<char> = vec![' '];
        assert(space@ =~= seq![' ']);
        let lines = split_chars(&chars_of(request_message_info_chunk_body.as_str()), &line_end);
        let words = split_chars(&lines[0], &space);
        assert(contents(lines@)[0] == lines@[0]@);
        if words.len() < 3 {
            return None;
        }
        let http_version = string_of(&words[0]);
        let http_method = string_of(&words[1]);
        let uri = string_of(&trim_chars(&words[2]));
        assert(contents(words@)[0] == words@[0]@);
        assert(contents(words@)[1] == words@[1]@);
        assert(contents(words@)[2] == words@[2]@);
        let mut headers = RequestHeaders::new();
        let mut i: usize = 1;
        while i < lines.len()
            invariant
                1 <= i <= lines@.len(),
                contents(lines@) == lines_of(text),
                headers@ == fields_of(lines_of(text).take(i as int)),
                forall|k: int| 1 <= k < i ==> is_lowered(#[trigger] lines_of(text)[k]),
            decreases lines.len() - i,
        {
            let ghost seen = lines_of(text).take(i + 1);
            assert(seen.drop_last() =~= lines_of(text).take(i as int));
            assert(seen.last() == lines@[i as int]@);
            if let Some((name, value)) = read_field(&lines[i]) {
                headers.insert(name, value);
            }
            i = i + 1;
        }
        assert(lines_of(text).take(i as int) =~= lines_of(text));
        assert forall|name: Seq<char>| #[trigger] headers@.contains_key(name) implies is_lower(
            name,
        ) by {
            law_read_names_are_lower(text, name);
        }
        Some(RequestMessageInfoChunkBody { http_version, http_method, uri, headers })
    }
}

/// Whether a line holds a header field with the given name.
pub open spec fn sets_field(line: Seq<char>, name: Seq<char>) -> bool {
    field_of(line) is Some && field_of(line)->Some_0.0 == name
}

/// Of all lines with one field name, the last sets the value.
pub proof fn law_last_field_wins(lines: Seq<Seq<char>>, i: int, name: Seq<char>, value: Seq<char>)
    requires
        1 <= i < lines.len(),
        field_of(lines[i]) == Some((name, value)),
        forall|j: int| i < j < lines.len() ==> !sets_field(#[trigger] lines[j], name),
    ensures
        fields_of(lines).contains_key(name),
        fields_of(lines)[name] == value,
    decreases lines.len(),
{
    let before = lines.drop_last();
    if i < lines.len() - 1 {
        assert(before[i] == lines[i]);
        assert forall|j: int| i < j < before.len() implies !sets_field(
            #[trigger] before[j],
            name,
        ) by {
            assert(before[j] == lines[j]);
        }
        law_last_field_wins(before, i, name, value);
        assert(!sets_field(lines[lines.len() - 1], name));
    }
}

/// Every header field comes from a line, and neither its name nor its value is
/// blank or has white space around it.
pub proof fn law_fields_come_from_lines(lines: Seq<Seq<char>>, name: Seq<char>) -> (i: int)
    requires
        fields_of(lines).contains_key(name),
    ensures
        1 <= i < lines.len(),
        field_of(lines[i]) == Some((name, fields_of(lines)[name])),
        written_field(lines[i]) is Some,
        is_trimmed(written_field(lines[i])->Some_0.0),
        is_trimmed(written_field(lines[i])->Some_0.1),
    decreases lines.len(),
{
    let n = lines.len() - 1;
    let last = field_of(lines[n]);
    if last is Some && last->Some_0.0 == name {
        let line = trim(lines[n]);
        let k = find(line, seq![':'])->Some_0;
        law_trim(line.take(k));
        law_trim(line.skip(k + 1));
        n
    } else {
        let i = law_fields_come_from_lines(lines.drop_last(), name);
        assert(lines.drop_last()[i] == lines[i]);
        i
    }
}

/// Whatever is written in the head of a request, no header name that is read
/// from it has a capital letter of ASCII.
pub proof fn law_read_names_are_lower(text: Seq<char>, name: Seq<char>)
    requires
        names_lowered(text),
        request_info(text).headers.contains_key(name),
    ensures
        is_lower(name),
{
    let i = law_fields_come_from_lines(lines_of(text), name);
    assert(is_lowered(lines_of(text)[i]));
}

/// The version, the method and the URI of a request stay on one line, and hold
/// no space.
pub proof fn law_request_line_is_one_line(text: Seq<char>)
    requires
        has_request_line(text),
    ensures
        ({
            let info = request_info(text);
            &&& find(info.http_version, seq![' ']) is None
            &&& find(info.http_method, seq![' ']) is None
            &&& find(info.uri, seq![' ']) is None
            &&& find(info.http_version, seq!['\r', '\n']) is None
            &&& find(info.http_method, seq!['\r', '\n']) is None
            &&& find(info.uri, seq!['\r', '\n']) is None
        }),
{
    let line_end = seq!['\r', '\n'];
    let first = lines_of(text)[0];
    law_split_join(text, line_end);
    law_parts_without_separator(text, line_end, 0);
    law_parts_without_separator(first, seq![' '], 0);
    law_parts_without_separator(first, seq![' '], 1);
    law_parts_without_separator(first, seq![' '], 2);
    law_parts_hold_nothing_new(first, seq![' '], line_end, 0);
    law_parts_hold_nothing_new(first, seq![' '], line_end, 1);
    law_parts_hold_nothing_new(first, seq![' '], line_end, 2);
    let uri = words_of(first)[2];
    let bounds = law_trim(uri);
    lemma_part_without(uri, seq![' '], bounds.0, bounds.1);
    lemma_part_without(uri, line_end, bounds.0, bounds.1);
}

/// The head of a request, written out.
pub open spec fn request_head(
    version: Seq<char>,
    method: Seq<char>,
    uri: Seq<char>,
    fields: Seq<(Seq<char>, Seq<char>)>,
) -> Seq<char> {
    version + seq![' '] + method + seq![' '] + uri + seq!['\r', '\n'] + field_lines(fields)
}

/// Whether a text can stand between the spaces of a request line.
pub open spec fn is_word(s: Seq<char>) -> bool {
    find(s, seq![' ']) is None && find(s, seq!['\r', '\n']) is None
}

/// Whether a name and a value can be written as a header field.
pub open spec fn is_field(field: (Seq<char>, Seq<char>)) -> bool {
    &&& is_trimmed(field.0) && is_trimmed(field.1)
    &&& find(field.0, seq![':']) is None
    &&& find(field.0, seq!['\r', '\n']) is None && find(field.1, seq!['\r', '\n']) is None
}

/// The header fields that some names and values stand for.
pub open spec fn collected(fields: Seq<(Seq<char>, Seq<char>)>) -> Map<Seq<char>, Seq<char>>
    decreases fields.len(),
{
    if fields.len() == 0 {
        Map::empty()
    } else {
        collected(fields.drop_last()).insert(lowercase(fields.last().0), fields.last().1)
    }
}

proof fn lemma_words(version: Seq<char>, method: Seq<char>, uri: Seq<char>)
    requires
        is_word(version),
        is_word(method),
        is_word(uri),
    ensures
        words_of(version + seq![' '] + method + seq![' '] + uri) == seq![version, method, uri],
        find(version + seq![' '] + method + seq![' '] + uri, seq!['\r', '\n']) is None,
{
    let space = seq![' '];
    let tail = method + space + uri;
    let line = version + space + method + space + uri;
    assert(line =~= version + space + tail);
    lemma_split_after(version, space, tail);
    lemma_split_after(method, space, uri);
    assert(split(uri, space) == seq![uri]);
    assert(seq![version] + (seq![method] + seq![uri]) =~= seq![version, method, uri]);
    lemma_joined_without(method, ' ', uri, seq!['\r', '\n']);
    lemma_joined_without(version, ' ', tail, seq!['\r', '\n']);
}

proof fn lemma_field_line(field: (Seq<char>, Seq<char>))
    requires
        is_field(field),
    ensures
        field_of(field.0 + seq![':'] + field.1) == Some((lowercase(field.0), field.1)),
{
    let (name, value) = field;
    let line = name + seq![':'] + value;
    assert(trim(line) == line) by {
        assert(line[0] == name[0]);
        assert(line.last() == value.last());
        law_trim(line);
    }
    assert(trim(name) == name) by {
        law_trim(name);
    }
    assert(trim(value) == value) by {
        law_trim(value);
    }
    let n = name.len() as int;
    assert(find(line, seq![':']) == Some(n)) by {
        lemma_split_after(name, seq![':'], value);
    }
    assert(line.take(n) =~= name);
    assert(line.skip(n + 1) =~= value);
}

proof fn lemma_collected(first: Seq<char>, fields: Seq<(Seq<char>, Seq<char>)>)
    requires
        forall|i: int| 0 <= i < fields.len() ==> is_field(#[trigger] fields[i]),
    ensures
        fields_of(
            seq![first] + fields.map_values(
                |field: (Seq<char>, Seq<char>)| field.0 + seq![':'] + field.1,
            ),
        ) == collected(fields),
    decreases fields.len(),
{
    let lines = seq![first] + fields.map_values(
        |field: (Seq<char>, Seq<char>)| field.0 + seq![':'] + field.1,
    );
    if fields.len() > 0 {
        let before = fields.drop_last();
        assert(lines.drop_last() =~= seq![first] + before.map_values(
            |field: (Seq<char>, Seq<char>)| field.0 + seq![':'] + field.1,
        ));
        assert forall|i: int| 0 <= i < before.len() implies is_field(#[trigger] before[i]) by {
            assert(before[i] == fields[i]);
        }
        lemma_collected(first, before);
        assert(is_field(fields[fields.len() - 1]));
        lemma_field_line(fields.last());
    }
}

/// A head that was written out is read as itself: its version, its method, its
/// URI, and its header fields with their names in lower case.
pub proof fn law_written_head_is_read(
    version: Seq<char>,
    method: Seq<char>,
    uri: Seq<char>,
    fields: Seq<(Seq<char>, Seq<char>)>,
)
    requires
        is_word(version),
        is_word(method),
        is_word(uri),
        trim(uri) == uri,
        forall|i: int| 0 <= i < fields.len() ==> is_field(#[trigger] fields[i]),
    ensures
        has_request_line(request_head(version, method, uri, fields)),
        request_info(request_head(version, method, uri, fields)) == (RequestInfo {
            http_version: version,
            http_method: method,
            uri,
            headers: collected(fields),
        }),
{
    let text = request_head(version, method, uri, fields);
    let first = version + seq![' '] + method + seq![' '] + uri;
    let field_texts = fields.map_values(
        |field: (Seq<char>, Seq<char>)| field.0 + seq![':'] + field.1,
    );
    let lines = lines_of(text);
    let empty = Seq::<char>::empty();
    assert(lines == seq![first] + field_texts + seq![empty] && words_of(first) == seq![
        version,
        method,
        uri,
    ]) by {
        lemma_words(version, method, uri);
        assert forall|i: int| 0 <= i < fields.len() implies find(
            (#[trigger] fields[i]).0,
            seq!['\r', '\n'],
        ) is None && find(fields[i].1, seq!['\r', '\n']) is None by {
            assert(is_field(fields[i]));
        }
        lemma_head_lines(first, fields);
    }
    assert(lines[0] == first);
    assert(fields_of(lines) == collected(fields)) by {
        assert(lines.drop_last() =~= seq![first] + field_texts);
        assert(lines.last() == empty);
        assert(field_of(empty) is None) by {
            assert(trim(empty) == empty);
            assert(find(empty, seq![':']) is None);
        }
        lemma_collected(first, fields);
    }
}

/// A line below the first of a head.
pub enum HeadLine {
    /// A header field, with white space anywhere around its name and its value.
    Field {
        before_name: Seq<char>,
        name: Seq<char>,
        after_name: Seq<char>,
        before_value: Seq<char>,
        value: Seq<char>,
        after_value: Seq<char>,
    },
    /// A line without a colon.
    Plain(Seq<char>),
    /// A line with a colon, and nothing but white space on one side of it.
    Blank { before: Seq<char>, after: Seq<char> },
}

/// The text of a line.
pub open spec fn line_text(line: HeadLine) -> Seq<char> {
    match line {
        HeadLine::Field { before_name, name, after_name, before_value, value, after_value } => {
            before_name + name + after_name + seq![':'] + before_value + value + after_value
        },
        HeadLine::Plain(text) => text,
        HeadLine::Blank { before, after } => before + seq![':'] + after,
    }
}

/// Whether a line is what it is called.
pub open spec fn is_head_line(line: HeadLine) -> bool {
    match line {
        HeadLine::Field { before_name, name, after_name, before_value, value, after_value } => {
            &&& all_white(before_name) && all_white(after_name)
            &&& all_white(before_value) && all_white(after_value)
            &&& is_trimmed(name) && !name.contains(':')
            &&& is_trimmed(value)
        },
        HeadLine::Plain(text) => !text.contains(':'),
        HeadLine::Blank { before, after } => !before.contains(':') && (all_white(before)
            || all_white(after)),
    }
}

/// A line with white space around name and value holds the field with the name
/// in lower case and the whole value, whatever else the value holds.
pub proof fn law_padded_field_is_read(
    before_name: Seq<char>,
    name: Seq<char>,
    after_name: Seq<char>,
    before_value: Seq<char>,
    value: Seq<char>,
    after_value: Seq<char>,
)
    requires
        all_white(before_name),
        all_white(after_name),
        all_white(before_value),
        all_white(after_value),
        is_trimmed(name),
        !name.contains(':'),
        is_trimmed(value),
    ensures
        field_of(
            before_name + name + after_name + seq![':'] + before_value + value + after_value,
        ) == Some((lowercase(name), value)),
{
    let colon = seq![':'];
    let empty = Seq::<char>::empty();
    let line = before_name + name + after_name + colon + before_value + value + after_value;
    let left = name + after_name;
    let right = before_value + value;
    let middle = left + colon + right;
    assert(trim(line) == middle) by {
        assert(middle[0] == name[0]);
        assert(middle.last() == value.last());
        law_padding_is_trimmed(before_name, middle, after_value);
        assert(line =~= before_name + middle + after_value);
    }
    assert(find(middle, colon) == Some(left.len() as int)) by {
        assert(!left.contains(':')) by {
            if left.contains(':') {
                let i = choose|i: int| 0 <= i < left.len() && left[i] == ':';
                if i < name.len() {
                    assert(name[i] == ':');
                } else {
                    assert(is_white_space(after_name[i - name.len()]));
                }
            }
        }
        lemma_split_none(left, colon);
        lemma_split_after(left, colon, right);
    }
    let n = left.len() as int;
    assert(middle.take(n) =~= left);
    assert(middle.skip(n + 1) =~= right);
    assert(trim(left) == name) by {
        law_padding_is_trimmed(empty, name, after_name);
        assert(empty + name + after_name =~= left);
    }
    assert(trim(right) == value) by {
        law_padding_is_trimmed(before_value, value, empty);
        assert(before_value + value + empty =~= right);
    }
}

/// A line without a colon holds no field.
pub proof fn law_plain_line_holds_no_field(line: Seq<char>)
    requires
        !line.contains(':'),
    ensures
        field_of(line) is None,
{
    let (x, y) = law_trim(line);
    let t = trim(line);
    assert(!t.contains(':')) by {
        if t.contains(':') {
            let i = choose|i: int| 0 <= i < t.len() && t[i] == ':';
            assert(line[x + i] == ':');
        }
    }
    lemma_split_none(t, seq![':']);
}

/// A line with nothing but white space on one side of its first colon holds no
/// field.
pub proof fn law_blank_line_holds_no_field(before: Seq<char>, after: Seq<char>)
    requires
        !before.contains(':'),
        all_white(before) || all_white(after),
    ensures
        field_of(before + seq![':'] + after) is None,
{
    let colon = seq![':'];
    let empty = Seq::<char>::empty();
    let line = before + colon + after;
    let m = before.len() as int;
    let (x, y) = law_trim(line);
    assert(line[m] == ':');
    assert(x <= m && m < y);
    let left = before.skip(x);
    let right = after.take(y - m - 1);
    let t = trim(line);
    assert(t =~= left + colon + right);
    assert(!left.contains(':')) by {
        if left.contains(':') {
            let i = choose|i: int| 0 <= i < left.len() && left[i] == ':';
            assert(before[x + i] == ':');
        }
    }
    lemma_split_none(left, colon);
    lemma_split_after(left, colon, right);
    assert(t.take(left.len() as int) =~= left);
    assert(t.skip(left.len() as int + 1) =~= right);
    if all_white(before) {
        assert forall|i: int| 0 <= i < left.len() implies is_white_space(#[trigger] left[i]) by {
            assert(is_white_space(before[x + i]));
        }
        law_padding_is_trimmed(left, empty, empty);
        assert(left + empty + empty =~= left);
    } else {
        assert forall|i: int| 0 <= i < right.len() implies is_white_space(#[trigger] right[i]) by {
            assert(is_white_space(after[i]));
        }
        law_padding_is_trimmed(right, empty, empty);
        assert(right + empty + empty =~= right);
    }
}

/// The head of a request with all that can be written in one.
pub struct WrittenHead {
    pub version: Seq<char>,
    pub method: Seq<char>,
    pub before_uri: Seq<char>,
    pub uri: Seq<char>,
    pub after_uri: Seq<char>,
    /// What follows the URI on the first line: nothing, or a space and more.
    pub rest: Seq<char>,
    pub lines: Seq<HeadLine>,
}

/// The first line of a head.
pub open spec fn first_line(head: WrittenHead) -> Seq<char> {
    head.version + seq![' '] + head.method + seq![' '] + (head.before_uri + head.uri
        + head.after_uri) + head.rest
}

/// The text of a head: its lines, with CR LF between them.
pub open spec fn head_text(head: WrittenHead) -> Seq<char> {
    join(
        seq![first_line(head)] + head.lines.map_values(|line: HeadLine| line_text(line)),
        seq!['\r', '\n'],
    )
}

/// Whether the parts of a head are what they are called.
pub open spec fn is_head(head: WrittenHead) -> bool {
    &&& !head.version.contains(' ') && !head.method.contains(' ')
    &&& !(head.before_uri + head.uri + head.after_uri).contains(' ')
    &&& all_white(head.before_uri) && all_white(head.after_uri)
    &&& head.uri.len() == 0 || is_trimmed(head.uri)
    &&& head.rest.len() == 0 || head.rest[0] == ' '
    &&& !holds_line_end(first_line(head))
    &&& forall|i: int|
        0 <= i < head.lines.len() ==> is_head_line(#[trigger] head.lines[i]) && !holds_line_end(
            line_text(head.lines[i]),
        )
}

/// The header fields in some lines, of two with one name the later.
pub open spec fn written_fields(lines: Seq<HeadLine>) -> Map<Seq<char>, Seq<char>>
    decreases lines.len(),
{
    if lines.len() == 0 {
        Map::empty()
    } else {
        match lines.last() {
            HeadLine::Field { name, value, .. } => written_fields(lines.drop_last()).insert(
                lowercase(name),
                value,
            ),
            _ => written_fields(lines.drop_last()),
        }
    }
}

proof fn lemma_written_fields(first: Seq<char>, lines: Seq<HeadLine>)
    requires
        forall|i: int| 0 <= i < lines.len() ==> is_head_line(#[trigger] lines[i]),
    ensures
        fields_of(seq![first] + lines.map_values(|line: HeadLine| line_text(line)))
            == written_fields(lines),
    decreases lines.len(),
{
    let all = seq![first] + lines.map_values(|line: HeadLine| line_text(line));
    if lines.len() > 0 {
        let before = lines.drop_last();
        assert(all.drop_last() =~= seq![first] + before.map_values(
            |line: HeadLine| line_text(line),
        ));
        assert(all.last() == line_text(lines.last()));
        assert forall|i: int| 0 <= i < before.len() implies is_head_line(#[trigger] before[i]) by {
            assert(before[i] == lines[i]);
        }
        lemma_written_fields(first, before);
        assert(is_head_line(lines[lines.len() - 1]));
        match lines.last() {
            HeadLine::Field { before_name, name, after_name, before_value, value, after_value } => {
                law_padded_field_is_read(
                    before_name,
                    name,
                    after_name,
                    before_value,
                    value,
                    after_value,
                );
            },
            HeadLine::Plain(text) => {
                law_plain_line_holds_no_field(text);
            },
            HeadLine::Blank { before, after } => {
                law_blank_line_holds_no_field(before, after);
            },
        }
    }
}

proof fn lemma_lines_of_head(first: Seq<char>, lines: Seq<Seq<char>>)
    requires
        !holds_line_end(first),
        forall|i: int| 0 <= i < lines.len() ==> !holds_line_end(#[trigger] lines[i]),
    ensures
        lines_of(join(seq![first] + lines, seq!['\r', '\n'])) == seq![first] + lines,
{
    let parts = seq![first] + lines;
    assert forall|i: int| 0 <= i < parts.len() implies find(
        #[trigger] parts[i],
        seq!['\r', '\n'],
    ) is None by {
        if i > 0 {
            assert(parts[i] == lines[i - 1]);
        }
        lemma_no_line_end(parts[i]);
    }
    law_join_split(parts, seq!['\r', '\n']);
}

/// Every head is read as it was written: the version and the method as they
/// are, the URI without white space around it, and of the header fields the
/// names in lower case with their whole values. White space, other lines and
/// other words make no difference.
pub proof fn law_head_is_read(head: WrittenHead)
    requires
        is_head(head),
    ensures
        has_request_line(head_text(head)),
        request_info(head_text(head)).http_version == head.version,
        request_info(head_text(head)).http_method == head.method,
        request_info(head_text(head)).uri == head.uri,
        request_info(head_text(head)).headers == written_fields(head.lines),
{
    let space = seq![' '];
    let text = head_text(head);
    let first = first_line(head);
    let texts = head.lines.map_values(|line: HeadLine| line_text(line));
    let word = head.before_uri + head.uri + head.after_uri;
    assert forall|i: int| 0 <= i < texts.len() implies !holds_line_end(#[trigger] texts[i]) by {
        assert(is_head_line(head.lines[i]));
    }
    lemma_lines_of_head(first, texts);
    assert(lines_of(text)[0] == first);
    lemma_split_none(head.version, space);
    lemma_split_none(head.method, space);
    lemma_split_none(word, space);
    let tail = word + head.rest;
    assert(first =~= head.version + space + (head.method + space + tail));
    lemma_split_after(head.version, space, head.method + space + tail);
    lemma_split_after(head.method, space, tail);
    let last = split(tail, space);
    assert(last.len() >= 1 && last[0] == word) by {
        if head.rest.len() == 0 {
            assert(tail =~= word);
        } else {
            let more = head.rest.skip(1);
            assert(tail =~= word + space + more);
            lemma_split_after(word, space, more);
        }
    }
    let words = words_of(first);
    assert(words == seq![head.version] + (seq![head.method] + last));
    assert(words[0] == head.version && words[1] == head.method && words[2] == word);
    law_padding_is_trimmed(head.before_uri, head.uri, head.after_uri);
    assert forall|i: int| 0 <= i < head.lines.len() implies is_head_line(
        #[trigger] head.lines[i],
    ) by {}
    lemma_written_fields(first, head.lines);
}

/// A first line of fewer than three words is not that of a request, whatever
/// lines follow.
pub proof fn law_short_first_line(first: Seq<char>, i: int, lines: Seq<Seq<char>>)
    requires
        forall|j: int| 0 <= j < first.len() && j != i ==> #[trigger] first[j] != ' ',
        !holds_line_end(first),
        forall|j: int| 0 <= j < lines.len() ==> !holds_line_end(#[trigger] lines[j]),
    ensures
        !has_request_line(join(seq![first] + lines, seq!['\r', '\n'])),
{
    let space = seq![' '];
    lemma_lines_of_head(first, lines);
    if 0 <= i < first.len() && first[i] == ' ' {
        let (a, b) = (first.take(i), first.skip(i + 1));
        assert(!a.contains(' '));
        assert(!b.contains(' ')) by {
            if b.contains(' ') {
                let j = choose|j: int| 0 <= j < b.len() && b[j] == ' ';
                assert(first[i + 1 + j] == ' ');
            }
        }
        lemma_split_none(a, space);
        lemma_split_none(b, space);
        assert(first =~= a + space + b);
        lemma_split_after(a, space, b);
        assert(words_of(first).len() == 2);
    } else {
        lemma_split_none(first, space);
    }
}

/// Every line is one of those that a head can be written with, so that what is
/// said of these is said of all.
pub proof fn law_every_line_can_be_written(line: Seq<char>) -> (written: HeadLine)
    ensures
        is_head_line(written),
        line_text(written) == line,
{
    if !line.contains(':') {
        HeadLine::Plain(line)
    } else {
        let colon = seq![':'];
        law_find_is_first(line, colon);
        let k = choose|k: int| 0 <= k < line.len() && line[k] == ':';
        assert(line.subrange(k, k + 1) =~= colon);
        assert(occurs(line, colon, k));
        let i = find(line, colon)->Some_0;
        let (before, after) = (line.take(i), line.skip(i + 1));
        assert(line.subrange(i, i + 1)[0] == line[i]);
        assert(line =~= before + colon + after);
        assert(!before.contains(':')) by {
            if before.contains(':') {
                let j = choose|j: int| 0 <= j < before.len() && before[j] == ':';
                assert(line.subrange(j, j + 1) =~= colon);
                assert(occurs(line, colon, j));
            }
        }
        let (a, b) = law_trim(before);
        let (c, d) = law_trim(after);
        if trim(before).len() == 0 {
            assert(all_white(before));
            HeadLine::Blank { before, after }
        } else if trim(after).len() == 0 {
            assert(all_white(after));
            HeadLine::Blank { before, after }
        } else {
            let written = HeadLine::Field {
                before_name: before.take(a),
                name: trim(before),
                after_name: before.skip(b),
                before_value: after.take(c),
                value: trim(after),
                after_value: after.skip(d),
            };
            assert(!trim(before).contains(':')) by {
                if trim(before).contains(':') {
                    let j = choose|j: int| 0 <= j < trim(before).len() && trim(before)[j] == ':';
                    assert(before[a + j] == ':');
                }
            }
            assert(line_text(written) =~= line);
            written
        }
    }
}

/// Every text with a complete first line is a head as it can be written, so
/// that what is said of these is said of all that are read.
pub proof fn law_every_head_can_be_written(text: Seq<char>) -> (head: WrittenHead)
    requires
        has_request_line(text),
    ensures
        is_head(head),
        head_text(head) == text,
{
    let line_end = seq!['\r', '\n'];
    let space = seq![' '];
    let lines = lines_of(text);
    law_split_join(text, line_end);
    let first = lines[0];
    let words = words_of(first);
    law_split_join(first, space);
    assert forall|i: int| 0 <= i < lines.len() implies !holds_line_end(#[trigger] lines[i]) by {
        law_parts_without_separator(text, line_end, i);
        law_find_is_first(lines[i], line_end);
        if holds_line_end(lines[i]) {
            let k = choose|k: int|
                0 <= k < lines[i].len() - 1 && #[trigger] lines[i][k] == '\r' && lines[i][k + 1]
                    == '\n';
            assert(lines[i].subrange(k, k + 2) =~= line_end);
            assert(occurs(lines[i], line_end, k));
        }
    }
    assert forall|i: int| 0 <= i < 3 implies !(#[trigger] words[i]).contains(' ') by {
        law_parts_without_separator(first, space, i);
        law_find_is_first(words[i], space);
        if words[i].contains(' ') {
            let k = choose|k: int| 0 <= k < words[i].len() && words[i][k] == ' ';
            assert(words[i].subrange(k, k + 1) =~= space);
            assert(occurs(words[i], space, k));
        }
    }
    let (a, b) = law_trim(words[2]);
    let later = words.drop_first();
    let latest = later.drop_first();
    assert(join(words, space) == words[0] + space + (words[1] + space + join(latest, space))) by {
        assert(later[0] == words[1]);
        assert(join(later, space) == later[0] + space + join(latest, space));
        assert(join(words, space) == words[0] + space + join(later, space));
    }
    let tail = join(latest, space);
    assert(latest[0] == words[2]);
    let n = words[2].len() as int;
    let rest = tail.skip(n);
    assert(tail =~= words[2] + rest && (rest.len() == 0 || rest[0] == ' ')) by {
        if latest.len() > 1 {
            assert(tail == words[2] + space + join(latest.drop_first(), space));
            assert(rest =~= space + join(latest.drop_first(), space));
        }
    }
    let head = WrittenHead {
        version: words[0],
        method: words[1],
        before_uri: words[2].take(a),
        uri: trim(words[2]),
        after_uri: words[2].skip(b),
        rest,
        lines: Seq::new(
            (lines.len() - 1) as nat,
            |i: int|
                choose|line: HeadLine| is_head_line(line) && #[trigger] line_text(line) == lines[i + 1],
        ),
    };
    assert(head.before_uri + head.uri + head.after_uri =~= words[2]);
    assert(first_line(head) =~= first);
    assert forall|i: int| 0 <= i < head.lines.len() implies is_head_line(#[trigger] head.lines[i])
        && line_text(head.lines[i]) == lines[i + 1] by {
        let line = law_every_line_can_be_written(lines[i + 1]);
        assert(is_head_line(line) && line_text(line) == lines[i + 1]);
    }
    assert forall|i: int| 0 <= i < head.lines.len() implies is_head_line(#[trigger] head.lines[i])
        && !holds_line_end(line_text(head.lines[i])) by {
        assert(!holds_line_end(lines[i + 1]));
    }
    assert(seq![first_line(head)] + head.lines.map_values(|line: HeadLine| line_text(line))
        =~= lines);
    head
}

/// What a head says is what it holds.
pub proof fn law_head_says_what_it_holds(info: RequestMessageInfoChunkBody)
    ensures
        info@.http_version == info.http_version@,
        info@.http_method == info.http_method@,
        info@.uri == info.uri@,
        info@.headers == info.headers@,
{
}

} // verus!
