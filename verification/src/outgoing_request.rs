//! The requests that go to the service.

use crate::external::{add_bad_header, has_request, header_name, header_value};
use crate::external::{ascii_lower, is_header_name, is_header_value, is_lower};
use crate::external::{new_request, try_add_header, SURE_HEADER_NAMES};
use crate::external::{parsed_url, request_client, request_content, with_value, OutgoingRequest};
use crate::request_headers::RequestHeaders;
use crate::response_info::field_views;
use crate::session::ProxyRequest;
use reqwest::{Client, RequestBuilder};
use vstd::prelude::*;

verus! {

/// How many header fields a request can have in any case.
pub const MAX_FIELDS: usize = 6553;

/// The request that a method and the text of a URL stand for.
pub open spec fn fresh_request(method: Seq<char>, url: Seq<char>) -> Option<OutgoingRequest> {
    match parsed_url(url) {
        Some((target, headers)) => Some(
            OutgoingRequest { method, url: target, headers, has_body: false },
        ),
        None => None,
    }
}

/// Whether some names and values list the given header fields, each once.
pub open spec fn lists(
    fields: Seq<(Seq<char>, Seq<char>)>,
    headers: Map<Seq<char>, Seq<char>>,
) -> bool {
    &&& forall|i: int|
        0 <= i < fields.len() ==> headers.contains_key((#[trigger] fields[i]).0)
            && headers[fields[i].0] == fields[i].1
    &&& forall|name: Seq<char>| #[trigger]
        headers.contains_key(name) ==> exists|i: int|
            0 <= i < fields.len() && (#[trigger] fields[i]).0 == name
    &&& forall|i: int, j: int|
        0 <= i < j < fields.len() ==> (#[trigger] fields[i]).0 != (#[trigger] fields[j]).0
}

/// A request with one header more, its name in lower case. With a bad name or
/// value there is no request any more.
pub open spec fn with_header(
    request: Option<OutgoingRequest>,
    name: Seq<char>,
    value: Seq<char>,
) -> Option<OutgoingRequest> {
    match request {
        Some(request) => if is_header_name(name) && is_header_value(value) {
            Some(
                OutgoingRequest {
                    headers: with_value(
                        request.headers,
                        name.map_values(|c: char| ascii_lower(c)),
                        vstd::utf8::encode_utf8(value),
                    ),
                    ..request
                },
            )
        } else {
            None
        },
        None => None,
    }
}

/// A request with some header fields more.
pub open spec fn with_fields(
    request: Option<OutgoingRequest>,
    fields: Seq<(Seq<char>, Seq<char>)>,
) -> Option<OutgoingRequest>
    decreases fields.len(),
{
    if fields.len() == 0 {
        request
    } else {
        with_header(
            with_fields(request, fields.drop_last()),
            fields.last().0,
            fields.last().1,
        )
    }
}

/// Adds header fields to a request, in any order. There is no result if the
/// header map of the request has no room for them; that can be so only with
/// more than [`SURE_HEADER_NAMES`] names, and then rests on their hash values.
pub fn add_headers(builder: RequestBuilder, headers: &RequestHeaders) -> (added: Option<
    RequestBuilder,
>)
    requires
        request_content(builder) matches Some(request) ==> !request.has_body,
    ensures
        request_content(builder) is None ==> added is Some,
        request_content(builder) matches Some(request) ==> request.headers.dom().finite()
            && request.headers.dom().len() + headers@.dom().len() <= SURE_HEADER_NAMES
            ==> added is Some,
        added is Some ==> request_client(added->Some_0) == request_client(builder),
        added is Some ==> exists|fields: Seq<(Seq<char>, Seq<char>)>| #[trigger]
            lists(fields, headers@) && request_content(added->Some_0) == with_fields(
                request_content(builder),
                fields,
            ),
{
    let entries = headers.entries();
    let ghost fields = field_views(entries@);
    let ghost client = request_client(builder);
    let ghost start = request_content(builder);
    let ghost sure = match start {
        Some(request) => request.headers.dom().finite() && request.headers.dom().len()
            + entries@.len() <= SURE_HEADER_NAMES,
        None => true,
    };
    let mut holds: bool = has_request(&builder);
    let mut added = builder;
    let mut i: usize = 0;
    assert(fields.take(0) =~= Seq::empty());
    while i < entries.len()
        invariant
            i <= entries@.len(),
            fields == field_views(entries@),
            request_client(added) == client,
            request_content(added) == with_fields(start, fields.take(i as int)),
            holds == (request_content(added) is Some),
            start == request_content(builder),
            entries@.len() == headers@.dom().len(),
            sure == (match start {
                Some(request) => request.headers.dom().finite() && request.headers.dom().len()
                    + entries@.len() <= SURE_HEADER_NAMES,
                None => true,
            }),
            start is None ==> !holds,
            sure ==> (request_content(added) matches Some(request) ==> request.headers.dom().finite()
                && request.headers.dom().len() + (entries@.len() - i) <= SURE_HEADER_NAMES),
        decreases entries.len() - i,
    {
        assert(fields.take(i + 1).drop_last() =~= fields.take(i as int));
        assert(fields.take(i + 1).last() == fields[i as int]);
        let name = entries[i].0.as_str();
        let value = entries[i].1.as_str();
        match (holds, header_name(name), header_value(value)) {
            (true, Some(valid_name), Some(valid_value)) => {
                match try_add_header(added, valid_name, valid_value) {
                    Some(longer) => {
                        added = longer;
                    },
                    None => {
                        assert(!sure);
                        return None;
                    },
                }
            },
            _ => {
                added = add_bad_header(added, name, value);
                holds = false;
            },
        }
        i = i + 1;
    }
    assert(fields.take(i as int) =~= fields);
    proof {
        assert forall|name: Seq<char>| #[trigger] headers@.contains_key(name) implies exists|k: int|
            0 <= k < fields.len() && (#[trigger] fields[k]).0 == name by {
            let k = choose|k: int| 0 <= k < entries@.len() && #[trigger] entries@[k].0@ == name;
            assert(fields[k].0 == name);
        }
        assert forall|k: int| 0 <= k < fields.len() implies headers@.contains_key(
            (#[trigger] fields[k]).0,
        ) && headers@[fields[k].0] == fields[k].1 by {
            assert(headers@.contains_key(entries@[k].0@));
        }
        assert forall|k: int, l: int| 0 <= k < l < fields.len() implies (#[trigger] fields[k]).0 != (
        #[trigger] fields[l]).0 by {
            assert(fields[k].0 == entries@[k].0@ && fields[l].0 == entries@[l].0@);
        }
        assert(lists(fields, headers@));
    }
    Some(added)
}

/// Builds the request that goes to the service, with the given client. There
/// is none if the header map of the request has no room for the header fields;
/// that can be so only with more than [`MAX_FIELDS`] of them, and then rests on
/// the hash values of their names.
pub fn build_request(client: &Client, request: ProxyRequest) -> (builder: Option<RequestBuilder>)
    ensures
        request@.headers.dom().len() <= MAX_FIELDS ==> builder is Some,
        fresh_request(request@.method, request@.url) is None ==> builder is Some,
        builder is Some ==> request_client(builder->Some_0) == *client,
        builder is Some ==> exists|fields: Seq<(Seq<char>, Seq<char>)>| #[trigger]
            lists(fields, request@.headers) && request_content(builder->Some_0) == with_fields(
                fresh_request(request@.method, request@.url),
                fields,
            ),
{
    let ghost asked = request@;
    let builder = new_request(client, request.method, request.url.as_str());
    assert(request_content(builder) == fresh_request(asked.method, asked.url));
    proof {
        if let Some(content) = request_content(builder) {
            let only = Set::<Seq<char>>::empty().insert("authorization"@);
            assert forall|name: Seq<char>| content.headers.dom().contains(name) implies only.contains(
                name,
            ) by {
                assert(content.headers.contains_key(name));
            }
            assert(content.headers.dom().subset_of(only));
            vstd::set_lib::lemma_len_subset(content.headers.dom(), only);
        }
    }
    let added = add_headers(builder, &request.headers);
    proof {
        if added is Some {
            let fields = choose|fields: Seq<(Seq<char>, Seq<char>)>| #[trigger]
                lists(fields, asked.headers) && request_content(added->Some_0) == with_fields(
                    request_content(builder),
                    fields,
                );
            assert(lists(fields, asked.headers));
        }
    }
    added
}

/// The values of a header.
pub open spec fn values_of(headers: Map<Seq<char>, Seq<Seq<u8>>>, name: Seq<char>) -> Seq<
    Seq<u8>,
> {
    if headers.contains_key(name) {
        headers[name]
    } else {
        Seq::empty()
    }
}

/// Headers with the given fields in addition.
pub open spec fn merged(
    headers: Map<Seq<char>, Seq<Seq<u8>>>,
    fields: Map<Seq<char>, Seq<char>>,
) -> Map<Seq<char>, Seq<Seq<u8>>> {
    Map::new(
        |name: Seq<char>| headers.contains_key(name) || fields.contains_key(name),
        |name: Seq<char>|
            if fields.contains_key(name) {
                values_of(headers, name).push(vstd::utf8::encode_utf8(fields[name]))
            } else {
                headers[name]
            },
    )
}

/// Every header field of a request reaches the service under its name and with
/// its value, and nothing else about the request changes. The order in which
/// the fields are added makes no difference.
pub proof fn law_fields_reach_the_service(
    request: OutgoingRequest,
    fields: Seq<(Seq<char>, Seq<char>)>,
    headers: Map<Seq<char>, Seq<char>>,
)
    requires
        lists(fields, headers),
        forall|name: Seq<char>| #[trigger]
            headers.contains_key(name) ==> is_header_name(name) && is_lower(name)
                && is_header_value(headers[name]),
    ensures
        with_fields(Some(request), fields) == Some(
            OutgoingRequest { headers: merged(request.headers, headers), ..request },
        ),
    decreases fields.len(),
{
    if fields.len() == 0 {
        assert(merged(request.headers, headers) =~= request.headers) by {
            assert forall|name: Seq<char>| !headers.contains_key(name) by {}
        }
    } else {
        let before = fields.drop_last();
        let (name, value) = fields.last();
        let others = headers.remove(name);
        let n = fields.len() - 1;
        assert(fields[n].0 == name && headers.contains_key(name) && headers[name] == value);
        assert(lists(before, others)) by {
            assert forall|i: int| 0 <= i < before.len() implies others.contains_key(
                (#[trigger] before[i]).0,
            ) && others[before[i].0] == before[i].1 by {
                assert(before[i] == fields[i]);
                assert(fields[i].0 != fields[n].0);
            }
            assert forall|other: Seq<char>| #[trigger] others.contains_key(other) implies exists|i:
                int| 0 <= i < before.len() && (#[trigger] before[i]).0 == other by {
                assert(headers.contains_key(other));
                let i = choose|i: int| 0 <= i < fields.len() && (#[trigger] fields[i]).0 == other;
                assert(before[i] == fields[i]);
            }
            assert forall|i: int, j: int| 0 <= i < j < before.len() implies (
            #[trigger] before[i]).0 != (#[trigger] before[j]).0 by {
                assert(before[i] == fields[i] && before[j] == fields[j]);
            }
        }
        assert forall|other: Seq<char>| #[trigger] others.contains_key(other) implies is_header_name(
            other,
        ) && is_lower(other) && is_header_value(others[other]) by {
            assert(headers.contains_key(other));
        }
        law_fields_reach_the_service(request, before, others);
        let bytes = vstd::utf8::encode_utf8(value);
        assert(name.map_values(|c: char| ascii_lower(c)) =~= name);
        assert(with_value(merged(request.headers, others), name, bytes) =~= merged(
            request.headers,
            headers,
        )) by {
            assert(Seq::<Seq<u8>>::empty().push(bytes) =~= seq![bytes]);
        }
    }
}

/// A header field with a bad name or value spoils the request, whatever the
/// other fields are.
pub proof fn law_bad_field_spoils_request(
    request: Option<OutgoingRequest>,
    fields: Seq<(Seq<char>, Seq<char>)>,
    i: int,
)
    requires
        0 <= i < fields.len(),
        !is_header_name(fields[i].0) || !is_header_value(fields[i].1),
    ensures
        with_fields(request, fields) is None,
    decreases fields.len(),
{
    if i < fields.len() - 1 {
        assert(fields.drop_last()[i] == fields[i]);
        law_bad_field_spoils_request(request, fields.drop_last(), i);
    }
}

/// A good header comes last among those of its name, whatever letters the name
/// is written in; the method, the URL and all other headers stay.
pub proof fn law_header_is_added(
    request: OutgoingRequest,
    name: Seq<char>,
    value: Seq<char>,
    other: Seq<char>,
)
    requires
        is_header_name(name),
        is_header_value(value),
        other != name.map_values(|c: char| ascii_lower(c)),
    ensures
        ({
            let lower = name.map_values(|c: char| ascii_lower(c));
            let longer = with_header(Some(request), name, value);
            &&& longer is Some
            &&& longer->Some_0.method == request.method
            &&& longer->Some_0.url == request.url
            &&& longer->Some_0.has_body == request.has_body
            &&& longer->Some_0.headers.contains_key(lower)
            &&& values_of(longer->Some_0.headers, lower) == values_of(request.headers, lower).push(
                vstd::utf8::encode_utf8(value),
            )
            &&& values_of(longer->Some_0.headers, other) == values_of(request.headers, other)
            &&& longer->Some_0.headers.contains_key(other) <==> request.headers.contains_key(other)
        }),
{
    let bytes = vstd::utf8::encode_utf8(value);
    assert(Seq::<Seq<u8>>::empty().push(bytes) =~= seq![bytes]);
}

/// A request starts with the method it is given, at the URL that is read from
/// the text, with the headers that the text asks for, and without a body. There
/// is none if no URL can be read.
pub proof fn law_request_starts_as_asked(method: Seq<char>, url: Seq<char>)
    ensures
        fresh_request(method, url) is Some <==> parsed_url(url) is Some,
        fresh_request(method, url) matches Some(request) ==> request.method == method && request.url
            == parsed_url(url)->Some_0.0 && request.headers == parsed_url(url)->Some_0.1
            && !request.has_body,
{
}

} // verus!
