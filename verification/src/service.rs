//! The HTTP requests that carry payloads.
use vstd::prelude::*;
use vstd::string::*;
use indexmap::IndexMap;
use crate::config::{Compression, ContentEncoding, HttpMethod};
use crate::keys::{
    find_key, key_index, keys_of, lemma_key_index, lemma_lookup_push, lookup, names_of,
};
use crate::ordered::{list_entries, ordered_entries};
use crate::request_builder::HttpRequest;
use crate::text::{ascii_lowercase, ascii_lowered, to_ascii_lowercase};
use crate::uri::{parse_uri, uri_written};

verus! {

/// The content type of an encoding.
pub open spec fn content_type_of(encoding: ContentEncoding) -> Seq<char> {
    match encoding {
        ContentEncoding::Protobuf => "application/x-protobuf"@,
    }
}

/// The content encoding that a compression is announced by; none without compression.
pub open spec fn content_encoding_of(compression: Compression) -> Option<Seq<char>> {
    match compression {
        Compression::Uncompressed => None,
        Compression::Gzip(_) => Some("gzip"@),
        Compression::Zlib(_) => Some("deflate"@),
        Compression::Zstd(_) => Some("zstd"@),
        Compression::Snappy => Some("snappy"@),
    }
}

/// The headers after one more was set: in place of one with the same name, else last.
pub open spec fn with_header(
    headers: Seq<(Seq<char>, Seq<char>)>,
    name: Seq<char>,
    value: Seq<char>,
) -> Seq<(Seq<char>, Seq<char>)> {
    match key_index(keys_of(headers), name) {
        Some(i) => headers.update(i, (name, value)),
        None => headers.push((name, value)),
    }
}

/// The headers after more were set, one after the other.
pub open spec fn with_headers(
    headers: Seq<(Seq<char>, Seq<char>)>,
    more: Seq<(Seq<char>, Seq<char>)>,
) -> Seq<(Seq<char>, Seq<char>)>
    decreases more.len(),
{
    if more.len() == 0 {
        headers
    } else {
        let before = with_headers(headers, more.drop_last());
        with_header(before, more.last().0, more.last().1)
    }
}

/// The headers of the protocol.
pub open spec fn protocol_headers(encoding: ContentEncoding, compression: Compression) -> Seq<
    (Seq<char>, Seq<char>),
> {
    let headers = seq![("content-type"@, content_type_of(encoding))];
    match content_encoding_of(compression) {
        Some(value) => headers.push(("content-encoding"@, value)),
        None => headers,
    }
}

/// Headers with their names in small letters.
pub open spec fn with_small_names(headers: Seq<(Seq<char>, Seq<char>)>) -> Seq<
    (Seq<char>, Seq<char>),
> {
    Seq::new(headers.len(), |i: int| (ascii_lowercase(headers[i].0), headers[i].1))
}

/// What headers stand for.
pub open spec fn header_views(headers: Seq<(String, String)>) -> Seq<(Seq<char>, Seq<char>)> {
    Seq::new(headers.len(), |i: int| (headers[i].0@, headers[i].1@))
}

/// A request, as plain values.
#[derive(Debug)]
pub struct RequestParts {
    pub method: HttpMethod,
    pub uri: String,
    /// The headers, with their names in small letters; no name occurs twice.
    pub headers: Vec<(String, String)>,
    pub body: Vec<u8>,
}

/// What a `RequestParts` says.
#[verifier::ext_equal]
pub struct SpecRequestParts {
    pub method: HttpMethod,
    pub uri: Seq<char>,
    pub headers: Seq<(Seq<char>, Seq<char>)>,
    pub body: Seq<u8>,
}

impl View for RequestParts {
    type V = SpecRequestParts;

    open spec fn view(&self) -> SpecRequestParts {
        SpecRequestParts {
            method: self.method,
            uri: self.uri@,
            headers: header_views(self.headers@),
            body: self.body@,
        }
    }
}

/// Sets a header.
fn set_header(headers: &mut Vec<(String, String)>, name: &str, value: &str)
    ensures
        header_views(final(headers)@) == with_header(header_views(old(headers)@), name@, value@),
{
    let ghost before = header_views(headers@);
    proof {
        assert(names_of(headers@) =~= keys_of(before));
        lemma_key_index(keys_of(before), name@);
    }
    match find_key(headers, name) {
        Some(i) => {
            headers.set(i, (name.to_owned(), value.to_owned()));
        },
        None => {
            headers.push((name.to_owned(), value.to_owned()));
        },
    }
    assert(header_views(headers@) =~= with_header(before, name@, value@));
}

/// Builds the requests for OTLP batches.
#[derive(Debug)]
pub struct OtlpServiceRequestBuilder {
    pub method: HttpMethod,
    pub compression: Compression,
    pub encoding: ContentEncoding,
    /// Headers to send with every request.
    pub headers: IndexMap<String, String>,
}

impl OtlpServiceRequestBuilder {
    /// The request for a payload to a URI.
    pub open spec fn request_to(self, uri: Seq<char>, payload: Seq<u8>) -> SpecRequestParts {
        SpecRequestParts {
            method: self.method,
            uri,
            headers: with_headers(
                protocol_headers(self.encoding, self.compression),
                with_small_names(ordered_entries(self.headers)),
            ),
            body: payload,
        }
    }

    /// Builds the request for a payload to a parsed URI.
    pub fn request_for(&self, uri: String, payload: Vec<u8>) -> (request: RequestParts)
        ensures
            request@ == self.request_to(uri@, payload@),
    {
        let content_type = match self.encoding {
            ContentEncoding::Protobuf => "application/x-protobuf",
        };
        let mut headers: Vec<(String, String)> = Vec::new();
        headers.push(("content-type".to_owned(), content_type.to_owned()));
        match self.compression {
            Compression::Uncompressed => {},
            Compression::Gzip(_) => headers.push(
                ("content-encoding".to_owned(), "gzip".to_owned()),
            ),
            Compression::Zlib(_) => headers.push(
                ("content-encoding".to_owned(), "deflate".to_owned()),
            ),
            Compression::Zstd(_) => headers.push(
                ("content-encoding".to_owned(), "zstd".to_owned()),
            ),
            Compression::Snappy => headers.push(
                ("content-encoding".to_owned(), "snappy".to_owned()),
            ),
        }
        let ghost first = protocol_headers(self.encoding, self.compression);
        let ghost more = with_small_names(ordered_entries(self.headers));
        assert(header_views(headers@) =~= first);

        // Headers of the configuration come over those of the protocol
        let configured = list_entries(&self.headers);
        let mut i: usize = 0;
        while i < configured.len()
            invariant
                i <= configured@.len(),
                more == with_small_names(header_views(configured@)),
                header_views(headers@) == with_headers(first, more.take(i as int)),
            decreases configured@.len() - i,
        {
            let name = to_ascii_lowercase(configured[i].0.as_str());
            set_header(&mut headers, name.as_str(), configured[i].1.as_str());
            assert(more.take(i + 1).drop_last() =~= more.take(i as int));
            i = i + 1;
        }
        assert(more.take(i as int) =~= more);
        RequestParts { method: self.method, uri, headers, body: payload }
    }

    /// Builds the request for a batch. It fails where the endpoint of the batch is no URI, with a
    /// message that says so.
    pub fn build(&self, request: HttpRequest) -> (result: Result<RequestParts, String>)
        ensures
            (match uri_written(request.key.endpoint@) {
                Ok(uri) => result matches Ok(parts) && parts@ == self.request_to(
                    uri,
                    request.payload@,
                ),
                Err(error) => result matches Err(message) && message@ == "Invalid URI: "@ + error,
            }),
    {
        match parse_uri(request.key.endpoint.as_str()) {
            Ok(uri) => Ok(self.request_for(uri, request.payload)),
            Err(error) => {
                let mut message = "Invalid URI: ".to_owned();
                message.append(error.as_str());
                Err(message)
            },
        }
    }
}

proof fn lemma_header_set(
    headers: Seq<(Seq<char>, Seq<char>)>,
    name: Seq<char>,
    value: Seq<char>,
    other: Seq<char>,
)
    ensures
        lookup(with_header(headers, name, value), other) == (if other == name {
            Some(value)
        } else {
            lookup(headers, other)
        }),
{
    let keys = keys_of(headers);
    lemma_key_index(keys, name);
    lemma_key_index(keys, other);
    match key_index(keys, name) {
        Some(i) => {
            assert(keys_of(headers.update(i, (name, value))) =~= keys);
        },
        None => {
            lemma_lookup_push(headers, (name, value), other);
        },
    }
}

/// A header of the configuration comes in place of one of the protocol, and all others stay.
pub proof fn law_configured_headers_win(
    headers: Seq<(Seq<char>, Seq<char>)>,
    more: Seq<(Seq<char>, Seq<char>)>,
    name: Seq<char>,
)
    ensures
        lookup(with_headers(headers, more), name) == (match lookup(more, name) {
            Some(value) => Some(value),
            None => lookup(headers, name),
        }),
    decreases more.len(),
{
    if more.len() > 0 {
        let rest = more.drop_last();
        let last = more.last();
        law_configured_headers_win(headers, rest, name);
        lemma_header_set(with_headers(headers, rest), last.0, last.1, name);
        lemma_lookup_push(rest, last, name);
        assert(rest.push(last) =~= more);
    } else {
        lemma_key_index(keys_of(more), name);
    }
}

/// The protocol announces the content type always, and a content encoding if and only if payloads
/// are compressed.
pub proof fn law_protocol_headers(encoding: ContentEncoding, compression: Compression)
    ensures
        lookup(protocol_headers(encoding, compression), "content-type"@) == Some(
            content_type_of(encoding),
        ),
        lookup(protocol_headers(encoding, compression), "content-encoding"@)
            == content_encoding_of(compression),
        content_encoding_of(compression) is Some <==> compression != Compression::Uncompressed,
{
    reveal_strlit("content-type");
    reveal_strlit("content-encoding");
    assert("content-type"@.len() == 12);
    assert("content-encoding"@.len() == 16);
    let empty = Seq::<(Seq<char>, Seq<char>)>::empty();
    let first = ("content-type"@, content_type_of(encoding));
    assert(seq![first] =~= empty.push(first));
    lemma_lookup_push(empty, first, "content-type"@);
    lemma_lookup_push(empty, first, "content-encoding"@);
    lemma_key_index(keys_of(empty), "content-encoding"@);
    if let Some(value) = content_encoding_of(compression) {
        let second = ("content-encoding"@, value);
        lemma_lookup_push(seq![first], second, "content-type"@);
        lemma_lookup_push(seq![first], second, "content-encoding"@);
    }
}

/// No two headers of a request have the same name.
pub proof fn law_no_header_occurs_twice(
    encoding: ContentEncoding,
    compression: Compression,
    more: Seq<(Seq<char>, Seq<char>)>,
)
    ensures
        keys_of(
            with_headers(protocol_headers(encoding, compression), more),
        ).no_duplicates(),
    decreases more.len(),
{
    if more.len() == 0 {
        reveal_strlit("content-type");
        reveal_strlit("content-encoding");
        assert("content-type"@.len() == 12);
        assert("content-encoding"@.len() == 16);
    } else {
        let before = with_headers(protocol_headers(encoding, compression), more.drop_last());
        let name = more.last().0;
        law_no_header_occurs_twice(encoding, compression, more.drop_last());
        lemma_key_index(keys_of(before), name);
        match key_index(keys_of(before), name) {
            Some(i) => {
                assert(keys_of(before.update(i, more.last())) =~= keys_of(before));
            },
            None => {
                assert(keys_of(before.push(more.last())) =~= keys_of(before).push(name));
            },
        }
    }
}

proof fn lemma_lowercase_is_small(name: Seq<char>)
    ensures
        ascii_lowercase(ascii_lowercase(name)) == ascii_lowercase(name),
{
    assert forall|i: int| 0 <= i < name.len() implies ascii_lowered(
        #[trigger] ascii_lowercase(name)[i],
    ) == ascii_lowercase(name)[i] by {
        assert(ascii_lowercase(name)[i] == ascii_lowered(name[i]));
    }
    assert(ascii_lowercase(ascii_lowercase(name)) =~= ascii_lowercase(name));
}

/// The names of all headers of a request are in small letters, whatever the configuration says.
pub proof fn law_header_names_are_small(
    encoding: ContentEncoding,
    compression: Compression,
    more: Seq<(Seq<char>, Seq<char>)>,
    i: int,
)
    requires
        0 <= i < with_headers(
            protocol_headers(encoding, compression),
            with_small_names(more),
        ).len(),
    ensures
        ascii_lowercase(
            with_headers(protocol_headers(encoding, compression), with_small_names(more))[i].0,
        ) == with_headers(protocol_headers(encoding, compression), with_small_names(more))[i].0,
    decreases more.len(),
{
    let first = protocol_headers(encoding, compression);
    let small = with_small_names(more);
    if more.len() == 0 {
        reveal_strlit("content-type");
        reveal_strlit("content-encoding");
        assert(ascii_lowercase("content-type"@) =~= "content-type"@);
        assert(ascii_lowercase("content-encoding"@) =~= "content-encoding"@);
        assert(small.len() == 0);
    } else {
        let before = with_headers(first, small.drop_last());
        let name = small.last().0;
        assert(small.drop_last() =~= with_small_names(more.drop_last()));
        lemma_lowercase_is_small(more.last().0);
        lemma_key_index(keys_of(before), name);
        match key_index(keys_of(before), name) {
            Some(at) => {
                if i != at {
                    law_header_names_are_small(encoding, compression, more.drop_last(), i);
                }
            },
            None => {
                if i < before.len() {
                    law_header_names_are_small(encoding, compression, more.drop_last(), i);
                }
            },
        }
    }
}

/// The headers of the protocol stay in their places, before those that the configuration adds.
pub proof fn law_headers_keep_their_places(
    headers: Seq<(Seq<char>, Seq<char>)>,
    more: Seq<(Seq<char>, Seq<char>)>,
    i: int,
)
    requires
        0 <= i < headers.len(),
    ensures
        i < with_headers(headers, more).len(),
        with_headers(headers, more)[i].0 == headers[i].0,
    decreases more.len(),
{
    if more.len() > 0 {
        let before = with_headers(headers, more.drop_last());
        law_headers_keep_their_places(headers, more.drop_last(), i);
        lemma_key_index(keys_of(before), more.last().0);
        if let Some(at) = key_index(keys_of(before), more.last().0) {
            assert(before[at].0 == keys_of(before)[at]);
        }
    }
}

/// A header that is not there yet comes last.
pub proof fn law_new_header_comes_last(
    headers: Seq<(Seq<char>, Seq<char>)>,
    name: Seq<char>,
    value: Seq<char>,
)
    requires
        !keys_of(headers).contains(name),
    ensures
        with_header(headers, name, value) == headers.push((name, value)),
{
    lemma_key_index(keys_of(headers), name);
}

}
