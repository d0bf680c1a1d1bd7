//! Choosing how a response body is decoded, from the type the caller asked
//! for or from the response's `Content-Type`, and assembling the response
//! handed back to R.

use vstd::prelude::*;
use crate::multipart::utf8;
use crate::text::{has_prefix, str_eq, str_starts_with};

verus! {

/// How a response body is to be read.
#[derive(Clone, Copy, Debug, PartialEq, Eq, Structural)]
pub enum ResponseType {
    TSON,
    JSON,
    UTF8,
    BINARY,
    DEFAULT,
}

/// The deserialiser that reads a body of a given [`ResponseType`].
#[derive(Clone, Copy, Debug, PartialEq, Eq, Structural)]
pub enum Decoder {
    Tson,
    Json,
    Utf8,
    Binary,
}

/// The response type a content type names: the binary and JSON types,
/// the two UTF-8 text types and anything whose bytes begin with `text` are
/// read as what they are, anything else as raw bytes.
pub open spec fn content_type_kind(s: Seq<char>) -> ResponseType {
    if s == "application/tson"@ {
        ResponseType::TSON
    } else if s == "application/json"@ {
        ResponseType::JSON
    } else if s == "text/html; charset=utf-8"@ || s == "text/plain; charset=utf-8"@ {
        ResponseType::UTF8
    } else if has_prefix(utf8(s), utf8("text"@)) {
        ResponseType::UTF8
    } else {
        ResponseType::BINARY
    }
}

/// The response type a caller's string names: `default` leaves the choice
/// to the response, anything else is read as a content type.
pub open spec fn response_type_of(s: Seq<char>) -> ResponseType {
    if s == "default"@ {
        ResponseType::DEFAULT
    } else {
        content_type_kind(s)
    }
}

/// The deserialiser for a response type; `DEFAULT` reads raw bytes.
pub open spec fn decoder_of(t: ResponseType) -> Decoder {
    match t {
        ResponseType::TSON => Decoder::Tson,
        ResponseType::JSON => Decoder::Json,
        ResponseType::UTF8 => Decoder::Utf8,
        ResponseType::BINARY => Decoder::Binary,
        ResponseType::DEFAULT => Decoder::Binary,
    }
}

/// The response type a reader configured with `configured` uses for a
/// response whose `Content-Type` is `header`.
pub open spec fn effective_type(configured: ResponseType, header: Option<Seq<char>>) -> ResponseType {
    match configured {
        ResponseType::DEFAULT => match header {
            None => ResponseType::BINARY,
            Some(ct) => content_type_kind(ct),
        },
        _ => configured,
    }
}

/// Resolving a `default` reader against a response's `Content-Type` gives
/// the type the caller would have got by naming that content type, except
/// for the name `default` itself; and a reader given any other type
/// ignores the response's `Content-Type`.
pub proof fn law_resolution_matches_naming(ct: Seq<char>, configured: ResponseType)
    ensures
        ct != "default"@ ==> effective_type(ResponseType::DEFAULT, Some(ct)) == response_type_of(ct),
        configured != ResponseType::DEFAULT ==> effective_type(configured, Some(ct))
            == configured && effective_type(configured, None) == configured,
        effective_type(configured, Some(ct)) != ResponseType::DEFAULT,
        effective_type(configured, None) != ResponseType::DEFAULT,
{
}

fn content_type_kind_exec(s: &str) -> (r: ResponseType)
    ensures
        r == content_type_kind(s@),
{
    if str_eq(s, "application/tson") {
        ResponseType::TSON
    } else if str_eq(s, "application/json") {
        ResponseType::JSON
    } else if str_eq(s, "text/html; charset=utf-8") || str_eq(s, "text/plain; charset=utf-8") {
        ResponseType::UTF8
    } else if str_starts_with(s, "text") {
        ResponseType::UTF8
    } else {
        ResponseType::BINARY
    }
}

impl ResponseType {
    /// The response type named by `resp_type`.
    pub fn from_name(resp_type: &str) -> (r: ResponseType)
        ensures
            r == response_type_of(resp_type@),
    {
        if str_eq(resp_type, "default") {
            ResponseType::DEFAULT
        } else {
            content_type_kind_exec(resp_type)
        }
    }

    /// The deserialiser that reads a body of this type.
    pub fn decoder(&self) -> (r: Decoder)
        ensures
            r == decoder_of(*self),
    {
        match self {
            ResponseType::TSON => Decoder::Tson,
            ResponseType::JSON => Decoder::Json,
            ResponseType::UTF8 => Decoder::Utf8,
            ResponseType::BINARY => Decoder::Binary,
            ResponseType::DEFAULT => Decoder::Binary,
        }
    }
}

impl<'a> From<&'a str> for ResponseType {
    fn from(resp_type: &'a str) -> (r: ResponseType) {
        ResponseType::from_name(resp_type)
    }
}

impl<'a> vstd::std_specs::convert::FromSpecImpl<&'a str> for ResponseType {
    open spec fn obeys_from_spec() -> bool {
        true
    }

    open spec fn from_spec(v: &'a str) -> ResponseType {
        response_type_of(v@)
    }
}

impl From<String> for ResponseType {
    fn from(resp_type: String) -> (r: ResponseType) {
        ResponseType::from_name(resp_type.as_str())
    }
}

impl vstd::std_specs::convert::FromSpecImpl<String> for ResponseType {
    open spec fn obeys_from_spec() -> bool {
        true
    }

    open spec fn from_spec(v: String) -> ResponseType {
        response_type_of(v@)
    }
}

/// Header names and values laid out one after the other.
pub open spec fn flatten_headers(p: Seq<(Seq<char>, Seq<char>)>) -> Seq<Seq<char>>
    decreases p.len(),
{
    if p.len() == 0 {
        Seq::empty()
    } else {
        flatten_headers(p.drop_last()) + seq![p.last().0, p.last().1]
    }
}

/// The response handed back to R: status code, header names and values
/// one after the other, and the decoded body.
pub struct RResponse<C> {
    pub status: u16,
    pub headers: Vec<String>,
    pub content: C,
}

/// Reads responses as the type it was configured with.
pub struct ResponseReader {
    response_type: ResponseType,
}

impl ResponseReader {
    /// A reader for bodies of `response_type`.
    pub fn new(response_type: ResponseType) -> (r: ResponseReader)
        ensures
            r.configured() == response_type,
    {
        ResponseReader { response_type }
    }

    /// The configured response type.
    pub closed spec fn configured(&self) -> ResponseType {
        self.response_type
    }

    /// The response type to read a response with, given its `Content-Type`
    /// header: a `DEFAULT` reader goes by the header (raw bytes without
    /// one), any other reader by its own type.
    pub fn response_type_from(&self, content_type: Option<&str>) -> (r: ResponseType)
        ensures
            r == effective_type(
                self.configured(),
                match content_type {
                    Some(s) => Some(s@),
                    None => None,
                },
            ),
    {
        match self.response_type {
            ResponseType::DEFAULT => match content_type {
                None => ResponseType::BINARY,
                Some(ct) => content_type_kind_exec(ct),
            },
            _ => self.response_type,
        }
    }

    /// Assembles the response handed back to R from the status code, the
    /// response headers in order, and the decoded body.
    pub fn build_r_response<C>(&self, status: u16, headers: Vec<(String, String)>, content: C) -> (r:
        RResponse<C>)
        ensures
            r.status == status,
            r.headers@.map_values(|s: String| s@) == flatten_headers(
                headers@.map_values(|e: (String, String)| (e.0@, e.1@)),
            ),
            r.content == content,
    {
        let ghost src = headers@.map_values(|e: (String, String)| (e.0@, e.1@));
        let mut flat: Vec<String> = Vec::new();
        assert(flat@.map_values(|s: String| s@) =~= Seq::<Seq<char>>::empty());
        assert(src.take(0) =~= Seq::<(Seq<char>, Seq<char>)>::empty());
        for e in it: headers.into_iter()
            invariant
                src == it.seq().map_values(|e: (String, String)| (e.0@, e.1@)),
                flat@.map_values(|s: String| s@) == flatten_headers(src.take(it.index() as int)),
        {
            let ghost i = it.index();
            let ghost before = flat@.map_values(|s: String| s@);
            let (name, value) = e;
            let ghost nv = (name@, value@);
            flat.push(name);
            flat.push(value);
            assert(src.take(i + 1).drop_last() =~= src.take(i as int));
            assert(src[i as int] == nv);
            assert(flat@.map_values(|s: String| s@) =~= before + seq![nv.0, nv.1]);
        }
        assert(src.take(src.len() as int) =~= src);
        RResponse { status, headers: flat, content }
    }
}


/// Each named type is chosen by exactly its own name: a name is read as the
/// binary format only when it is `application/tson`, as JSON only when it is
/// `application/json`, and is left to the response only when it is
/// `default`. A name that is none of the named types and whose bytes do not
/// begin with `text` is read as raw bytes, and one whose bytes do is read as
/// UTF-8 text.
pub proof fn law_names_choose_types(s: Seq<char>)
    ensures
        response_type_of(s) == ResponseType::TSON <==> s == "application/tson"@,
        response_type_of(s) == ResponseType::JSON <==> s == "application/json"@,
        response_type_of(s) == ResponseType::DEFAULT <==> s == "default"@,
        s == "text/html; charset=utf-8"@ ==> response_type_of(s) == ResponseType::UTF8,
        s == "text/plain; charset=utf-8"@ ==> response_type_of(s) == ResponseType::UTF8,
        s != "application/tson"@ && s != "application/json"@ && s != "default"@ ==> (
        response_type_of(s) == ResponseType::UTF8 <==> (s == "text/html; charset=utf-8"@ || s
            == "text/plain; charset=utf-8"@ || has_prefix(utf8(s), utf8("text"@)))),
        s != "application/tson"@ && s != "application/json"@ && s != "default"@ && s
            != "text/html; charset=utf-8"@ && s != "text/plain; charset=utf-8"@ && !has_prefix(
            utf8(s),
            utf8("text"@),
        ) ==> response_type_of(s) == ResponseType::BINARY,
{
    reveal_strlit("application/tson");
    reveal_strlit("application/json");
    reveal_strlit("default");
    reveal_strlit("text/html; charset=utf-8");
    reveal_strlit("text/plain; charset=utf-8");
    assert("application/tson"@ != "default"@) by {
        assert("application/tson"@[0] != "default"@[0]);
    }
    assert("application/json"@ != "default"@) by {
        assert("application/json"@[0] != "default"@[0]);
    }
    assert("application/json"@ != "application/tson"@) by {
        assert("application/json"@[12] != "application/tson"@[12]);
    }
    assert("text/html; charset=utf-8"@ != "default"@) by {
        assert("text/html; charset=utf-8"@[0] != "default"@[0]);
    }
    assert("text/plain; charset=utf-8"@ != "default"@) by {
        assert("text/plain; charset=utf-8"@[0] != "default"@[0]);
    }
    assert("text/html; charset=utf-8"@ != "application/tson"@) by {
        assert("text/html; charset=utf-8"@[0] != "application/tson"@[0]);
    }
    assert("text/html; charset=utf-8"@ != "application/json"@) by {
        assert("text/html; charset=utf-8"@[0] != "application/json"@[0]);
    }
    assert("text/plain; charset=utf-8"@ != "application/tson"@) by {
        assert("text/plain; charset=utf-8"@[0] != "application/tson"@[0]);
    }
    assert("text/plain; charset=utf-8"@ != "application/json"@) by {
        assert("text/plain; charset=utf-8"@[0] != "application/json"@[0]);
    }
}

} // verus!
