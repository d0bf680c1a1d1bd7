//! Multipart bodies: building the parts from the structure of an R list and
//! framing them as a `multipart/mixed` stream.
//!
//! The R list reaches this module already taken apart: each element of a
//! part is classified by its name with [`entry_role`], the element named
//! `headers` converted to a [`HeadersValue`] and the element named `content`
//! carried as a [`PartContent`]. Framing produces a [`WritePlan`]: the bytes
//! to send, with markers where a part's content has to be serialised.

use vstd::prelude::*;
use crate::headers::{has_key, lookup, pairs_from, pairs_of, HeaderMap};
use crate::text::str_eq;

verus! {

/// The boundary that separates the parts of every multipart body.
pub open spec fn frontier_text() -> Seq<char> {
    "ab63a1363ab349aa8627be56b0479de2"@
}

/// A value of the `headers` element after conversion.
pub enum HeaderScalar {
    Str(String),
    Other,
}

/// The `headers` element of a part after conversion.
pub enum HeadersValue {
    /// A named list: the names and values in the order they were read.
    Named(Vec<(String, HeaderScalar)>),
    /// Any value that is not a named list.
    NotMap,
    /// The conversion itself failed, with this message.
    Invalid(String),
}

/// The bytes of a part's content, read only when it is sent as
/// `application/octet-stream`.
pub enum RawContent {
    /// The content is a raw vector with these bytes.
    Bytes(Vec<u8>),
    /// The content is not a raw vector.
    NotRaw,
    /// The content is a raw vector that could not be read; the message.
    Unreadable(String),
}

/// The `content` element of a part: the value itself, and its bytes when it
/// is a raw vector.
pub struct PartContent<C> {
    pub object: C,
    pub raw: RawContent,
}

/// How an element of a part is used, by its name.
#[derive(Clone, Copy, Debug, PartialEq, Eq, Structural)]
pub enum EntryRole {
    Headers,
    Content,
    Ignored,
}

/// An element of a part, classified by [`entry_role`].
pub enum PartEntry<C> {
    Headers(HeadersValue),
    Content(PartContent<C>),
    Ignored,
    /// The element could not be read; the message.
    Unreadable(String),
}

/// A part as received: a list of elements, or a value of another R type
/// (given by its type code).
pub enum PartObject<C> {
    List(Vec<PartEntry<C>>),
    Other(u32),
    /// The list could not be read; the message.
    Unreadable(String),
}

/// A multipart body as received: a list of parts, or a value of another type.
pub enum BodyObject<C> {
    List(Vec<PartObject<C>>),
    Other,
}

/// Why a multipart body cannot be built or framed.
#[derive(Debug)]
pub enum MultiPartError {
    /// A value in `headers` is not a string.
    HeaderValueNotString,
    /// `headers` has no `content-type`.
    MissingContentType,
    /// `headers` is not a named list.
    HeadersNotMap,
    /// A part has no `headers`.
    MissingHeaders,
    /// A part has no `content`.
    MissingContent,
    /// A part is not a list; the R type code of what it is.
    BadObjectType(u32),
    /// Converting `headers` failed with this message.
    Conversion(String),
    /// The body is not a list.
    BodyNotList,
    /// `application/octet-stream` content that is not a raw vector.
    RawContentRequired,
    /// A content type that cannot be written.
    UnknownContentType,
}

/// The role of an element named `name`.
pub open spec fn role_of(name: Seq<char>) -> EntryRole {
    if name == "headers"@ {
        EntryRole::Headers
    } else if name == "content"@ {
        EntryRole::Content
    } else {
        EntryRole::Ignored
    }
}

/// The role of an element of a part, by its name.
pub fn entry_role(name: &str) -> (r: EntryRole)
    ensures
        r == role_of(name@),
{
    if str_eq(name, "headers") {
        EntryRole::Headers
    } else if str_eq(name, "content") {
        EntryRole::Content
    } else {
        EntryRole::Ignored
    }
}

/// All values of a converted `headers` list are strings.
pub open spec fn all_strings(v: Seq<(String, HeaderScalar)>) -> bool {
    forall|i: int| 0 <= i < v.len() ==> #[trigger] v[i].1 is Str
}

/// The names and string values of a converted `headers` list.
pub open spec fn string_pairs(v: Seq<(String, HeaderScalar)>) -> Seq<(Seq<char>, Seq<char>)> {
    v.map_values(
        |e: (String, HeaderScalar)|
            (
                e.0@,
                match e.1 {
                    HeaderScalar::Str(s) => s@,
                    HeaderScalar::Other => Seq::<char>::empty(),
                },
            ),
    )
}

/// The header pairs a `headers` element gives, or why it is rejected.
pub open spec fn headers_spec(v: HeadersValue) -> Result<Seq<(Seq<char>, Seq<char>)>, MultiPartError> {
    match v {
        HeadersValue::Invalid(m) => Err(MultiPartError::Conversion(m)),
        HeadersValue::NotMap => Err(MultiPartError::HeadersNotMap),
        HeadersValue::Named(pairs) => if !all_strings(pairs@) {
            Err(MultiPartError::HeaderValueNotString)
        } else if !has_key(pairs_from(string_pairs(pairs@)), "content-type"@) {
            Err(MultiPartError::MissingContentType)
        } else {
            Ok(pairs_from(string_pairs(pairs@)))
        },
    }
}

/// The headers and content found in the elements `s`, the later of two
/// elements of the same role winning, or the first rejected `headers`.
pub open spec fn scan_spec<C>(s: Seq<PartEntry<C>>) -> Result<
    (Option<Seq<(Seq<char>, Seq<char>)>>, Option<PartContent<C>>),
    MultiPartError,
>
    decreases s.len(),
{
    if s.len() == 0 {
        Ok((None, None))
    } else {
        match scan_spec(s.drop_last()) {
            Err(e) => Err(e),
            Ok((h, c)) => match s.last() {
                PartEntry::Headers(v) => match headers_spec(v) {
                    Err(e) => Err(e),
                    Ok(p) => Ok((Some(p), c)),
                },
                PartEntry::Content(x) => Ok((h, Some(x))),
                PartEntry::Ignored => Ok((h, c)),
                PartEntry::Unreadable(m) => Err(MultiPartError::Conversion(m)),
            },
        }
    }
}

/// The headers and content of the part built from `o`, or why it is rejected.
pub open spec fn part_spec<C>(o: PartObject<C>) -> Result<
    (Seq<(Seq<char>, Seq<char>)>, PartContent<C>),
    MultiPartError,
> {
    match o {
        PartObject::Other(t) => Err(MultiPartError::BadObjectType(t)),
        PartObject::Unreadable(m) => Err(MultiPartError::Conversion(m)),
        PartObject::List(entries) => match scan_spec(entries@) {
            Err(e) => Err(e),
            Ok((None, _)) => Err(MultiPartError::MissingHeaders),
            Ok((Some(_), None)) => Err(MultiPartError::MissingContent),
            Ok((Some(h), Some(c))) => Ok((h, c)),
        },
    }
}

/// The parts built from `s` in order, or the error of the first part
/// that is rejected.
pub open spec fn parts_spec<C>(s: Seq<PartObject<C>>) -> Result<
    Seq<(Seq<(Seq<char>, Seq<char>)>, PartContent<C>)>,
    MultiPartError,
>
    decreases s.len(),
{
    if s.len() == 0 {
        Ok(Seq::empty())
    } else {
        match parts_spec(s.drop_last()) {
            Err(e) => Err(e),
            Ok(ps) => match part_spec(s.last()) {
                Err(e) => Err(e),
                Ok(p) => Ok(ps.push(p)),
            },
        }
    }
}

/// Once the elements of a prefix are rejected, so are all the elements.
pub proof fn lemma_scan_error_persists<C>(s: Seq<PartEntry<C>>, k: int)
    requires
        0 <= k <= s.len(),
        scan_spec(s.take(k)) is Err,
    ensures
        scan_spec(s) == scan_spec(s.take(k)),
    decreases s.len() - k,
{
    if k == s.len() {
        assert(s.take(k) =~= s);
    } else {
        assert(s.take(k + 1).drop_last() =~= s.take(k));
        lemma_scan_error_persists(s, k + 1);
    }
}

/// Once a part of a prefix is rejected, the whole list is rejected the
/// same way.
pub proof fn lemma_parts_error_persists<C>(s: Seq<PartObject<C>>, k: int)
    requires
        0 <= k <= s.len(),
        parts_spec(s.take(k)) is Err,
    ensures
        parts_spec(s) == parts_spec(s.take(k)),
    decreases s.len() - k,
{
    if k == s.len() {
        assert(s.take(k) =~= s);
    } else {
        assert(s.take(k + 1).drop_last() =~= s.take(k));
        lemma_parts_error_persists(s, k + 1);
    }
}

/// The header pairs of a `headers` element, or why it is rejected.
pub fn headers_from_value(v: HeadersValue) -> (r: Result<HeaderMap, MultiPartError>)
    ensures
        match r {
            Ok(m) => headers_spec(v) == Ok::<_, MultiPartError>(m@),
            Err(e) => headers_spec(v) == Err::<Seq<(Seq<char>, Seq<char>)>, _>(e),
        },
{
    match v {
        HeadersValue::Invalid(m) => Err(MultiPartError::Conversion(m)),
        HeadersValue::NotMap => Err(MultiPartError::HeadersNotMap),
        HeadersValue::Named(pairs) => {
            let ghost src = pairs@;
            let mut plain: Vec<(String, String)> = Vec::new();
            #[verifier::loop_isolation(false)]
            for e in it: pairs.into_iter()
                invariant
                    src == it.seq(),
                    plain@.len() == it.index(),
                    all_strings(src.take(it.index() as int)),
                    pairs_of(plain@) == string_pairs(src.take(it.index() as int)),
            {
                let ghost i = it.index();
                assert(src[i as int] == e);
                let ghost before = plain@;
                let (k, value) = e;
                match value {
                    HeaderScalar::Str(s) => {
                        plain.push((k, s));
                        assert(src.take(i + 1) =~= src.take(i as int).push(src[i as int]));
                        assert(pairs_of(plain@) =~= pairs_of(before).push((k@, s@)));
                        assert(string_pairs(src.take(i + 1)) =~= string_pairs(src.take(i as int)).push((k@, s@)));
                        assert(all_strings(src.take(i + 1))) by {
                            assert forall|j: int| 0 <= j < i + 1 implies #[trigger] src.take(i + 1)[j].1 is Str by {
                                if j < i {
                                    assert(src.take(i as int)[j] == src.take(i + 1)[j]);
                                }
                            }
                        }
                    },
                    HeaderScalar::Other => {
                        assert(!(src[i as int].1 is Str));
                        assert(!all_strings(src));
                        return Err(MultiPartError::HeaderValueNotString);
                    },
                }
            }
            assert(src.take(src.len() as int) =~= src);
            let m = HeaderMap::from_pairs(plain);
            if !m.contains_key("content-type") {
                return Err(MultiPartError::MissingContentType);
            }
            Ok(m)
        },
    }
}

/// One part of a multipart body: its headers, which name a content type,
/// and its content.
pub struct Part<C> {
    headers: HeaderMap,
    content: PartContent<C>,
}

impl<C> Part<C> {
    /// The header pairs.
    pub closed spec fn headers_view(&self) -> Seq<(Seq<char>, Seq<char>)> {
        self.headers@
    }

    /// The content.
    pub closed spec fn content_spec(&self) -> PartContent<C> {
        self.content
    }

    /// The headers.
    pub fn headers(&self) -> (r: &HeaderMap)
        ensures
            r@ == self.headers_view(),
    {
        &self.headers
    }

    /// The content.
    pub fn content(&self) -> (r: &PartContent<C>)
        ensures
            *r == self.content_spec(),
    {
        &self.content
    }

    /// Builds a part from the elements of an R list: the `headers` element,
    /// a named list of strings with a `content-type`, and the `content`
    /// element are required.
    pub fn from_object(object: PartObject<C>) -> (r: Result<Part<C>, MultiPartError>)
        ensures
            match r {
                Ok(p) => part_spec(object) == Ok::<_, MultiPartError>(
                    (p.headers_view(), p.content_spec()),
                ),
                Err(e) => part_spec(object) == Err::<
                    (Seq<(Seq<char>, Seq<char>)>, PartContent<C>),
                    _,
                >(e),
            },
    {
        match object {
            PartObject::Other(t) => Err(MultiPartError::BadObjectType(t)),
            PartObject::Unreadable(m) => Err(MultiPartError::Conversion(m)),
            PartObject::List(entries) => {
                let ghost src = entries@;
                let mut headers: Option<HeaderMap> = None;
                let mut content: Option<PartContent<C>> = None;
                assert(src.take(0) =~= Seq::<PartEntry<C>>::empty());
                #[verifier::loop_isolation(false)]
                for e in it: entries.into_iter()
                    invariant
                        src == it.seq(),
                        scan_spec(src.take(it.index() as int)) matches Ok((h, c)) && c == content
                            && match headers {
                            Some(m) => h == Some(m@),
                            None => h is None,
                        },
                {
                    let ghost i = it.index();
                    assert(src[i as int] == e);
                    assert(src.take(i + 1).drop_last() =~= src.take(i as int));
                    assert(src.take(i + 1).last() == e);
                    match e {
                        PartEntry::Headers(v) => {
                            match headers_from_value(v) {
                                Ok(m) => {
                                    headers = Some(m);
                                },
                                Err(err) => {
                                    proof {
                                        lemma_scan_error_persists(src, i + 1);
                                    }
                                    return Err(err);
                                },
                            }
                        },
                        PartEntry::Content(c) => {
                            content = Some(c);
                        },
                        PartEntry::Ignored => {},
                        PartEntry::Unreadable(m) => {
                            proof {
                                lemma_scan_error_persists(src, i + 1);
                            }
                            return Err(MultiPartError::Conversion(m));
                        },
                    }
                }
                assert(src.take(src.len() as int) =~= src);
                match headers {
                    None => Err(MultiPartError::MissingHeaders),
                    Some(h) => match content {
                        None => Err(MultiPartError::MissingContent),
                        Some(c) => Ok(Part { headers: h, content: c }),
                    },
                }
            },
        }
    }
}

/// A multipart body: the parts, sent between boundary lines.
pub struct MultiPart<C> {
    frontier: String,
    parts: Vec<Part<C>>,
}

impl<C> MultiPart<C> {
    /// The boundary between parts.
    pub closed spec fn frontier_spec(&self) -> Seq<char> {
        self.frontier@
    }

    /// The boundary between parts.
    pub fn frontier(&self) -> (r: &String)
        ensures
            r@ == self.frontier_spec(),
    {
        &self.frontier
    }

    /// The parts, in order.
    pub closed spec fn parts_spec(&self) -> Seq<Part<C>> {
        self.parts@
    }

    /// The parts, in order.
    pub fn parts(&self) -> (r: &Vec<Part<C>>)
        ensures
            r@ == self.parts_spec(),
    {
        &self.parts
    }

    /// Builds a multipart body from an R list of parts, with the fixed
    /// boundary [`frontier_text`]. The first part that is rejected decides the
    /// error.
    pub fn from_r(object: BodyObject<C>) -> (r: Result<MultiPart<C>, MultiPartError>)
        ensures
            match object {
                BodyObject::Other => r matches Err(MultiPartError::BodyNotList),
                BodyObject::List(objs) => match r {
                    Ok(mp) => {
                        &&& mp.frontier_spec() == frontier_text()
                        &&& parts_spec(objs@) == Ok::<_, MultiPartError>(
                            mp.parts_spec().map_values(
                                |p: Part<C>| (p.headers_view(), p.content_spec()),
                            ),
                        )
                    },
                    Err(e) => parts_spec(objs@) == Err::<
                        Seq<(Seq<(Seq<char>, Seq<char>)>, PartContent<C>)>,
                        _,
                    >(e),
                },
            },
    {
        match object {
            BodyObject::Other => Err(MultiPartError::BodyNotList),
            BodyObject::List(objs) => {
                let ghost src = objs@;
                let mut parts: Vec<Part<C>> = Vec::new();
                assert(parts@.map_values(|p: Part<C>| (p.headers_view(), p.content_spec())) =~= Seq::<
                    (Seq<(Seq<char>, Seq<char>)>, PartContent<C>),
                >::empty());
                assert(src.take(0) =~= Seq::<PartObject<C>>::empty());
                #[verifier::loop_isolation(false)]
                for o in it: objs.into_iter()
                    invariant
                        src == it.seq(),
                        parts_spec(src.take(it.index() as int)) == Ok::<_, MultiPartError>(
                            parts@.map_values(|p: Part<C>| (p.headers_view(), p.content_spec())),
                        ),
                {
                    let ghost i = it.index();
                    let ghost before = parts@;
                    assert(src[i as int] == o);
                    assert(src.take(i + 1).drop_last() =~= src.take(i as int));
                    assert(src.take(i + 1).last() == o);
                    match Part::from_object(o) {
                        Ok(p) => {
                            parts.push(p);
                            assert(parts@.map_values(
                                |p: Part<C>| (p.headers_view(), p.content_spec()),
                            ) =~= before.map_values(
                                |p: Part<C>| (p.headers_view(), p.content_spec()),
                            ).push((p.headers_view(), p.content_spec())));
                        },
                        Err(e) => {
                            proof {
                                lemma_parts_error_persists(src, i + 1);
                            }
                            return Err(e);
                        },
                    }
                }
                assert(src.take(src.len() as int) =~= src);
                Ok(MultiPart { frontier: "ab63a1363ab349aa8627be56b0479de2".to_owned(), parts })
            },
        }
    }
}


/// A piece of a framed multipart body.
pub enum BodySegment {
    /// Bytes sent as they are.
    Bytes(Vec<u8>),
    /// The content of the part at this index, serialised in the binary format.
    Tson(usize),
    /// The content of the part at this index, encoded as JSON.
    Json(usize),
}

/// Abstract value of a [`BodySegment`].
pub enum SegmentView {
    Bytes(Seq<u8>),
    Tson(nat),
    Json(nat),
}

impl View for BodySegment {
    type V = SegmentView;

    open spec fn view(&self) -> SegmentView {
        match self {
            BodySegment::Bytes(b) => SegmentView::Bytes(b@),
            BodySegment::Tson(i) => SegmentView::Tson(*i as nat),
            BodySegment::Json(i) => SegmentView::Json(*i as nat),
        }
    }
}

/// What writing a multipart body does: the segments written in order, and
/// the error that stopped the writing, if one did.
pub struct WritePlan {
    pub segments: Vec<BodySegment>,
    pub error: Option<MultiPartError>,
}

/// The views of a list of segments.
pub open spec fn segment_views(s: Seq<BodySegment>) -> Seq<SegmentView> {
    s.map_values(|x: BodySegment| x@)
}

/// Carriage return and line feed.
pub open spec fn crlf() -> Seq<u8> {
    seq![13u8, 10u8]
}

/// Two hyphens.
pub open spec fn dashes() -> Seq<u8> {
    seq![45u8, 45u8]
}

/// The UTF-8 bytes of a string.
pub open spec fn utf8(s: Seq<char>) -> Seq<u8> {
    vstd::utf8::encode_utf8(s)
}

/// The line that opens a part: `--`, the boundary, CRLF.
pub open spec fn frontier_line(f: Seq<char>) -> Seq<u8> {
    dashes() + utf8(f) + crlf()
}

/// The line that closes the body: `--`, the boundary, `--`, CRLF.
pub open spec fn end_line(f: Seq<char>) -> Seq<u8> {
    dashes() + utf8(f) + dashes() + crlf()
}

/// One header line: name, `: `, value, CRLF.
pub open spec fn header_line(k: Seq<char>, v: Seq<char>) -> Seq<u8> {
    utf8(k) + seq![58u8, 32u8] + utf8(v) + crlf()
}

/// The header lines of `p`, in order.
pub open spec fn header_lines(p: Seq<(Seq<char>, Seq<char>)>) -> Seq<u8>
    decreases p.len(),
{
    if p.len() == 0 {
        Seq::empty()
    } else {
        header_lines(p.drop_last()) + header_line(p.last().0, p.last().1)
    }
}

/// The header block of a part: its header lines and an empty line.
pub open spec fn header_block(p: Seq<(Seq<char>, Seq<char>)>) -> Seq<u8> {
    header_lines(p) + crlf()
}

/// How the content of part `i` is written, chosen by its `content-type`.
pub open spec fn content_plan<C>(
    i: nat,
    p: Seq<(Seq<char>, Seq<char>)>,
    c: PartContent<C>,
) -> Result<SegmentView, MultiPartError> {
    match lookup(p, "content-type"@) {
        None => Err(MultiPartError::MissingContentType),
        Some(t) => if t == "application/octet-stream"@ {
            match c.raw {
                RawContent::Bytes(r) => Ok(SegmentView::Bytes(r@)),
                RawContent::NotRaw => Err(MultiPartError::RawContentRequired),
                RawContent::Unreadable(m) => Err(MultiPartError::Conversion(m)),
            }
        } else if t == "application/tson"@ {
            Ok(SegmentView::Tson(i))
        } else if t == "application/json"@ {
            Ok(SegmentView::Json(i))
        } else {
            Err(MultiPartError::UnknownContentType)
        },
    }
}

/// Writing part `i`: its opening line, its header block, then its content
/// and CRLF; the writing stops after the header block when the content
/// cannot be written.
pub open spec fn part_plan<C>(f: Seq<char>, i: nat, part: Part<C>) -> (
    Seq<SegmentView>,
    Option<MultiPartError>,
) {
    let head = seq![
        SegmentView::Bytes(frontier_line(f)),
        SegmentView::Bytes(header_block(part.headers_view())),
    ];
    match content_plan(i, part.headers_view(), part.content_spec()) {
        Ok(seg) => (head + seq![seg, SegmentView::Bytes(crlf())], None),
        Err(e) => (head, Some(e)),
    }
}

/// Writing the first `n` parts, stopping at the first that fails.
pub open spec fn plan_upto<C>(f: Seq<char>, parts: Seq<Part<C>>, n: nat) -> (
    Seq<SegmentView>,
    Option<MultiPartError>,
)
    decreases n,
{
    if n == 0 {
        (Seq::empty(), None)
    } else {
        let (s, e) = plan_upto(f, parts, (n - 1) as nat);
        if e is Some {
            (s, e)
        } else {
            let (s2, e2) = part_plan(f, (n - 1) as nat, parts[n - 1]);
            (s + s2, e2)
        }
    }
}

/// Writing a whole multipart body: every part, then the closing line.
pub open spec fn plan_spec<C>(f: Seq<char>, parts: Seq<Part<C>>) -> (
    Seq<SegmentView>,
    Option<MultiPartError>,
) {
    let (s, e) = plan_upto(f, parts, parts.len());
    if e is Some {
        (s, e)
    } else {
        (s.push(SegmentView::Bytes(end_line(f))), None)
    }
}

/// Once a part fails, writing more parts changes nothing.
pub proof fn lemma_plan_stops<C>(f: Seq<char>, parts: Seq<Part<C>>, k: nat, n: nat)
    requires
        k <= n,
        plan_upto(f, parts, k).1 is Some,
    ensures
        plan_upto(f, parts, n) == plan_upto(f, parts, k),
    decreases n - k,
{
    if k < n {
        lemma_plan_stops(f, parts, k, (n - 1) as nat);
    }
}

/// Appends the UTF-8 bytes of `s` to `out`.
fn push_str_bytes(out: &mut Vec<u8>, s: &str)
    ensures
        final(out)@ == old(out)@ + utf8(s@),
{
    let ghost old_out = out@;
    out.extend_from_slice(s.as_bytes());
    assert(out@ =~= old_out + utf8(s@));
}

/// Appends CRLF to `out`.
fn push_crlf(out: &mut Vec<u8>)
    ensures
        final(out)@ == old(out)@ + crlf(),
{
    let ghost old_out = out@;
    out.push(13u8);
    out.push(10u8);
    assert(out@ =~= old_out + crlf());
}

/// Appends two hyphens to `out`.
fn push_dashes(out: &mut Vec<u8>)
    ensures
        final(out)@ == old(out)@ + dashes(),
{
    let ghost old_out = out@;
    out.push(45u8);
    out.push(45u8);
    assert(out@ =~= old_out + dashes());
}

impl<C> Part<C> {
    /// The header block: a `name: value` line per header, then an empty line.
    pub fn header_bytes(&self) -> (r: Vec<u8>)
        ensures
            r@ == header_block(self.headers_view()),
    {
        let entries = self.headers.entries();
        let ghost p = self.headers_view();
        let mut out: Vec<u8> = Vec::new();
        let mut i: usize = 0;
        assert(p.take(0) =~= Seq::<(Seq<char>, Seq<char>)>::empty());
        while i < entries.len()
            invariant
                pairs_of(entries@) == p,
                i <= p.len(),
                out@ == header_lines(p.take(i as int)),
            decreases p.len() - i,
        {
            let ghost before = out@;
            push_str_bytes(&mut out, entries[i].0.as_str());
            out.push(58u8);
            out.push(32u8);
            push_str_bytes(&mut out, entries[i].1.as_str());
            push_crlf(&mut out);
            assert(p.take(i + 1).drop_last() =~= p.take(i as int));
            assert(p[i as int] == (entries@[i as int].0@, entries@[i as int].1@));
            assert(out@ =~= before + header_line(p[i as int].0, p[i as int].1));
            i = i + 1;
        }
        assert(p.take(p.len() as int) =~= p);
        push_crlf(&mut out);
        out
    }

    /// How the content of this part, at position `index` in its body, is
    /// written, chosen by the `content-type` header.
    pub fn content_segment(&self, index: usize) -> (r: Result<BodySegment, MultiPartError>)
        ensures
            match r {
                Ok(seg) => content_plan(index as nat, self.headers_view(), self.content_spec())
                    == Ok::<_, MultiPartError>(seg@),
                Err(e) => content_plan(index as nat, self.headers_view(), self.content_spec())
                    == Err::<SegmentView, _>(e),
            },
    {
        match self.headers.get("content-type") {
            None => Err(MultiPartError::MissingContentType),
            Some(t) => {
                if str_eq(t.as_str(), "application/octet-stream") {
                    match &self.content.raw {
                        RawContent::Bytes(raw) => {
                            let mut bytes: Vec<u8> = Vec::new();
                            bytes.extend_from_slice(raw.as_slice());
                            assert(bytes@ =~= raw@);
                            Ok(BodySegment::Bytes(bytes))
                        },
                        RawContent::NotRaw => Err(MultiPartError::RawContentRequired),
                        RawContent::Unreadable(m) => Err(MultiPartError::Conversion(m.clone())),
                    }
                } else if str_eq(t.as_str(), "application/tson") {
                    Ok(BodySegment::Tson(index))
                } else if str_eq(t.as_str(), "application/json") {
                    Ok(BodySegment::Json(index))
                } else {
                    Err(MultiPartError::UnknownContentType)
                }
            },
        }
    }
}

impl<C> MultiPart<C> {
    /// The line that opens each part.
    pub fn frontier_bytes(&self) -> (r: Vec<u8>)
        ensures
            r@ == frontier_line(self.frontier_spec()),
    {
        let mut out: Vec<u8> = Vec::new();
        push_dashes(&mut out);
        push_str_bytes(&mut out, self.frontier.as_str());
        push_crlf(&mut out);
        out
    }

    /// The line that closes the body.
    pub fn end_bytes(&self) -> (r: Vec<u8>)
        ensures
            r@ == end_line(self.frontier_spec()),
    {
        let mut out: Vec<u8> = Vec::new();
        push_dashes(&mut out);
        push_str_bytes(&mut out, self.frontier.as_str());
        push_dashes(&mut out);
        push_crlf(&mut out);
        out
    }

    /// Frames the body: for each part its opening line, header block,
    /// content and CRLF, then the closing line. A part whose content cannot
    /// be written stops the framing after its header block.
    pub fn write_multipart(&self) -> (r: WritePlan)
        ensures
            (segment_views(r.segments@), r.error) == plan_spec(
                self.frontier_spec(),
                self.parts_spec(),
            ),
    {
        let ghost f = self.frontier_spec();
        let ghost parts = self.parts_spec();
        let mut segments: Vec<BodySegment> = Vec::new();
        let mut i: usize = 0;
        assert(segment_views(segments@) =~= Seq::<SegmentView>::empty());
        while i < self.parts.len()
            invariant
                self.parts@ == parts,
                f == self.frontier_spec(),
                i <= parts.len(),
                plan_upto(f, parts, i as nat) == (segment_views(segments@), None::<MultiPartError>),
            decreases parts.len() - i,
        {
            let part = &self.parts[i];
            let ghost before = segment_views(segments@);
            segments.push(BodySegment::Bytes(self.frontier_bytes()));
            segments.push(BodySegment::Bytes(part.header_bytes()));
            let ghost head = seq![
                SegmentView::Bytes(frontier_line(f)),
                SegmentView::Bytes(header_block(part.headers_view())),
            ];
            assert(segment_views(segments@) =~= before + head);
            match part.content_segment(i) {
                Ok(seg) => {
                    let ghost sv = seg@;
                    segments.push(seg);
                    let mut tail: Vec<u8> = Vec::new();
                    push_crlf(&mut tail);
                    segments.push(BodySegment::Bytes(tail));
                    assert(segment_views(segments@) =~= before + (head + seq![
                        sv,
                        SegmentView::Bytes(crlf()),
                    ]));
                },
                Err(e) => {
                    let ghost err = Some(e);
                    proof {
                        assert(plan_upto(f, parts, (i + 1) as nat) == (
                            segment_views(segments@),
                            err,
                        ));
                        lemma_plan_stops(f, parts, (i + 1) as nat, parts.len());
                    }
                    return WritePlan { segments, error: Some(e) };
                },
            }
            i = i + 1;
        }
        let end = self.end_bytes();
        let ghost before = segment_views(segments@);
        segments.push(BodySegment::Bytes(end));
        assert(segment_views(segments@) =~= before.push(SegmentView::Bytes(end_line(f))));
        WritePlan { segments, error: None }
    }
}


/// Every header list a scan keeps names a content type.
proof fn lemma_scan_keeps_content_type<C>(s: Seq<PartEntry<C>>)
    ensures
        scan_spec(s) matches Ok((Some(h), _)) ==> has_key(h, "content-type"@),
    decreases s.len(),
{
    if s.len() > 0 {
        lemma_scan_keeps_content_type(s.drop_last());
    }
}

/// A part that is accepted always names its content type, so framing it
/// never fails for want of one.
pub proof fn law_accepted_part_has_content_type<C>(o: PartObject<C>, i: nat)
    ensures
        part_spec(o) matches Ok((h, c)) ==> {
            &&& lookup(h, "content-type"@) is Some
            &&& !(content_plan(i, h, c) matches Err(MultiPartError::MissingContentType))
        },
{
    if let PartObject::List(entries) = o {
        lemma_scan_keeps_content_type(entries@);
    }
}


/// The elements of a part are matched by role, whatever their order:
/// - the scan succeeds exactly when no element is unreadable and every
///   `headers` element is accepted;
/// - the content kept is that of the last `content` element, wherever it
///   stands relative to the `headers` elements, and there is none only when
///   no element is a `content` element;
/// - the headers kept are those of the last `headers` element.
pub proof fn law_part_elements_in_any_order<C>(s: Seq<PartEntry<C>>)
    ensures
        scan_spec(s) is Ok <==> (forall|i: int|
            0 <= i < s.len() ==> !(#[trigger] s[i] is Unreadable) && (s[i] matches PartEntry::Headers(
                v,
            ) ==> headers_spec(v) is Ok)),
        scan_spec(s) matches Ok((h, c)) ==> {
            &&& (c is None <==> (forall|i: int| 0 <= i < s.len() ==> !(#[trigger] s[i] is Content)))
            &&& (forall|i: int|
                0 <= i < s.len() && #[trigger] s[i] is Content && (forall|j: int|
                    i < j < s.len() ==> !(#[trigger] s[j] is Content)) ==> c == Some(
                    s[i]->Content_0,
                ))
            &&& (h is None <==> (forall|i: int| 0 <= i < s.len() ==> !(#[trigger] s[i] is Headers)))
            &&& (forall|i: int|
                0 <= i < s.len() && #[trigger] s[i] is Headers && (forall|j: int|
                    i < j < s.len() ==> !(#[trigger] s[j] is Headers)) ==> h == Some(
                    headers_spec(s[i]->Headers_0).unwrap(),
                ))
        },
    decreases s.len(),
{
    if s.len() > 0 {
        let p = s.drop_last();
        let n = s.len() - 1;
        law_part_elements_in_any_order(p);
        assert forall|i: int| 0 <= i < n implies #[trigger] s[i] == p[i] by {}
        if scan_spec(s) is Ok {
            let (h, c) = scan_spec(s).unwrap();
            let (hp, cp) = scan_spec(p).unwrap();
            assert forall|i: int|
                0 <= i < s.len() && #[trigger] s[i] is Content && (forall|j: int|
                    i < j < s.len() ==> !(#[trigger] s[j] is Content)) implies c == Some(
                s[i]->Content_0,
            ) by {
                if i < n {
                    assert(!(s[n] is Content));
                    assert(p[i] is Content);
                    assert forall|j: int| i < j < p.len() implies !(#[trigger] p[j] is Content) by {
                        assert(s[j] == p[j]);
                    }
                }
            }
            assert forall|i: int|
                0 <= i < s.len() && #[trigger] s[i] is Headers && (forall|j: int|
                    i < j < s.len() ==> !(#[trigger] s[j] is Headers)) implies h == Some(
                headers_spec(s[i]->Headers_0).unwrap(),
            ) by {
                if i < n {
                    assert(!(s[n] is Headers));
                    assert(p[i] is Headers);
                    assert forall|j: int| i < j < p.len() implies !(#[trigger] p[j] is Headers) by {
                        assert(s[j] == p[j]);
                    }
                }
            }
            if c is None {
                assert forall|i: int| 0 <= i < s.len() implies !(#[trigger] s[i] is Content) by {
                    if i < n {
                        assert(!(p[i] is Content));
                    }
                }
            }
            if h is None {
                assert forall|i: int| 0 <= i < s.len() implies !(#[trigger] s[i] is Headers) by {
                    if i < n {
                        assert(!(p[i] is Headers));
                    }
                }
            }
            if forall|i: int| 0 <= i < s.len() ==> !(#[trigger] s[i] is Content) {
                assert(!(s[n] is Content));
                assert forall|i: int| 0 <= i < p.len() implies !(#[trigger] p[i] is Content) by {
                    assert(!(s[i] is Content));
                }
            }
            if forall|i: int| 0 <= i < s.len() ==> !(#[trigger] s[i] is Headers) {
                assert(!(s[n] is Headers));
                assert forall|i: int| 0 <= i < p.len() implies !(#[trigger] p[i] is Headers) by {
                    assert(!(s[i] is Headers));
                }
            }
        }
        if forall|i: int|
            0 <= i < s.len() ==> !(#[trigger] s[i] is Unreadable) && (s[i] matches PartEntry::Headers(
                v,
            ) ==> headers_spec(v) is Ok) {
            assert forall|i: int|
                0 <= i < p.len() implies !(#[trigger] p[i] is Unreadable) && (p[i] matches PartEntry::Headers(
                v,
            ) ==> headers_spec(v) is Ok) by {
                assert(s[i] == p[i]);
            }
            assert(!(s[n] is Unreadable));
        }
        if scan_spec(p) is Err {
            let k = choose|i: int|
                0 <= i < p.len() && !(!(#[trigger] p[i] is Unreadable) && (p[i] matches PartEntry::Headers(
                    v,
                ) ==> headers_spec(v) is Ok));
            assert(s[k] == p[k]);
        }
    }
}

} // verus!
