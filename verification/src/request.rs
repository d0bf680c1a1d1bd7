//! Preparing a request: the URL with its query, the headers, how the body is
//! encoded, the host and port to connect to, and the proxy named by the
//! environment.

use vstd::prelude::*;
use vstd::string::StringSliceAdditionalSpecFns;
use crate::headers::{pairs_insert, HeaderMap};
use crate::multipart::utf8;
use crate::text::str_eq;

verus! {

/// Declares `url::Url` to Verus as an opaque type, so that a parsed URL can
/// be held and passed on; what is known of one is its serialisation.
#[verifier::external_type_specification]
#[verifier::external_body]
pub struct ExUrl(url::Url);

/// The serialisation of a parsed URL: what `url::Url::as_str` returns.
pub uninterp spec fn url_serialization(u: url::Url) -> Seq<char>;

/// What `url::Url::parse` gives for `input`: the serialisation of the
/// parsed URL, or the message of the parse error.
pub uninterp spec fn url_parse_result(input: Seq<char>) -> Result<Seq<char>, Seq<char>>;

/// The serialisation of the URL serialised as `url` after
/// `query_pairs_mut().append_pair(name, value)`.
pub uninterp spec fn url_with_pair(url: Seq<char>, name: Seq<char>, value: Seq<char>) -> Seq<char>;

/// What `url::Url::host_str` gives for `u`. The host is a field of a
/// parsed URL, not a function of its serialisation.
pub uninterp spec fn url_host(u: url::Url) -> Option<Seq<char>>;

/// What `url::Url::port_or_known_default` gives for `u`. The port is a
/// field of a parsed URL, not a function of its serialisation.
pub uninterp spec fn url_port(u: url::Url) -> Option<u16>;

/// The characters of `s` before its first `:` (all of them without one).
pub open spec fn before_first_colon(s: Seq<char>) -> Seq<char>
    decreases s.len(),
{
    if s.len() == 0 || s[0] == ':' {
        Seq::empty()
    } else {
        seq![s[0]] + before_first_colon(s.drop_first())
    }
}

/// Calls `url::Url::parse`. Claims that the parsed URL's serialisation, or
/// the error's message, is what [`url_parse_result`] names for the input.
#[verifier::external_body]
fn parse_url(input: &str) -> (r: Result<url::Url, String>)
    ensures
        match r {
            Ok(u) => url_parse_result(input@) == Ok::<Seq<char>, Seq<char>>(url_serialization(u)),
            Err(m) => url_parse_result(input@) == Err::<Seq<char>, Seq<char>>(m@),
        },
{
    match url::Url::parse(input) {
        Ok(u) => Ok(u),
        Err(e) => Err(e.to_string()),
    }
}

/// Calls `url::Url::as_str`. Claims that the result is the URL's
/// serialisation.
#[verifier::external_body]
fn url_as_str(u: &url::Url) -> (r: &str)
    ensures
        r@ == url_serialization(*u),
{
    u.as_str()
}

/// Calls `query_pairs_mut().append_pair(name, value)` on `u`. Claims that
/// the new serialisation is what [`url_with_pair`] names. The call panics
/// when an index into the serialisation stops fitting in a `u32`; each byte
/// of `name` and `value` becomes at most three bytes, and at most three
/// separators are added, so the `requires` keeps it within bounds.
#[verifier::external_body]
fn append_query_pair(u: &mut url::Url, name: &str, value: &str)
    requires
        utf8(url_serialization(*old(u))).len() + 3 * (name.spec_bytes().len()
            + value.spec_bytes().len()) + 3 <= u32::MAX,
    ensures
        url_serialization(*final(u)) == url_with_pair(url_serialization(*old(u)), name@, value@),
{
    u.query_pairs_mut().append_pair(name, value);
}

/// Calls `url::Url::host_str`. Claims that the result is what [`url_host`]
/// names for the URL.
#[verifier::external_body]
fn url_host_str(u: &url::Url) -> (r: Option<&str>)
    ensures
        match r {
            Some(h) => url_host(*u) == Some(h@),
            None => url_host(*u) is None,
        },
{
    u.host_str()
}

/// Calls `url::Url::port_or_known_default`. Claims that the result is what
/// [`url_port`] names for the URL.
#[verifier::external_body]
fn url_port_or_known_default(u: &url::Url) -> (r: Option<u16>)
    ensures
        r == url_port(*u),
{
    u.port_or_known_default()
}

/// Calls `url::Url::scheme`. Claims that the result is the part of the
/// serialisation before its first `:`: a serialisation begins with the
/// scheme and the `:` that ends it, and a scheme holds no `:`.
#[verifier::external_body]
fn url_scheme_str(u: &url::Url) -> (r: &str)
    ensures
        r@ == before_first_colon(url_serialization(*u)),
{
    u.scheme()
}

/// Why a request cannot be prepared.
#[derive(Debug)]
pub enum RequestError {
    /// The URL does not parse; the parser's message.
    InvalidUrl(String),
    /// Appending the query would make the URL longer than 4 GiB.
    UrlTooLong,
}

/// Why no connection target can be taken from a URL.
#[derive(Clone, Copy, Debug, PartialEq, Eq, Structural)]
pub enum HostError {
    /// The URL has no host.
    EmptyHost,
    /// The URL has no port and its scheme has no default one.
    InvalidPort,
}

/// The names and values of `q` as character sequences.
pub open spec fn query_view(q: Seq<(String, String)>) -> Seq<(Seq<char>, Seq<char>)> {
    q.map_values(|e: (String, String)| (e.0@, e.1@))
}

/// The URL serialised as `url` with the pairs of `q` appended in order, or
/// `None` when some pair no longer fits under the length limit.
pub open spec fn with_query(url: Seq<char>, q: Seq<(String, String)>) -> Option<Seq<char>>
    decreases q.len(),
{
    if q.len() == 0 {
        Some(url)
    } else {
        match with_query(url, q.drop_last()) {
            None => None,
            Some(u) => if utf8(u).len() + 3 * (utf8(q.last().0@).len() + utf8(q.last().1@).len())
                + 3 <= u32::MAX {
                Some(url_with_pair(u, q.last().0@, q.last().1@))
            } else {
                None
            },
        }
    }
}

/// Once the length limit is passed, appending more pairs does not help.
pub proof fn lemma_with_query_none(url: Seq<char>, q: Seq<(String, String)>, k: int)
    requires
        0 <= k <= q.len(),
        with_query(url, q.take(k)) is None,
    ensures
        with_query(url, q) is None,
    decreases q.len() - k,
{
    if k == q.len() {
        assert(q.take(k) =~= q);
    } else {
        assert(q.take(k + 1).drop_last() =~= q.take(k));
        lemma_with_query_none(url, q, k + 1);
    }
}

/// Parses `url` and appends the query pairs to it, in order.
pub fn build_url(url: &str, query: &Vec<(String, String)>) -> (r: Result<url::Url, RequestError>)
    ensures
        match url_parse_result(url@) {
            Err(m) => r matches Err(RequestError::InvalidUrl(e)) && e@ == m,
            Ok(t) => match with_query(t, query@) {
                Some(full) => r matches Ok(u) && url_serialization(u) == full,
                None => r matches Err(RequestError::UrlTooLong),
            },
        },
{
    let mut u = match parse_url(url) {
        Ok(u) => u,
        Err(m) => {
            return Err(RequestError::InvalidUrl(m));
        },
    };
    let ghost t = url_serialization(u);
    let mut i: usize = 0;
    assert(query@.take(0) =~= Seq::<(String, String)>::empty());
    while i < query.len()
        invariant
            i <= query@.len(),
            url_parse_result(url@) == Ok::<Seq<char>, Seq<char>>(t),
            with_query(t, query@.take(i as int)) == Some(url_serialization(u)),
        decreases query@.len() - i,
    {
        let name = query[i].0.as_str();
        let value = query[i].1.as_str();
        let serialized = url_as_str(&u);
        let c = serialized.as_bytes().len() as u64;
        assert(serialized.spec_bytes() == utf8(url_serialization(u)));
        assert(name.spec_bytes() == utf8(query@[i as int].0@));
        assert(value.spec_bytes() == utf8(query@[i as int].1@));
        assert(query@.take(i + 1).last() == query@[i as int]);
        let n = name.as_bytes().len() as u64;
        let v = value.as_bytes().len() as u64;
        assert(query@.take(i + 1).drop_last() =~= query@.take(i as int));
        if c > 4294967295 || n > 4294967295 || v > 4294967295 || c + 3 * (n + v) + 3
            > 4294967295 {
            proof {
                lemma_with_query_none(t, query@, i + 1);
            }
            return Err(RequestError::UrlTooLong);
        }
        append_query_pair(&mut u, name, value);
        i = i + 1;
    }
    assert(query@.take(query@.len() as int) =~= query@);
    Ok(u)
}

/// The host and port to connect to for `url`.
pub fn get_host_and_port(url: &url::Url) -> (r: Result<(String, u16), HostError>)
    ensures
        match url_host(*url) {
            None => r == Err::<(String, u16), _>(HostError::EmptyHost),
            Some(h) => match url_port(*url) {
                None => r == Err::<(String, u16), _>(HostError::InvalidPort),
                Some(p) => r matches Ok((host, port)) && host@ == h && port == p,
            },
        },
{
    let host = match url_host_str(url) {
        Some(host) => host,
        None => {
            return Err(HostError::EmptyHost);
        },
    };
    let port = match url_port_or_known_default(url) {
        Some(port) => port,
        None => {
            return Err(HostError::InvalidPort);
        },
    };
    Ok((host.to_owned(), port))
}

/// Whether the request goes over TLS: the URL's scheme is `https`.
pub fn uses_tls(url: &url::Url) -> (r: bool)
    ensures
        r == (before_first_colon(url_serialization(*url)) == "https"@),
{
    str_eq(url_scheme_str(url), "https")
}

/// How a request body is encoded.
#[derive(Clone, Copy, Debug, PartialEq, Eq, Structural)]
pub enum BodyEncoding {
    /// The R value as JSON text.
    Json,
    /// The R value in the binary format.
    Tson,
}

/// The `content-type` header value and the body encoding used for a
/// caller's content type: JSON and the binary format are sent as
/// themselves; any other content type is labelled
/// `application/octet-stream` and the value is sent in the binary format.
pub open spec fn encoding_for(content_type: Seq<char>) -> (Seq<char>, BodyEncoding) {
    if content_type == "application/json"@ {
        ("application/json"@, BodyEncoding::Json)
    } else if content_type == "application/tson"@ {
        ("application/tson"@, BodyEncoding::Tson)
    } else {
        ("application/octet-stream"@, BodyEncoding::Tson)
    }
}

/// The `content-type` header value and the body encoding for a caller's
/// content type.
pub fn body_encoding(content_type: &str) -> (r: (String, BodyEncoding))
    ensures
        (r.0@, r.1) == encoding_for(content_type@),
{
    if str_eq(content_type, "application/json") {
        ("application/json".to_owned(), BodyEncoding::Json)
    } else if str_eq(content_type, "application/tson") {
        ("application/tson".to_owned(), BodyEncoding::Tson)
    } else {
        ("application/octet-stream".to_owned(), BodyEncoding::Tson)
    }
}

/// The request headers with `content-type` set to `value`.
pub fn with_content_type(headers: HeaderMap, value: String) -> (r: HeaderMap)
    ensures
        r@ == pairs_insert(headers@, "content-type"@, value@),
{
    let mut h = headers;
    h.insert("content-type".to_owned(), value);
    h
}

/// The headers and body encoding of a request whose caller asked for
/// `content_type`: the headers get the `content-type` of
/// [`encoding_for`], which also says how the body is encoded.
pub fn request_headers(headers: HeaderMap, content_type: &str) -> (r: (HeaderMap, BodyEncoding))
    ensures
        r.0@ == pairs_insert(headers@, "content-type"@, encoding_for(content_type@).0),
        r.1 == encoding_for(content_type@).1,
{
    let (value, encoding) = body_encoding(content_type);
    (with_content_type(headers, value), encoding)
}

/// The `content-type` of a multipart body with boundary `frontier`.
pub open spec fn multipart_content_type(frontier: Seq<char>) -> Seq<char> {
    "multipart/mixed; boundary="@ + frontier
}

/// The request headers of a multipart body with boundary `frontier`.
pub fn multipart_headers(headers: HeaderMap, frontier: &str) -> (r: HeaderMap)
    ensures
        r@ == pairs_insert(headers@, "content-type"@, multipart_content_type(frontier@)),
{
    let mut value = "multipart/mixed; boundary=".to_owned();
    value.append(frontier);
    with_content_type(headers, value)
}

/// An ASCII decimal digit.
pub open spec fn is_digit(b: u8) -> bool {
    48 <= b <= 57
}

/// The value of a string of decimal digits.
pub open spec fn digits_value(d: Seq<u8>) -> nat
    decreases d.len(),
{
    if d.len() == 0 {
        0
    } else {
        digits_value(d.drop_last()) * 10 + (d.last() - 48) as nat
    }
}

/// The bytes after an optional leading `+`.
pub open spec fn unsigned_digits(b: Seq<u8>) -> Seq<u8> {
    if b.len() > 0 && b[0] == 43 {
        b.drop_first()
    } else {
        b
    }
}

/// Every byte is a decimal digit.
pub open spec fn all_digits(d: Seq<u8>) -> bool {
    forall|i: int| 0 <= i < d.len() ==> is_digit(#[trigger] d[i])
}

/// What `str::parse::<u16>` gives for a string with bytes `b`: an optional
/// `+` followed by at least one decimal digit and nothing else, denoting a
/// value that fits in 16 bits.
pub open spec fn parse_u16_spec(b: Seq<u8>) -> Option<u16> {
    let d = unsigned_digits(b);
    if d.len() == 0 || !all_digits(d) {
        None
    } else if digits_value(d) > 65535 {
        None
    } else {
        Some(digits_value(d) as u16)
    }
}

/// Adding digits never makes a value smaller.
pub proof fn lemma_digits_value_grows(d: Seq<u8>, k: int)
    requires
        0 <= k <= d.len(),
        forall|i: int| 0 <= i < d.len() ==> is_digit(#[trigger] d[i]),
    ensures
        digits_value(d.take(k)) <= digits_value(d),
    decreases d.len() - k,
{
    if k < d.len() {
        lemma_digits_value_grows(d, k + 1);
        assert(d.take(k + 1).drop_last() =~= d.take(k));
    } else {
        assert(d.take(k) =~= d);
    }
}

/// Parses the bytes `b[start..]` as `str::parse::<u16>` does.
pub fn parse_u16(b: &[u8], start: usize) -> (r: Option<u16>)
    requires
        start <= b@.len(),
    ensures
        r == parse_u16_spec(b@.skip(start as int)),
{
    let ghost s = b@.skip(start as int);
    let mut i = start;
    if i < b.len() && b[i] == 43u8 {
        i = i + 1;
    }
    let ghost d = unsigned_digits(s);
    assert(d =~= b@.skip(i as int));
    if i == b.len() {
        return None;
    }
    let d0 = i;
    let mut v: u32 = 0;
    assert(d.take(0) =~= Seq::<u8>::empty());
    #[verifier::loop_isolation(false)]
    while i < b.len()
        invariant
            d0 <= i <= b@.len(),
            d == b@.skip(d0 as int),
            forall|j: int| 0 <= j < i - d0 ==> is_digit(#[trigger] d[j]),
            v == digits_value(d.take(i - d0)),
            v <= 65535,
        decreases b@.len() - i,
    {
        let c = b[i];
        assert(d[i - d0] == c);
        if c < 48u8 || c > 57u8 {
            assert(!is_digit(d[i - d0]));
            assert(parse_u16_spec(s) is None);
            return None;
        }
        assert(d.take(i - d0 + 1).drop_last() =~= d.take(i - d0));
        assert(d.take(i - d0 + 1).last() == c);
        v = v * 10 + (c - 48u8) as u32;
        i = i + 1;
        if v > 65535 {
            proof {
                if all_digits(d) {
                    lemma_digits_value_grows(d, i - d0);
                }
                assert(parse_u16_spec(s) is None);
            }
            return None;
        }
    }
    assert(d.take(i - d0) =~= d);
    Some(v as u16)
}

/// The position of the last `:` in `b`, if there is one.
pub open spec fn last_colon(b: Seq<u8>) -> Option<int>
    decreases b.len(),
{
    if b.len() == 0 {
        None
    } else if b.last() == 58 {
        Some(b.len() - 1)
    } else {
        last_colon(b.drop_last())
    }
}

/// Finds the last `:` of `b`.
fn rfind_colon(b: &[u8]) -> (r: Option<usize>)
    ensures
        r is None <==> last_colon(b@) is None,
        r matches Some(c) ==> last_colon(b@) == Some(c as int) && c < b@.len() && b@[c as int]
            == 58,
{
    let mut i = b.len();
    assert(b@.take(i as int) =~= b@);
    while i > 0
        invariant
            i <= b@.len(),
            last_colon(b@) == last_colon(b@.take(i as int)),
        decreases i,
    {
        assert(b@.take(i as int).last() == b@[i - 1]);
        if b[i - 1] == 58u8 {
            assert(last_colon(b@.take(i as int)) == Some(i - 1));
            return Some(i - 1);
        }
        assert(b@.take(i as int).drop_last() =~= b@.take(i - 1));
        i = i - 1;
    }
    None
}

/// The proxy host and port named by an `HTTP_PROXY` value: what follows
/// the last `:` is the port and what precedes it the host; without a `:`
/// the whole value is the host and the port is 80. `None` when the text
/// after the last `:` is not a port number.
pub fn parse_proxy(proxy: &str) -> (r: Option<(String, u16)>)
    ensures
        match last_colon(proxy.spec_bytes()) {
            None => r matches Some((h, p)) && h@ == proxy@ && p == 80,
            Some(c) => match parse_u16_spec(proxy.spec_bytes().skip(c + 1)) {
                None => r is None,
                Some(port) => r matches Some((h, p)) && utf8(h@) == proxy.spec_bytes().take(c)
                    && p == port,
            },
        },
{
    let bytes = proxy.as_bytes();
    let n = bytes.len();
    assert(bytes@ == proxy.spec_bytes());
    match rfind_colon(bytes) {
        None => Some((proxy.to_owned(), 80)),
        Some(c) => {
            assert(last_colon(proxy.spec_bytes()) == Some(c as int));
            match parse_u16(bytes, c + 1) {
                None => None,
                Some(port) => {
                    proof {
                        vstd::utf8::encode_utf8_valid_utf8(proxy@);
                        vstd::utf8::is_char_boundary_iff_is_leading_byte(bytes@, c as int);
                    }
                    let (host, _) = proxy.split_at(c);
                    assert(host.spec_bytes() =~= proxy.spec_bytes().take(c as int));
                    Some((host.to_owned(), port))
                },
            }
        },
    }
}


/// Only JSON is sent as JSON: the body is encoded as JSON exactly when the
/// caller asks for `application/json`, and in the binary format for every
/// other content type; the header names JSON, the binary format, or
/// `application/octet-stream` for any other content type.
pub proof fn law_only_json_is_sent_as_json(content_type: Seq<char>)
    ensures
        encoding_for(content_type).1 == BodyEncoding::Json <==> content_type == "application/json"@,
        content_type != "application/json"@ ==> encoding_for(content_type).1 == BodyEncoding::Tson,
        content_type == "application/json"@ ==> encoding_for(content_type).0 == "application/json"@,
        content_type == "application/tson"@ ==> encoding_for(content_type).0 == "application/tson"@,
        content_type != "application/json"@ && content_type != "application/tson"@
            ==> encoding_for(content_type).0 == "application/octet-stream"@,
{
}

/// The query is refused only for want of room: the URL with the pairs
/// appended is missing only when, for some pair, the URL built so far
/// plus three bytes per byte of the pair and three separators passes the
/// `u32` range the url crate indexes with; and whenever every step stays
/// within it, the URL is built.
pub proof fn law_query_refused_only_when_too_long(url: Seq<char>, q: Seq<(String, String)>)
    ensures
        with_query(url, q) is None ==> exists|k: int|
            0 <= k < q.len() && (#[trigger] with_query(url, q.take(k)) matches Some(u) && utf8(
                u,
            ).len() + 3 * (utf8(q[k].0@).len() + utf8(q[k].1@).len()) + 3 > u32::MAX),
        (forall|k: int|
            0 <= k < q.len() ==> (#[trigger] with_query(url, q.take(k)) matches Some(u) ==> utf8(
                u,
            ).len() + 3 * (utf8(q[k].0@).len() + utf8(q[k].1@).len()) + 3 <= u32::MAX))
            ==> with_query(url, q) is Some,
    decreases q.len(),
{
    if q.len() > 0 {
        let p = q.drop_last();
        let n = q.len() - 1;
        law_query_refused_only_when_too_long(url, p);
        assert forall|k: int| 0 <= k <= n implies #[trigger] q.take(k) == p.take(k) by {
            assert(q.take(k) =~= p.take(k));
        }
        assert(q.take(n) =~= p);
        assert forall|k: int| 0 <= k < p.len() implies #[trigger] p[k] == q[k] by {}
        if with_query(url, q) is None {
            if with_query(url, p) is None {
                let k = choose|k: int|
                    0 <= k < p.len() && (#[trigger] with_query(url, p.take(k)) matches Some(u)
                        && utf8(u).len() + 3 * (utf8(p[k].0@).len() + utf8(p[k].1@).len()) + 3
                        > u32::MAX);
                assert(q.take(k) == p.take(k));
                assert(p[k] == q[k]);
            } else {
                assert(with_query(url, q.take(n)) == with_query(url, p));
            }
        }
        if forall|k: int|
            0 <= k < q.len() ==> (#[trigger] with_query(url, q.take(k)) matches Some(u) ==> utf8(
                u,
            ).len() + 3 * (utf8(q[k].0@).len() + utf8(q[k].1@).len()) + 3 <= u32::MAX) {
            assert forall|k: int|
                0 <= k < p.len() implies (#[trigger] with_query(url, p.take(k)) matches Some(u)
                ==> utf8(u).len() + 3 * (utf8(p[k].0@).len() + utf8(p[k].1@).len()) + 3
                <= u32::MAX) by {
                assert(q.take(k) == p.take(k));
                assert(p[k] == q[k]);
            }
            assert(with_query(url, q.take(n)) == with_query(url, p));
        }
    }
}

/// A port is parsed as `str::parse::<u16>` does, stated one digit at a
/// time: a single decimal digit (a byte from `'0'` to `'9'`) is its own
/// value; appending a digit to digits that parse to `v` gives `10 * v` plus
/// the digit while that fits in 16 bits, and nothing past it; a byte that is
/// not a digit, other than one leading `+`, and no digits at all, give
/// nothing; a leading `+` is ignored.
pub proof fn law_ports_parse_digit_by_digit(d: Seq<u8>, c: u8)
    ensures
        48 <= c <= 57 ==> parse_u16_spec(seq![c]) == Some((c - 48) as u16),
        48 <= c <= 57 && d.len() > 0 && d[0] != 43 && parse_u16_spec(d) is Some && 10
            * parse_u16_spec(d).unwrap() + (c - 48) <= 65535 ==> parse_u16_spec(d.push(c)) == Some(
            (10 * parse_u16_spec(d).unwrap() + (c - 48)) as u16,
        ),
        48 <= c <= 57 && d.len() > 0 && d[0] != 43 && parse_u16_spec(d) is Some && 10
            * parse_u16_spec(d).unwrap() + (c - 48) > 65535 ==> parse_u16_spec(d.push(c)) is None,
        !(48 <= c <= 57) && (d.len() > 0 || c != 43) ==> parse_u16_spec(d.push(c)) is None,
        parse_u16_spec(Seq::<u8>::empty()) is None,
        parse_u16_spec(seq![43u8]) is None,
        d.len() > 0 && d[0] != 43 ==> parse_u16_spec(seq![43u8] + d) == parse_u16_spec(d),
{
    let e = d.push(c);
    assert(seq![c].drop_last() =~= Seq::<u8>::empty());
    if 48 <= c <= 57 {
        assert(unsigned_digits(seq![c]) == seq![c]);
        assert(all_digits(seq![c]));
        assert(seq![c].last() == c);
        assert(digits_value(Seq::<u8>::empty()) == 0);
        assert(digits_value(seq![c]) == digits_value(seq![c].drop_last()) * 10 + (seq![c].last()
            - 48) as nat);
        assert(digits_value(seq![c]) == (c - 48) as nat);
    }
    assert(e.drop_last() =~= d);
    if d.len() > 0 && d[0] != 43 {
        assert(unsigned_digits(d) == d);
        assert(unsigned_digits(e) == e);
        assert((seq![43u8] + d).drop_first() =~= d);
        if 48 <= c <= 57 && all_digits(d) {
            assert(all_digits(e)) by {
                assert forall|i: int| 0 <= i < e.len() implies is_digit(#[trigger] e[i]) by {
                    if i < d.len() {
                        assert(e[i] == d[i]);
                    }
                }
            }
        }
        if !all_digits(d) {
            let i = choose|i: int| 0 <= i < d.len() && !is_digit(#[trigger] d[i]);
            assert(e[i] == d[i]);
        }
    }
    if !(48 <= c <= 57) && (d.len() > 0 || c != 43) {
        assert(e[e.len() - 1] == c);
        if d.len() > 0 && d[0] == 43 {
            assert(unsigned_digits(e) =~= e.drop_first());
            assert(unsigned_digits(e)[unsigned_digits(e).len() - 1] == c);
        } else {
            assert(unsigned_digits(e) == e);
        }
    }
}

} // verus!
