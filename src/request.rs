//! Requests: the absolute target URL, incremental parsing off a byte buffer,
//! and the wire form sent upstream.

use vstd::prelude::*;
use vstd::slice::slice_subrange;
use vstd::utf8::{decode_utf8, encode_utf8, valid_utf8};

use crate::bytes::{decimal_bytes, push_all, push_decimal, to_vec};
use crate::headers::{first_value, header_block, headers_valid, key_count, raw_list, HeaderList, Headers};

verus! {

/// The parts of an absolute URL that this library reads.
pub struct UrlModel {
    pub serialization: Seq<char>,
    pub scheme: Seq<char>,
    pub host: Option<Seq<char>>,
    pub port: Option<u16>,
    pub path: Seq<char>,
}

/// What `url::Url::parse` gives for a string: the parsed URL's parts, or the
/// text of the parse error. It depends on the characters alone.
pub uninterp spec fn url_parse_of(s: Seq<char>) -> Result<UrlModel, Seq<char>>;

/// An absolute URL, held as the parts that forwarding reads.
pub struct Url {
    serialization: String,
    scheme: String,
    host: Option<String>,
    port: Option<u16>,
    path: String,
}

pub open spec fn opt_chars(s: Option<String>) -> Option<Seq<char>> {
    match s {
        Some(v) => Some(v@),
        None => None,
    }
}

impl View for Url {
    type V = UrlModel;

    closed spec fn view(&self) -> UrlModel {
        UrlModel {
            serialization: self.serialization@,
            scheme: self.scheme@,
            host: opt_chars(self.host),
            port: self.port,
            path: self.path@,
        }
    }
}

impl Url {
    /// The whole URL as text.
    pub fn as_str(&self) -> (r: &str)
        ensures
            r@ == self@.serialization,
    {
        self.serialization.as_str()
    }

    pub fn scheme(&self) -> (r: &str)
        ensures
            r@ == self@.scheme,
    {
        self.scheme.as_str()
    }

    pub fn host_str(&self) -> (r: Option<&str>)
        ensures
            match r {
                Some(h) => self@.host == Some(h@),
                None => self@.host is None,
            },
    {
        match &self.host {
            Some(h) => Some(h.as_str()),
            None => None,
        }
    }

    /// The explicit port, when the URL names one other than its scheme's default.
    pub fn port(&self) -> (r: Option<u16>)
        ensures
            r == self@.port,
    {
        self.port
    }

    pub fn path(&self) -> (r: &str)
        ensures
            r@ == self@.path,
    {
        self.path.as_str()
    }
}

/// A URL parse outcome, as parts and error text.
pub open spec fn url_outcome(r: Result<Url, String>) -> Result<UrlModel, Seq<char>> {
    match r {
        Ok(u) => Ok(u@),
        Err(e) => Err(e@),
    }
}

/// Relies on `url::Url::parse`, and on its `as_str`, `scheme`, `host_str`,
/// `port` and `path` to read the result; an error is kept as its text.
#[verifier::external_body]
fn parse_url(s: &str) -> (r: Result<Url, String>)
    ensures
        url_outcome(r) == url_parse_of(s@),
{
    match url::Url::parse(s) {
        Ok(u) => Ok(
            Url {
                serialization: u.as_str().to_string(),
                scheme: u.scheme().to_string(),
                host: u.host_str().map(String::from),
                port: u.port(),
                path: u.path().to_string(),
            },
        ),
        Err(e) => Err(e.to_string()),
    }
}

/// Relies on `String::from_utf8`: it accepts exactly the valid UTF-8 byte
/// strings, and the string holds the characters they encode.
#[verifier::external_body]
fn utf8_string(bytes: Vec<u8>) -> (r: Option<String>)
    ensures
        match r {
            Some(s) => valid_utf8(bytes@) && s@ == decode_utf8(bytes@),
            None => !valid_utf8(bytes@),
        },
{
    String::from_utf8(bytes).ok()
}

/// A request target is relative when its bytes hold a `/` (47) with no `:` (58) before it.
pub open spec fn is_relative(b: Seq<u8>) -> bool {
    exists|i: int|
        0 <= i < b.len() && b[i] == 47u8 && forall|j: int| 0 <= j < i ==> b[j] != 58u8
}

/// Tells a host-relative request target (`/index.html`) from an absolute one
/// (`http://example.com/`): the first `/` must come before any `:`.
pub fn url_is_relative(url: &str) -> (r: bool)
    ensures
        r == is_relative(encode_utf8(url@)),
{
    let b = url.as_bytes();
    let mut i: usize = 0;
    while i < b.len()
        invariant
            i <= b@.len(),
            b@ == encode_utf8(url@),
            forall|j: int| 0 <= j < i ==> b@[j] != 58u8 && b@[j] != 47u8,
        decreases b@.len() - i,
    {
        if b[i] == 47u8 {
            assert(0 <= i < b@.len() && b@[i as int] == 47u8 && forall|j: int|
                0 <= j < i ==> b@[j] != 58u8);
            return true;
        }
        if b[i] == 58u8 {
            assert forall|k: int|
                0 <= k < b@.len() && b@[k] == 47u8 implies exists|j: int|
                0 <= j < k && b@[j] == 58u8 by {
                assert(k > i);
                assert(0 <= i < k && b@[i as int] == 58u8);
            }
            return false;
        }
        i = i + 1;
    }
    false
}

/// What resolving a request target gives.
pub enum Resolution {
    Found(UrlModel),
    MissingHost,
    Invalid(Seq<char>),
}

pub open spec fn from_url_outcome(r: Result<UrlModel, Seq<char>>) -> Resolution {
    match r {
        Ok(u) => Resolution::Found(u),
        Err(e) => Resolution::Invalid(e),
    }
}

/// The absolute form of a host-relative target: `http://`, the `Host` value, the target.
pub open spec fn absolute_target(host: Seq<u8>, path: Seq<char>) -> Seq<u8> {
    encode_utf8("http://"@) + host + encode_utf8(path)
}

/// The error text given when the `Host` value is not UTF-8.
pub open spec fn host_not_utf8() -> Seq<char> {
    "Host header is not valid UTF-8"@
}

/// Resolves a request target against the request's headers. A relative target
/// takes the scheme `http` and the first `Host` value; an absolute one is parsed as it is.
pub open spec fn resolve_target(path: Seq<char>, headers: HeaderList) -> Resolution {
    if is_relative(encode_utf8(path)) {
        match first_value(headers, "host"@) {
            None => Resolution::MissingHost,
            Some(h) => {
                let b = absolute_target(h, path);
                if valid_utf8(b) {
                    from_url_outcome(url_parse_of(decode_utf8(b)))
                } else {
                    Resolution::Invalid(host_not_utf8())
                }
            },
        }
    } else {
        from_url_outcome(url_parse_of(path))
    }
}

/// Why a request could not be read.
#[derive(Debug, PartialEq, Eq)]
pub enum RequestError {
    /// The bytes do not form an HTTP request; the text says where they fail.
    Malformed(String),
    /// More than one `Host` entry, or more than one `Content-Length` entry.
    ConflictingHeaders,
    /// A host-relative target without a `Host` header.
    MissingHost,
    /// The target does not resolve to a valid absolute URL.
    InvalidUrl(String),
}

/// A parsed request with an absolute target.
pub struct Request {
    pub method: String,
    pub url: Url,
    pub version: u8,
    pub headers: Headers,
}

/// The request line sent upstream: `METHOD PATH HTTP/1.<version>` and CR LF.
pub open spec fn request_line(method: Seq<char>, path: Seq<char>, version: u8) -> Seq<u8> {
    encode_utf8(method) + seq![32u8] + encode_utf8(path) + encode_utf8(" HTTP/1."@)
        + decimal_bytes(version as nat) + seq![13u8, 10u8]
}

impl Request {
    /// The request's wire form: the request line, the header block, and one
    /// more empty line.
    pub open spec fn wire(&self) -> Seq<u8> {
        request_line(self.method@, self.url@.path, self.version) + header_block(self.headers@)
            + seq![13u8, 10u8]
    }
}

impl From<Request> for Vec<u8> {
    /// The request's wire form, as `serialize` gives it.
    fn from(req: Request) -> (r: Vec<u8>)
        ensures
            r@ == req.wire(),
    {
        req.serialize()
    }
}

impl vstd::std_specs::convert::FromSpecImpl<Request> for Vec<u8> {
    /// A vector is pinned down by more than its bytes, so only the bytes are promised.
    open spec fn obeys_from_spec() -> bool {
        false
    }

    open spec fn from_spec(req: Request) -> Vec<u8> {
        choose|v: Vec<u8>| v@ == req.wire()
    }
}

/// `r` is what building a request from these parts gives: the header table
/// is checked first, then the target is resolved.
pub open spec fn built(
    method: Seq<char>,
    path: Seq<char>,
    version: u8,
    raw: HeaderList,
    r: Result<Request, RequestError>,
) -> bool {
    if !headers_valid(raw) {
        r == Err::<Request, RequestError>(RequestError::ConflictingHeaders)
    } else {
        match resolve_target(path, raw) {
            Resolution::Found(u) => r matches Ok(req) && req.method@ == method && req.url@ == u
                && req.version == version && req.headers@ == raw,
            Resolution::MissingHost => r == Err::<Request, RequestError>(RequestError::MissingHost),
            Resolution::Invalid(d) => r matches Err(RequestError::InvalidUrl(e)) && e@ == d,
        }
    }
}

fn resolve(path: &str, headers: &Headers) -> (r: Result<Url, RequestError>)
    ensures
        match resolve_target(path@, headers@) {
            Resolution::Found(u) => r matches Ok(url) && url@ == u,
            Resolution::MissingHost => r == Err::<Url, RequestError>(RequestError::MissingHost),
            Resolution::Invalid(d) => r matches Err(RequestError::InvalidUrl(e)) && e@ == d,
        },
{
    let target: String;
    if url_is_relative(path) {
        // The listening socket does not say whether it is secure, so the scheme is `http`.
        match headers.get_folded("host") {
            None => {
                return Err(RequestError::MissingHost);
            },
            Some(host) => {
                let mut absolute: Vec<u8> = Vec::new();
                push_all(&mut absolute, "http://".as_bytes());
                push_all(&mut absolute, host.as_slice());
                push_all(&mut absolute, path.as_bytes());
                assert(absolute@ == absolute_target(host@, path@));
                match utf8_string(absolute) {
                    Some(s) => {
                        target = s;
                    },
                    None => {
                        return Err(RequestError::InvalidUrl("Host header is not valid UTF-8".to_owned()));
                    },
                }
            },
        }
    } else {
        target = path.to_owned();
    }
    match parse_url(target.as_str()) {
        Ok(u) => Ok(u),
        Err(e) => Err(RequestError::InvalidUrl(e)),
    }
}

impl Request {
    /// The bytes sent upstream for this request, before its body.
    pub fn serialize(&self) -> (r: Vec<u8>)
        ensures
            r@ == self.wire(),
    {
        let mut out: Vec<u8> = Vec::new();
        push_all(&mut out, self.method.as_str().as_bytes());
        out.push(32u8);
        push_all(&mut out, self.url.path().as_bytes());
        push_all(&mut out, " HTTP/1.".as_bytes());
        push_decimal(&mut out, self.version);
        out.push(13u8);
        out.push(10u8);
        let headers = self.headers.to_utf8();
        push_all(&mut out, headers.as_slice());
        out.push(13u8);
        out.push(10u8);
        assert(out@ =~= self.wire());
        out
    }

    /// Builds a request from the parts of a parsed request head. The header
    /// block is validated, and a host-relative target is made absolute with
    /// the `Host` value.
    pub fn from_raw(method: &str, path: &str, version: u8, raw: &[httparse::Header]) -> (r: Result<
        Request,
        RequestError,
    >)
        ensures
            built(method@, path@, version, raw_list(raw@), r),
    {
        let headers = match Headers::from_raw(raw) {
            Ok(h) => h,
            Err(_) => {
                return Err(RequestError::ConflictingHeaders);
            },
        };
        match resolve(path, &headers) {
            Ok(url) => Ok(Request { method: method.to_owned(), url, version, headers }),
            Err(e) => Err(e),
        }
    }
}

/// What parsing a request head gives, as plain values.
pub enum HeadModel {
    Complete {
        consumed: nat,
        method: Option<Seq<char>>,
        path: Option<Seq<char>>,
        version: Option<u8>,
        headers: HeaderList,
    },
    Partial,
    Invalid { detail: Seq<char> },
}

/// What `httparse::Request::parse` gives for a buffer when it has room for
/// `slots` headers. It depends on the bytes and the count alone.
pub uninterp spec fn request_head_of(buf: Seq<u8>, slots: nat) -> HeadModel;

/// A request head as `httparse` hands it back.
enum RequestHead<'b> {
    Complete {
        consumed: usize,
        method: Option<&'b str>,
        path: Option<&'b str>,
        version: Option<u8>,
        headers: Vec<httparse::Header<'b>>,
    },
    Partial,
    Invalid { detail: String },
}

spec fn opt_str(s: Option<&str>) -> Option<Seq<char>> {
    match s {
        Some(v) => Some(v@),
        None => None,
    }
}

spec fn head_view(h: RequestHead) -> HeadModel {
    match h {
        RequestHead::Complete { consumed, method, path, version, headers } => HeadModel::Complete {
            consumed: consumed as nat,
            method: opt_str(method),
            path: opt_str(path),
            version,
            headers: raw_list(headers@),
        },
        RequestHead::Partial => HeadModel::Partial,
        RequestHead::Invalid { detail } => HeadModel::Invalid { detail: detail@ },
    }
}

/// Relies on `httparse::Request::parse` with the caller's header slots: the
/// request line and header block, or that more bytes are needed, or the
/// error (kept as its `Debug` text). On completion the consumed count is
/// at most the buffer's length.
#[verifier::external_body]
fn parse_head<'b>(buf: &'b [u8], slots: &mut [httparse::Header<'b>]) -> (r: RequestHead<'b>)
    ensures
        head_view(r) == request_head_of(buf@, old(slots)@.len()),
        r matches RequestHead::Complete { consumed, .. } ==> consumed <= buf@.len(),
{
    let mut req = httparse::Request::new(slots);
    match req.parse(buf) {
        Ok(httparse::Status::Complete(n)) => RequestHead::Complete {
            consumed: n,
            method: req.method,
            path: req.path,
            version: req.version,
            headers: req.headers.to_vec(),
        },
        Ok(httparse::Status::Partial) => RequestHead::Partial,
        Err(e) => RequestHead::Invalid { detail: format!("{:?}", e) },
    }
}

/// The error text given when a complete head lacks part of its request line.
pub open spec fn incomplete_line() -> Seq<char> {
    "incomplete request line"@
}

/// `r` is what parsing gives for the first `total_read` bytes of `buffer`
/// with `slots` header slots: `Ok(None)` while the head is incomplete, the
/// request and the bytes after its head once it is complete, an error
/// when the bytes are not a request or the request cannot be built.
pub open spec fn parsed(
    buffer: Seq<u8>,
    slots: nat,
    total_read: int,
    r: Result<Option<(Request, Vec<u8>)>, RequestError>,
) -> bool {
    match request_head_of(buffer.subrange(0, total_read), slots) {
        HeadModel::Invalid { detail } => r matches Err(RequestError::Malformed(d)) && d@ == detail,
        HeadModel::Partial => r == Ok::<Option<(Request, Vec<u8>)>, RequestError>(None),
        HeadModel::Complete { consumed, method, path, version, headers } => {
            if method is Some && path is Some && version is Some {
                match r {
                    Ok(Some((req, body))) => {
                        &&& body@ == buffer.subrange(consumed as int, total_read)
                        &&& built(
                            method->0,
                            path->0,
                            version->0,
                            headers,
                            Ok::<Request, RequestError>(req),
                        )
                    },
                    Ok(None) => false,
                    Err(e) => built(
                        method->0,
                        path->0,
                        version->0,
                        headers,
                        Err::<Request, RequestError>(e),
                    ),
                }
            } else {
                r matches Err(RequestError::Malformed(d)) && d@ == incomplete_line()
            }
        },
    }
}

/// Attempts to parse a request from the first `total_read` bytes of `buffer`.
///
/// The returned bytes are those that follow the request head: the start of
/// the request body.
pub fn parse<'a>(buffer: &'a Vec<u8>, headers: &mut [httparse::Header<'a>], total_read: usize) -> (r:
    Result<Option<(Request, Vec<u8>)>, RequestError>)
    requires
        total_read <= buffer@.len(),
    ensures
        parsed(buffer@, old(headers)@.len() as nat, total_read as int, r),
{
    let buf = slice_subrange(buffer.as_slice(), 0, total_read);
    let head = parse_head(buf, headers);
    proof {
        assert(buf@ == buffer@.subrange(0, total_read as int));
    }
    match head {
        RequestHead::Invalid { detail } => Err(RequestError::Malformed(detail)),
        RequestHead::Partial => Ok(None),
        RequestHead::Complete { consumed, method, path, version, headers: raw } => {
            match (method, path, version) {
                (Some(m), Some(p), Some(v)) => {
                    let body = to_vec(slice_subrange(buf, consumed, total_read));
                    assert(body@ == buffer@.subrange(consumed as int, total_read as int));
                    let built = Request::from_raw(m, p, v, raw.as_slice());
                    match built {
                        Ok(req) => Ok(Some((req, body))),
                        Err(e) => Err(e),
                    }
                },
                _ => Err(RequestError::Malformed("incomplete request line".to_owned())),
            }
        },
    }
}

/// Target resolution: a host-relative target without a `Host` entry fails
/// with `MissingHost`; with one, it is the URL parsed from `http://`, the
/// first `Host` value and the target; an absolute target is the URL parsed
/// from the target as it is.
pub proof fn lemma_target_resolution(path: Seq<char>, raw: HeaderList)
    ensures
        is_relative(encode_utf8(path)) && first_value(raw, "host"@) is None ==> resolve_target(
            path,
            raw,
        ) == Resolution::MissingHost,
        forall|h: Seq<u8>|
            is_relative(encode_utf8(path)) && first_value(raw, "host"@) == Some(h) && valid_utf8(
                #[trigger] absolute_target(h, path),
            ) ==> resolve_target(path, raw) == from_url_outcome(
                url_parse_of(decode_utf8(absolute_target(h, path))),
            ),
        !is_relative(encode_utf8(path)) ==> resolve_target(path, raw) == from_url_outcome(
            url_parse_of(path),
        ),
{
}

/// Ambiguous framing is refused: a request whose head holds two or more
/// `Content-Length` entries is not built, whatever their values, and no
/// value is picked from them.
pub proof fn lemma_conflicting_length_refused(
    method: Seq<char>,
    path: Seq<char>,
    version: u8,
    raw: HeaderList,
    r: Result<Request, RequestError>,
)
    requires
        key_count(raw, "content-length"@) >= 2,
        built(method, path, version, raw, r),
    ensures
        r == Err::<Request, RequestError>(RequestError::ConflictingHeaders),
{
}

} // verus!
