//! Framing of HTTP requests: a request is the bytes of its head plus offset
//! pairs that say where the method, the path and the headers lie in them.

use vstd::prelude::*;
use vstd::string::StringSliceAdditionalSpecFns;
use vstd::utf8::valid_utf8;
use tokio_core::io::EasyBuf;
use crate::buffer::{buf_append, buf_bytes};
use crate::headers::{
    chunked_in, chunked_of, content_length_in, content_length_of, headers_fit,
    HeaderError,
};
use crate::parser::{field_span, httparse_request, parse_head, Located, Parsed, ParsedView, Span};
use crate::slice::ByteSlice;
use crate::text::text_of;
use vstd::slice::slice_subrange;

verus! {

/// The most header fields a request may carry. A request with more is
/// rejected, never cut short.
pub const MAX_HEADERS: usize = 16;

/// The protocol version named on the request line.
#[derive(Clone, Copy, Debug, PartialEq, Eq, Structural)]
pub enum Version {
    Http10,
    Http11,
}

/// Why the front of a buffer was rejected.
#[derive(Debug)]
pub enum DecodeError {
    /// The bytes are not a request, or carry too many header fields. The
    /// text is the parser's diagnostic.
    Parse(String),
    /// The request line names a minor version other than 0 or 1.
    UnsupportedVersion(u8),
    /// The parser's report does not fit the bytes it was given: a length or
    /// an offset pair lies outside them, there are more header fields than
    /// were allowed, or the method or the path is not text.
    Inconsistent,
}

/// `DecodeError` with its text as a sequence of characters.
pub enum DecodeErrorView {
    Parse(Seq<char>),
    UnsupportedVersion(u8),
    Inconsistent,
}

impl View for DecodeError {
    type V = DecodeErrorView;

    open spec fn view(&self) -> DecodeErrorView {
        match *self {
            DecodeError::Parse(msg) => DecodeErrorView::Parse(msg@),
            DecodeError::UnsupportedVersion(v) => DecodeErrorView::UnsupportedVersion(v),
            DecodeError::Inconsistent => DecodeErrorView::Inconsistent,
        }
    }
}

/// Where the parts of a complete request head lie in the buffer it was
/// found in.
pub struct Head {
    /// Number of bytes the head occupies, counted from the buffer's front.
    pub consumed: usize,
    pub method: ByteSlice,
    pub path: ByteSlice,
    pub version: Version,
    /// Name and value of each header field, in the order of appearance.
    pub headers: Vec<(ByteSlice, ByteSlice)>,
}

/// `Head` with its header list as a mathematical sequence.
pub struct HeadView {
    pub consumed: usize,
    pub method: ByteSlice,
    pub path: ByteSlice,
    pub version: Version,
    pub headers: Seq<(ByteSlice, ByteSlice)>,
}

impl View for Head {
    type V = HeadView;

    open spec fn view(&self) -> HeadView {
        HeadView {
            consumed: self.consumed,
            method: self.method,
            path: self.path,
            version: self.version,
            headers: self.headers@,
        }
    }
}

impl HeadView {
    /// The head ends inside `input`, all its parts lie inside the head, it
    /// has no more header fields than allowed, and its method and path are
    /// text.
    pub open spec fn fits(self, input: Seq<u8>) -> bool {
        &&& self.consumed <= input.len()
        &&& self.method.fits(self.consumed as nat)
        &&& self.path.fits(self.consumed as nat)
        &&& headers_fit(self.headers, self.consumed as nat)
        &&& self.headers.len() <= MAX_HEADERS
        &&& valid_utf8(self.method.of(input))
        &&& valid_utf8(self.path.of(input))
    }
}

/// The view of a framing step's result.
pub open spec fn framing_view(r: Result<Option<Head>, DecodeError>) -> Result<Option<HeadView>, DecodeErrorView> {
    match r {
        Ok(Some(head)) => Ok(Some(head@)),
        Ok(None) => Ok(None),
        Err(e) => Err(e@),
    }
}

/// The range lies inside a buffer of `len` bytes.
pub open spec fn span_fits(span: Span, len: nat) -> bool {
    0 <= span.start <= span.end <= len
}

/// A range that lies inside a buffer, as an offset pair.
pub open spec fn slice_of(span: Span) -> ByteSlice {
    ByteSlice { start: span.start as usize, end: span.end as usize }
}

/// Name and value of every field lie inside a buffer of `len` bytes.
pub open spec fn fields_fit(fields: Seq<(Span, Span)>, len: nat) -> bool {
    forall|i: int| 0 <= i < fields.len() ==> span_fits((#[trigger] fields[i]).0, len) && span_fits(fields[i].1, len)
}

/// Every field as a pair of offset pairs.
pub open spec fn slices_of(fields: Seq<(Span, Span)>) -> Seq<(ByteSlice, ByteSlice)> {
    Seq::new(fields.len(), |i: int| (slice_of(fields[i].0), slice_of(fields[i].1)))
}

/// What a parser report on `input` means: a failure is passed on; a partial
/// head is no request yet; a complete head is accepted when it fits the
/// input and names minor version 0 or 1.
pub open spec fn frame_spec(parsed: ParsedView, input: Seq<u8>) -> Result<Option<HeadView>, DecodeErrorView> {
    match parsed {
        ParsedView::Failed(msg) => Err(DecodeErrorView::Parse(msg)),
        ParsedView::Partial => Ok(None),
        ParsedView::Complete(n, m, p, v, hs) => {
            let at = |version: Version|
                HeadView {
                    consumed: n,
                    method: slice_of(m),
                    path: slice_of(p),
                    version: version,
                    headers: slices_of(hs),
                };
            let inside = n <= input.len() && span_fits(m, n as nat) && span_fits(p, n as nat) && fields_fit(
                hs,
                n as nat,
            );
            if !inside || !at(Version::Http10).fits(input) {
                Err(DecodeErrorView::Inconsistent)
            } else if v == 0 {
                Ok(Some(at(Version::Http10)))
            } else if v == 1 {
                Ok(Some(at(Version::Http11)))
            } else {
                Err(DecodeErrorView::UnsupportedVersion(v))
            }
        },
    }
}

/// The offset pair of a string that lies `limit` bytes or less from `base`.
pub fn locate(part: Located, base: usize, limit: usize) -> (r: Option<ByteSlice>)
    ensures
        r == if span_fits(part.span(base), limit as nat) {
            Some(slice_of(part.span(base)))
        } else {
            None
        },
{
    if part.addr < base {
        return None;
    }
    let start: usize = part.addr - base;
    if start > limit || part.len > limit - start {
        return None;
    }
    Some(ByteSlice { start: start, end: start + part.len })
}

/// The offset pairs of all header fields, if every one of them lies `limit`
/// bytes or less from `base`.
pub fn locate_fields(fields: &Vec<(Located, Located)>, base: usize, limit: usize) -> (r: Option<Vec<(ByteSlice, ByteSlice)>>)
    ensures
        ({
            let spans = Seq::new(fields@.len(), |i: int| field_span(fields@[i], base));
            match r {
                Some(slices) => fields_fit(spans, limit as nat) && slices@ == slices_of(spans),
                None => !fields_fit(spans, limit as nat),
            }
        }),
{
    let ghost spans = Seq::new(fields@.len(), |i: int| field_span(fields@[i], base));
    let mut slices: Vec<(ByteSlice, ByteSlice)> = Vec::new();
    let mut i: usize = 0;
    while i < fields.len()
        invariant
            i <= fields@.len(),
            spans == Seq::new(fields@.len(), |i: int| field_span(fields@[i], base)),
            slices@.len() == i,
            forall|j: int|
                0 <= j < i ==> span_fits((#[trigger] spans[j]).0, limit as nat) && span_fits(
                    spans[j].1,
                    limit as nat,
                ) && slices@[j] == (slice_of(spans[j].0), slice_of(spans[j].1)),
        decreases fields.len() - i,
    {
        let (name, value) = fields[i];
        assert(spans[i as int] == field_span(fields@[i as int], base));
        match (locate(name, base, limit), locate(value, base, limit)) {
            (Some(n), Some(v)) => {
                slices.push((n, v));
            },
            _ => {
                return None;
            },
        }
        i += 1;
    }
    assert(slices@ =~= slices_of(spans));
    Some(slices)
}

/// Turns a parser report on `input` into the layout of a request, no request
/// yet, or a rejection.
pub fn frame(parsed: Parsed, input: &[u8]) -> (r: Result<Option<Head>, DecodeError>)
    ensures
        framing_view(r) == frame_spec(parsed@, input@),
        r matches Ok(Some(head)) ==> head@.fits(input@),
{
    match parsed {
        Parsed::Failed(msg) => Err(DecodeError::Parse(msg)),
        Parsed::Partial => Ok(None),
        Parsed::Complete(n, base, method, path, v, fields) => {
            if n > input.len() || fields.len() > MAX_HEADERS {
                return Err(DecodeError::Inconsistent);
            }
            let (m, p, hs) = match (locate(method, base, n), locate(path, base, n), locate_fields(&fields, base, n)) {
                (Some(m), Some(p), Some(hs)) => (m, p, hs),
                _ => {
                    return Err(DecodeError::Inconsistent);
                },
            };
            if text_of(slice_subrange(input, m.start, m.end)).is_none() || text_of(
                slice_subrange(input, p.start, p.end),
            ).is_none() {
                return Err(DecodeError::Inconsistent);
            }
            if v == 0 {
                Ok(Some(Head { consumed: n, method: m, path: p, version: Version::Http10, headers: hs }))
            } else if v == 1 {
                Ok(Some(Head { consumed: n, method: m, path: p, version: Version::Http11, headers: hs }))
            } else {
                Err(DecodeError::UnsupportedVersion(v))
            }
        },
    }
}

/// One framed request. It owns the bytes of its head; everything else is
/// offsets into them.
pub struct Request {
    method: ByteSlice,
    path: ByteSlice,
    version: Version,
    headers: Vec<(ByteSlice, ByteSlice)>,
    data: EasyBuf,
}

/// A request as contracts see it.
pub struct RequestView {
    pub method: ByteSlice,
    pub path: ByteSlice,
    pub version: Version,
    pub headers: Seq<(ByteSlice, ByteSlice)>,
    /// The bytes the request owns.
    pub data: Seq<u8>,
}

impl RequestView {
    /// Every offset pair lies inside the owned bytes, there are no more
    /// header fields than allowed, and the method and the path are text.
    pub open spec fn wf(self) -> bool {
        &&& self.method.fits(self.data.len())
        &&& self.path.fits(self.data.len())
        &&& headers_fit(self.headers, self.data.len())
        &&& self.headers.len() <= MAX_HEADERS
        &&& valid_utf8(self.method.of(self.data))
        &&& valid_utf8(self.path.of(self.data))
    }
}

impl View for Request {
    type V = RequestView;

    closed spec fn view(&self) -> RequestView {
        RequestView {
            method: self.method,
            path: self.path,
            version: self.version,
            headers: self.headers@,
            data: buf_bytes(self.data),
        }
    }
}

/// The request that a head found at the front of `input` stands for.
pub open spec fn request_of(head: HeadView, input: Seq<u8>) -> RequestView {
    RequestView {
        method: head.method,
        path: head.path,
        version: head.version,
        headers: head.headers,
        data: input.subrange(0, head.consumed as int),
    }
}

/// What decoding a buffer that holds `input` returns.
pub open spec fn decoded(input: Seq<u8>) -> Result<Option<RequestView>, DecodeErrorView> {
    match frame_spec(httparse_request(input, MAX_HEADERS), input) {
        Ok(Some(head)) => Ok(Some(request_of(head, input))),
        Ok(None) => Ok(None),
        Err(e) => Err(e),
    }
}

/// What decoding a buffer that holds `input` leaves in it.
pub open spec fn rest_after(input: Seq<u8>) -> Seq<u8> {
    match frame_spec(httparse_request(input, MAX_HEADERS), input) {
        Ok(Some(head)) => input.subrange(head.consumed as int, input.len() as int),
        _ => input,
    }
}

/// The view of a decoding result.
pub open spec fn decoding_view(r: Result<Option<Request>, DecodeError>) -> Result<Option<RequestView>, DecodeErrorView> {
    match r {
        Ok(Some(req)) => Ok(Some(req@)),
        Ok(None) => Ok(None),
        Err(e) => Err(e@),
    }
}

/// What encoding `req` after `out` writes.
pub open spec fn encoded(out: Seq<u8>, req: RequestView) -> Seq<u8> {
    out + req.data
}

impl Request {
    /// The request keeps what decoding established.
    pub open spec fn wf(&self) -> bool {
        self@.wf()
    }

    /// The request method.
    pub fn method(&self) -> (r: &str)
        requires
            self.wf(),
        ensures
            r.spec_bytes() == self@.method.of(self@.data),
    {
        match text_of(slice_subrange(self.data.as_slice(), self.method.start, self.method.end)) {
            Some(text) => text,
            None => "",
        }
    }

    /// The request path.
    pub fn path(&self) -> (r: &str)
        requires
            self.wf(),
        ensures
            r.spec_bytes() == self@.path.of(self@.data),
    {
        match text_of(slice_subrange(self.data.as_slice(), self.path.start, self.path.end)) {
            Some(text) => text,
            None => "",
        }
    }

    /// The protocol version.
    pub fn version(&self) -> (r: Version)
        ensures
            r == self@.version,
    {
        self.version
    }

    /// Appends body bytes to the owned bytes. Offsets stay as they are.
    pub fn append_data(&mut self, buf: &[u8])
        requires
            old(self).wf(),
        ensures
            final(self).wf(),
            final(self)@ == (RequestView { data: old(self)@.data + buf@, ..old(self)@ }),
    {
        let ghost before = self@;
        buf_append(&mut self.data, buf);
        proof {
            let after = before.data + buf@;
            assert(before.method.of(after) == before.method.of(before.data));
            assert(before.path.of(after) == before.path.of(before.data));
        }
    }

    /// The number that the first `Content-Length` header gives: `Ok(None)`
    /// without such a header, an error when its value is not a number.
    pub fn content_length(&self) -> (r: Result<Option<usize>, HeaderError>)
        requires
            self.wf(),
        ensures
            r == content_length_of(self@.data, self@.headers),
    {
        content_length_in(self.data.as_slice(), &self.headers)
    }

    /// Whether some `Transfer-Encoding` header mentions `chunked`, in any
    /// letter case.
    pub fn transfer_encoding_chunked(&self) -> (r: bool)
        requires
            self.wf(),
        ensures
            r == chunked_of(self@.data, self@.headers),
    {
        chunked_in(self.data.as_slice(), &self.headers)
    }

    /// Number of header fields.
    pub fn header_count(&self) -> (n: usize)
        ensures
            n == self@.headers.len(),
    {
        self.headers.len()
    }

    /// Name and value bytes of the header field at `index`.
    pub fn header(&self, index: usize) -> (r: Option<(&[u8], &[u8])>)
        requires
            self.wf(),
        ensures
            index >= self@.headers.len() ==> r is None,
            index < self@.headers.len() ==> (r matches Some(nv)
                && nv.0@ == self@.headers[index as int].0.of(self@.data)
                && nv.1@ == self@.headers[index as int].1.of(self@.data)),
    {
        if index >= self.headers.len() {
            return None;
        }
        let (n, v) = self.headers[index];
        let data = self.data.as_slice();
        Some((
            vstd::slice::slice_subrange(data, n.start, n.end),
            vstd::slice::slice_subrange(data, v.start, v.end),
        ))
    }
}

/// Frames the request at the front of `buf`, if a whole one is there.
///
/// A complete request is cut off the front of `buf` and returned with those
/// bytes as its own; what follows it stays in `buf`. While the head is
/// incomplete, and when it is rejected, `buf` is left as it was.
pub fn decode(buf: &mut EasyBuf) -> (r: Result<Option<Request>, DecodeError>)
    ensures
        decoding_view(r) == decoded(buf_bytes(*old(buf))),
        buf_bytes(*final(buf)) == rest_after(buf_bytes(*old(buf))),
        r matches Ok(Some(req)) ==> req.wf(),
{
    let bytes = buf.as_slice();
    let parsed = parse_head(bytes, MAX_HEADERS);
    match frame(parsed, bytes) {
        Err(e) => Err(e),
        Ok(None) => Ok(None),
        Ok(Some(head)) => {
            proof {
                lemma_head_becomes_request(head@, bytes@);
            }
            let data = buf.drain_to(head.consumed);
            Ok(Some(Request {
                method: head.method,
                path: head.path,
                version: head.version,
                headers: head.headers,
                data: data,
            }))
        },
    }
}

/// Writes a request out: its owned bytes, unchanged, after what `buf` holds.
pub fn encode(msg: Request, buf: &mut Vec<u8>)
    ensures
        final(buf)@ == encoded(old(buf)@, msg@),
{
    let ghost before = buf@;
    let bytes = msg.data.as_slice();
    buf.extend_from_slice(bytes);
    assert(buf@ =~= before + bytes@);
}

/// A head that fits its input stands for a request that keeps every promise
/// of the head: cutting the input off after the head changes none of the
/// head's parts.
pub proof fn lemma_head_becomes_request(head: HeadView, input: Seq<u8>)
    requires
        head.fits(input),
    ensures
        request_of(head, input).wf(),
        head.method.of(request_of(head, input).data) == head.method.of(input),
        head.path.of(request_of(head, input).data) == head.path.of(input),
{
    let data = input.subrange(0, head.consumed as int);
    assert(head.method.of(data) == head.method.of(input));
    assert(head.path.of(data) == head.path.of(input));
}

/// Decoding splits its input: the bytes a decoded request owns, followed by
/// the bytes left in the buffer, are the input.
pub proof fn lemma_decode_splits_input(input: Seq<u8>)
    ensures
        decoded(input) matches Ok(Some(req)) ==> (req.data + rest_after(input) == input && req.wf()),
        !(decoded(input) matches Ok(Some(_))) ==> rest_after(input) == input,
{
    if let Ok(Some(head)) = frame_spec(httparse_request(input, MAX_HEADERS), input) {
        lemma_head_becomes_request(head, input);
        assert(input.subrange(0, head.consumed as int) + input.subrange(
            head.consumed as int,
            input.len() as int,
        ) =~= input);
    }
}

/// No decoded request carries more header fields than the bound: a request
/// is returned with all the fields the parser reported or not at all.
pub proof fn lemma_header_bound(input: Seq<u8>)
    ensures
        decoded(input) matches Ok(Some(req)) ==> (req.headers.len() <= MAX_HEADERS && (httparse_request(
            input,
            MAX_HEADERS,
        ) matches ParsedView::Complete(_, _, _, _, hs) && req.headers == slices_of(hs))),
{
}

/// Feeding a request in pieces changes nothing: when `prefix` alone holds no
/// complete request, decoding leaves it in place, and decoding after `rest`
/// has arrived gives what decoding `prefix + rest` at once gives.
pub proof fn lemma_incremental_feed(prefix: Seq<u8>, rest: Seq<u8>)
    requires
        decoded(prefix) == Ok::<Option<RequestView>, DecodeErrorView>(None),
    ensures
        rest_after(prefix) == prefix,
        decoded(rest_after(prefix) + rest) == decoded(prefix + rest),
        rest_after(rest_after(prefix) + rest) == rest_after(prefix + rest),
{
}

/// Encoding what was decoded from a buffer that holds exactly one request
/// writes that buffer's bytes again.
pub proof fn lemma_round_trip(input: Seq<u8>, out: Seq<u8>)
    requires
        decoded(input) matches Ok(Some(_)),
        rest_after(input).len() == 0,
    ensures
        (decoded(input) matches Ok(Some(req)) && encoded(out, req) == out + input),
{
    lemma_decode_splits_input(input);
    let req = decoded(input)->Ok_0->Some_0;
    assert(req.data + rest_after(input) =~= req.data);
}

} // verus!
