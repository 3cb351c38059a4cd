//! The request-head parser this library builds on, and the shape in which
//! its report reaches the verified code.

use vstd::prelude::*;
use httparse::{Request, Status, EMPTY_HEADER};

verus! {

/// Where a string that the parser borrowed lies in memory: the address of
/// its first byte and its length in bytes.
#[derive(Clone, Copy, Debug, PartialEq, Eq, Structural)]
pub struct Located {
    pub addr: usize,
    pub len: usize,
}

/// A range of offsets, `start` up to but not including `end`, counted from
/// the front of the parsed bytes. Nothing says yet that it lies inside them.
pub struct Span {
    pub start: int,
    pub end: int,
}

impl Located {
    /// The offsets of this string when the parsed bytes begin at `base`.
    pub open spec fn span(self, base: usize) -> Span {
        Span { start: self.addr - base, end: self.addr - base + self.len }
    }
}

/// The offsets of a header's name and value when the parsed bytes begin at
/// `base`.
pub open spec fn field_span(field: (Located, Located), base: usize) -> (Span, Span) {
    (field.0.span(base), field.1.span(base))
}

/// What the parser reports about the front of a byte buffer.
pub enum Parsed {
    /// A whole request head was found: the number of bytes it occupies, the
    /// address at which the parsed bytes begin, where the method and the path
    /// lie, the minor version digit, and where each header's name and value
    /// lie, in the order they appear.
    Complete(usize, usize, Located, Located, u8, Vec<(Located, Located)>),
    /// The bytes so far are acceptable but the head has not ended yet.
    Partial,
    /// The bytes cannot be the start of a request; the text says why.
    Failed(String),
}

/// `Parsed` with every place written as offsets into the parsed bytes.
pub enum ParsedView {
    Complete(usize, Span, Span, u8, Seq<(Span, Span)>),
    Partial,
    Failed(Seq<char>),
}

impl View for Parsed {
    type V = ParsedView;

    open spec fn view(&self) -> ParsedView {
        match *self {
            Parsed::Complete(n, base, m, p, v, hs) => ParsedView::Complete(
                n,
                m.span(base),
                p.span(base),
                v,
                Seq::new(hs@.len(), |i: int| field_span(hs@[i], base)),
            ),
            Parsed::Partial => ParsedView::Partial,
            Parsed::Failed(msg) => ParsedView::Failed(msg@),
        }
    }
}

/// The report of `httparse::Request::parse` on `input` when it is given room
/// for `capacity` header fields, with every string it borrows from the input
/// written as its offsets there.
pub uninterp spec fn httparse_request(input: Seq<u8>, capacity: usize) -> ParsedView;

/// Runs `httparse::Request::parse` over `buf` with room for `capacity`
/// headers; the bound on `capacity` keeps the room allocatable. Trusted: the
/// report, read as offsets into `buf`, depends on the bytes and the capacity
/// alone. Nothing is assumed about what the report says; in particular the
/// strings are not assumed to lie inside `buf`.
#[verifier::external_body]
pub(crate) fn parse_head(buf: &[u8], capacity: usize) -> (parsed: Parsed)
    requires
        capacity <= u16::MAX,
    ensures
        parsed@ == httparse_request(buf@, capacity),
{
    let mut slots = vec![EMPTY_HEADER; capacity];
    let mut req = Request::new(&mut slots);
    let at = |part: &[u8]| Located { addr: part.as_ptr() as usize, len: part.len() };
    match req.parse(buf) {
        Err(e) => Parsed::Failed(format!("failed to parse http request: {:?}", e)),
        Ok(Status::Partial) => Parsed::Partial,
        Ok(Status::Complete(n)) => Parsed::Complete(
            n, buf.as_ptr() as usize, at(req.method.unwrap().as_bytes()), at(req.path.unwrap().as_bytes()),
            req.version.unwrap(), req.headers.iter().map(|h| (at(h.name.as_bytes()), at(h.value))).collect()
        )
    }
}

} // verus!
