//! Queries over the header fields of a framed request.

use vstd::prelude::*;
use crate::slice::ByteSlice;

verus! {

/// Why a header value could not be read as a length.
#[derive(Clone, Copy, Debug, PartialEq, Eq, Structural)]
pub enum HeaderError {
    /// The `Content-Length` value is not a run of decimal digits that fits
    /// the machine word.
    InvalidLength,
}

/// ASCII lower-casing of one byte.
pub open spec fn lower(b: u8) -> u8 {
    if 65 <= b && b <= 90 {
        (b + 32) as u8
    } else {
        b
    }
}

/// Two byte strings are equal up to ASCII letter case.
pub open spec fn eq_ignore_case(a: Seq<u8>, b: Seq<u8>) -> bool {
    a.len() == b.len() && forall|i: int| 0 <= i < a.len() ==> lower(#[trigger] a[i]) == lower(b[i])
}

/// `needle` occurs somewhere in `hay`, up to ASCII letter case.
pub open spec fn contains_ignore_case(hay: Seq<u8>, needle: Seq<u8>) -> bool {
    exists|k: int|
        0 <= k && k + needle.len() <= hay.len() && eq_ignore_case(
            #[trigger] hay.subrange(k, k + needle.len()),
            needle,
        )
}

/// The bytes are a non-empty run of ASCII decimal digits.
pub open spec fn is_digits(s: Seq<u8>) -> bool {
    s.len() > 0 && forall|i: int| 0 <= i < s.len() ==> 48 <= #[trigger] s[i] <= 57
}

/// The number that a run of decimal digits writes.
pub open spec fn decimal(s: Seq<u8>) -> nat
    decreases s.len(),
{
    if s.len() == 0 {
        0
    } else {
        decimal(s.drop_last()) * 10 + (s.last() - 48) as nat
    }
}

/// The header name `content-length`.
pub open spec fn content_length_name() -> Seq<u8> {
    seq![99u8, 111u8, 110u8, 116u8, 101u8, 110u8, 116u8, 45u8, 108u8, 101u8, 110u8, 103u8, 116u8, 104u8]
}

/// The header name `transfer-encoding`.
pub open spec fn transfer_encoding_name() -> Seq<u8> {
    seq![
        116u8, 114u8, 97u8, 110u8, 115u8, 102u8, 101u8, 114u8, 45u8, 101u8, 110u8, 99u8, 111u8,
        100u8, 105u8, 110u8, 103u8,
    ]
}

/// The coding name `chunked`.
pub open spec fn chunked_token() -> Seq<u8> {
    seq![99u8, 104u8, 117u8, 110u8, 107u8, 101u8, 100u8]
}

/// The value of the first header in `headers` whose name is `name` up to
/// letter case, if there is one.
pub open spec fn lookup(data: Seq<u8>, headers: Seq<(ByteSlice, ByteSlice)>, name: Seq<u8>) -> Option<Seq<u8>>
    decreases headers.len(),
{
    if headers.len() == 0 {
        None
    } else if eq_ignore_case(headers[0].0.of(data), name) {
        Some(headers[0].1.of(data))
    } else {
        lookup(data, headers.drop_first(), name)
    }
}

/// What the `Content-Length` header says: nothing when it is absent, its
/// number when its value is one, an error otherwise.
pub open spec fn content_length_of(data: Seq<u8>, headers: Seq<(ByteSlice, ByteSlice)>) -> Result<Option<usize>, HeaderError> {
    match lookup(data, headers, content_length_name()) {
        None => Ok(None),
        Some(v) => if is_digits(v) && decimal(v) <= usize::MAX {
            Ok(Some(decimal(v) as usize))
        } else {
            Err(HeaderError::InvalidLength)
        },
    }
}

/// Some `Transfer-Encoding` header has a value that mentions `chunked`.
pub open spec fn chunked_of(data: Seq<u8>, headers: Seq<(ByteSlice, ByteSlice)>) -> bool {
    exists|i: int|
        0 <= i < headers.len() && eq_ignore_case(
            (#[trigger] headers[i]).0.of(data),
            transfer_encoding_name(),
        ) && contains_ignore_case(headers[i].1.of(data), chunked_token())
}

/// Every header's name and value lie inside a buffer of `len` bytes.
pub open spec fn headers_fit(headers: Seq<(ByteSlice, ByteSlice)>, len: nat) -> bool {
    forall|i: int| 0 <= i < headers.len() ==> (#[trigger] headers[i]).0.fits(len) && headers[i].1.fits(len)
}

fn to_lower(b: u8) -> (r: u8)
    ensures
        r == lower(b),
{
    if 65 <= b && b <= 90 {
        b + 32
    } else {
        b
    }
}

/// Compares two byte strings without regard to ASCII letter case.
pub fn bytes_eq_ignore_case(a: &[u8], b: &[u8]) -> (same: bool)
    ensures
        same == eq_ignore_case(a@, b@),
{
    if a.len() != b.len() {
        return false;
    }
    let mut i: usize = 0;
    while i < a.len()
        invariant
            a@.len() == b@.len(),
            i <= a@.len(),
            forall|j: int| 0 <= j < i ==> lower(#[trigger] a@[j]) == lower(b@[j]),
        decreases a.len() - i,
    {
        if to_lower(a[i]) != to_lower(b[i]) {
            return false;
        }
        i += 1;
    }
    true
}

/// Searches `hay` for `needle` without regard to ASCII letter case.
pub fn bytes_contain_ignore_case(hay: &[u8], needle: &[u8]) -> (found: bool)
    ensures
        found == contains_ignore_case(hay@, needle@),
{
    if needle.len() > hay.len() {
        return false;
    }
    let last: usize = hay.len() - needle.len();
    let mut k: usize = 0;
    while k <= last
        invariant
            hay@.len() <= usize::MAX,
            last + needle@.len() == hay@.len(),
            k <= last + 1,
            forall|j: int| 0 <= j < k ==> !eq_ignore_case(#[trigger] hay@.subrange(j, j + needle@.len()), needle@),
        decreases last + 1 - k,
    {
        let window = vstd::slice::slice_subrange(hay, k, k + needle.len());
        if bytes_eq_ignore_case(window, needle) {
            return true;
        }
        k += 1;
    }
    false
}

/// Reads a run of decimal digits as a number.
pub fn parse_decimal(s: &[u8]) -> (r: Option<usize>)
    ensures
        r == if is_digits(s@) && decimal(s@) <= usize::MAX {
            Some(decimal(s@) as usize)
        } else {
            None
        },
{
    if s.len() == 0 {
        return None;
    }
    let mut acc: usize = 0;
    let mut i: usize = 0;
    while i < s.len()
        invariant
            i <= s@.len(),
            forall|j: int| 0 <= j < i ==> 48 <= #[trigger] s@[j] <= 57,
            acc == decimal(s@.take(i as int)),
        decreases s.len() - i,
    {
        let b: u8 = s[i];
        if b < 48 || b > 57 {
            return None;
        }
        let d: usize = (b - 48) as usize;
        proof {
            assert(s@.take(i + 1).drop_last() == s@.take(i as int));
            lemma_decimal_grows(s@, i + 1);
        }
        if acc > (usize::MAX - d) / 10 {
            return None;
        }
        acc = acc * 10 + d;
        i += 1;
    }
    proof {
        assert(s@.take(s@.len() as int) == s@);
    }
    Some(acc)
}

/// A number is no smaller than the number written by any of its prefixes.
pub proof fn lemma_decimal_grows(s: Seq<u8>, k: int)
    requires
        0 <= k <= s.len(),
    ensures
        decimal(s.take(k)) <= decimal(s),
    decreases s.len(),
{
    if k < s.len() {
        assert(s.drop_last().take(k) == s.take(k));
        lemma_decimal_grows(s.drop_last(), k);
    } else {
        assert(s.take(k) == s);
    }
}

/// Whether every header's name and value lie inside a buffer of `len` bytes.
pub fn check_headers_fit(headers: &Vec<(ByteSlice, ByteSlice)>, len: usize) -> (ok: bool)
    ensures
        ok == headers_fit(headers@, len as nat),
{
    let mut i: usize = 0;
    while i < headers.len()
        invariant
            i <= headers@.len(),
            forall|j: int| 0 <= j < i ==> (#[trigger] headers@[j]).0.fits(len as nat) && headers@[j].1.fits(len as nat),
        decreases headers.len() - i,
    {
        if !headers[i].0.fits_in(len) || !headers[i].1.fits_in(len) {
            return false;
        }
        i += 1;
    }
    true
}

/// Finds the value of the first header called `name`, ignoring letter case.
pub fn lookup_value<'a>(data: &'a [u8], headers: &Vec<(ByteSlice, ByteSlice)>, name: &[u8]) -> (r: Option<&'a [u8]>)
    requires
        headers_fit(headers@, data@.len()),
    ensures
        match r {
            Some(v) => lookup(data@, headers@, name@) == Some(v@),
            None => lookup(data@, headers@, name@) is None,
        },
{
    let mut i: usize = 0;
    assert(headers@.skip(0) == headers@);
    while i < headers.len()
        invariant
            i <= headers@.len(),
            headers_fit(headers@, data@.len()),
            lookup(data@, headers@, name@) == lookup(data@, headers@.skip(i as int), name@),
        decreases headers.len() - i,
    {
        let (n, v) = headers[i];
        proof {
            assert(headers@.skip(i as int)[0] == headers@[i as int]);
            assert(headers@.skip(i as int).drop_first() == headers@.skip(i + 1));
        }
        let field = vstd::slice::slice_subrange(data, n.start, n.end);
        if bytes_eq_ignore_case(field, name) {
            return Some(vstd::slice::slice_subrange(data, v.start, v.end));
        }
        i += 1;
    }
    None
}

/// Reads the `Content-Length` header.
pub fn content_length_in(data: &[u8], headers: &Vec<(ByteSlice, ByteSlice)>) -> (r: Result<Option<usize>, HeaderError>)
    requires
        headers_fit(headers@, data@.len()),
    ensures
        r == content_length_of(data@, headers@),
{
    let name: Vec<u8> = vec![99u8, 111u8, 110u8, 116u8, 101u8, 110u8, 116u8, 45u8, 108u8, 101u8, 110u8, 103u8, 116u8, 104u8];
    assert(name@ == content_length_name());
    match lookup_value(data, headers, name.as_slice()) {
        None => Ok(None),
        Some(v) => match parse_decimal(v) {
            Some(n) => Ok(Some(n)),
            None => Err(HeaderError::InvalidLength),
        },
    }
}

/// Tells whether some `Transfer-Encoding` header mentions `chunked`.
pub fn chunked_in(data: &[u8], headers: &Vec<(ByteSlice, ByteSlice)>) -> (r: bool)
    requires
        headers_fit(headers@, data@.len()),
    ensures
        r == chunked_of(data@, headers@),
{
    let name: Vec<u8> = vec![
        116u8, 114u8, 97u8, 110u8, 115u8, 102u8, 101u8, 114u8, 45u8, 101u8, 110u8, 99u8, 111u8,
        100u8, 105u8, 110u8, 103u8,
    ];
    let token: Vec<u8> = vec![99u8, 104u8, 117u8, 110u8, 107u8, 101u8, 100u8];
    assert(name@ == transfer_encoding_name());
    assert(token@ == chunked_token());
    let mut i: usize = 0;
    while i < headers.len()
        invariant
            i <= headers@.len(),
            headers_fit(headers@, data@.len()),
            name@ == transfer_encoding_name(),
            token@ == chunked_token(),
            forall|j: int|
                0 <= j < i ==> !(eq_ignore_case((#[trigger] headers@[j]).0.of(data@), transfer_encoding_name())
                    && contains_ignore_case(headers@[j].1.of(data@), chunked_token())),
        decreases headers.len() - i,
    {
        let (n, v) = headers[i];
        let field = vstd::slice::slice_subrange(data, n.start, n.end);
        if bytes_eq_ignore_case(field, name.as_slice()) {
            let value = vstd::slice::slice_subrange(data, v.start, v.end);
            if bytes_contain_ignore_case(value, token.as_slice()) {
                return true;
            }
        }
        i += 1;
    }
    false
}

/// The header at position `i` is called `name`, up to letter case.
pub open spec fn named(data: Seq<u8>, headers: Seq<(ByteSlice, ByteSlice)>, i: int, name: Seq<u8>) -> bool {
    eq_ignore_case(headers[i].0.of(data), name)
}

/// A lookup finds nothing exactly when no header has the name, and otherwise
/// gives the value of the first header that has it, whatever follows.
pub proof fn lemma_lookup_first(data: Seq<u8>, headers: Seq<(ByteSlice, ByteSlice)>, name: Seq<u8>)
    ensures
        match lookup(data, headers, name) {
            None => forall|i: int| 0 <= i < headers.len() ==> !named(data, headers, i, name),
            Some(v) => exists|i: int|
                0 <= i < headers.len() && #[trigger] named(data, headers, i, name) && v == headers[i].1.of(data)
                    && forall|j: int| 0 <= j < i ==> !named(data, headers, j, name),
        },
    decreases headers.len(),
{
    if headers.len() == 0 {
    } else if eq_ignore_case(headers[0].0.of(data), name) {
        assert(named(data, headers, 0, name));
    } else {
        let rest = headers.drop_first();
        lemma_lookup_first(data, rest, name);
        assert forall|i: int| 0 <= i < rest.len() implies named(data, rest, i, name) == named(
            data,
            headers,
            i + 1,
            name,
        ) by {
            assert(rest[i] == headers[i + 1]);
        }
        match lookup(data, rest, name) {
            None => {
                assert forall|i: int| 0 <= i < headers.len() implies !named(data, headers, i, name) by {
                    if i > 0 {
                        assert(!named(data, rest, i - 1, name));
                    }
                }
            },
            Some(v) => {
                let k = choose|i: int|
                    0 <= i < rest.len() && #[trigger] named(data, rest, i, name) && v == rest[i].1.of(data)
                        && forall|j: int| 0 <= j < i ==> !named(data, rest, j, name);
                assert(rest[k] == headers[k + 1]);
                assert forall|j: int| 0 <= j < k + 1 implies !named(data, headers, j, name) by {
                    if j > 0 {
                        assert(!named(data, rest, j - 1, name));
                    }
                }
                assert(named(data, headers, k + 1, name));
            },
        }
    }
}

/// Without a `Content-Length` header the length is unknown, and without a
/// `Transfer-Encoding` header nothing is chunked; neither is an error.
pub proof fn lemma_absent_headers(data: Seq<u8>, headers: Seq<(ByteSlice, ByteSlice)>)
    ensures
        (forall|i: int| 0 <= i < headers.len() ==> !named(data, headers, i, content_length_name()))
            ==> content_length_of(data, headers) == Ok::<Option<usize>, HeaderError>(None),
        (forall|i: int| 0 <= i < headers.len() ==> !named(data, headers, i, transfer_encoding_name()))
            ==> !chunked_of(data, headers),
{
    lemma_lookup_first(data, headers, content_length_name());
    if chunked_of(data, headers) {
        let i = choose|i: int|
            0 <= i < headers.len() && eq_ignore_case(
                (#[trigger] headers[i]).0.of(data),
                transfer_encoding_name(),
            ) && contains_ignore_case(headers[i].1.of(data), chunked_token());
        assert(named(data, headers, i, transfer_encoding_name()));
    }
}

} // verus!
