use relay::headers::{
    bytes_contain_ignore_case, bytes_eq_ignore_case, check_headers_fit, chunked_in,
    content_length_in, lookup_value, parse_decimal, HeaderError,
};
use relay::request::{decode, Request};
use relay::slice::ByteSlice;
use tokio_core::io::EasyBuf;

fn request(bytes: &[u8]) -> Request {
    let mut buf = EasyBuf::from(bytes.to_vec());
    decode(&mut buf).unwrap().unwrap()
}

#[test]
fn content_length_reads_the_number() {
    let req = request(b"POST / HTTP/1.1\r\nHost: a\r\nContent-Length: 42\r\n\r\n");
    assert_eq!(req.content_length(), Ok(Some(42)));
}

#[test]
fn content_length_is_unknown_without_the_header() {
    let req = request(b"GET / HTTP/1.1\r\nHost: a\r\n\r\n");
    assert_eq!(req.content_length(), Ok(None));
    let req = request(b"GET / HTTP/1.1\r\n\r\n");
    assert_eq!(req.content_length(), Ok(None));
}

#[test]
fn content_length_rejects_what_is_no_number() {
    let req = request(b"POST / HTTP/1.1\r\nContent-Length: forty\r\n\r\n");
    assert_eq!(req.content_length(), Err(HeaderError::InvalidLength));
    let req = request(b"POST / HTTP/1.1\r\nContent-Length: 4 2\r\n\r\n");
    assert_eq!(req.content_length(), Err(HeaderError::InvalidLength));
    let req = request(b"POST / HTTP/1.1\r\nContent-Length: -1\r\n\r\n");
    assert_eq!(req.content_length(), Err(HeaderError::InvalidLength));
    let req = request(b"POST / HTTP/1.1\r\nContent-Length:\r\n\r\n");
    assert_eq!(req.content_length(), Err(HeaderError::InvalidLength));
    let req = request(b"POST / HTTP/1.1\r\nContent-Length: 99999999999999999999999999\r\n\r\n");
    assert_eq!(req.content_length(), Err(HeaderError::InvalidLength));
}

#[test]
fn content_length_ignores_the_case_of_the_name_and_takes_the_first() {
    let req = request(b"POST / HTTP/1.1\r\ncontent-length: 7\r\nContent-Length: 9\r\n\r\n");
    assert_eq!(req.content_length(), Ok(Some(7)));
    let req = request(b"POST / HTTP/1.1\r\nCONTENT-LENGTH: 0\r\n\r\n");
    assert_eq!(req.content_length(), Ok(Some(0)));
}

#[test]
fn chunked_is_found_in_any_letter_case() {
    let req = request(b"POST / HTTP/1.1\r\nTransfer-Encoding: chunked\r\n\r\n");
    assert!(req.transfer_encoding_chunked());
    let req = request(b"POST / HTTP/1.1\r\nTransfer-Encoding: Chunked\r\n\r\n");
    assert!(req.transfer_encoding_chunked());
    let req = request(b"POST / HTTP/1.1\r\ntransfer-encoding: gzip, CHUNKED\r\n\r\n");
    assert!(req.transfer_encoding_chunked());
}

#[test]
fn chunked_is_false_without_the_header_or_the_token() {
    let req = request(b"GET / HTTP/1.1\r\nHost: a\r\n\r\n");
    assert!(!req.transfer_encoding_chunked());
    let req = request(b"GET / HTTP/1.1\r\nTransfer-Encoding: gzip\r\n\r\n");
    assert!(!req.transfer_encoding_chunked());
    let req = request(b"GET / HTTP/1.1\r\nAccept: chunked\r\n\r\n");
    assert!(!req.transfer_encoding_chunked());
}

#[test]
fn chunked_looks_at_every_transfer_encoding_header() {
    let req = request(b"POST / HTTP/1.1\r\nTransfer-Encoding: gzip\r\nTransfer-Encoding: chunked\r\n\r\n");
    assert!(req.transfer_encoding_chunked());
}

#[test]
fn queries_still_hold_after_appending_body_bytes() {
    let mut req = request(b"POST / HTTP/1.1\r\nContent-Length: 5\r\nTransfer-Encoding: chunked\r\n\r\n");
    req.append_data(b"hello");
    assert_eq!(req.content_length(), Ok(Some(5)));
    assert!(req.transfer_encoding_chunked());
    assert_eq!(req.path(), "/");
}

#[test]
fn parse_decimal_gives_exact_values() {
    assert_eq!(parse_decimal(b"0"), Some(0));
    assert_eq!(parse_decimal(b"42"), Some(42));
    assert_eq!(parse_decimal(b"007"), Some(7));
    assert_eq!(parse_decimal(b"1234567890"), Some(1234567890));
    assert_eq!(parse_decimal(usize::MAX.to_string().as_bytes()), Some(usize::MAX));
}

#[test]
fn parse_decimal_rejects_everything_else() {
    assert_eq!(parse_decimal(b""), None);
    assert_eq!(parse_decimal(b"+1"), None);
    assert_eq!(parse_decimal(b"1a"), None);
    assert_eq!(parse_decimal(b" 1"), None);
    let mut too_big = usize::MAX.to_string().into_bytes();
    too_big.push(b'0');
    assert_eq!(parse_decimal(&too_big), None);
    let last = too_big.len() - 2;
    too_big.truncate(last + 1);
    too_big[last] += 1;
    assert_eq!(parse_decimal(&too_big), None);
}

#[test]
fn comparison_ignores_ascii_case_only() {
    assert!(bytes_eq_ignore_case(b"Content-Length", b"content-length"));
    assert!(bytes_eq_ignore_case(b"", b""));
    assert!(!bytes_eq_ignore_case(b"Content-Length", b"content-lengt"));
    assert!(!bytes_eq_ignore_case(b"Content_Length", b"content-length"));
    assert!(!bytes_eq_ignore_case(b"@", b"`"));
    assert!(!bytes_eq_ignore_case(b"[", b"{"));
}

#[test]
fn search_ignores_ascii_case() {
    assert!(bytes_contain_ignore_case(b"gzip, Chunked", b"chunked"));
    assert!(bytes_contain_ignore_case(b"chunked", b"chunked"));
    assert!(bytes_contain_ignore_case(b"anything", b""));
    assert!(bytes_contain_ignore_case(b"", b""));
    assert!(!bytes_contain_ignore_case(b"chunke", b"chunked"));
    assert!(!bytes_contain_ignore_case(b"", b"chunked"));
    assert!(!bytes_contain_ignore_case(b"chunk ed", b"chunked"));
}

#[test]
fn lookup_finds_the_first_header_of_that_name() {
    let data = b"A: 1\r\nB: 2\r\na: 3\r\n";
    let at = |start: usize, end: usize| ByteSlice { start, end };
    let headers = vec![(at(0, 1), at(3, 4)), (at(6, 7), at(9, 10)), (at(12, 13), at(15, 16))];
    assert!(check_headers_fit(&headers, data.len()));
    assert!(!check_headers_fit(&headers, 15));
    assert_eq!(lookup_value(data, &headers, b"a"), Some(&b"1"[..]));
    assert_eq!(lookup_value(data, &headers, b"b"), Some(&b"2"[..]));
    assert_eq!(lookup_value(data, &headers, b"c"), None);
    assert_eq!(content_length_in(data, &headers), Ok(None));
    assert!(!chunked_in(data, &headers));
}

#[test]
fn byte_slice_knows_its_bounds() {
    let s = ByteSlice { start: 3, end: 8 };
    assert!(s.fits_in(8));
    assert!(!s.fits_in(7));
    assert!(!ByteSlice { start: 8, end: 3 }.fits_in(100));
    assert!(ByteSlice { start: 0, end: 0 }.fits_in(0));
}
