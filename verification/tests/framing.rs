use relay::parser::{Located, Parsed};
use relay::request::{decode, encode, frame, locate, locate_fields, DecodeError, Version, MAX_HEADERS};
use relay::slice::ByteSlice;
use tokio_core::io::EasyBuf;

fn buffer(bytes: &[u8]) -> EasyBuf {
    EasyBuf::from(bytes.to_vec())
}

fn request_with_headers(count: usize) -> Vec<u8> {
    let mut bytes = b"GET / HTTP/1.1\r\n".to_vec();
    for i in 0..count {
        bytes.extend_from_slice(format!("X-Field-{}: {}\r\n", i, i).as_bytes());
    }
    bytes.extend_from_slice(b"\r\n");
    bytes
}

#[test]
fn decode_takes_exactly_the_head_and_leaves_the_rest() {
    let head = b"GET /index.html HTTP/1.1\r\nHost: example.com\r\n\r\n";
    let mut input = head.to_vec();
    input.extend_from_slice(b"trailing bytes");
    let mut buf = buffer(&input);
    let mut out = Vec::new();
    let req = decode(&mut buf).unwrap().unwrap();
    assert_eq!(buf.as_slice(), b"trailing bytes");
    assert_eq!(req.method(), "GET");
    assert_eq!(req.path(), "/index.html");
    assert_eq!(req.version(), Version::Http11);
    assert_eq!(req.header_count(), 1);
    let (name, value) = req.header(0).unwrap();
    assert_eq!(name, b"Host");
    assert_eq!(value, b"example.com");
    assert!(req.header(1).is_none());
    encode(req, &mut out);
    assert_eq!(out.len(), 47);
    assert_eq!(out, head.to_vec());
}

#[test]
fn decode_with_nothing_after_the_head_empties_the_buffer() {
    let mut buf = buffer(b"GET / HTTP/1.1\r\nHost: a\r\n\r\n");
    let req = decode(&mut buf).unwrap().unwrap();
    assert_eq!(buf.len(), 0);
    assert_eq!(req.method(), "GET");
    assert_eq!(req.path(), "/");
}

#[test]
fn decode_of_http_1_0_reports_that_version() {
    let mut buf = buffer(b"POST /submit HTTP/1.0\r\n\r\n");
    let req = decode(&mut buf).unwrap().unwrap();
    assert_eq!(req.version(), Version::Http10);
    assert_eq!(req.method(), "POST");
    assert_eq!(req.path(), "/submit");
    assert_eq!(req.header_count(), 0);
}

#[test]
fn decode_skips_blank_lines_before_the_request_line() {
    let mut buf = buffer(b"\r\n\r\nGET /a HTTP/1.1\r\n\r\nrest");
    let req = decode(&mut buf).unwrap().unwrap();
    assert_eq!(req.method(), "GET");
    assert_eq!(req.path(), "/a");
    assert_eq!(buf.as_slice(), b"rest");
}

#[test]
fn decode_of_a_prefix_is_incomplete_and_leaves_the_buffer() {
    let whole = b"GET /index.html HTTP/1.1\r\nHost: example.com\r\n\r\n";
    for cut in 0..whole.len() {
        let mut buf = buffer(&whole[..cut]);
        let r = decode(&mut buf).unwrap();
        assert!(r.is_none(), "prefix of {} bytes", cut);
        assert_eq!(buf.as_slice(), &whole[..cut]);
    }
}

#[test]
fn decode_after_the_rest_arrives_matches_decoding_at_once() {
    let whole = b"GET /index.html HTTP/1.1\r\nHost: example.com\r\nContent-Length: 3\r\n\r\nabc";
    let mut at_once = buffer(whole);
    let expected = decode(&mut at_once).unwrap().unwrap();

    let mut fed = buffer(&whole[..30]);
    assert!(decode(&mut fed).unwrap().is_none());
    fed.get_mut().extend_from_slice(&whole[30..]);
    let got = decode(&mut fed).unwrap().unwrap();

    assert_eq!(got.method(), expected.method());
    assert_eq!(got.path(), expected.path());
    assert_eq!(got.version(), expected.version());
    assert_eq!(got.header_count(), expected.header_count());
    assert_eq!(got.header(1), expected.header(1));
    assert_eq!(fed.as_slice(), at_once.as_slice());
    assert_eq!(fed.as_slice(), b"abc");
    let mut a = Vec::new();
    let mut b = Vec::new();
    encode(got, &mut a);
    encode(expected, &mut b);
    assert_eq!(a, b);
}

#[test]
fn encode_reproduces_the_decoded_bytes() {
    let whole = b"PUT /thing HTTP/1.1\r\nHost: a\r\nAccept: */*\r\n\r\n";
    let mut buf = buffer(whole);
    let req = decode(&mut buf).unwrap().unwrap();
    let mut out = b"seen: ".to_vec();
    encode(req, &mut out);
    let mut expected = b"seen: ".to_vec();
    expected.extend_from_slice(whole);
    assert_eq!(out, expected);
}

#[test]
fn encode_includes_appended_body_bytes() {
    let mut buf = buffer(b"POST / HTTP/1.1\r\nContent-Length: 2\r\n\r\n");
    let mut req = decode(&mut buf).unwrap().unwrap();
    req.append_data(b"hi");
    assert_eq!(req.method(), "POST");
    assert_eq!(req.content_length(), Ok(Some(2)));
    let mut out = Vec::new();
    encode(req, &mut out);
    assert_eq!(out, b"POST / HTTP/1.1\r\nContent-Length: 2\r\n\r\nhi".to_vec());
}

#[test]
fn decode_accepts_the_most_headers_allowed() {
    assert_eq!(MAX_HEADERS, 16);
    let bytes = request_with_headers(16);
    let mut buf = buffer(&bytes);
    let req = decode(&mut buf).unwrap().unwrap();
    assert_eq!(req.header_count(), 16);
    let (name, value) = req.header(15).unwrap();
    assert_eq!(name, b"X-Field-15");
    assert_eq!(value, b"15");
    assert_eq!(buf.len(), 0);
}

#[test]
fn decode_rejects_more_headers_than_allowed() {
    let bytes = request_with_headers(17);
    let mut buf = buffer(&bytes);
    match decode(&mut buf) {
        Err(DecodeError::Parse(msg)) => {
            assert_eq!(msg, "failed to parse http request: TooManyHeaders");
        }
        other => panic!("expected a parse failure, got {:?}", other.map(|r| r.is_some())),
    }
    assert_eq!(buf.as_slice(), &bytes[..]);
}

#[test]
fn decode_rejects_malformed_bytes_and_leaves_the_buffer() {
    let bytes = b"GET / HTTP/2.7\r\n\r\n";
    let mut buf = buffer(bytes);
    match decode(&mut buf) {
        Err(DecodeError::Parse(msg)) => {
            assert_eq!(msg, "failed to parse http request: Version");
        }
        other => panic!("expected a parse failure, got {:?}", other.map(|r| r.is_some())),
    }
    assert_eq!(buf.as_slice(), &bytes[..]);
}

const INPUT: &[u8] = b"GET / HTTP/1.1\r\nHost: a\r\n\r\n";
const BASE: usize = 0x1000;

fn at(start: usize, end: usize) -> Located {
    Located { addr: BASE + start, len: end - start }
}

fn complete(n: usize, m: Located, p: Located, v: u8, hs: Vec<(Located, Located)>) -> Parsed {
    Parsed::Complete(n, BASE, m, p, v, hs)
}

fn inconsistent(parsed: Parsed, input: &[u8]) -> bool {
    matches!(frame(parsed, input), Err(DecodeError::Inconsistent))
}

#[test]
fn locate_turns_addresses_into_offsets() {
    assert_eq!(locate(Located { addr: 0x1004, len: 3 }, 0x1000, 7), Some(ByteSlice { start: 4, end: 7 }));
    assert_eq!(locate(Located { addr: 0x1000, len: 0 }, 0x1000, 0), Some(ByteSlice { start: 0, end: 0 }));
    assert_eq!(locate(Located { addr: 0x1007, len: 0 }, 0x1000, 7), Some(ByteSlice { start: 7, end: 7 }));
    assert_eq!(locate(Located { addr: 0x1004, len: 4 }, 0x1000, 7), None);
    assert_eq!(locate(Located { addr: 0x1008, len: 0 }, 0x1000, 7), None);
    assert_eq!(locate(Located { addr: 0x0fff, len: 2 }, 0x1000, 7), None);
    assert_eq!(locate(Located { addr: usize::MAX, len: usize::MAX }, 0, usize::MAX), None);
}

#[test]
fn locate_fields_is_all_or_nothing() {
    let fields = vec![(at(0, 1), at(3, 4)), (at(6, 7), at(9, 10))];
    assert_eq!(
        locate_fields(&fields, BASE, 10),
        Some(vec![
            (ByteSlice { start: 0, end: 1 }, ByteSlice { start: 3, end: 4 }),
            (ByteSlice { start: 6, end: 7 }, ByteSlice { start: 9, end: 10 }),
        ])
    );
    assert_eq!(locate_fields(&fields, BASE, 9), None);
    assert_eq!(locate_fields(&fields, BASE + 1, 10), None);
    assert_eq!(locate_fields(&Vec::new(), BASE, 0), Some(Vec::new()));
}

#[test]
fn frame_passes_failures_and_partial_heads_on() {
    assert!(matches!(frame(Parsed::Partial, INPUT), Ok(None)));
    match frame(Parsed::Failed("bad".to_string()), INPUT) {
        Err(DecodeError::Parse(msg)) => assert_eq!(msg, "bad"),
        _ => panic!("expected the failure to be passed on"),
    }
}

#[test]
fn frame_accepts_a_head_inside_the_buffer() {
    let h = (at(16, 20), at(22, 23));
    let host = (ByteSlice { start: 16, end: 20 }, ByteSlice { start: 22, end: 23 });
    assert_eq!(INPUT.len(), 27);
    let head = frame(complete(27, at(0, 3), at(4, 5), 1, vec![h]), INPUT).unwrap().unwrap();
    assert_eq!(head.consumed, 27);
    assert_eq!(head.method, ByteSlice { start: 0, end: 3 });
    assert_eq!(head.path, ByteSlice { start: 4, end: 5 });
    assert_eq!(head.version, Version::Http11);
    assert_eq!(head.headers, vec![host]);
    let head = frame(complete(16, at(0, 3), at(4, 5), 0, vec![]), INPUT).unwrap().unwrap();
    assert_eq!(head.version, Version::Http10);
    assert_eq!(head.consumed, 16);
    let head = frame(complete(27, at(0, 3), at(4, 5), 1, vec![h; 16]), INPUT).unwrap().unwrap();
    assert_eq!(head.headers, vec![host; 16]);
}

#[test]
fn frame_rejects_unknown_versions() {
    assert!(matches!(
        frame(complete(18, at(0, 3), at(4, 5), 2, vec![]), INPUT),
        Err(DecodeError::UnsupportedVersion(2))
    ));
    assert!(matches!(
        frame(complete(18, at(0, 3), at(4, 5), 255, vec![]), INPUT),
        Err(DecodeError::UnsupportedVersion(255))
    ));
}

#[test]
fn frame_rejects_reports_that_leave_the_buffer() {
    let m = at(0, 3);
    let p = at(4, 5);
    let past = at(4, 19);
    let before = Located { addr: BASE - 1, len: 2 };
    assert!(inconsistent(complete(28, m, p, 1, vec![]), INPUT));
    assert!(inconsistent(complete(18, m, past, 1, vec![]), INPUT));
    assert!(inconsistent(complete(18, before, p, 1, vec![]), INPUT));
    assert!(inconsistent(complete(18, m, p, 1, vec![(m, past)]), INPUT));
    assert!(inconsistent(complete(18, m, p, 1, vec![(before, p)]), INPUT));
    assert!(inconsistent(complete(18, m, past, 7, vec![]), INPUT));
}

#[test]
fn frame_rejects_more_fields_than_allowed() {
    let h = (at(16, 20), at(22, 23));
    assert!(inconsistent(complete(27, at(0, 3), at(4, 5), 1, vec![h; 17]), INPUT));
}

#[test]
fn frame_rejects_a_method_or_path_that_is_not_text() {
    let input = b"G\xffT /\xc3 HTTP/1.1\r\n\r\n";
    assert_eq!(input.len(), 19);
    assert!(inconsistent(complete(19, at(0, 3), at(4, 5), 1, vec![]), input));
    assert!(inconsistent(complete(19, at(0, 1), at(4, 6), 1, vec![]), input));
    assert!(matches!(frame(complete(19, at(0, 1), at(4, 5), 1, vec![]), input), Ok(Some(_))));
}

#[test]
fn decode_keeps_a_path_that_is_not_ascii() {
    let mut buf = buffer("GET /caf\u{e9} HTTP/1.1\r\n\r\n".as_bytes());
    let req = decode(&mut buf).unwrap().unwrap();
    assert_eq!(req.path(), "/caf\u{e9}");
    assert_eq!(req.method(), "GET");
}

#[test]
fn decode_finds_an_empty_header_value() {
    let mut buf = buffer(b"GET / HTTP/1.1\r\nX-Empty:\r\nHost: a\r\n\r\n");
    let req = decode(&mut buf).unwrap().unwrap();
    assert_eq!(req.header_count(), 2);
    assert_eq!(req.header(0), Some((&b"X-Empty"[..], &b""[..])));
    assert_eq!(req.header(1), Some((&b"Host"[..], &b"a"[..])));
}
