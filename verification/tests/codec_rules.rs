use bytes::BytesMut;
use tower_lsp::codec::{
    decode_headers, number_of_digits, LanguageServerCodec, ParseError, ParseErrorKind, RawHeader,
};

fn header(name: &str, value: &[u8]) -> RawHeader {
    RawHeader { name: name.as_bytes().to_vec(), value: value.to_vec() }
}

#[test]
fn counts_digits() {
    assert_eq!(number_of_digits(0), 0);
    assert_eq!(number_of_digits(7), 1);
    assert_eq!(number_of_digits(10), 2);
    assert_eq!(number_of_digits(12345), 5);
    assert_eq!(number_of_digits(usize::MAX), usize::MAX.to_string().len());
}

#[test]
fn reads_content_length() {
    assert_eq!(decode_headers(&vec![header("Content-Length", b"42")]).unwrap(), 42);
    assert_eq!(decode_headers(&vec![header("Content-Length", b"+7")]).unwrap(), 7);
    // The last `Content-Length` wins; other headers are ignored.
    let hs = vec![header("Content-Length", b"1"), header("X-Other", b"x"), header("Content-Length", b"2")];
    assert_eq!(decode_headers(&hs).unwrap(), 2);
    assert!(matches!(decode_headers(&vec![]), Err(ParseError::MissingContentLength)));
    assert!(matches!(decode_headers(&vec![header("Content-Length", b"-1")]), Err(ParseError::InvalidContentLength(_))));
    assert!(matches!(decode_headers(&vec![header("Content-Length", b"")]), Err(ParseError::InvalidContentLength(_))));
    assert!(matches!(decode_headers(&vec![header("Content-Length", b"99999999999999999999999")]), Err(ParseError::InvalidContentLength(_))));
    assert!(matches!(decode_headers(&vec![header("Content-Length", &[0xff])]), Err(ParseError::Utf8(_))));
}

#[test]
fn checks_content_type() {
    let len = header("Content-Length", b"3");
    let ok = |v: &str| decode_headers(&vec![header("Content-Length", b"3"), header("Content-Type", v.as_bytes())]);
    assert_eq!(ok("a; charset=utf-8").unwrap(), 3);
    assert_eq!(ok("a;charset=utf8").unwrap(), 3);
    assert_eq!(ok("a; foo=bar;  charset=utf8  ").unwrap(), 3);
    assert_eq!(ok("a;\u{a0}charset=utf8").unwrap(), 3);
    assert!(matches!(ok("charset=utf8"), Err(ParseError::InvalidContentType)));
    assert!(matches!(ok("a; charset=UTF-8"), Err(ParseError::InvalidContentType)));
    assert!(matches!(ok("a; charset=latin1; charset=utf8"), Err(ParseError::InvalidContentType)));
    assert!(matches!(ok("a"), Err(ParseError::InvalidContentType)));
    drop(len);
}

#[test]
fn encodes_frames() {
    let codec = LanguageServerCodec::new();
    let mut dst = BytesMut::from("x");
    codec.encode_text("{}", &mut dst);
    assert_eq!(dst, BytesMut::from("xContent-Length: 2\r\n\r\n{}"));
    let mut dst = BytesMut::new();
    codec.encode_text("é", &mut dst);
    assert_eq!(dst, BytesMut::from("Content-Length: 2\r\n\r\né"));
}

#[test]
fn decodes_frame_text() {
    let mut codec = LanguageServerCodec::new();
    let mut buffer = BytesMut::from("Content-Length: 5\r\n\r\nhelloContent-Length: 1\r\n\r\n");
    assert_eq!(codec.decode_frame(&mut buffer).unwrap(), Some("hello".to_owned()));
    assert_eq!(buffer, BytesMut::from("Content-Length: 1\r\n\r\n"));
    // Headers read, body still missing: the headers are consumed.
    assert_eq!(codec.decode_frame(&mut buffer).unwrap(), None);
    assert_eq!(buffer, BytesMut::new());
    buffer.extend_from_slice(b"z");
    assert_eq!(codec.decode_frame(&mut buffer).unwrap(), Some("z".to_owned()));
}

#[test]
fn reports_header_and_utf8_errors() {
    let mut codec = LanguageServerCodec::new();
    let mut buffer = BytesMut::from("Bad Header\r\n\r\n");
    let err = codec.decode_frame(&mut buffer).unwrap_err();
    assert_eq!(err.error_kind(), ParseErrorKind::Headers);
    // Too many headers for the parser's room.
    let mut buffer = BytesMut::from("A: 1\r\nB: 2\r\nC: 3\r\n\r\n");
    assert!(matches!(codec.decode_frame(&mut buffer), Err(ParseError::Headers(_))));

    let mut codec = LanguageServerCodec::new();
    let mut buffer = BytesMut::from(&b"Content-Length: 1\r\n\r\n\xff"[..]);
    assert!(matches!(codec.decode_frame(&mut buffer), Err(ParseError::Utf8(_))));
    // The body stays, as does the awaited length.
    assert_eq!(buffer, BytesMut::from(&b"\xff"[..]));
    assert!(matches!(codec.decode_frame(&mut buffer), Err(ParseError::Utf8(_))));
}

#[test]
fn skips_to_next_message_after_bad_length() {
    let mut codec = LanguageServerCodec::new();
    let mut buffer = BytesMut::from("Content-Length: zz\r\n\r\ngarbageContent-Length: 2\r\n\r\n{}");
    assert!(matches!(codec.decode_frame(&mut buffer), Err(ParseError::InvalidContentLength(_))));
    assert_eq!(buffer, BytesMut::from("Content-Length: 2\r\n\r\n{}"));
    assert_eq!(codec.decode_frame(&mut buffer).unwrap(), Some("{}".to_owned()));
}

#[test]
fn describes_parse_errors() {
    assert_eq!(ParseError::InvalidContentType.to_text(), "unable to parse content type");
    assert_eq!(ParseError::MissingContentLength.to_text(), "missing required `Content-Length` header");
    let e = "x".parse::<usize>().unwrap_err();
    assert_eq!(ParseError::InvalidContentLength(e).to_text(), "unable to parse content length: invalid digit found in string");
    let e = serde_json::from_str::<serde_json::Value>("{").unwrap_err();
    let text = e.to_string();
    assert_eq!(ParseError::Body(e).to_text(), format!("unable to parse JSON body: {text}"));
}
