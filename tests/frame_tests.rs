use codefuse::dispatcher::Dispatcher;
use codefuse::frame::{encode_frame, read_frame, read_header, read_header_line, FrameError, HeaderLine};

#[test]
fn encode_frame_announces_body_length() {
    let framed = encode_frame(b"{\"a\":1}");
    assert_eq!(framed, b"Content-Length: 7\r\n\r\n{\"a\":1}".to_vec());
}

#[test]
fn encode_frame_of_empty_body() {
    assert_eq!(encode_frame(b""), b"Content-Length: 0\r\n\r\n".to_vec());
}

#[test]
fn format_lsp_message_counts_bytes_not_chars() {
    let body = "{\"s\":\"\u{00e9}\u{4e2d}\"}";
    let framed = Dispatcher::<u8>::format_lsp_message(body);
    let expected = format!("Content-Length: {}\r\n\r\n{}", body.len(), body);
    assert_eq!(body.len(), 13);
    assert_eq!(framed, expected.into_bytes());
}

#[test]
fn round_trip_gives_back_the_body() {
    let body = br#"{"jsonrpc":"2.0","id":1,"result":{"x":[1,2,3]}}"#;
    let mut stream = encode_frame(body);
    stream.extend_from_slice(b"Content-Length: 2\r\n\r\n{}");
    let frame = read_frame(&stream).unwrap();
    assert_eq!(frame.body, body.to_vec());
    assert_eq!(frame.consumed, encode_frame(body).len());
    let second = read_frame(&stream[frame.consumed..]).unwrap();
    assert_eq!(second.body, b"{}".to_vec());
}

#[test]
fn round_trip_is_json_equal() {
    let value: serde_json::Value =
        serde_json::from_str(r#"{"b":[true,null,2.5],"a":"é"}"#).unwrap();
    let body = serde_json::to_vec(&value).unwrap();
    let frame = read_frame(&encode_frame(&body)).unwrap();
    let back: serde_json::Value = serde_json::from_slice(&frame.body).unwrap();
    assert_eq!(back, value);
}

#[test]
fn header_name_is_case_insensitive_and_others_are_ignored() {
    let stream = b"content-type: application/vscode-jsonrpc\r\nCONTENT-LENGTH:  2 \r\n\r\n{}";
    let frame = read_frame(stream).unwrap();
    assert_eq!(frame.body, b"{}".to_vec());
    assert_eq!(frame.consumed, stream.len());
}

#[test]
fn last_content_length_wins() {
    let stream = b"Content-Length: 9\r\nContent-Length: 2\r\n\r\n[]";
    assert_eq!(read_header(stream), Ok((2, stream.len() - 2)));
}

#[test]
fn missing_content_length_is_bad_header() {
    assert_eq!(read_frame(b"X-Other: 1\r\n\r\n{}").err(), Some(FrameError::BadHeader));
    assert_eq!(read_frame(b"\r\n{}").err(), Some(FrameError::BadHeader));
}

#[test]
fn unparsable_length_is_bad_header() {
    assert_eq!(read_frame(b"Content-Length: abc\r\n\r\n{}").err(), Some(FrameError::BadHeader));
    assert_eq!(read_frame(b"Content-Length: -2\r\n\r\n{}").err(), Some(FrameError::BadHeader));
    assert_eq!(read_frame(b"Content-Length: \r\n\r\n{}").err(), Some(FrameError::BadHeader));
    assert_eq!(
        read_frame(b"Content-Length: 99999999999999999999999\r\n\r\n{}").err(),
        Some(FrameError::BadHeader)
    );
}

#[test]
fn short_stream_is_truncated() {
    assert_eq!(read_frame(b"Content-Length: 10\r\n\r\n{}").err(), Some(FrameError::Truncated));
    assert_eq!(read_frame(b"Content-Length: 2\r\n").err(), Some(FrameError::Truncated));
    assert_eq!(read_frame(b"").err(), Some(FrameError::Truncated));
}

#[test]
fn body_that_is_not_json_is_bad_json() {
    assert_eq!(read_frame(b"Content-Length: 2\r\n\r\n{x").err(), Some(FrameError::BadJson));
    assert_eq!(read_frame(b"Content-Length: 3\r\n\r\n\"\xff\"").err(), Some(FrameError::BadJson));
}

#[test]
fn header_lines_are_read_one_by_one() {
    assert_eq!(read_header_line(b"Content-Length: 42"), HeaderLine::Length(42));
    assert_eq!(read_header_line(b"Content-Length: 4x"), HeaderLine::BadLength);
    assert_eq!(read_header_line(b"Content-Type: text"), HeaderLine::Other);
    assert_eq!(read_header_line(b"no colon here"), HeaderLine::Other);
    assert_eq!(
        read_header_line(b"Content-Length: 18446744073709551615"),
        HeaderLine::Length(usize::MAX)
    );
}
