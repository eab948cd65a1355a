use mcp_stdio::{
    classify_header_line, encode_frame, finish_read_line, FrameHeaderReader, FrameHeaderStep,
    HeaderLine, IntErrorKind, StdioError, StdioErrorKind,
};

fn chars(s: &str) -> Vec<char> {
    s.chars().collect()
}

/// Splits a byte stream the way a line reader does: after each line feed.
fn split_lines(bytes: &[u8]) -> (Vec<String>, usize) {
    let mut lines = Vec::new();
    let mut start = 0;
    let mut i = 0;
    while i < bytes.len() {
        if bytes[i] == b'\n' {
            lines.push(String::from_utf8(bytes[start..=i].to_vec()).unwrap());
            start = i + 1;
        }
        i += 1;
    }
    (lines, start)
}

/// Feeds lines of `stream` to a fresh reader until it stops asking for
/// lines; gives what it said last and the rest of the stream.
fn read_header(stream: &[u8]) -> (Result<FrameHeaderStep, StdioError>, Vec<u8>) {
    let mut reader = FrameHeaderReader::new();
    let mut pos = 0;
    loop {
        let rest = &stream[pos..];
        match rest.iter().position(|b| *b == b'\n') {
            Some(end) => {
                let line = std::str::from_utf8(&rest[..=end]).unwrap();
                pos += end + 1;
                match reader.feed(Some(line)) {
                    Ok(FrameHeaderStep::NeedLine) => continue,
                    other => return (other, stream[pos..].to_vec()),
                }
            }
            None => return (reader.feed(None), Vec::new()),
        }
    }
}

#[test]
fn encode_frame_writes_content_length_header() {
    assert_eq!(encode_frame(b"hello"), b"Content-Length: 5\r\n\r\nhello".to_vec());
    assert_eq!(encode_frame(b""), b"Content-Length: 0\r\n\r\n".to_vec());
    let payload = vec![7u8; 1234];
    let framed = encode_frame(&payload);
    let mut expected = b"Content-Length: 1234\r\n\r\n".to_vec();
    expected.extend_from_slice(&payload);
    assert_eq!(framed, expected);
}

#[test]
fn encoded_frame_reads_back_through_header_reader() {
    for payload in [
        b"".to_vec(),
        b"x".to_vec(),
        b"{\"jsonrpc\":\"2.0\",\"id\":7,\"method\":\"initialize\"}".to_vec(),
        vec![b'\n'; 10],
        vec![0u8; 100_000],
    ] {
        let framed = encode_frame(&payload);
        let (lines, _) = split_lines(&framed[..framed.len() - payload.len()]);
        assert_eq!(lines.len(), 2);
        assert_eq!(lines[0], format!("Content-Length: {}\r\n", payload.len()));
        assert_eq!(lines[1], "\r\n");
        let (step, rest) = read_header(&framed);
        assert_eq!(step, Ok(FrameHeaderStep::ReadPayload(payload.len())));
        assert_eq!(rest, payload);
    }
}

#[test]
fn encoded_json_message_reads_back() {
    let message: serde_json::Value = serde_json::from_str(
        r#"{"jsonrpc":"2.0","id":7,"method":"initialize","params":{"protocolVersion":"2025-03-26","capabilities":{},"clientInfo":{"name":"runtime-tests","version":"0.1.0"}}}"#,
    )
    .unwrap();
    let body = serde_json::to_vec(&message).unwrap();
    let framed = encode_frame(&body);
    assert!(framed.starts_with(format!("Content-Length: {}\r\n\r\n", body.len()).as_bytes()));
    let (step, rest) = read_header(&framed);
    assert_eq!(step, Ok(FrameHeaderStep::ReadPayload(body.len())));
    let decoded: serde_json::Value = serde_json::from_slice(&rest).unwrap();
    assert_eq!(decoded, message);
    assert_eq!(decoded["jsonrpc"], serde_json::Value::String("2.0".to_string()));
}

#[test]
fn header_reader_uses_last_content_length_and_skips_other_lines() {
    let stream = b"Content-Length: 3\r\nContent-Type: application/json\r\nContent-Length: 4\r\n\r\nabcdEXTRA";
    let (step, rest) = read_header(stream);
    assert_eq!(step, Ok(FrameHeaderStep::ReadPayload(4)));
    assert_eq!(rest, b"abcdEXTRA".to_vec());
}

#[test]
fn header_reader_state_follows_lines() {
    let mut reader = FrameHeaderReader::new();
    assert_eq!(reader.content_length(), None);
    assert_eq!(reader.feed(Some("X-Other: 1\r\n")), Ok(FrameHeaderStep::NeedLine));
    assert_eq!(reader.content_length(), None);
    assert_eq!(reader.feed(Some("Content-Length: 12\r\n")), Ok(FrameHeaderStep::NeedLine));
    assert_eq!(reader.content_length(), Some(12));
    // a bare line feed does not end the header
    assert_eq!(reader.feed(Some("\n")), Ok(FrameHeaderStep::NeedLine));
    assert_eq!(reader.feed(Some("\r\n")), Ok(FrameHeaderStep::ReadPayload(12)));
}

#[test]
fn header_reader_reports_missing_length() {
    let (step, _) = read_header(b"Content-Type: text/plain\r\n\r\nbody");
    assert_eq!(step, Err(StdioError::MissingContentLength));
    assert_eq!(StdioError::MissingContentLength.kind(), StdioErrorKind::InvalidData);
    assert_eq!(StdioError::MissingContentLength.message(), "missing Content-Length header");
}

#[test]
fn header_reader_reports_closed_stream() {
    let (step, _) = read_header(b"Content-Length: 3\r\n");
    assert_eq!(step, Err(StdioError::HeaderStreamClosed));
    let mut reader = FrameHeaderReader::new();
    assert_eq!(reader.feed(None), Err(StdioError::HeaderStreamClosed));
    assert_eq!(StdioError::HeaderStreamClosed.kind(), StdioErrorKind::UnexpectedEof);
    assert_eq!(
        StdioError::HeaderStreamClosed.message(),
        "MCP stdio stream closed while reading headers"
    );
}

#[test]
fn header_reader_reports_invalid_lengths() {
    let cases: [(&str, IntErrorKind); 6] = [
        ("Content-Length: abc\r\n", IntErrorKind::InvalidDigit),
        ("Content-Length:\r\n", IntErrorKind::Empty),
        ("Content-Length:    \r\n", IntErrorKind::Empty),
        ("Content-Length: -1\r\n", IntErrorKind::InvalidDigit),
        ("Content-Length: +\r\n", IntErrorKind::InvalidDigit),
        ("Content-Length: 99999999999999999999999999\r\n", IntErrorKind::PosOverflow),
    ];
    for (line, kind) in cases {
        let mut reader = FrameHeaderReader::new();
        let step = reader.feed(Some(line));
        assert_eq!(step, Err(StdioError::InvalidContentLength(kind)), "{line:?}");
        let err = StdioError::InvalidContentLength(kind);
        assert_eq!(err.kind(), StdioErrorKind::InvalidData);
        let value = line.strip_prefix("Content-Length:").unwrap().trim();
        let std_err = value.parse::<usize>().unwrap_err();
        assert_eq!(err.message(), std_err.to_string());
    }
}

#[test]
fn header_values_are_trimmed_and_may_carry_plus() {
    assert_eq!(
        classify_header_line(&chars("Content-Length:42\r\n")),
        HeaderLine::ContentLength(Ok(42))
    );
    assert_eq!(
        classify_header_line(&chars("Content-Length: +7 \t\r\n")),
        HeaderLine::ContentLength(Ok(7))
    );
    assert_eq!(
        classify_header_line(&chars("Content-Length:\u{a0}9\u{3000}\r\n")),
        HeaderLine::ContentLength(Ok(9))
    );
    assert_eq!(
        classify_header_line(&chars("Content-Length: 0012\n")),
        HeaderLine::ContentLength(Ok(12))
    );
    assert_eq!(classify_header_line(&chars("content-length: 5\r\n")), HeaderLine::Other);
    assert_eq!(classify_header_line(&chars(" Content-Length: 5\r\n")), HeaderLine::Other);
    assert_eq!(classify_header_line(&chars("\r\n")), HeaderLine::Terminator);
    assert_eq!(classify_header_line(&chars("\r\n\r\n")), HeaderLine::Other);
    assert_eq!(classify_header_line(&chars("")), HeaderLine::Other);
}

#[test]
fn read_line_outcome() {
    assert_eq!(finish_read_line(0, String::new()), Err(StdioError::LineStreamClosed));
    assert_eq!(
        finish_read_line(12, "READY:token\n".to_string()),
        Ok("READY:token\n".to_string())
    );
    assert_eq!(StdioError::LineStreamClosed.kind(), StdioErrorKind::UnexpectedEof);
    assert_eq!(
        StdioError::LineStreamClosed.message(),
        "MCP stdio stream closed while reading line"
    );
}
