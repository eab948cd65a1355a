//! Message framing on the child's standard streams: each message is a
//! `Content-Length: <n>` header line, an empty line, and `n` bytes of
//! payload.  Writing is `encode_frame`; reading is driven line by line
//! through a `FrameHeaderReader`, which decides when the payload starts and
//! how long it is.
use vstd::prelude::*;
use vstd::utf8::*;

use crate::decimal::{
    decimal_digits, decimal_value, format_decimal, lemma_decimal_digits_are_digits,
    lemma_decimal_digits_canonical, lemma_parse_digit_string, lemma_parse_format_roundtrip,
    parse_usize, parse_usize_spec, IntErrorKind,
};
use crate::text::{
    chars_of, is_whitespace_spec, strip_prefix, strip_prefix_spec, trim, trim_end_spec, trim_spec,
    trim_start_spec,
};

verus! {

/// The header name, colon included.
pub open spec fn content_length_name() -> Seq<char> {
    seq!['C', 'o', 'n', 't', 'e', 'n', 't', '-', 'L', 'e', 'n', 'g', 't', 'h', ':']
}

/// A carriage return and a line feed.
pub open spec fn crlf() -> Seq<char> {
    seq!['\r', '\n']
}

/// The header line that announces a payload of `n` bytes.
pub open spec fn content_length_line(n: nat) -> Seq<char> {
    content_length_name() + seq![' '] + decimal_digits(n) + crlf()
}

/// The whole header that precedes a payload of `n` bytes: the
/// `Content-Length` line and the empty line that ends the header.
pub open spec fn frame_header(n: nat) -> Seq<char> {
    content_length_line(n) + crlf()
}

/// The bytes of a framed payload: the header in UTF-8, then the payload.
pub open spec fn encode_frame_spec(payload: Seq<u8>) -> Seq<u8> {
    encode_utf8(frame_header(payload.len())) + payload
}

/// `line` holds exactly one line feed, as its last character: a reader
/// that splits a stream after each line feed yields it whole.
pub open spec fn is_single_line(line: Seq<char>) -> bool {
    &&& line.len() > 0
    &&& line.last() == '\n'
    &&& forall|i: int| 0 <= i < line.len() - 1 ==> line[i] != '\n'
}

/// What one header line means to the reader.
#[derive(Debug, Clone, Copy, PartialEq, Eq)]
pub enum HeaderLine {
    /// The empty line (`\r\n`) that ends the header.
    Terminator,
    /// A `Content-Length:` line, with the outcome of reading its value
    /// (the text after the colon, trimmed of whitespace).
    ContentLength(Result<usize, IntErrorKind>),
    /// Any other line; it is skipped.
    Other,
}

/// The meaning of a header line: exactly `\r\n` ends the header; a line
/// that starts with `Content-Length:` (case-sensitive) carries a length;
/// everything else is ignored.
pub open spec fn classify_header_line_spec(line: Seq<char>) -> HeaderLine {
    if line == crlf() {
        HeaderLine::Terminator
    } else {
        match strip_prefix_spec(line, content_length_name()) {
            Some(value) => HeaderLine::ContentLength(parse_usize_spec(trim_spec(value))),
            None => HeaderLine::Other,
        }
    }
}

/// How an exchange on the standard streams can fail in the library's logic.
#[derive(Debug, Clone, Copy, PartialEq, Eq)]
pub enum StdioError {
    /// The child's output ended while a line was expected.
    LineStreamClosed,
    /// The child's output ended before the header of a frame was complete.
    HeaderStreamClosed,
    /// A `Content-Length` value is not the decimal text of a `usize`.
    InvalidContentLength(IntErrorKind),
    /// The header ended without any `Content-Length` line.
    MissingContentLength,
}

/// The class of an error, as `std::io::ErrorKind` names it.
#[derive(Debug, Clone, Copy, PartialEq, Eq)]
pub enum StdioErrorKind {
    UnexpectedEof,
    InvalidData,
}

/// The class of each error.
pub open spec fn error_kind_spec(e: StdioError) -> StdioErrorKind {
    match e {
        StdioError::LineStreamClosed => StdioErrorKind::UnexpectedEof,
        StdioError::HeaderStreamClosed => StdioErrorKind::UnexpectedEof,
        StdioError::InvalidContentLength(_) => StdioErrorKind::InvalidData,
        StdioError::MissingContentLength => StdioErrorKind::InvalidData,
    }
}

/// The message that goes with each error.
pub open spec fn error_message_spec(e: StdioError) -> Seq<char> {
    match e {
        StdioError::LineStreamClosed => "MCP stdio stream closed while reading line"@,
        StdioError::HeaderStreamClosed => "MCP stdio stream closed while reading headers"@,
        StdioError::InvalidContentLength(IntErrorKind::Empty) => "cannot parse integer from empty string"@,
        StdioError::InvalidContentLength(IntErrorKind::InvalidDigit) => "invalid digit found in string"@,
        StdioError::InvalidContentLength(IntErrorKind::PosOverflow) => "number too large to fit in target type"@,
        StdioError::MissingContentLength => "missing Content-Length header"@,
    }
}

impl StdioError {
    /// The class of this error.
    pub fn kind(&self) -> (k: StdioErrorKind)
        ensures
            k == error_kind_spec(*self),
    {
        match self {
            StdioError::LineStreamClosed => StdioErrorKind::UnexpectedEof,
            StdioError::HeaderStreamClosed => StdioErrorKind::UnexpectedEof,
            StdioError::InvalidContentLength(_) => StdioErrorKind::InvalidData,
            StdioError::MissingContentLength => StdioErrorKind::InvalidData,
        }
    }

    /// The human-readable message of this error.
    pub fn message(&self) -> (m: String)
        ensures
            m@ == error_message_spec(*self),
    {
        match self {
            StdioError::LineStreamClosed => "MCP stdio stream closed while reading line".to_string(),
            StdioError::HeaderStreamClosed => "MCP stdio stream closed while reading headers".to_string(),
            StdioError::InvalidContentLength(IntErrorKind::Empty) => "cannot parse integer from empty string".to_string(),
            StdioError::InvalidContentLength(IntErrorKind::InvalidDigit) => "invalid digit found in string".to_string(),
            StdioError::InvalidContentLength(IntErrorKind::PosOverflow) => "number too large to fit in target type".to_string(),
            StdioError::MissingContentLength => "missing Content-Length header".to_string(),
        }
    }
}

/// The outcome of reading one line from the child's output: `bytes_read`
/// is what the read reported and `line` what it produced.  A read of no
/// bytes means the stream is closed.
pub fn finish_read_line(bytes_read: usize, line: String) -> (res: Result<String, StdioError>)
    ensures
        bytes_read == 0 ==> res == Err::<String, StdioError>(StdioError::LineStreamClosed),
        bytes_read != 0 ==> (res matches Ok(l) && l@ == line@),
{
    if bytes_read == 0 {
        Err(StdioError::LineStreamClosed)
    } else {
        Ok(line)
    }
}

/// The characters of the header name.
fn content_length_name_chars() -> (v: Vec<char>)
    ensures
        v@ == content_length_name(),
{
    let v: Vec<char> = vec!['C', 'o', 'n', 't', 'e', 'n', 't', '-', 'L', 'e', 'n', 'g', 't', 'h', ':'];
    assert(v@ =~= content_length_name());
    v
}

/// What the line `line` means to the header reader.
pub fn classify_header_line(line: &[char]) -> (h: HeaderLine)
    ensures
        h == classify_header_line_spec(line@),
        line@ == "\r\n"@ ==> h == HeaderLine::Terminator,
        forall|s: Seq<char>|
            s.len() > 0 && (forall|i: int| 0 <= i < s.len() ==> '0' <= #[trigger] s[i] && s[i] <= '9')
                && decimal_value(s) <= usize::MAX && line@ == "Content-Length: "@ + s + "\r\n"@
                ==> h == HeaderLine::ContentLength(Ok(decimal_value(s) as usize)),
{
    proof {
        lemma_header_literals();
        assert forall|s: Seq<char>|
            s.len() > 0 && (forall|i: int| 0 <= i < s.len() ==> '0' <= #[trigger] s[i] && s[i] <= '9')
                && decimal_value(s) <= usize::MAX && line@ == "Content-Length: "@ + s + "\r\n"@
            implies classify_header_line_spec(line@) == HeaderLine::ContentLength(
            Ok(decimal_value(s) as usize),
        ) by {
            lemma_content_length_line_announces(s, None);
        }
    }
    if line.len() == 2 && line[0] == '\r' && line[1] == '\n' {
        assert(line@ =~= crlf());
        return HeaderLine::Terminator;
    }
    assert(line@ != crlf());
    let name = content_length_name_chars();
    match strip_prefix(line, name.as_slice()) {
        Some(value) => {
            let trimmed = trim(value.as_slice());
            HeaderLine::ContentLength(parse_usize(trimmed.as_slice()))
        },
        None => HeaderLine::Other,
    }
}

/// What the reader asks for after a line.
#[derive(Debug, Clone, Copy, PartialEq, Eq)]
pub enum FrameHeaderStep {
    /// The header goes on: read another line.
    NeedLine,
    /// The header is complete: read exactly this many payload bytes.
    ReadPayload(usize),
}

/// One step of the header reader: from the length announced so far and the
/// next line (or `None` when the stream has closed) to the length announced
/// after it and what to do next.  A later `Content-Length` line replaces an
/// earlier one.
pub open spec fn header_step(pending: Option<usize>, line: Option<Seq<char>>) -> (
    Option<usize>,
    Result<FrameHeaderStep, StdioError>,
) {
    match line {
        None => (pending, Err(StdioError::HeaderStreamClosed)),
        Some(line) => match classify_header_line_spec(line) {
            HeaderLine::Terminator => match pending {
                Some(n) => (pending, Ok(FrameHeaderStep::ReadPayload(n))),
                None => (pending, Err(StdioError::MissingContentLength)),
            },
            HeaderLine::ContentLength(Ok(n)) => (Some(n), Ok(FrameHeaderStep::NeedLine)),
            HeaderLine::ContentLength(Err(e)) => (pending, Err(StdioError::InvalidContentLength(e))),
            HeaderLine::Other => (pending, Ok(FrameHeaderStep::NeedLine)),
        },
    }
}

/// Reads the header of one frame, a line at a time.
pub struct FrameHeaderReader {
    content_length: Option<usize>,
}

impl FrameHeaderReader {
    /// The payload length announced by the lines read so far.
    pub closed spec fn pending(&self) -> Option<usize> {
        self.content_length
    }

    /// A reader that has seen no line yet.
    pub fn new() -> (r: Self)
        ensures
            r.pending() is None,
    {
        FrameHeaderReader { content_length: None }
    }

    /// The payload length announced by the lines read so far.
    pub fn content_length(&self) -> (n: Option<usize>)
        ensures
            n == self.pending(),
    {
        self.content_length
    }

    /// Takes the next line of the child's output (`None` once the stream
    /// has closed) and says what to do next.
    pub fn feed(&mut self, line: Option<&str>) -> (step: Result<FrameHeaderStep, StdioError>)
        ensures
            ({
                let line_view = match line {
                    Some(l) => Some(l@),
                    None => None,
                };
                (final(self).pending(), step) == header_step(old(self).pending(), line_view)
            }),
            line is None ==> step == Err::<FrameHeaderStep, StdioError>(StdioError::HeaderStreamClosed),
            line matches Some(l) && l@ == "\r\n"@ ==> step == (match old(self).pending() {
                Some(n) => Ok::<FrameHeaderStep, StdioError>(FrameHeaderStep::ReadPayload(n)),
                None => Err::<FrameHeaderStep, StdioError>(StdioError::MissingContentLength),
            }),
            forall|s: Seq<char>|
                s.len() > 0 && (forall|i: int| 0 <= i < s.len() ==> '0' <= #[trigger] s[i] && s[i] <= '9')
                    && decimal_value(s) <= usize::MAX && (line matches Some(l) && l@
                    == "Content-Length: "@ + s + "\r\n"@) ==> step == Ok::<
                    FrameHeaderStep,
                    StdioError,
                >(FrameHeaderStep::NeedLine) && final(self).pending() == Some(decimal_value(s) as usize),
    {
        proof {
            lemma_header_literals();
            assert(classify_header_line_spec(crlf()) == HeaderLine::Terminator);
            assert forall|s: Seq<char>|
                s.len() > 0 && (forall|i: int| 0 <= i < s.len() ==> '0' <= #[trigger] s[i] && s[i] <= '9')
                    && decimal_value(s) <= usize::MAX && (line matches Some(l) && l@
                    == "Content-Length: "@ + s + "\r\n"@)
                implies header_step(old(self).pending(), Some("Content-Length: "@ + s + "\r\n"@)) == (
                Some(decimal_value(s) as usize),
                Ok::<FrameHeaderStep, StdioError>(FrameHeaderStep::NeedLine),
            ) by {
                lemma_content_length_line_announces(s, old(self).pending());
            }
        }
        match line {
            None => Err(StdioError::HeaderStreamClosed),
            Some(l) => {
                let chars = chars_of(l);
                match classify_header_line(chars.as_slice()) {
                    HeaderLine::Terminator => match self.content_length {
                        Some(n) => Ok(FrameHeaderStep::ReadPayload(n)),
                        None => Err(StdioError::MissingContentLength),
                    },
                    HeaderLine::ContentLength(Ok(n)) => {
                        self.content_length = Some(n);
                        Ok(FrameHeaderStep::NeedLine)
                    },
                    HeaderLine::ContentLength(Err(e)) => Err(StdioError::InvalidContentLength(e)),
                    HeaderLine::Other => Ok(FrameHeaderStep::NeedLine),
                }
            },
        }
    }
}

/// The characters of the header that precedes a payload of `n` bytes.
fn frame_header_chars(n: usize) -> (v: Vec<char>)
    ensures
        v@ == frame_header(n as nat),
{
    let mut v = content_length_name_chars();
    v.push(' ');
    let digits = format_decimal(n);
    let mut i: usize = 0;
    let ghost start = v@;
    while i < digits.len()
        invariant
            i <= digits@.len(),
            v@ == start + digits@.take(i as int),
        decreases digits.len() - i,
    {
        v.push(digits[i]);
        assert(digits@.take(i + 1) =~= digits@.take(i as int).push(digits@[i as int]));
        i = i + 1;
    }
    assert(digits@.take(digits@.len() as int) =~= digits@);
    v.push('\r');
    v.push('\n');
    v.push('\r');
    v.push('\n');
    assert(v@ =~= frame_header(n as nat));
    v
}

/// The header of a frame is plain ASCII.
proof fn lemma_frame_header_ascii(n: nat)
    ensures
        is_ascii_chars(frame_header(n)),
{
    lemma_decimal_digits_are_digits(n);
    let h = frame_header(n);
    let d = decimal_digits(n);
    assert forall|i: int| 0 <= i < h.len() implies '\0' <= #[trigger] h[i] <= '\u{7f}' by {
        if 16 <= i < 16 + d.len() {
            assert(h[i] == d[i - 16]);
        }
    }
}

/// Frames `payload` for the child's input: the `Content-Length` header,
/// an empty line, then the payload.
pub fn encode_frame(payload: &[u8]) -> (framed: Vec<u8>)
    ensures
        framed@ == encode_frame_spec(payload@),
        exists|d: Seq<char>|
            {
                &&& d.len() > 0
                &&& forall|i: int| 0 <= i < d.len() ==> '0' <= #[trigger] d[i] && d[i] <= '9'
                &&& decimal_value(d) == payload@.len()
                &&& d[0] == '0' ==> d.len() == 1
                &&& framed@ == encode_utf8("Content-Length: "@ + d + "\r\n\r\n"@) + payload@
            },
{
    let len = payload.len();
    proof {
        assert(payload@.len() == len);
        lemma_frame_layout(payload@);
    }
    let header = frame_header_chars(payload.len());
    proof {
        lemma_frame_header_ascii(payload@.len());
        is_ascii_chars_encode_utf8(header@);
    }
    let ghost encoded = encode_utf8(header@);
    let mut framed: Vec<u8> = Vec::new();
    let mut i: usize = 0;
    while i < header.len()
        invariant
            i <= header@.len() == encoded.len(),
            is_ascii_chars(header@),
            forall|k: int| 0 <= k < header@.len() ==> header@[k] as u8 == #[trigger] encoded[k],
            framed@ == encoded.take(i as int),
        decreases header.len() - i,
    {
        let c = header[i];
        assert('\0' <= header@[i as int] <= '\u{7f}');
        let b: u8 = c as u8;
        framed.push(b);
        assert(framed@ =~= encoded.take(i + 1));
        i = i + 1;
    }
    assert(encoded.take(encoded.len() as int) =~= encoded);
    let mut j: usize = 0;
    while j < payload.len()
        invariant
            j <= payload@.len(),
            framed@ == encoded + payload@.take(j as int),
        decreases payload.len() - j,
    {
        framed.push(payload[j]);
        assert(payload@.take(j + 1) =~= payload@.take(j as int).push(payload@[j as int]));
        j = j + 1;
    }
    assert(payload@.take(payload@.len() as int) =~= payload@);
    framed
}

/// Feeding `lines` one after the other, starting from `pending`: the
/// reader stops at the first line after which it does not ask for more.
pub open spec fn read_header_lines(pending: Option<usize>, lines: Seq<Seq<char>>) -> (
    Option<usize>,
    Result<FrameHeaderStep, StdioError>,
)
    decreases lines.len(),
{
    if lines.len() == 0 {
        (pending, Ok(FrameHeaderStep::NeedLine))
    } else {
        let (next, step) = header_step(pending, Some(lines[0]));
        if step == Ok::<FrameHeaderStep, StdioError>(FrameHeaderStep::NeedLine) {
            read_header_lines(next, lines.drop_first())
        } else {
            (next, step)
        }
    }
}

/// The length announced by the last valid `Content-Length` line among
/// `lines`, or `pending` when there is none.
pub open spec fn last_content_length(pending: Option<usize>, lines: Seq<Seq<char>>) -> Option<usize>
    decreases lines.len(),
{
    if lines.len() == 0 {
        pending
    } else {
        match classify_header_line_spec(lines[0]) {
            HeaderLine::ContentLength(Ok(n)) => last_content_length(Some(n), lines.drop_first()),
            _ => last_content_length(pending, lines.drop_first()),
        }
    }
}

/// A header line that neither ends the header nor fails it.
pub open spec fn is_passing_header_line(line: Seq<char>) -> bool {
    match classify_header_line_spec(line) {
        HeaderLine::Terminator => false,
        HeaderLine::ContentLength(r) => r is Ok,
        HeaderLine::Other => true,
    }
}

/// A header of any number of lines, none of them failing, followed by the
/// empty line: the reader asks for exactly the length given on the last
/// `Content-Length` line (other lines are skipped), and reports a missing
/// length when there was none.
pub proof fn lemma_header_uses_last_length(pending: Option<usize>, lines: Seq<Seq<char>>)
    requires
        forall|i: int| 0 <= i < lines.len() ==> is_passing_header_line(#[trigger] lines[i]),
    ensures
        read_header_lines(pending, lines.push(crlf())) == (match last_content_length(
            pending,
            lines,
        ) {
            Some(n) => (Some(n), Ok::<FrameHeaderStep, StdioError>(FrameHeaderStep::ReadPayload(n))),
            None => (None, Err::<FrameHeaderStep, StdioError>(StdioError::MissingContentLength)),
        }),
    decreases lines.len(),
{
    assert(classify_header_line_spec(crlf()) == HeaderLine::Terminator);
    if lines.len() == 0 {
        assert(lines.push(crlf()).drop_first() =~= Seq::<Seq<char>>::empty());
        assert(lines.push(crlf())[0] == crlf());
    } else {
        let all = lines.push(crlf());
        assert(all[0] == lines[0]);
        assert(all.drop_first() =~= lines.drop_first().push(crlf()));
        assert(is_passing_header_line(lines[0]));
        assert forall|i: int| 0 <= i < lines.drop_first().len() implies is_passing_header_line(
            #[trigger] lines.drop_first()[i],
        ) by {
            assert(lines.drop_first()[i] == lines[i + 1]);
        }
        let (next, _) = header_step(pending, Some(lines[0]));
        lemma_header_uses_last_length(next, lines.drop_first());
    }
}

/// The value on a `Content-Length` line, trimmed, is its run of digits.
proof fn lemma_trim_length_value(d: Seq<char>)
    requires
        d.len() > 0,
        forall|i: int| 0 <= i < d.len() ==> '0' <= #[trigger] d[i] && d[i] <= '9',
    ensures
        trim_spec(seq![' '] + d + crlf()) == d,
{
    let v = seq![' '] + d + crlf();
    assert(is_whitespace_spec(v[0]));
    assert(v.drop_first() =~= d + crlf());
    assert('0' <= d[0] && d[0] <= '9');
    assert((d + crlf())[0] == d[0]);
    assert(trim_start_spec(d + crlf()) == d + crlf());
    assert(trim_start_spec(v) == d + crlf());
    let w = d + crlf();
    assert(w.drop_last() =~= d.push('\r'));
    assert(d.push('\r').drop_last() =~= d);
    assert('0' <= d.last() && d.last() <= '9');
    assert(trim_end_spec(d) == d);
    assert(trim_end_spec(d.push('\r')) == trim_end_spec(d));
    assert(trim_end_spec(w) == trim_end_spec(d.push('\r')));
}

/// The literal header texts are the ones the reader and writer use.
proof fn lemma_header_literals()
    ensures
        "Content-Length: "@ == content_length_name() + seq![' '],
        "\r\n"@ == crlf(),
        "\r\n\r\n"@ == crlf() + crlf(),
{
    reveal_strlit("Content-Length: ");
    reveal_strlit("\r\n");
    reveal_strlit("\r\n\r\n");
    assert("Content-Length: "@ =~= content_length_name() + seq![' ']);
    assert("\r\n"@ =~= crlf());
    assert("\r\n\r\n"@ =~= crlf() + crlf());
}

/// A `Content-Length: ` line carrying any run of decimal digits (leading
/// zeros allowed) whose value fits in a `usize` announces exactly that
/// value, whatever was announced before; an empty line then ends the header
/// and asks for that many bytes.  An empty line with no length announced
/// fails with a missing length.
pub proof fn lemma_content_length_line_announces(s: Seq<char>, pending: Option<usize>)
    requires
        s.len() > 0,
        forall|i: int| 0 <= i < s.len() ==> '0' <= #[trigger] s[i] && s[i] <= '9',
        decimal_value(s) <= usize::MAX,
    ensures
        classify_header_line_spec("Content-Length: "@ + s + "\r\n"@) == HeaderLine::ContentLength(
            Ok(decimal_value(s) as usize),
        ),
        classify_header_line_spec("\r\n"@) == HeaderLine::Terminator,
        header_step(pending, Some("Content-Length: "@ + s + "\r\n"@)) == (
            Some(decimal_value(s) as usize),
            Ok::<FrameHeaderStep, StdioError>(FrameHeaderStep::NeedLine),
        ),
        header_step(Some(decimal_value(s) as usize), Some("\r\n"@)) == (
            Some(decimal_value(s) as usize),
            Ok::<FrameHeaderStep, StdioError>(FrameHeaderStep::ReadPayload(decimal_value(s) as usize)),
        ),
        header_step(None, Some("\r\n"@)) == (
            None::<usize>,
            Err::<FrameHeaderStep, StdioError>(StdioError::MissingContentLength),
        ),
        read_header_lines(pending, seq!["Content-Length: "@ + s + "\r\n"@, "\r\n"@]) == (
            Some(decimal_value(s) as usize),
            Ok::<FrameHeaderStep, StdioError>(FrameHeaderStep::ReadPayload(decimal_value(s) as usize)),
        ),
{
    lemma_header_literals();
    let line = "Content-Length: "@ + s + "\r\n"@;
    assert(line =~= content_length_name() + (seq![' '] + s + crlf()));
    assert(line.len() > 2);
    assert(line != crlf());
    assert(line.take(15) =~= content_length_name());
    assert(line.skip(15) =~= seq![' '] + s + crlf());
    lemma_trim_length_value(s);
    lemma_parse_digit_string(s);
    assert(classify_header_line_spec(line) == HeaderLine::ContentLength(
        Ok(decimal_value(s) as usize),
    ));
    assert(classify_header_line_spec(crlf()) == HeaderLine::Terminator);
    let v = decimal_value(s) as usize;
    let lines = seq![line, crlf()];
    let rest = seq![crlf()];
    assert(lines.drop_first() =~= rest);
    assert(lines[0] == line);
    assert(rest[0] == crlf());
    assert(read_header_lines(Some(v), rest) == (
        Some(v),
        Ok::<FrameHeaderStep, StdioError>(FrameHeaderStep::ReadPayload(v)),
    ));
}

/// The frame of `payload` is the text `Content-Length: `, the shortest
/// decimal digits of the payload's length (no leading zero), `\r\n\r\n`,
/// all in UTF-8, then the payload.
pub proof fn lemma_frame_layout(payload: Seq<u8>)
    requires
        payload.len() <= usize::MAX,
    ensures
        exists|d: Seq<char>|
            {
                &&& d.len() > 0
                &&& forall|i: int| 0 <= i < d.len() ==> '0' <= #[trigger] d[i] && d[i] <= '9'
                &&& decimal_value(d) == payload.len()
                &&& d[0] == '0' ==> d.len() == 1
                &&& encode_frame_spec(payload) == encode_utf8(
                    "Content-Length: "@ + d + "\r\n\r\n"@,
                ) + payload
            },
{
    let d = decimal_digits(payload.len());
    lemma_decimal_digits_canonical(payload.len());
    lemma_header_literals();
    assert(frame_header(payload.len()) =~= "Content-Length: "@ + d + "\r\n\r\n"@);
    if d[0] == '0' {
        assert(payload.len() == 0);
    }
}

/// A framed payload reads back whole.  On the wire, the frame of `payload`
/// is the `Content-Length` line and the empty line, each in UTF-8 and each
/// ending at its only line feed, followed by the payload itself.  A header
/// reader, whatever it has read before, takes the first line as announcing
/// exactly `payload.len()` bytes and the second as the end of the header,
/// so it then asks for exactly the payload.
pub proof fn lemma_frame_reads_back(payload: Seq<u8>, pending: Option<usize>)
    requires
        payload.len() <= usize::MAX,
    ensures
        encode_frame_spec(payload) == encode_utf8(content_length_line(payload.len())) + encode_utf8(
            crlf(),
        ) + payload,
        is_single_line(content_length_line(payload.len())),
        is_single_line(crlf()),
        header_step(pending, Some(content_length_line(payload.len()))) == (
            Some(payload.len() as usize),
            Ok::<FrameHeaderStep, StdioError>(FrameHeaderStep::NeedLine),
        ),
        header_step(Some(payload.len() as usize), Some(crlf())) == (
            Some(payload.len() as usize),
            Ok::<FrameHeaderStep, StdioError>(FrameHeaderStep::ReadPayload(payload.len() as usize)),
        ),
        read_header_lines(pending, seq![content_length_line(payload.len()), crlf()]) == (
            Some(payload.len() as usize),
            Ok::<FrameHeaderStep, StdioError>(FrameHeaderStep::ReadPayload(payload.len() as usize)),
        ),
{
    let n = payload.len();
    let line = content_length_line(n);
    let d = decimal_digits(n);
    lemma_decimal_digits_are_digits(n);
    lemma_frame_header_ascii(n);
    let h = frame_header(n);
    assert(h =~= line + crlf());
    assert forall|i: int| 0 <= i < line.len() implies '\0' <= #[trigger] line[i] <= '\u{7f}' by {
        assert(line[i] == h[i]);
    }
    assert forall|i: int| 0 <= i < crlf().len() implies '\0' <= #[trigger] crlf()[i] <= '\u{7f}' by {
        assert(crlf()[i] == h[line.len() + i]);
    }
    is_ascii_chars_encode_utf8(h);
    is_ascii_chars_encode_utf8(line);
    is_ascii_chars_encode_utf8(crlf());
    let eh = encode_utf8(h);
    let el = encode_utf8(line);
    let ec = encode_utf8(crlf());
    assert forall|i: int| 0 <= i < eh.len() implies #[trigger] eh[i] == (el + ec)[i] by {
        if i < line.len() {
            assert(h[i] == line[i]);
        } else {
            assert(h[i] == crlf()[i - line.len()]);
        }
    }
    assert(eh =~= el + ec);
    // each header line ends at its only line feed
    assert forall|i: int| 0 <= i < line.len() - 1 implies line[i] != '\n' by {
        if 16 <= i < 16 + d.len() {
            assert(line[i] == d[i - 16]);
        }
    }
    // the first line announces the payload length
    assert(line.len() != crlf().len());
    assert(line.take(15) =~= content_length_name());
    assert(line.skip(15) =~= seq![' '] + d + crlf());
    lemma_decimal_digits_canonical(n);
    lemma_trim_length_value(d);
    lemma_parse_format_roundtrip(n as usize);
    assert(classify_header_line_spec(line) == HeaderLine::ContentLength(Ok(n as usize)));
    // the second line ends the header
    assert(classify_header_line_spec(crlf()) == HeaderLine::Terminator);
    let lines = seq![line, crlf()];
    let rest = seq![crlf()];
    assert(lines.drop_first() =~= rest);
    assert(lines[0] == line);
    assert(rest[0] == crlf());
    assert(read_header_lines(Some(n as usize), rest) == (
        Some(n as usize),
        Ok::<FrameHeaderStep, StdioError>(FrameHeaderStep::ReadPayload(n as usize)),
    ));
}

} // verus!
