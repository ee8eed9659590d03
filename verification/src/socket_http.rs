//! HTTP/1.1 framing for requests sent to the Mihomo controller over its local socket:
//! the raw request text, the reading of the response head and body, and the parts of
//! the response handed back to the caller.

use vstd::prelude::*;
use vstd::string::StringExecFns;
use vstd::utf8::*;
use crate::text::{
    chars_of, contains, contains_chars, decimal, decimal_string, has_prefix, lines, lines_of,
    lower, lowercase_string, parse_unsigned, parse_unsigned_chars, push_char, starts_with_chars,
    string_from, string_of, tail_from, trim, trim_chars, IntErrorKind,
};

verus! {

/// `HeaderValue::to_str` succeeds on exactly these bytes: visible ASCII and tab.
pub open spec fn is_visible_ascii(b: u8) -> bool {
    (32 <= b && b < 127) || b == 9
}

/// Every byte of `v` is visible ASCII or tab.
pub open spec fn all_visible_ascii(v: Seq<u8>) -> bool {
    forall|i: int| 0 <= i < v.len() ==> is_visible_ascii(#[trigger] v[i])
}

/// The characters of an ASCII byte sequence.
pub open spec fn ascii_chars(v: Seq<u8>) -> Seq<char> {
    Seq::new(v.len(), |i: int| v[i] as char)
}

/// `String::from_utf8_lossy`: the bytes decoded as UTF-8, with each invalid sequence
/// replaced by U+FFFD.
pub uninterp spec fn utf8_lossy(bytes: Seq<u8>) -> Seq<char>;

/// `String::from_utf8_lossy(bytes).to_string()`. The standard library documents that
/// valid UTF-8 is returned unchanged, and no string holds more than `isize::MAX` bytes;
/// what it makes of invalid sequences is named, not stated.
#[verifier::external_body]
pub(crate) fn lossy_string(bytes: &[u8]) -> (r: String)
    ensures
        r@ == utf8_lossy(bytes@),
        valid_utf8(bytes@) ==> r@ == decode_utf8(bytes@),
        encode_utf8(r@).len() <= isize::MAX,
{
    String::from_utf8_lossy(bytes).to_string()
}

/// `String::from_utf8`: `Some` exactly when `bytes` is valid UTF-8, holding its decoding.
#[verifier::external_body]
pub(crate) fn utf8_string(bytes: Vec<u8>) -> (r: Option<String>)
    ensures
        r is Some <==> valid_utf8(bytes@),
        r matches Some(s) ==> s@ == decode_utf8(bytes@),
{
    String::from_utf8(bytes).ok()
}

/// One header of a request, as the header map yields it: a lower-case name and the
/// value's bytes.
pub struct RequestHeader {
    pub name: String,
    pub value: Vec<u8>,
}

/// The parts of an HTTP request that the socket transport sends.
pub struct SocketRequest {
    /// The method, such as `GET`.
    pub method: String,
    /// The URL's path.
    pub path: String,
    /// The URL's query, without the `?`.
    pub query: Option<String>,
    /// The headers, in the order of the header map.
    pub headers: Vec<RequestHeader>,
    /// The body's bytes, when the body is held in memory.
    pub body: Option<Vec<u8>>,
}

/// A header as the contracts see it.
pub ghost struct HeaderSpec {
    pub name: Seq<char>,
    pub value: Seq<u8>,
}

/// A request as the contracts see it.
pub ghost struct SocketRequestSpec {
    pub method: Seq<char>,
    pub path: Seq<char>,
    pub query: Option<Seq<char>>,
    pub headers: Seq<HeaderSpec>,
    pub body: Option<Seq<u8>>,
}

impl View for RequestHeader {
    type V = HeaderSpec;

    open spec fn view(&self) -> HeaderSpec {
        HeaderSpec { name: self.name@, value: self.value@ }
    }
}

impl View for SocketRequest {
    type V = SocketRequestSpec;

    open spec fn view(&self) -> SocketRequestSpec {
        SocketRequestSpec {
            method: self.method@,
            path: self.path@,
            query: match &self.query {
                Some(q) => Some(q@),
                None => None,
            },
            headers: self.headers@.map_values(|h: RequestHeader| h@),
            body: match &self.body {
                Some(b) => Some(b@),
                None => None,
            },
        }
    }
}

/// Some header of `hs` is called `name`.
pub open spec fn has_header(hs: Seq<HeaderSpec>, name: Seq<char>) -> bool {
    exists|i: int| 0 <= i < hs.len() && #[trigger] hs[i].name == name
}

/// The text of the body: the bytes decoded lossily, or nothing.
pub open spec fn body_text(body: Option<Seq<u8>>) -> Seq<char> {
    match body {
        Some(b) => utf8_lossy(b),
        None => Seq::empty(),
    }
}

/// The line for header `h`: `name: value\r\n` when its value is visible ASCII, followed
/// by `content-length: <len>\r\n` for a `content-type` header when `add_length` holds.
pub open spec fn header_line(h: HeaderSpec, add_length: bool, length: Seq<char>) -> Seq<char> {
    if all_visible_ascii(h.value) {
        h.name + ": "@ + ascii_chars(h.value) + "\r\n"@ + if add_length && h.name == "content-type"@ {
            "content-length: "@ + length + "\r\n"@
        } else {
            Seq::empty()
        }
    } else {
        Seq::empty()
    }
}

/// The header lines for `hs`, in order.
pub open spec fn header_lines(hs: Seq<HeaderSpec>, add_length: bool, length: Seq<char>) -> Seq<char>
    decreases hs.len(),
{
    if hs.len() == 0 {
        Seq::empty()
    } else {
        header_lines(hs.drop_last(), add_length, length) + header_line(hs.last(), add_length, length)
    }
}

/// The raw text sent for `r`: the request line, the header lines, a blank line and the
/// body. A `Content-Length` is added after `Content-Type` when the request has a
/// content type but no length.
pub open spec fn request_text(r: SocketRequestSpec) -> Seq<char> {
    let body = body_text(r.body);
    let target = match r.query {
        Some(q) => r.path + "?"@ + q,
        None => r.path,
    };
    let add_length = has_header(r.headers, "content-type"@) && !has_header(r.headers, "content-length"@);
    r.method + " "@ + target + " HTTP/1.1\r\n"@ + header_lines(r.headers, add_length, decimal(encode_utf8(body).len()))
        + "\r\n"@ + body
}

fn has_header_named(hs: &Vec<RequestHeader>, name: &str) -> (r: bool)
    ensures
        r == has_header(hs@.map_values(|h: RequestHeader| h@), name@),
{
    let ghost views = hs@.map_values(|h: RequestHeader| h@);
    let target = string_from(name);
    let mut i: usize = 0;
    while i < hs.len()
        invariant
            i <= hs@.len(),
            views == hs@.map_values(|h: RequestHeader| h@),
            target@ == name@,
            forall|k: int| 0 <= k < i ==> views[k].name != name@,
        decreases hs@.len() - i,
    {
        if hs[i].name == target {
            proof {
                assert(views[i as int].name == name@);
            }
            return true;
        }
        i = i + 1;
    }
    false
}

fn push_ascii_bytes(s: &mut String, v: &Vec<u8>)
    requires
        all_visible_ascii(v@),
    ensures
        final(s)@ == old(s)@ + ascii_chars(v@),
{
    let ghost start = s@;
    for i in 0..v.len()
        invariant
            all_visible_ascii(v@),
            s@ == start + ascii_chars(v@.take(i as int)),
    {
        assert(is_visible_ascii(v@[i as int]));
        push_char(s, v[i] as char);
        assert(ascii_chars(v@.take(i + 1)) == ascii_chars(v@.take(i as int)).push(v@[i as int] as char));
    }
    assert(v@.take(v.len() as int) == v@);
}

/// Whether a header value reads as a string: every byte visible ASCII or tab.
pub fn visible_ascii(v: &Vec<u8>) -> (r: bool)
    ensures
        r == all_visible_ascii(v@),
{
    let mut bad = false;
    for i in 0..v.len()
        invariant
            bad == !(forall|k: int| 0 <= k < i ==> is_visible_ascii(#[trigger] v@[k])),
    {
        let b = v[i];
        if !((32 <= b && b < 127) || b == 9) {
            bad = true;
        }
    }
    !bad
}

fn append_header_line(raw: &mut String, h: &RequestHeader, add_length: bool, length_text: &String, content_type: &String)
    requires
        content_type@ == "content-type"@,
    ensures
        final(raw)@ == old(raw)@ + header_line(h@, add_length, length_text@),
{
    let ghost start = raw@;
    if visible_ascii(&h.value) {
        raw.append(h.name.as_str());
        raw.append(": ");
        push_ascii_bytes(raw, &h.value);
        raw.append("\r\n");
        let ghost mid = raw@;
        if add_length && h.name == *content_type {
            raw.append("content-length: ");
            raw.append(length_text.as_str());
            raw.append("\r\n");
            assert(raw@ =~= start + header_line(h@, add_length, length_text@));
        } else {
            assert(raw@ =~= start + header_line(h@, add_length, length_text@));
        }
    } else {
        assert(raw@ =~= start + header_line(h@, add_length, length_text@));
    }
}

/// The raw request text sent over the socket for `req`.
pub fn generate_socket_request(req: &SocketRequest) -> (raw: String)
    ensures
        raw@ == request_text(req@),
        match req@.body {
            Some(b) => valid_utf8(b) ==> body_text(req@.body) == decode_utf8(b)
                && encode_utf8(body_text(req@.body)).len() == b.len(),
            None => body_text(req@.body).len() == 0,
        },
{
    let ghost rv = req@;
    let body = match &req.body {
        Some(b) => lossy_string(b.as_slice()),
        None => String::new(),
    };
    assert(body@ == body_text(rv.body));
    proof {
        if let Some(b) = rv.body {
            if valid_utf8(b) {
                vstd::utf8::decode_utf8_encode_utf8(b);
            }
        }
    }
    assert(encode_utf8(body@).len() <= isize::MAX);
    let add_length = has_header_named(&req.headers, "content-type") && !has_header_named(&req.headers, "content-length");
    let body_len = body.as_str().len();
    let length_text = decimal_string(body_len as u64);
    let mut raw = String::new();
    raw.append(req.method.as_str());
    raw.append(" ");
    raw.append(req.path.as_str());
    match &req.query {
        Some(q) => {
            raw.append("?");
            raw.append(q.as_str());
        },
        None => {},
    }
    raw.append(" HTTP/1.1\r\n");
    let ghost head = raw@;
    let ghost hs = rv.headers;
    let content_type = string_from("content-type");
    let mut i: usize = 0;
    while i < req.headers.len()
        invariant
            i <= req.headers@.len(),
            hs == req.headers@.map_values(|h: RequestHeader| h@),
            content_type@ == "content-type"@,
            raw@ == head + header_lines(hs.take(i as int), add_length, length_text@),
        decreases req.headers@.len() - i,
    {
        let h = &req.headers[i];
        append_header_line(&mut raw, h, add_length, &length_text, &content_type);
        proof {
            assert(hs.take(i + 1).drop_last() == hs.take(i as int));
            assert(hs.take(i + 1).last() == h@);
        }
        i = i + 1;
    }
    proof {
        assert(hs.take(req.headers@.len() as int) == hs);
    }
    raw.append("\r\n");
    raw.append(body.as_str());
    proof {
        let target = match rv.query {
            Some(q) => rv.path + "?"@ + q,
            None => rv.path,
        };
        assert(head =~= rv.method + " "@ + target + " HTTP/1.1\r\n"@);
        assert(length_text@ == decimal(encode_utf8(body_text(rv.body)).len()));
        assert(raw@ =~= request_text(rv));
    }
    raw
}


/// Errors of the socket transport.
pub enum SocketError {
    /// The response could not be read or parsed as HTTP.
    HttpParseError(String),
    /// A `Content-Length` value is not a number.
    ParseInt(IntErrorKind),
    /// A chunked body is not valid UTF-8.
    Utf8,
}

/// Scans the lines of a response head for its framing: the last `Content-Length`
/// value and whether any line names chunked transfer encoding. The first
/// `Content-Length` that is no number ends the scan with its error.
pub open spec fn framing_scan(ls: Seq<Seq<char>>, length: Option<nat>, chunked: bool) -> Result<(Option<nat>, bool), IntErrorKind>
    decreases ls.len(),
{
    if ls.len() == 0 {
        Ok((length, chunked))
    } else {
        let lw = lower(ls[0]);
        let p = "content-length: "@;
        let next_length = if has_prefix(lw, p) {
            match parse_unsigned(trim(lw.subrange(p.len() as int, lw.len() as int)), 10, usize::MAX as nat) {
                Ok(v) => Ok(Some(v)),
                Err(e) => Err(e),
            }
        } else {
            Ok(length)
        };
        match next_length {
            Err(e) => Err(e),
            Ok(l) => framing_scan(ls.drop_first(), l, chunked || contains(lw, "transfer-encoding: chunked"@)),
        }
    }
}

/// The framing of a response whose head is `header`: `(content length, chunked)`.
pub open spec fn response_framing(header: Seq<char>) -> Result<(Option<nat>, bool), IntErrorKind> {
    framing_scan(lines(header), None, false)
}

/// Reads the framing of a response head: the `Content-Length` it gives, if any, and
/// whether it uses chunked transfer encoding.
pub fn parse_framing(header: &str) -> (r: Result<(Option<usize>, bool), IntErrorKind>)
    ensures
        r matches Ok((l, c)) ==> response_framing(header@) == Ok::<(Option<nat>, bool), IntErrorKind>(
            (match l { Some(v) => Some(v as nat), None => None }, c),
        ),
        r matches Err(e) ==> response_framing(header@) == Err::<(Option<nat>, bool), IntErrorKind>(e),
{
    let hc = chars_of(header);
    let ls = lines_of(&hc);
    let ghost all = crate::text::seqs_of(ls@);
    let prefix = chars_of("content-length: ");
    let chunked_mark = chars_of("transfer-encoding: chunked");
    let mut length: Option<usize> = None;
    let mut chunked = false;
    let mut i: usize = 0;
    assert(all.subrange(0, all.len() as int) == all);
    while i < ls.len()
        invariant
            i <= ls@.len(),
            all == crate::text::seqs_of(ls@),
            all == lines(header@),
            prefix@ == "content-length: "@,
            chunked_mark@ == "transfer-encoding: chunked"@,
            framing_scan(all, None, false) == framing_scan(
                all.subrange(i as int, all.len() as int),
                match length { Some(v) => Some(v as nat), None => None },
                chunked,
            ),
        decreases ls@.len() - i,
    {
        let ghost rest = all.subrange(i as int, all.len() as int);
        assert(rest[0] == ls@[i as int]@);
        assert(rest.drop_first() == all.subrange(i + 1, all.len() as int));
        let line = string_of(&ls[i]);
        let lw = chars_of(lowercase_string(line.as_str()).as_str());
        assert(lw@ == lower(rest[0]));
        if starts_with_chars(&lw, &prefix) {
            let value = trim_chars(&tail_from(&lw, prefix.len()));
            match parse_unsigned_chars(&value, 10, usize::MAX as u64) {
                Ok(v) => {
                    proof {
                        crate::text::lemma_parse_bounded(value@, 10, usize::MAX as nat);
                    }
                    length = Some(v as usize);
                },
                Err(e) => {
                    return Err(e);
                },
            }
        }
        if contains_chars(&lw, &chunked_mark) {
            chunked = true;
        }
        i = i + 1;
    }
    Ok((length, chunked))
}

/// Where a [`ResponseReader`] stands.
#[derive(Clone, Copy, PartialEq, Eq, Debug)]
pub enum ReaderPhase {
    /// Reading the head, line by line, up to the blank line.
    Header,
    /// Reading the line that gives the next chunk's size.
    ChunkSize,
    /// Reading a chunk of the given number of bytes.
    ChunkData(usize),
    /// Reading the line break after a chunk.
    ChunkTrailer,
    /// Reading the line after the last, empty, chunk.
    ChunkEnd,
    /// Reading a body of the given `Content-Length`.
    FixedBody(usize),
    /// The response has been read.
    Done,
    /// Reading failed; see the error.
    Failed,
}

/// What the transport reads next for a [`ResponseReader`].
#[derive(Clone, Copy, PartialEq, Eq, Debug)]
pub enum ReadStep {
    /// One line, up to and including `'\n'`.
    Line,
    /// Exactly this many bytes.
    Exact(usize),
    /// Nothing: the response is complete.
    Done,
    /// Nothing: reading failed.
    Fail,
}

/// The read that a phase waits for.
pub open spec fn step_of(phase: ReaderPhase) -> ReadStep {
    match phase {
        ReaderPhase::Header | ReaderPhase::ChunkSize | ReaderPhase::ChunkTrailer | ReaderPhase::ChunkEnd => ReadStep::Line,
        ReaderPhase::ChunkData(n) => ReadStep::Exact(n),
        ReaderPhase::FixedBody(n) => ReadStep::Exact(n),
        ReaderPhase::Done => ReadStep::Done,
        ReaderPhase::Failed => ReadStep::Fail,
    }
}

/// The reader asks for no read only when it is done or has failed: every other phase
/// waits for a line or an exact number of bytes. The head, the chunk sizes, the line
/// break after each chunk and the line after the last chunk are read as lines; chunk
/// data and a body of known length as exactly their size.
pub proof fn law_reader_reads_until_done(p: ReaderPhase, n: usize)
    ensures
        (step_of(p) == ReadStep::Done) <==> (p == ReaderPhase::Done),
        (step_of(p) == ReadStep::Fail) <==> (p == ReaderPhase::Failed),
        p != ReaderPhase::Done && p != ReaderPhase::Failed ==> (step_of(p) == ReadStep::Line || step_of(p) is Exact),
        step_of(ReaderPhase::Header) == ReadStep::Line,
        step_of(ReaderPhase::ChunkSize) == ReadStep::Line,
        step_of(ReaderPhase::ChunkTrailer) == ReadStep::Line,
        step_of(ReaderPhase::ChunkEnd) == ReadStep::Line,
        step_of(ReaderPhase::ChunkData(n)) == ReadStep::Exact(n),
        step_of(ReaderPhase::FixedBody(n)) == ReadStep::Exact(n),
{
}

/// The phase after a complete head, given its framing.
pub open spec fn phase_after_head(framing: (Option<nat>, bool)) -> ReaderPhase {
    if framing.1 {
        ReaderPhase::ChunkSize
    } else {
        match framing.0 {
            Some(n) => ReaderPhase::FixedBody(n as usize),
            None => ReaderPhase::Done,
        }
    }
}

/// Reads an HTTP response from the socket one step at a time: the transport performs
/// the read that [`ResponseReader::next_step`] asks for and hands back what it read.
pub struct ResponseReader {
    phase: ReaderPhase,
    header: String,
    body: Vec<u8>,
    body_text: String,
    error: Option<SocketError>,
}

impl ResponseReader {
    pub closed spec fn phase_spec(&self) -> ReaderPhase {
        self.phase
    }

    /// The head read so far.
    pub closed spec fn header_spec(&self) -> Seq<char> {
        self.header@
    }

    /// The bytes of the chunks read so far.
    pub closed spec fn chunks_spec(&self) -> Seq<u8> {
        self.body@
    }

    /// The body's text, once the response is complete.
    pub closed spec fn body_spec(&self) -> Seq<char> {
        self.body_text@
    }

    /// Why reading failed, while the error has not been taken.
    pub closed spec fn error_spec(&self) -> Option<SocketError> {
        self.error
    }

    /// A reader at the start of a response.
    pub fn new() -> (r: Self)
        ensures
            r.phase_spec() == ReaderPhase::Header,
            r.header_spec() == Seq::<char>::empty(),
            r.chunks_spec() == Seq::<u8>::empty(),
            r.body_spec() == Seq::<char>::empty(),
            r.error_spec() is None,
    {
        ResponseReader { phase: ReaderPhase::Header, header: String::new(), body: Vec::new(), body_text: String::new(), error: None }
    }

    /// Where the reader stands.
    pub fn phase(&self) -> (r: ReaderPhase)
        ensures
            r == self.phase_spec(),
    {
        self.phase
    }

    /// The read that comes next.
    pub fn next_step(&self) -> (r: ReadStep)
        ensures
            r == step_of(self.phase_spec()),
    {
        match self.phase {
            ReaderPhase::Header | ReaderPhase::ChunkSize | ReaderPhase::ChunkTrailer | ReaderPhase::ChunkEnd => ReadStep::Line,
            ReaderPhase::ChunkData(n) => ReadStep::Exact(n),
            ReaderPhase::FixedBody(n) => ReadStep::Exact(n),
            ReaderPhase::Done => ReadStep::Done,
            ReaderPhase::Failed => ReadStep::Fail,
        }
    }

    /// Takes a line read for the head, or the end of the stream (`at_eof`, a read of
    /// no bytes), which ends reading with "no response". A line that is exactly
    /// `"\r\n"` completes the head; its framing then decides how the body is read.
    pub fn on_header_line(&mut self, line: &str, at_eof: bool)
        requires
            old(self).phase_spec() == ReaderPhase::Header,
        ensures
            at_eof ==> final(self).phase_spec() == ReaderPhase::Failed && final(self).header_spec() == old(self).header_spec(),
            !at_eof ==> final(self).header_spec() == old(self).header_spec() + line@,
            !at_eof && line@ != "\r\n"@ ==> final(self).phase_spec() == ReaderPhase::Header,
            !at_eof && line@ == "\r\n"@ ==> match response_framing(final(self).header_spec()) {
                Ok(f) => final(self).phase_spec() == phase_after_head(f) && final(self).error_spec() == old(self).error_spec(),
                Err(e) => final(self).phase_spec() == ReaderPhase::Failed && final(self).error_spec() == Some(SocketError::ParseInt(e)),
            },
            at_eof ==> (final(self).error_spec() matches Some(SocketError::HttpParseError(m)) && m@ == "no response"@),
            !at_eof && line@ != "\r\n"@ ==> final(self).error_spec() == old(self).error_spec(),
            final(self).chunks_spec() == old(self).chunks_spec(),
            final(self).body_spec() == old(self).body_spec(),
    {
        if at_eof {
            self.phase = ReaderPhase::Failed;
            self.error = Some(SocketError::HttpParseError(string_from("no response")));
            return;
        }
        self.header.append(line);
        let end = string_from("\r\n");
        let l = string_from(line);
        if l == end {
            match parse_framing(self.header.as_str()) {
                Ok((length, chunked)) => {
                    if chunked {
                        self.phase = ReaderPhase::ChunkSize;
                    } else {
                        match length {
                            Some(n) => {
                                self.phase = ReaderPhase::FixedBody(n);
                            },
                            None => {
                                self.phase = ReaderPhase::Done;
                            },
                        }
                    }
                },
                Err(e) => {
                    self.phase = ReaderPhase::Failed;
                    self.error = Some(SocketError::ParseInt(e));
                },
            }
        }
    }

    /// Takes a line read for the next chunk's size. A blank line is skipped; otherwise
    /// the trimmed line is a hexadecimal size: zero ends the chunks, any other size is
    /// read next, and a line that is no number fails with
    /// "Failed to parse chunk size: <reason>".
    pub fn on_chunk_size_line(&mut self, line: &str)
        requires
            old(self).phase_spec() == ReaderPhase::ChunkSize,
        ensures
            trim(line@).len() == 0 ==> final(self).phase_spec() == ReaderPhase::ChunkSize,
            trim(line@).len() > 0 ==> match parse_unsigned(trim(line@), 16, usize::MAX as nat) {
                Ok(n) => if n == 0 {
                    final(self).phase_spec() == ReaderPhase::ChunkEnd
                } else {
                    final(self).phase_spec() == ReaderPhase::ChunkData(n as usize)
                },
                Err(e) => final(self).phase_spec() == ReaderPhase::Failed
                    && (final(self).error_spec() matches Some(SocketError::HttpParseError(m))
                    && m@ == "Failed to parse chunk size: "@ + e.message_spec()),
            },
            trim(line@).len() == 0 || parse_unsigned(trim(line@), 16, usize::MAX as nat) is Ok
                ==> final(self).error_spec() == old(self).error_spec(),
            final(self).header_spec() == old(self).header_spec(),
            final(self).chunks_spec() == old(self).chunks_spec(),
            final(self).body_spec() == old(self).body_spec(),
    {
        let t = trim_chars(&chars_of(line));
        if t.len() == 0 {
            return;
        }
        match parse_unsigned_chars(&t, 16, usize::MAX as u64) {
            Ok(n) => {
                proof {
                    crate::text::lemma_parse_bounded(t@, 16, usize::MAX as nat);
                }
                if n == 0 {
                    self.phase = ReaderPhase::ChunkEnd;
                } else {
                    self.phase = ReaderPhase::ChunkData(n as usize);
                }
            },
            Err(e) => {
                let mut msg = string_from("Failed to parse chunk size: ");
                let reason = e.message();
                msg.append(reason.as_str());
                self.phase = ReaderPhase::Failed;
                self.error = Some(SocketError::HttpParseError(msg));
            },
        }
    }

    /// Takes the line break read after a chunk's data; the next chunk size follows.
    pub fn on_chunk_trailer_line(&mut self)
        requires
            old(self).phase_spec() == ReaderPhase::ChunkTrailer,
        ensures
            final(self).phase_spec() == ReaderPhase::ChunkSize,
            final(self).error_spec() == old(self).error_spec(),
            final(self).header_spec() == old(self).header_spec(),
            final(self).chunks_spec() == old(self).chunks_spec(),
            final(self).body_spec() == old(self).body_spec(),
    {
        self.phase = ReaderPhase::ChunkSize;
    }

    /// Takes the line read after the last chunk: the chunks, decoded as UTF-8, are the
    /// body; bytes that are not UTF-8 fail.
    pub fn on_chunk_end_line(&mut self)
        requires
            old(self).phase_spec() == ReaderPhase::ChunkEnd,
        ensures
            valid_utf8(old(self).chunks_spec()) ==> final(self).phase_spec() == ReaderPhase::Done
                && final(self).body_spec() == decode_utf8(old(self).chunks_spec()),
            valid_utf8(old(self).chunks_spec()) ==> final(self).error_spec() == old(self).error_spec(),
            !valid_utf8(old(self).chunks_spec()) ==> final(self).phase_spec() == ReaderPhase::Failed
                && final(self).error_spec() == Some(SocketError::Utf8),
            final(self).header_spec() == old(self).header_spec(),
            final(self).chunks_spec() == old(self).chunks_spec(),
    {
        let bytes = copy_bytes(&self.body);
        match utf8_string(bytes) {
            Some(text) => {
                self.body_text = text;
                self.phase = ReaderPhase::Done;
            },
            None => {
                self.phase = ReaderPhase::Failed;
                self.error = Some(SocketError::Utf8);
            },
        }
    }

    /// Takes the bytes of an exact read: a chunk's data, or a body of known length, which
    /// becomes the body text, decoded lossily.
    pub fn on_bytes(&mut self, data: &[u8])
        requires
            step_of(old(self).phase_spec()) == ReadStep::Exact(data@.len() as usize),
            old(self).phase_spec() is ChunkData || old(self).phase_spec() is FixedBody,
        ensures
            old(self).phase_spec() is ChunkData ==> final(self).phase_spec() == ReaderPhase::ChunkTrailer
                && final(self).chunks_spec() == old(self).chunks_spec() + data@
                && final(self).body_spec() == old(self).body_spec(),
            old(self).phase_spec() is FixedBody ==> final(self).phase_spec() == ReaderPhase::Done
                && final(self).body_spec() == utf8_lossy(data@)
                && final(self).chunks_spec() == old(self).chunks_spec(),
            final(self).header_spec() == old(self).header_spec(),
            final(self).error_spec() == old(self).error_spec(),
    {
        match self.phase {
            ReaderPhase::ChunkData(_) => {
                let mut i: usize = 0;
                let ghost start = self.body@;
                while i < data.len()
                    invariant
                        i <= data@.len(),
                        self.body@ == start + data@.take(i as int),
                        self.header@ == old(self).header@,
                        self.body_text@ == old(self).body_text@,
                        self.phase == old(self).phase,
                        self.error == old(self).error,
                    decreases data@.len() - i,
                {
                    self.body.push(data[i]);
                    proof {
                        assert(data@.take(i + 1) == data@.take(i as int).push(data@[i as int]));
                    }
                    i = i + 1;
                }
                proof {
                    assert(data@.take(data@.len() as int) == data@);
                }
                self.phase = ReaderPhase::ChunkTrailer;
            },
            _ => {
                self.body_text = lossy_string(data);
                self.phase = ReaderPhase::Done;
            },
        }
    }

    /// The head read so far.
    pub fn header(&self) -> (r: String)
        ensures
            r@ == self.header_spec(),
    {
        self.header.clone()
    }

    /// The body's text.
    pub fn body(&self) -> (r: String)
        ensures
            r@ == self.body_spec(),
    {
        self.body_text.clone()
    }

    /// Why reading failed, once it has.
    pub fn take_error(&mut self) -> (r: Option<SocketError>)
        ensures
            r == old(self).error_spec(),
            final(self).error_spec() is None,
            final(self).chunks_spec() == old(self).chunks_spec(),
            final(self).phase_spec() == old(self).phase_spec(),
            final(self).header_spec() == old(self).header_spec(),
            final(self).body_spec() == old(self).body_spec(),
    {
        let mut e = None;
        std::mem::swap(&mut e, &mut self.error);
        e
    }
}

fn copy_bytes(v: &Vec<u8>) -> (r: Vec<u8>)
    ensures
        r@ == v@,
{
    let mut r: Vec<u8> = Vec::new();
    for i in 0..v.len()
        invariant
            r@ == v@.take(i as int),
    {
        r.push(v[i]);
        assert(v@.take(i + 1) == v@.take(i as int).push(v@[i as int]));
    }
    assert(v@.take(v.len() as int) == v@);
    r
}


/// What `httparse` makes of a response head, with room for 16 headers.
pub enum HeadParse {
    /// A complete head: the status code and the headers, in order, as name and raw value.
    Complete(Option<u16>, Vec<(String, Vec<u8>)>),
    /// The bytes end before the head does.
    Partial,
    /// The bytes are no HTTP response head; the parser's message.
    Invalid(String),
}

/// [`HeadParse`] as the contracts see it.
pub ghost enum HeadParseSpec {
    Complete(Option<u16>, Seq<(Seq<char>, Seq<u8>)>),
    Partial,
    Invalid(Seq<char>),
}

impl View for HeadParse {
    type V = HeadParseSpec;

    open spec fn view(&self) -> HeadParseSpec {
        match self {
            HeadParse::Complete(code, hs) => HeadParseSpec::Complete(
                *code,
                hs@.map_values(|h: (String, Vec<u8>)| (h.0@, h.1@)),
            ),
            HeadParse::Partial => HeadParseSpec::Partial,
            HeadParse::Invalid(m) => HeadParseSpec::Invalid(m@),
        }
    }
}

/// `httparse::Response::parse` on `raw` with 16 header slots: the status code and
/// headers of a complete head, `Partial`, or the parser's error message.
pub uninterp spec fn httparse_response(raw: Seq<u8>) -> HeadParseSpec;

/// Parses a response head with `httparse::Response::parse`, giving it room for 16
/// headers. Its result is a function of the bytes alone and is named, not stated.
#[verifier::external_body]
fn parse_response_head(raw: &[u8]) -> (r: HeadParse)
    ensures
        r@ == httparse_response(raw@),
{
    let mut headers = [httparse::EMPTY_HEADER; 16];
    let mut res = httparse::Response::new(&mut headers);
    match res.parse(raw) {
        Ok(httparse::Status::Complete(_)) => HeadParse::Complete(
            res.code,
            res.headers.iter().map(|h| (h.name.to_string(), h.value.to_vec())).collect(),
        ),
        Ok(httparse::Status::Partial) => HeadParse::Partial,
        Err(e) => HeadParse::Invalid(e.to_string()),
    }
}

/// A response read from the socket, ready to be turned into a client response.
pub struct ResponseParts {
    /// The status code (400 when the head gives none).
    pub status: u16,
    /// The headers, in order; a value that is not UTF-8 becomes empty.
    pub headers: Vec<(String, String)>,
    /// The body.
    pub body: String,
}

/// The text of a header value: its UTF-8 decoding, or nothing when it is not UTF-8.
pub open spec fn header_value_text(v: Seq<u8>) -> Seq<char> {
    if valid_utf8(v) {
        decode_utf8(v)
    } else {
        Seq::empty()
    }
}

/// What a response whose head parses as `head` and whose body is `body` yields.
pub open spec fn response_result(head: HeadParseSpec, body: Seq<char>) -> Result<(u16, Seq<(Seq<char>, Seq<char>)>, Seq<char>), Seq<char>> {
    match head {
        HeadParseSpec::Complete(code, hs) => Ok((
            match code {
                Some(c) => c,
                None => 400u16,
            },
            hs.map_values(|h: (Seq<char>, Seq<u8>)| (h.0, header_value_text(h.1))),
            body,
        )),
        HeadParseSpec::Partial => Err("Partial response, need more data"@),
        HeadParseSpec::Invalid(m) => Err("Failed to parse response: "@ + m),
    }
}

/// Turns the head and body read from the socket into response parts: the head is
/// parsed by `httparse` from the head followed by the body.
pub fn generate_socket_response(header: &str, body: &str) -> (r: Result<ResponseParts, SocketError>)
    ensures
        match response_result(httparse_response(encode_utf8(header@ + body@)), body@) {
            Ok((status, hs, b)) => r matches Ok(p) && p.status == status && p.body@ == b
                && p.headers@.map_values(|h: (String, String)| (h.0@, h.1@)) == hs,
            Err(m) => r matches Err(SocketError::HttpParseError(msg)) && msg@ == m,
        },
{
    let mut text = string_from(header);
    text.append(body);
    let head = parse_response_head(text.as_str().as_bytes());
    response_parts(head, body)
}

/// The response parts for a head that `httparse` parsed as `head` and the body `body`:
/// the status (400 when the head gives none), the headers with their values decoded
/// (empty when not UTF-8) and the body; or the parse error's message.
pub fn response_parts(head: HeadParse, body: &str) -> (r: Result<ResponseParts, SocketError>)
    ensures
        match response_result(head@, body@) {
            Ok((status, hs, b)) => r matches Ok(p) && p.status == status && p.body@ == b
                && p.headers@.map_values(|h: (String, String)| (h.0@, h.1@)) == hs,
            Err(m) => r matches Err(SocketError::HttpParseError(msg)) && msg@ == m,
        },
{
    match head {
        HeadParse::Complete(code, hs) => {
            let status = match code {
                Some(c) => c,
                None => 400u16,
            };
            let mut headers: Vec<(String, String)> = Vec::new();
            let ghost src = hs@.map_values(|h: (String, Vec<u8>)| (h.0@, h.1@));
            let mut i: usize = 0;
            while i < hs.len()
                invariant
                    i <= hs@.len(),
                    src == hs@.map_values(|h: (String, Vec<u8>)| (h.0@, h.1@)),
                    headers@.map_values(|h: (String, String)| (h.0@, h.1@)) == src.take(i as int).map_values(
                        |h: (Seq<char>, Seq<u8>)| (h.0, header_value_text(h.1)),
                    ),
                decreases hs@.len() - i,
            {
                let name = hs[i].0.clone();
                let value = match utf8_string(copy_bytes(&hs[i].1)) {
                    Some(v) => v,
                    None => String::new(),
                };
                let ghost before = headers@;
                headers.push((name, value));
                proof {
                    assert(src.take(i + 1) == src.take(i as int).push(src[i as int]));
                    assert(headers@ == before.push((name, value)));
                    assert(headers@.map_values(|h: (String, String)| (h.0@, h.1@)) =~= before.map_values(
                        |h: (String, String)| (h.0@, h.1@),
                    ).push((name@, value@)));
                    assert(src.take(i + 1).map_values(|h: (Seq<char>, Seq<u8>)| (h.0, header_value_text(h.1)))
                        =~= src.take(i as int).map_values(|h: (Seq<char>, Seq<u8>)| (h.0, header_value_text(h.1))).push(
                        (src[i as int].0, header_value_text(src[i as int].1)),
                    ));
                }
                i = i + 1;
            }
            proof {
                assert(src.take(hs@.len() as int) == src);
            }
            Ok(ResponseParts { status, headers, body: string_from(body) })
        },
        HeadParse::Partial => Err(SocketError::HttpParseError(string_from("Partial response, need more data"))),
        HeadParse::Invalid(m) => {
            let mut msg = string_from("Failed to parse response: ");
            msg.append(m.as_str());
            Err(SocketError::HttpParseError(msg))
        },
    }
}

} // verus!
