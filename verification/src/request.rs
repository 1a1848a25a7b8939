//! Request parsing: the request line with its three tokens, the header
//! lines, and the header/body boundary of a raw buffer. The parser states
//! exactly which inputs succeed and which error each rejected input raises;
//! the parser does not trust the network.

use crate::error::HttpError;
use crate::header::{HeaderList, HttpHeader, MAX_HEADERS};
use crate::method::{
    lemma_method_token_round_trip, lemma_method_token_wf, method_from_bytes, method_of, HttpMethod,
};
use crate::response::{headers_bytes, write_header_block};
use crate::text::{
    append_bytes, append_lit, ascii_bytes_of_str, ascii_seq, copy_span, copy_vec, first_idx,
    is_ws, lemma_first_idx_at, lemma_lines_of_prepend_line, lemma_ws_split_skip,
    lemma_ws_split_token, lines_of, split_lines, split_ws, trim_bytes, trim_span, vecs_model,
    ws_split,
};
use vstd::prelude::*;
use vstd::string::*;

verus! {

/// The mathematical content of a parsed request: its method, the byte
/// spans of its path and version, its (name, value) header pairs in order,
/// and its body bytes.
pub struct RequestModel {
    /// The request method.
    pub method: HttpMethod,
    /// The request path token.
    pub path: Seq<u8>,
    /// The protocol version token.
    pub version: Seq<u8>,
    /// The (name, value) header pairs, in the order received.
    pub headers: Seq<(Seq<u8>, Seq<u8>)>,
    /// The body bytes, taken as given.
    pub body: Seq<u8>,
}

/// One header line: the part before the first colon and the part after it,
/// both trimmed; a line without a colon carries no header.
pub open spec fn header_of_line(line: Seq<u8>) -> Option<(Seq<u8>, Seq<u8>)> {
    let c = first_idx(line, 58);
    if c == line.len() {
        None
    } else {
        Some((trim_bytes(line.take(c)), trim_bytes(line.skip(c + 1))))
    }
}

/// Folds header lines in order into the accumulated pairs: stops at a blank
/// line or at the end, silently skips a line without a colon, and fails once
/// a header beyond the capacity would be inserted.
pub open spec fn collect_headers(ls: Seq<Seq<u8>>, acc: Seq<(Seq<u8>, Seq<u8>)>) -> Result<
    Seq<(Seq<u8>, Seq<u8>)>,
    HttpError,
>
    decreases ls.len(),
{
    if ls.len() == 0 {
        Ok(acc)
    } else if ls[0].len() == 0 {
        Ok(acc)
    } else {
        match header_of_line(ls[0]) {
            None => collect_headers(ls.drop_first(), acc),
            Some(h) => if acc.len() >= MAX_HEADERS {
                Err(HttpError::TooManyHeaders)
            } else {
                collect_headers(ls.drop_first(), acc.push(h))
            },
        }
    }
}

/// What parsing a header block (as bytes) together with a body span yields:
/// the first line must hold method, path and version tokens, each absence
/// its own error; an unrecognized method is an error; later lines up to a
/// blank line become headers, a seventeenth being an error; the body is
/// taken as given.
pub open spec fn parse_request_spec(h: Seq<u8>, body: Seq<u8>) -> Result<
    RequestModel,
    HttpError,
> {
    let ls = lines_of(h);
    if ls.len() == 0 {
        Err(HttpError::MissingRequestLine)
    } else {
        let toks = ws_split(ls[0]);
        if toks.len() == 0 {
            Err(HttpError::MissingMethod)
        } else if toks.len() == 1 {
            Err(HttpError::MissingPath)
        } else if toks.len() == 2 {
            Err(HttpError::MissingVersion)
        } else {
            match method_of(toks[0]) {
                None => Err(HttpError::UnknownMethod),
                Some(m) => match collect_headers(ls.drop_first(), Seq::empty()) {
                    Err(e) => Err(e),
                    Ok(hs) => Ok(
                        RequestModel {
                            method: m,
                            path: toks[1],
                            version: toks[2],
                            headers: hs,
                            body,
                        },
                    ),
                },
            }
        }
    }
}

/// An HTTP request: method, path, version, bounded header collection and
/// body, holding owned copies of the spans parsed out of the buffer.
pub struct HttpRequest {
    /// The request method.
    pub method: HttpMethod,
    /// The request path.
    pub path: Vec<u8>,
    /// The protocol version (e.g. the bytes of "HTTP/1.1").
    pub version: Vec<u8>,
    /// The request headers, in the order received.
    pub headers: HeaderList,
    /// The request body, taken as given.
    pub body: Vec<u8>,
}

impl View for HttpRequest {
    type V = RequestModel;

    open spec fn view(&self) -> RequestModel {
        RequestModel {
            method: self.method,
            path: self.path@,
            version: self.version@,
            headers: self.headers@,
            body: self.body@,
        }
    }
}

/// Whether the four-byte header/body boundary (CRLF CRLF) sits at `i`.
pub open spec fn double_crlf_at(data: Seq<u8>, i: int) -> bool {
    &&& 0 <= i
    &&& i + 4 <= data.len()
    &&& data[i] == 13
    &&& data[i + 1] == 10
    &&& data[i + 2] == 13
    &&& data[i + 3] == 10
}

/// The position of the first header/body boundary at or after `i`, if any.
pub open spec fn first_boundary(data: Seq<u8>, i: int) -> Option<int>
    decreases data.len() - i,
{
    if i + 4 > data.len() {
        None
    } else if double_crlf_at(data, i) {
        Some(i)
    } else {
        first_boundary(data, i + 1)
    }
}

/// `first_boundary` is pinned down by a boundary-free scan up to a boundary
/// or past the end.
pub(crate) proof fn lemma_first_boundary_from(data: Seq<u8>, i: int, k: int)
    requires
        0 <= i <= k,
        forall|j: int| i <= j < k ==> !double_crlf_at(data, j),
        double_crlf_at(data, k) || k + 4 > data.len(),
    ensures
        first_boundary(data, i) == if double_crlf_at(data, k) {
            Some(k)
        } else {
            Option::<int>::None
        },
    decreases k - i,
{
    if i + 4 > data.len() {
        assert(!double_crlf_at(data, k));
    } else if i < k {
        lemma_first_boundary_from(data, i + 1, k);
    }
}

/// Finds the position of the first header/body boundary: the first
/// occurrence of the four-byte sequence CRLF CRLF. A boundary at position 0
/// and one ending at the very end of the buffer are both found; with no
/// boundary present nothing is returned.
pub fn find_double_crlf(data: &[u8]) -> (r: Option<usize>)
    ensures
        match r {
            Some(i) => double_crlf_at(data@, i as int) && forall|j: int|
                0 <= j < i ==> !double_crlf_at(data@, j),
            None => forall|j: int| !double_crlf_at(data@, j),
        },
{
    if data.len() < 4 {
        return None;
    }
    let mut i: usize = 0;
    while i <= data.len() - 4
        invariant
            4 <= data@.len(),
            i <= data@.len(),
            forall|j: int| 0 <= j < i ==> !double_crlf_at(data@, j),
        decreases data@.len() - i,
    {
        if data[i] == 13 && data[i + 1] == 10 && data[i + 2] == 13 && data[i + 3] == 10 {
            return Some(i);
        }
        i += 1;
    }
    None
}

/// Folds the lines from `start` on into a header collection, as
/// `collect_headers` describes: stop at a blank line, skip lines without a
/// colon, fail once a header beyond the capacity would be inserted.
#[verifier::loop_isolation(false)]
pub fn collect_header_lines(lines: &Vec<Vec<u8>>, start: usize) -> (r: Result<
    HeaderList,
    HttpError,
>)
    requires
        start <= lines@.len(),
    ensures
        ({
            let outcome = collect_headers(
                vecs_model(lines@).skip(start as int),
                Seq::<(Seq<u8>, Seq<u8>)>::empty(),
            );
            match r {
                Ok(hl) => outcome == Ok::<Seq<(Seq<u8>, Seq<u8>)>, HttpError>(hl@),
                Err(e) => outcome == Err::<Seq<(Seq<u8>, Seq<u8>)>, HttpError>(e),
            }
        }),
{
    let ghost lmodel = vecs_model(lines@);
    let mut hdrs = HeaderList::new();
    let ghost goal = collect_headers(lmodel.skip(start as int), Seq::<(Seq<u8>, Seq<u8>)>::empty());
    let n = lines.len();
    let mut i: usize = start;
    let mut stop = false;
    while i < n && !stop
        invariant
            start <= i <= n,
            hdrs@.len() <= MAX_HEADERS,
            !stop ==> collect_headers(lmodel.skip(i as int), hdrs@) == goal,
            stop ==> goal == Ok::<Seq<(Seq<u8>, Seq<u8>)>, HttpError>(hdrs@),
        decreases n - i,
    {
        let line: &Vec<u8> = &lines[i];
        let ghost ltail = lmodel.skip(i as int);
        proof {
            assert(line@ == vecs_model(lines@)[i as int]);
            assert(ltail[0] == lmodel[i as int]);
            assert(ltail.drop_first() =~= lmodel.skip(i as int + 1));
        }
        if line.len() == 0 {
            stop = true;
            i += 1;
        } else {
            // the first colon of the line, or its length if it has none
            let mut c: usize = 0;
            while c < line.len() && line[c] != 58
                invariant
                    c <= line@.len(),
                    forall|k: int| 0 <= k < c ==> line@[k] != 58,
                decreases line@.len() - c,
            {
                c += 1;
            }
            proof {
                lemma_first_idx_at(line@, 58, c as int);
            }
            if c < line.len() {
                let name = trim_span(line.as_slice(), 0, c);
                let value = trim_span(line.as_slice(), c + 1, line.len());
                proof {
                    assert(line@.subrange(0, c as int) =~= line@.take(c as int));
                    assert(line@.subrange(c as int + 1, line@.len() as int) =~= line@.skip(
                        c as int + 1,
                    ));
                }
                let h = HttpHeader { name, value };
                match hdrs.push(h) {
                    Ok(()) => {
                    },
                    Err(_) => {
                        proof {
                            assert(collect_headers(ltail, hdrs@) == Err::<
                                Seq<(Seq<u8>, Seq<u8>)>,
                                HttpError,
                            >(HttpError::TooManyHeaders));
                        }
                        return Err(HttpError::TooManyHeaders);
                    },
                }
            }
            i += 1;
        }
    }
    proof {
        if !stop {
            assert(lmodel.skip(n as int) =~= Seq::<Seq<u8>>::empty());
        }
    }
    Ok(hdrs)
}

impl HttpRequest {
    /// Parses a request from a header block and a body span, as
    /// `parse_request_spec` describes. The body is not re-derived from the
    /// header block; it is the caller-supplied span, taken as is.
    #[verifier::loop_isolation(false)]
    pub fn parse_from(headers_str: &str, body: &[u8]) -> (r: Result<HttpRequest, HttpError>)
        ensures
            match parse_request_spec(headers_str.spec_bytes(), body@) {
                Ok(m) => r is Ok && r->Ok_0@ == m,
                Err(e) => r == Err::<HttpRequest, HttpError>(e),
            },
    {
        let hb: &[u8] = headers_str.as_bytes();
        let ghost hseq = headers_str.spec_bytes();
        let ghost lmodel = lines_of(hseq);
        let lines = split_lines(hb);
        if lines.len() == 0 {
            return Err(HttpError::MissingRequestLine);
        }
        let first_line: &Vec<u8> = &lines[0];
        proof {
            assert(first_line@ == vecs_model(lines@)[0]);
        }
        let toks = split_ws(first_line.as_slice());
        if toks.len() == 0 {
            return Err(HttpError::MissingMethod);
        }
        if toks.len() == 1 {
            return Err(HttpError::MissingPath);
        }
        if toks.len() == 2 {
            return Err(HttpError::MissingVersion);
        }
        proof {
            assert(toks@[0]@ == vecs_model(toks@)[0]);
            assert(toks@[1]@ == vecs_model(toks@)[1]);
            assert(toks@[2]@ == vecs_model(toks@)[2]);
        }
        let method = match method_from_bytes((&toks[0]).as_slice()) {
            Ok(m) => m,
            Err(_) => {
                return Err(HttpError::UnknownMethod);
            },
        };
        proof {
            assert(lmodel.drop_first() =~= lmodel.skip(1));
        }
        let hdrs = match collect_header_lines(&lines, 1) {
            Ok(hdrs) => hdrs,
            Err(e) => {
                return Err(e);
            },
        };
        let body_vec = copy_span(body, 0, body.len());
        proof {
            assert(body@.subrange(0, body@.len() as int) =~= body@);
        }
        let version = copy_vec(&toks[2]);
        let path = copy_vec(&toks[1]);
        let req = HttpRequest { method, path, version, headers: hdrs, body: body_vec };
        proof {
            let m = parse_request_spec(hseq, body@)->Ok_0;
            assert(req@ == m);
        }
        Ok(req)
    }

    /// What parsing a whole raw buffer yields: without a header/body
    /// boundary the input is incomplete; a header block that is not valid
    /// UTF-8 is rejected; otherwise the bytes before the boundary are the
    /// header block and the bytes after it are the body, unchecked.
    pub open spec fn try_from_spec(buffer: Seq<u8>) -> Result<RequestModel, HttpError> {
        match first_boundary(buffer, 0) {
            None => Err(HttpError::IncompleteHeaders),
            Some(i) => if !vstd::utf8::valid_utf8(buffer.take(i)) {
                Err(HttpError::InvalidEncoding)
            } else {
                parse_request_spec(buffer.take(i), buffer.skip(i + 4))
            },
        }
    }

    /// Parses a request out of a whole raw buffer, locating the header/body
    /// boundary itself, as `try_from_spec` describes.
    pub fn try_from(buffer: &[u8]) -> (r: Result<HttpRequest, HttpError>)
        ensures
            match Self::try_from_spec(buffer@) {
                Ok(m) => r is Ok && r->Ok_0@ == m,
                Err(e) => r == Err::<HttpRequest, HttpError>(e),
            },
    {
        let end = match find_double_crlf(buffer) {
            Some(i) => i,
            None => {
                proof {
                    lemma_first_boundary_from(buffer@, 0, buffer@.len() as int);
                }
                return Err(HttpError::IncompleteHeaders);
            },
        };
        proof {
            lemma_first_boundary_from(buffer@, 0, end as int);
        }
        let head: &[u8] = &buffer[0..end];
        proof {
            assert(head@ == buffer@.take(end as int));
        }
        match crate::text::as_utf8_str(head) {
            None => Err(HttpError::InvalidEncoding),
            Some(s) => {
                let tail_part: &[u8] = &buffer[end..buffer.len()];
                let body: &[u8] = &tail_part[4..tail_part.len()];
                proof {
                    assert(body@ =~= buffer@.skip(end as int + 4));
                }
                Self::parse_from(s, body)
            },
        }
    }
}

/// Whether bytes may stand as a request-line token: nonempty and free of
/// whitespace (which covers the two line-delimiter bytes).
pub open spec fn wf_token(t: Seq<u8>) -> bool {
    t.len() > 0 && forall|i: int| 0 <= i < t.len() ==> !is_ws(#[trigger] t[i])
}

/// Whether a (name, value) pair renders to a header line that parses back
/// to itself: no delimiter byte inside either part, no colon in the name,
/// and both parts already trimmed.
pub open spec fn wf_header(h: (Seq<u8>, Seq<u8>)) -> bool {
    &&& forall|i: int| 0 <= i < h.0.len() ==> (#[trigger] h.0[i]) != 10 && h.0[i] != 13 && h.0[i]
        != 58
    &&& forall|i: int| 0 <= i < h.1.len() ==> (#[trigger] h.1[i]) != 10 && h.1[i] != 13
    &&& trim_bytes(h.0) == h.0
    &&& trim_bytes(h.1) == h.1
}

/// The head of a rendered request: the request line, then one line per
/// header in order, each line CRLF-terminated.
pub open spec fn request_head_bytes(
    m: HttpMethod,
    path: Seq<u8>,
    version: Seq<u8>,
    hs: Seq<(Seq<u8>, Seq<u8>)>,
) -> Seq<u8> {
    m.name_bytes() + seq![32u8] + path + seq![32u8] + version + seq![13u8, 10u8] + headers_bytes(hs)
}

/// The whole rendered request: the head, a blank line, then the raw body.
/// No Content-Length header is synthesized: the headers go out exactly as
/// given.
pub open spec fn request_bytes(
    m: HttpMethod,
    path: Seq<u8>,
    version: Seq<u8>,
    hs: Seq<(Seq<u8>, Seq<u8>)>,
    body: Seq<u8>,
) -> Seq<u8> {
    request_head_bytes(m, path, version, hs) + seq![13u8, 10u8] + body
}

impl HttpRequest {
    /// The exact bytes this request renders to.
    pub open spec fn rendered_bytes(&self) -> Seq<u8> {
        request_bytes(self.method, self.path@, self.version@, self.headers@, self.body@)
    }

    /// Renders this request, as `request_bytes` describes, when it fits the
    /// given output bound; a larger message is an overflow error, never a
    /// truncation.
    #[must_use]
    pub fn build_bytes<const MAX_REQUEST_SIZE: usize>(&self) -> (r: Result<Vec<u8>, HttpError>)
        ensures
            self.rendered_bytes().len() <= MAX_REQUEST_SIZE ==> r is Ok && r->Ok_0@
                == self.rendered_bytes(),
            self.rendered_bytes().len() > MAX_REQUEST_SIZE ==> r == Err::<Vec<u8>, HttpError>(
                HttpError::BufferOverflow,
            ),
    {
        let mut bytes: Vec<u8> = Vec::new();
        append_bytes(&mut bytes, self.method.as_bytes());
        bytes.push(32);
        append_bytes(&mut bytes, self.path.as_slice());
        bytes.push(32);
        append_bytes(&mut bytes, self.version.as_slice());
        proof {
            reveal_strlit("\r\n");
            ascii_bytes_of_str("\r\n");
            assert(ascii_seq("\r\n"@) =~= seq![13u8, 10u8]);
        }
        append_lit(&mut bytes, "\r\n");
        write_header_block(&mut bytes, &self.headers);
        append_lit(&mut bytes, "\r\n");
        append_bytes(&mut bytes, self.body.as_slice());
        proof {
            assert(bytes@ =~= self.rendered_bytes());
        }
        if bytes.len() > MAX_REQUEST_SIZE {
            Err(HttpError::BufferOverflow)
        } else {
            Ok(bytes)
        }
    }
}

/// The line a well-formed header renders to, without its terminator.
pub open spec fn header_line_content(h: (Seq<u8>, Seq<u8>)) -> Seq<u8> {
    h.0 + seq![58u8, 32u8] + h.1
}

/// The lines that a rendered header block splits into.
pub open spec fn header_lines_model(hs: Seq<(Seq<u8>, Seq<u8>)>) -> Seq<Seq<u8>> {
    Seq::new(hs.len(), |i: int| header_line_content(hs[i]))
}

/// A rendered header block of well-formed headers splits into one line per
/// header.
proof fn lemma_lines_of_header_block(hs: Seq<(Seq<u8>, Seq<u8>)>)
    requires
        forall|i: int| 0 <= i < hs.len() ==> wf_header(#[trigger] hs[i]),
    ensures
        lines_of(headers_bytes(hs)) == header_lines_model(hs),
    decreases hs.len(),
{
    if hs.len() == 0 {
        assert(lines_of(headers_bytes(hs)) =~= header_lines_model(hs));
    } else {
        let h = hs[0];
        let line = header_line_content(h);
        crate::response::lemma_headers_bytes_first(hs);
        assert(headers_bytes(hs) =~= line + seq![13u8, 10u8] + headers_bytes(hs.drop_first()));
        assert forall|j: int| 0 <= j < line.len() implies line[j] != 10 by {
            if j < h.0.len() {
                assert(line[j] == h.0[j]);
            } else if j == h.0.len() {
                assert(line[j] == 58u8);
            } else if j == h.0.len() + 1 {
                assert(line[j] == 32u8);
            } else {
                assert(line[j] == h.1[j - h.0.len() - 2]);
            }
        }
        lemma_lines_of_prepend_line(line, headers_bytes(hs.drop_first()));
        lemma_lines_of_header_block(hs.drop_first());
        assert(seq![line] + header_lines_model(hs.drop_first()) =~= header_lines_model(hs));
    }
}

/// A well-formed header's rendered line parses back to exactly that header.
proof fn lemma_header_line_round_trip(h: (Seq<u8>, Seq<u8>))
    requires
        wf_header(h),
    ensures
        header_of_line(header_line_content(h)) == Some(h),
{
    let line = header_line_content(h);
    assert forall|j: int| 0 <= j < h.0.len() implies line[j] != 58 by {
        assert(line[j] == h.0[j]);
    }
    assert(line[h.0.len() as int] == 58u8);
    lemma_first_idx_at(line, 58, h.0.len() as int);
    assert(line.take(h.0.len() as int) =~= h.0);
    assert(line.skip(h.0.len() as int + 1) =~= seq![32u8] + h.1);
    crate::text::lemma_trim_space_prefix(h.1);
}

/// Folding the rendered lines of well-formed headers collects exactly those
/// headers, as long as they fit the capacity.
proof fn lemma_collect_built(hs: Seq<(Seq<u8>, Seq<u8>)>, acc: Seq<(Seq<u8>, Seq<u8>)>)
    requires
        forall|i: int| 0 <= i < hs.len() ==> wf_header(#[trigger] hs[i]),
        acc.len() + hs.len() <= MAX_HEADERS,
    ensures
        collect_headers(header_lines_model(hs), acc) == Ok::<Seq<(Seq<u8>, Seq<u8>)>, HttpError>(
            acc + hs,
        ),
    decreases hs.len(),
{
    let ls = header_lines_model(hs);
    if hs.len() == 0 {
        assert(ls.len() == 0);
        assert(acc + hs =~= acc);
    } else {
        let h = hs[0];
        let line = header_line_content(h);
        assert(ls[0] == line);
        assert(line.len() >= 2);
        lemma_header_line_round_trip(h);
        assert(ls.drop_first() =~= header_lines_model(hs.drop_first()));
        lemma_collect_built(hs.drop_first(), acc.push(h));
        assert(acc.push(h) + hs.drop_first() =~= acc + hs);
    }
}

/// The request line splits into exactly its three tokens.
proof fn lemma_request_line_tokens(m: HttpMethod, path: Seq<u8>, version: Seq<u8>)
    requires
        wf_token(path),
        wf_token(version),
    ensures
        ws_split(m.name_bytes() + seq![32u8] + path + seq![32u8] + version) == seq![
            m.name_bytes(),
            path,
            version,
        ],
{
    let mb = m.name_bytes();
    lemma_method_token_wf(m);
    let rest1 = seq![32u8] + path + seq![32u8] + version;
    assert(mb + seq![32u8] + path + seq![32u8] + version =~= mb + rest1);
    assert(rest1[0] == 32u8);
    lemma_ws_split_token(mb, rest1);
    let rest2 = path + seq![32u8] + version;
    assert(rest1 =~= seq![32u8] + rest2);
    lemma_ws_split_skip(32u8, rest2);
    let rest3 = seq![32u8] + version;
    assert(rest2 =~= path + rest3);
    assert(rest3[0] == 32u8);
    lemma_ws_split_token(path, rest3);
    assert(rest3 =~= seq![32u8] + version);
    lemma_ws_split_skip(32u8, version);
    assert(version =~= version + Seq::<u8>::empty());
    lemma_ws_split_token(version, Seq::empty());
    assert(ws_split(Seq::<u8>::empty()) =~= Seq::<Seq<u8>>::empty());
    assert(ws_split(mb + rest1) =~= seq![mb, path, version]);
}

/// Round trip: a request head built from a method, well-formed path and
/// version tokens, and up to sixteen well-formed headers parses back, with
/// any body span, to exactly those parts.
pub proof fn lemma_request_round_trip(
    m: HttpMethod,
    path: Seq<u8>,
    version: Seq<u8>,
    hs: Seq<(Seq<u8>, Seq<u8>)>,
    body: Seq<u8>,
)
    requires
        wf_token(path),
        wf_token(version),
        forall|i: int| 0 <= i < hs.len() ==> wf_header(#[trigger] hs[i]),
        hs.len() <= MAX_HEADERS,
    ensures
        parse_request_spec(request_head_bytes(m, path, version, hs), body) == Ok::<
            RequestModel,
            HttpError,
        >(RequestModel { method: m, path, version, headers: hs, body }),
{
    let head = request_head_bytes(m, path, version, hs);
    let rl = m.name_bytes() + seq![32u8] + path + seq![32u8] + version;
    lemma_method_token_wf(m);
    assert forall|j: int| 0 <= j < rl.len() implies rl[j] != 10 by {
        let ml = m.name_bytes().len() as int;
        let pl = path.len() as int;
        if j < ml {
            assert(rl[j] == m.name_bytes()[j]);
        } else if j == ml {
            assert(rl[j] == 32u8);
        } else if j < ml + 1 + pl {
            assert(rl[j] == path[j - ml - 1]);
        } else if j == ml + 1 + pl {
            assert(rl[j] == 32u8);
        } else {
            assert(rl[j] == version[j - ml - 2 - pl]);
        }
    }
    assert(head =~= rl + seq![13u8, 10u8] + headers_bytes(hs));
    lemma_lines_of_prepend_line(rl, headers_bytes(hs));
    lemma_lines_of_header_block(hs);
    let ls = lines_of(head);
    assert(ls == seq![rl] + header_lines_model(hs));
    assert(ls[0] == rl);
    lemma_request_line_tokens(m, path, version);
    let toks = ws_split(ls[0]);
    assert(toks.len() == 3);
    assert(toks[0] == m.name_bytes());
    lemma_method_token_round_trip(m);
    assert(ls.drop_first() =~= header_lines_model(hs));
    lemma_collect_built(hs, Seq::empty());
    assert(Seq::<(Seq<u8>, Seq<u8>)>::empty() + hs =~= hs);
}

} // verus!
