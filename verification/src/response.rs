//! Responses: the tagged body (textual, binary or empty), the response
//! type, and the builder that renders a response into bytes — status line,
//! headers in insertion order, a synthesized Content-Length for a non-empty
//! body, a blank line, then the raw body. The builder states the exact byte
//! sequence it produces and surfaces overflow of the output bound instead
//! of truncating.

use crate::error::HttpError;
use crate::header::{find_header, HeaderList};
use crate::status_code::StatusCode;
use crate::text::{
    append_bytes, append_lit, as_utf8_str, ascii_bytes_of_str, ascii_seq, copy_span, first_idx,
    lemma_first_idx_at, lines_of, split_lines, vecs_model,
};
use vstd::prelude::*;
use vstd::string::*;
use vstd::utf8::{encode_utf8, valid_utf8};

verus! {

/// A response body: textual, binary, or empty — chosen by the producer,
/// not inferred.
pub enum ResponseBody {
    /// Text content (UTF-8 encoded).
    Text(String),
    /// Binary content (raw bytes).
    Binary(Vec<u8>),
    /// Empty body (e.g. for HEAD requests or 204 No Content).
    Empty,
}

/// A nonempty character sequence encodes to nonempty bytes, and an empty
/// one to empty bytes.
proof fn lemma_encode_utf8_empty(chars: Seq<char>)
    ensures
        (encode_utf8(chars).len() == 0) == (chars.len() == 0),
{
    if chars.len() > 0 {
        assert(encode_utf8(chars).len() >= vstd::utf8::encode_scalar(chars[0] as u32).len());
    }
}

impl ResponseBody {
    /// The bytes of this body as sent on the wire.
    pub open spec fn spec_bytes(&self) -> Seq<u8> {
        match self {
            ResponseBody::Text(s) => encode_utf8(s@),
            ResponseBody::Binary(bytes) => bytes@,
            ResponseBody::Empty => Seq::empty(),
        }
    }

    /// The body as a UTF-8 string: text as it is, binary only when its
    /// bytes are valid UTF-8, an empty body as the empty string.
    #[must_use]
    pub fn as_str(&self) -> (r: Option<&str>)
        ensures
            match self {
                ResponseBody::Text(s) => r is Some && r->0@ == s@,
                ResponseBody::Binary(bytes) => (r is Some <==> valid_utf8(bytes@)) && (r is Some
                    ==> r->0.spec_bytes() == bytes@),
                ResponseBody::Empty => r is Some && r->0@ == Seq::<char>::empty(),
            },
    {
        match self {
            ResponseBody::Text(s) => Some(s.as_str()),
            ResponseBody::Binary(bytes) => as_utf8_str(bytes.as_slice()),
            ResponseBody::Empty => {
                proof {
                    reveal_strlit("");
                }
                Some("")
            },
        }
    }

    /// The body as raw bytes.
    #[must_use]
    pub fn as_bytes(&self) -> (r: &[u8])
        ensures
            r@ == self.spec_bytes(),
    {
        match self {
            ResponseBody::Text(s) => s.as_str().as_bytes(),
            ResponseBody::Binary(bytes) => bytes.as_slice(),
            ResponseBody::Empty => {
                proof {
                    reveal_strlit("");
                    assert("".spec_bytes() =~= Seq::<u8>::empty());
                }
                "".as_bytes()
            },
        }
    }

    /// Whether the body renders to no bytes at all.
    #[must_use]
    pub fn is_empty(&self) -> (r: bool)
        ensures
            r == (self.spec_bytes().len() == 0),
    {
        match self {
            ResponseBody::Text(s) => {
                proof {
                    lemma_encode_utf8_empty(s@);
                }
                s.as_str().is_empty()
            },
            ResponseBody::Binary(bytes) => bytes.len() == 0,
            ResponseBody::Empty => true,
        }
    }

    /// The length of the body in bytes.
    #[must_use]
    pub fn len(&self) -> (r: usize)
        ensures
            r == self.spec_bytes().len(),
    {
        match self {
            ResponseBody::Text(s) => s.as_str().as_bytes().len(),
            ResponseBody::Binary(bytes) => bytes.len(),
            ResponseBody::Empty => 0,
        }
    }
}

/// Whether a span is a plain decimal number: nonempty, digit bytes only.
pub open spec fn is_digit_bytes(s: Seq<u8>) -> bool {
    s.len() > 0 && forall|i: int| 0 <= i < s.len() ==> 48 <= #[trigger] s[i] <= 57
}

/// The numeric value of a span of decimal digit bytes.
pub open spec fn digits_val(s: Seq<u8>) -> int
    decreases s.len(),
{
    if s.len() == 0 {
        0
    } else {
        digits_val(s.drop_last()) * 10 + s.last() - 48
    }
}

/// The value of a digit span is non-negative.
proof fn lemma_digits_val_nonneg(s: Seq<u8>)
    requires
        forall|i: int| 0 <= i < s.len() ==> 48 <= #[trigger] s[i] <= 57,
    ensures
        digits_val(s) >= 0,
    decreases s.len(),
{
    if s.len() > 0 {
        lemma_digits_val_nonneg(s.drop_last());
    }
}

/// The value of a digit span is at least the value of any of its prefixes.
proof fn lemma_digits_val_prefix(s: Seq<u8>, i: int)
    requires
        0 <= i <= s.len(),
        forall|j: int| 0 <= j < s.len() ==> 48 <= #[trigger] s[j] <= 57,
    ensures
        digits_val(s.take(i)) <= digits_val(s),
    decreases s.len() - i,
{
    if i == s.len() {
        assert(s.take(i) =~= s);
    } else {
        lemma_digits_val_nonneg(s.drop_last());
        assert(s.take(i) =~= s.drop_last().take(i));
        lemma_digits_val_prefix(s.drop_last(), i);
    }
}

/// Reads a plain decimal number: every byte must be a digit, at least one
/// digit must be present, and the value must fit the machine word.
pub fn parse_decimal(s: &[u8]) -> (r: Option<usize>)
    ensures
        r is Some <==> (is_digit_bytes(s@) && digits_val(s@) <= usize::MAX),
        r is Some ==> r->0 == digits_val(s@),
{
    if s.len() == 0 {
        return None;
    }
    let mut acc: usize = 0;
    let mut i: usize = 0;
    while i < s.len()
        invariant
            i <= s@.len(),
            s@.len() > 0,
            forall|j: int| 0 <= j < i ==> 48 <= #[trigger] s@[j] <= 57,
            acc == digits_val(s@.take(i as int)),
        decreases s@.len() - i,
    {
        let b = s[i];
        if b < 48 || b > 57 {
            return None;
        }
        let d = (b - 48) as usize;
        proof {
            assert(s@.take(i as int + 1).drop_last() =~= s@.take(i as int));
            assert(s@.take(i as int + 1).last() == s@[i as int]);
        }
        if acc > (usize::MAX - d) / 10 {
            proof {
                assert(acc * 10 + d > usize::MAX) by (nonlinear_arith)
                    requires
                        acc > (usize::MAX - d) / 10,
                        d <= usize::MAX,
                        acc >= 0,
                        d >= 0,
                ;
                if is_digit_bytes(s@) {
                    lemma_digits_val_prefix(s@, i as int + 1);
                }
            }
            return None;
        }
        acc = acc * 10 + d;
        i += 1;
    }
    proof {
        assert(s@.take(s@.len() as int) =~= s@);
    }
    Some(acc)
}

/// The decimal digits of a number, most significant first, with no sign and
/// no leading zero.
pub open spec fn dec_digits(n: nat) -> Seq<u8>
    decreases n,
{
    if n < 10 {
        seq![(48 + n) as u8]
    } else {
        dec_digits(n / 10).push((48 + n % 10) as u8)
    }
}

/// Decimal rendering is never empty, holds digit bytes only, and puts no
/// zero first for a positive number.
pub proof fn lemma_dec_digits_shape(n: nat)
    ensures
        dec_digits(n).len() >= 1,
        forall|i: int| 0 <= i < dec_digits(n).len() ==> 48 <= #[trigger] dec_digits(n)[i] <= 57,
        n >= 1 ==> dec_digits(n)[0] != 48,
        n == 0 ==> dec_digits(n) == seq![48u8],
    decreases n,
{
    if n >= 10 {
        lemma_dec_digits_shape(n / 10);
        assert(dec_digits(n)[0] == dec_digits(n / 10)[0]);
    }
}

/// Rendering a number in decimal and reading the digits back gives the
/// number: the builder's Content-Length is readable by the header parser.
pub proof fn lemma_dec_digits_value(n: nat)
    ensures
        is_digit_bytes(dec_digits(n)),
        digits_val(dec_digits(n)) == n,
    decreases n,
{
    lemma_dec_digits_shape(n);
    assert forall|i: int| 0 <= i < dec_digits(n).len() implies 48 <= #[trigger] dec_digits(n)[i]
        <= 57 by {}
    if n < 10 {
        assert(dec_digits(n).drop_last() =~= Seq::<u8>::empty());
        assert(dec_digits(n).last() == (48 + n) as u8);
        assert(dec_digits(n).len() == 1);
        assert(digits_val(dec_digits(n)) == digits_val(Seq::<u8>::empty()) * 10 + dec_digits(
            n,
        ).last() - 48);
        assert(digits_val(Seq::<u8>::empty()) == 0);
    } else {
        lemma_dec_digits_value(n / 10);
        assert(dec_digits(n).drop_last() =~= dec_digits(n / 10));
        assert(dec_digits(n).last() == (48 + n % 10) as u8);
        assert(digits_val(dec_digits(n)) == digits_val(dec_digits(n / 10)) * 10 + (48 + n % 10)
            - 48);
        assert((n / 10) * 10 + n % 10 == n);
    }
}

/// The status line: the protocol token, the code in decimal, the canonical
/// reason phrase, and the line terminator.
pub open spec fn status_line_bytes(c: StatusCode) -> Seq<u8> {
    ascii_seq("HTTP/1.1 "@) + dec_digits(c.spec_code() as nat) + seq![32u8] + c.phrase_bytes()
        + seq![13u8, 10u8]
}

/// One rendered header line.
pub open spec fn header_line_bytes(h: (Seq<u8>, Seq<u8>)) -> Seq<u8> {
    h.0 + seq![58u8, 32u8] + h.1 + seq![13u8, 10u8]
}

/// The rendered header block, in insertion order.
pub open spec fn headers_bytes(hs: Seq<(Seq<u8>, Seq<u8>)>) -> Seq<u8>
    decreases hs.len(),
{
    if hs.len() == 0 {
        Seq::empty()
    } else {
        headers_bytes(hs.drop_last()) + header_line_bytes(hs.last())
    }
}

/// The rendered header block also splits off its first line.
pub proof fn lemma_headers_bytes_first(hs: Seq<(Seq<u8>, Seq<u8>)>)
    requires
        hs.len() > 0,
    ensures
        headers_bytes(hs) == header_line_bytes(hs[0]) + headers_bytes(hs.drop_first()),
    decreases hs.len(),
{
    if hs.len() == 1 {
        assert(hs.drop_last().len() == 0);
        assert(hs.drop_first().len() == 0);
        assert(hs.last() == hs[0]);
        assert(headers_bytes(hs.drop_last()) + header_line_bytes(hs.last()) =~= header_line_bytes(
            hs[0],
        ) + headers_bytes(hs.drop_first()));
    } else {
        lemma_headers_bytes_first(hs.drop_last());
        assert(hs.drop_last()[0] == hs[0]);
        assert(hs.drop_last().drop_first() =~= hs.drop_first().drop_last());
        assert(hs.drop_first().last() == hs.last());
        assert((header_line_bytes(hs[0]) + headers_bytes(hs.drop_first().drop_last()))
            + header_line_bytes(hs.last()) =~= header_line_bytes(hs[0]) + (headers_bytes(
            hs.drop_first().drop_last(),
        ) + header_line_bytes(hs.last())));
    }
}

/// The synthesized Content-Length line for a body of `n` bytes.
pub open spec fn content_length_bytes(n: nat) -> Seq<u8> {
    ascii_seq("Content-Length: "@) + dec_digits(n) + seq![13u8, 10u8]
}

/// The full rendered response: status line, headers in order, a
/// Content-Length line exactly when the body is non-empty, a blank line,
/// then the raw body bytes.
pub open spec fn response_bytes(c: StatusCode, hs: Seq<(Seq<u8>, Seq<u8>)>, body: Seq<u8>) -> Seq<
    u8,
> {
    status_line_bytes(c) + headers_bytes(hs) + (if body.len() > 0 {
        content_length_bytes(body.len() as nat)
    } else {
        Seq::empty()
    }) + seq![13u8, 10u8] + body
}

/// Writes a number in decimal to the buffer: digit by digit, most
/// significant digit extracted last and then reversed, with a single-digit
/// fast path for zero.
#[verifier::rlimit(30)]
pub fn write_decimal_to_buffer(bytes: &mut Vec<u8>, num: usize)
    ensures
        final(bytes)@ == old(bytes)@ + dec_digits(num as nat),
{
    if num == 0 {
        bytes.push(48);
        proof {
            assert(old(bytes)@ + dec_digits(0) =~= old(bytes)@.push(48u8));
        }
        return ;
    }
    let ghost num0 = num as nat;
    let mut digits: Vec<u8> = Vec::new();
    let mut n = num;
    while n > 0
        invariant
            n >= 0,
            n > 0 ==> dec_digits(num0) == dec_digits(n as nat) + digits@.reverse(),
            n == 0 ==> dec_digits(num0) == digits@.reverse(),
        decreases n,
    {
        let d: u8 = (n % 10) as u8 + 48;
        let ghost before = digits@;
        digits.push(d);
        proof {
            assert(digits@.reverse() =~= seq![d] + before.reverse());
            if n >= 10 {
                assert(dec_digits(n as nat) == dec_digits((n / 10) as nat).push(d));
                assert(dec_digits((n / 10) as nat).push(d) + before.reverse() =~= dec_digits(
                    (n / 10) as nat,
                ) + (seq![d] + before.reverse()));
            } else {
                assert(dec_digits(n as nat) =~= seq![d]);
                assert(seq![d] + before.reverse() =~= digits@.reverse());
            }
        }
        n = n / 10;
    }
    let ghost target = dec_digits(num0);
    let ghost start = bytes@;
    let l = digits.len();
    let mut j: usize = l;
    while j > 0
        invariant
            j <= l,
            l == digits@.len(),
            target == digits@.reverse(),
            bytes@ == start + target.subrange(0, l - j),
        decreases j,
    {
        j -= 1;
        let ghost before = bytes@;
        bytes.push(digits[j]);
        proof {
            assert(digits@[j as int] == target[l - 1 - j]);
            assert(before.push(digits@[j as int]) =~= start + target.subrange(0, l - j));
        }
    }
    proof {
        assert(target.subrange(0, l as int) =~= target);
    }
}

/// Writes the HTTP status line for the given status to the buffer.
pub fn write_status_line(bytes: &mut Vec<u8>, status_code: StatusCode)
    ensures
        final(bytes)@ == old(bytes)@ + status_line_bytes(status_code),
{
    proof {
        reveal_strlit("HTTP/1.1 ");
    }
    append_lit(bytes, "HTTP/1.1 ");
    write_decimal_to_buffer(bytes, status_code.as_u16() as usize);
    bytes.push(32);
    let phrase = status_code.text();
    append_bytes(bytes, phrase.as_bytes());
    proof {
        reveal_strlit("\r\n");
        ascii_bytes_of_str("\r\n");
        assert(ascii_seq("\r\n"@) =~= seq![13u8, 10u8]);
    }
    append_lit(bytes, "\r\n");
    proof {
        assert(old(bytes)@ + ascii_seq("HTTP/1.1 "@) + dec_digits(status_code.spec_code() as nat)
            + seq![32u8] + status_code.phrase_bytes() + seq![13u8, 10u8] =~= old(bytes)@
            + status_line_bytes(status_code));
    }
}

/// Writes the rendered header block, one line per header in insertion
/// order, to the buffer.
#[verifier::loop_isolation(false)]
pub fn write_header_block(bytes: &mut Vec<u8>, headers: &HeaderList)
    ensures
        final(bytes)@ == old(bytes)@ + headers_bytes(headers@),
{
    let n = headers.len();
    let mut i: usize = 0;
    while i < n
        invariant
            i <= n,
            bytes@ == old(bytes)@ + headers_bytes(headers@.subrange(0, i as int)),
        decreases n - i,
    {
        let h = match headers.get(i) {
            Some(h) => h,
            None => {
                proof {
                    assert(false);
                }
                return ;
            },
        };
        let ghost before = bytes@;
        append_bytes(bytes, h.name.as_slice());
        proof {
            reveal_strlit(": ");
            ascii_bytes_of_str(": ");
            assert(ascii_seq(": "@) =~= seq![58u8, 32u8]);
        }
        append_lit(bytes, ": ");
        append_bytes(bytes, h.value.as_slice());
        proof {
            reveal_strlit("\r\n");
            ascii_bytes_of_str("\r\n");
            assert(ascii_seq("\r\n"@) =~= seq![13u8, 10u8]);
        }
        append_lit(bytes, "\r\n");
        proof {
            let hs = headers@.subrange(0, i as int + 1);
            assert(hs.drop_last() =~= headers@.subrange(0, i as int));
            assert(hs.last() == headers@[i as int]);
            assert(bytes@ =~= before + header_line_bytes(headers@[i as int]));
            assert(bytes@ =~= old(bytes)@ + headers_bytes(hs));
        }
        i += 1;
    }
    proof {
        assert(headers@.subrange(0, headers@.len() as int) =~= headers@);
    }
}

/// An HTTP response: status code, bounded header collection, and body.
pub struct HttpResponse {
    /// The status code.
    pub status_code: StatusCode,
    /// The response headers, in insertion order.
    pub headers: HeaderList,
    /// The response body.
    pub body: ResponseBody,
}

impl HttpResponse {
    /// The exact bytes this response renders to.
    pub open spec fn rendered_bytes(&self) -> Seq<u8> {
        response_bytes(self.status_code, self.headers@, self.body.spec_bytes())
    }

    /// The value of the first header whose name matches, up to ASCII case.
    #[must_use]
    pub fn get_header(&self, name: &[u8]) -> (r: Option<&[u8]>)
        ensures
            r is Some <==> find_header(self.headers@, name@) is Some,
            r is Some ==> r->0@ == find_header(self.headers@, name@)->0,
    {
        match self.headers.find(name) {
            Some(v) => Some(v.as_slice()),
            None => None,
        }
    }

    /// The value of the Content-Type header, if one is present.
    #[must_use]
    pub fn content_type(&self) -> (r: Option<&[u8]>)
        ensures
            r is Some <==> find_header(self.headers@, "Content-Type".spec_bytes()) is Some,
            r is Some ==> r->0@ == find_header(self.headers@, "Content-Type".spec_bytes())->0,
    {
        self.get_header("Content-Type".as_bytes())
    }

    /// The value of the Content-Length header read as a plain decimal
    /// number, if such a header is present and its value is one.
    #[must_use]
    pub fn content_length(&self) -> (r: Option<usize>)
        ensures
            match find_header(self.headers@, "Content-Length".spec_bytes()) {
                None => r is None,
                Some(v) => (r is Some <==> is_digit_bytes(v) && digits_val(v) <= usize::MAX) && (r
                    is Some ==> r->0 == digits_val(v)),
            },
    {
        match self.get_header("Content-Length".as_bytes()) {
            None => None,
            Some(v) => parse_decimal(v),
        }
    }

    /// Whether the status reports success (a 2xx code).
    #[must_use]
    pub fn is_success(&self) -> (r: bool)
        ensures
            r == (200 <= self.status_code.spec_code() < 300),
    {
        self.status_code.is_success()
    }

    /// Whether the status reports a client error (a 4xx code).
    #[must_use]
    pub fn is_client_error(&self) -> (r: bool)
        ensures
            r == (400 <= self.status_code.spec_code() < 500),
    {
        self.status_code.is_client_error()
    }

    /// Whether the status reports a server error (a 5xx code).
    #[must_use]
    pub fn is_server_error(&self) -> (r: bool)
        ensures
            r == (500 <= self.status_code.spec_code() < 600),
    {
        self.status_code.is_server_error()
    }

    /// Renders this response, as `response_bytes` describes, when it fits
    /// the given output bound; a larger message is an overflow error, never
    /// a truncation.
    #[must_use]
    #[verifier::loop_isolation(false)]
    pub fn build_bytes<const MAX_RESPONSE_SIZE: usize>(&self) -> (r: Result<Vec<u8>, HttpError>)
        ensures
            self.rendered_bytes().len() <= MAX_RESPONSE_SIZE ==> r is Ok && r->Ok_0@
                == self.rendered_bytes(),
            self.rendered_bytes().len() > MAX_RESPONSE_SIZE ==> r == Err::<Vec<u8>, HttpError>(
                HttpError::BufferOverflow,
            ),
    {
        let mut bytes: Vec<u8> = Vec::new();
        write_status_line(&mut bytes, self.status_code);
        write_header_block(&mut bytes, &self.headers);
        let body_bytes = self.body.as_bytes();
        if body_bytes.len() > 0 {
            proof {
                reveal_strlit("Content-Length: ");
            }
            append_lit(&mut bytes, "Content-Length: ");
            write_decimal_to_buffer(&mut bytes, body_bytes.len());
            proof {
                reveal_strlit("\r\n");
                ascii_bytes_of_str("\r\n");
                assert(ascii_seq("\r\n"@) =~= seq![13u8, 10u8]);
            }
            append_lit(&mut bytes, "\r\n");
        }
        proof {
            reveal_strlit("\r\n");
            ascii_bytes_of_str("\r\n");
            assert(ascii_seq("\r\n"@) =~= seq![13u8, 10u8]);
        }
        append_lit(&mut bytes, "\r\n");
        append_bytes(&mut bytes, body_bytes);
        proof {
            assert(bytes@ =~= self.rendered_bytes());
        }
        if bytes.len() > MAX_RESPONSE_SIZE {
            Err(HttpError::BufferOverflow)
        } else {
            Ok(bytes)
        }
    }
}

/// For a non-empty body the rendered message carries a Content-Length line
/// whose decimal value is the exact byte length of the body, between the
/// headers and the blank line; for an empty body no Content-Length line is
/// emitted.
pub proof fn lemma_rendered_content_length(
    c: StatusCode,
    hs: Seq<(Seq<u8>, Seq<u8>)>,
    body: Seq<u8>,
)
    ensures
        body.len() > 0 ==> response_bytes(c, hs, body) == status_line_bytes(c) + headers_bytes(hs)
            + (ascii_seq("Content-Length: "@) + dec_digits(body.len() as nat) + seq![13u8, 10u8])
            + seq![13u8, 10u8] + body,
        body.len() == 0 ==> response_bytes(c, hs, body) == status_line_bytes(c) + headers_bytes(hs)
            + seq![13u8, 10u8] + body,
{
    if body.len() == 0 {
        assert(status_line_bytes(c) + headers_bytes(hs) + Seq::<u8>::empty() + seq![13u8, 10u8]
            + body =~= status_line_bytes(c) + headers_bytes(hs) + seq![13u8, 10u8] + body);
    }
}


/// The mathematical content of a parsed response: the version and reason
/// byte spans, the numeric status code, the header pairs in order, and the
/// body bytes.
pub struct ParsedResponseModel {
    /// The protocol version token.
    pub version: Seq<u8>,
    /// The numeric status code.
    pub code: u16,
    /// The reason phrase: the rest of the status line, spaces included.
    pub reason: Seq<u8>,
    /// The (name, value) header pairs, in the order received.
    pub headers: Seq<(Seq<u8>, Seq<u8>)>,
    /// The body bytes, taken as given.
    pub body: Seq<u8>,
}

/// What parsing a status line yields: the version token before the first
/// space, the decimal status code between the first and second spaces, and
/// everything after the second space as the reason phrase, which may itself
/// contain spaces.
pub open spec fn parse_status_line_spec(line: Seq<u8>) -> Result<
    (Seq<u8>, u16, Seq<u8>),
    HttpError,
> {
    let i1 = first_idx(line, 32);
    if i1 == line.len() {
        Err(HttpError::MissingStatusCode)
    } else {
        let version = line.take(i1);
        let rest = line.skip(i1 + 1);
        let i2 = first_idx(rest, 32);
        let code_tok = rest.take(i2);
        let reason = if i2 == rest.len() {
            Seq::<u8>::empty()
        } else {
            rest.skip(i2 + 1)
        };
        if is_digit_bytes(code_tok) && digits_val(code_tok) <= u16::MAX {
            Ok((version, digits_val(code_tok) as u16, reason))
        } else {
            Err(HttpError::InvalidStatusLine)
        }
    }
}

/// What parsing a response header block (as bytes) together with a body
/// span yields: the first line must be a status line with a numeric code;
/// later lines up to a blank line become headers, as on the request side;
/// the body is taken as given.
pub open spec fn parse_response_spec(h: Seq<u8>, body: Seq<u8>) -> Result<
    ParsedResponseModel,
    HttpError,
> {
    let ls = lines_of(h);
    if ls.len() == 0 {
        Err(HttpError::MissingStatusLine)
    } else {
        match parse_status_line_spec(ls[0]) {
            Err(e) => Err(e),
            Ok((version, code, reason)) => match crate::request::collect_headers(
                ls.drop_first(),
                Seq::empty(),
            ) {
                Err(e) => Err(e),
                Ok(hs) => Ok(
                    ParsedResponseModel { version, code, reason, headers: hs, body },
                ),
            },
        }
    }
}

/// A response parsed off the wire, its status code still numeric: resolving
/// it against the registry is the caller's decision.
pub struct ParsedResponse {
    /// The protocol version token.
    pub version: Vec<u8>,
    /// The numeric status code.
    pub code: u16,
    /// The reason phrase, taken verbatim.
    pub reason: Vec<u8>,
    /// The response headers, in the order received.
    pub headers: HeaderList,
    /// The response body, taken as given.
    pub body: Vec<u8>,
}

impl View for ParsedResponse {
    type V = ParsedResponseModel;

    open spec fn view(&self) -> ParsedResponseModel {
        ParsedResponseModel {
            version: self.version@,
            code: self.code,
            reason: self.reason@,
            headers: self.headers@,
            body: self.body@,
        }
    }
}

impl ParsedResponse {
    /// Parses a response from a header block and a body span, as
    /// `parse_response_spec` describes.
    pub fn parse_from(headers_str: &str, body: &[u8]) -> (r: Result<ParsedResponse, HttpError>)
        ensures
            match parse_response_spec(headers_str.spec_bytes(), body@) {
                Ok(m) => r is Ok && r->Ok_0@ == m,
                Err(e) => r == Err::<ParsedResponse, HttpError>(e),
            },
    {
        let hb: &[u8] = headers_str.as_bytes();
        let ghost hseq = headers_str.spec_bytes();
        let ghost lmodel = lines_of(hseq);
        let lines = split_lines(hb);
        if lines.len() == 0 {
            return Err(HttpError::MissingStatusLine);
        }
        let line: &Vec<u8> = &lines[0];
        proof {
            assert(line@ == vecs_model(lines@)[0]);
        }
        let mut j1: usize = 0;
        while j1 < line.len() && line[j1] != 32
            invariant
                j1 <= line@.len(),
                forall|k: int| 0 <= k < j1 ==> line@[k] != 32,
            decreases line@.len() - j1,
        {
            j1 += 1;
        }
        proof {
            lemma_first_idx_at(line@, 32, j1 as int);
        }
        if j1 == line.len() {
            return Err(HttpError::MissingStatusCode);
        }
        let ghost rest = line@.skip(j1 as int + 1);
        let mut j2: usize = j1 + 1;
        while j2 < line.len() && line[j2] != 32
            invariant
                j1 + 1 <= j2 <= line@.len(),
                forall|k: int| j1 + 1 <= k < j2 ==> line@[k] != 32,
            decreases line@.len() - j2,
        {
            j2 += 1;
        }
        proof {
            assert forall|k: int| 0 <= k < j2 - j1 - 1 implies rest[k] != 32 by {
                assert(rest[k] == line@[j1 + 1 + k]);
            }
            if j2 < line@.len() {
                assert(rest[j2 - j1 - 1] == line@[j2 as int]);
            }
            lemma_first_idx_at(rest, 32, j2 - j1 - 1);
            assert(rest.take(j2 - j1 - 1) =~= line@.subrange(j1 as int + 1, j2 as int));
        }
        let code_slice: &[u8] = &line.as_slice()[j1 + 1..j2];
        let code: u16 = match parse_decimal(code_slice) {
            Some(v) => {
                if v <= 65535 {
                    v as u16
                } else {
                    return Err(HttpError::InvalidStatusLine);
                }
            },
            None => {
                return Err(HttpError::InvalidStatusLine);
            },
        };
        let version = copy_span(line.as_slice(), 0, j1);
        proof {
            assert(line@.subrange(0, j1 as int) =~= line@.take(j1 as int));
        }
        let reason: Vec<u8> = if j2 == line.len() {
            Vec::new()
        } else {
            let v = copy_span(line.as_slice(), j2 + 1, line.len());
            proof {
                assert(line@.subrange(j2 as int + 1, line@.len() as int) =~= rest.skip(
                    j2 - j1 as int,
                ));
            }
            v
        };
        proof {
            assert(lmodel.drop_first() =~= lmodel.skip(1));
        }
        let hdrs = match crate::request::collect_header_lines(&lines, 1) {
            Ok(h) => h,
            Err(e) => {
                return Err(e);
            },
        };
        let body_vec = copy_span(body, 0, body.len());
        proof {
            assert(body@.subrange(0, body@.len() as int) =~= body@);
        }
        let resp = ParsedResponse { version, code, reason, headers: hdrs, body: body_vec };
        proof {
            let m = parse_response_spec(hseq, body@)->Ok_0;
            assert(resp@ == m);
        }
        Ok(resp)
    }

    /// What parsing a whole raw response buffer yields, framed and gated
    /// exactly as on the request side: no boundary is incomplete input, a
    /// header block that is not valid UTF-8 is rejected, and the bytes
    /// after the boundary are the body, unchecked.
    pub open spec fn try_from_spec(buffer: Seq<u8>) -> Result<ParsedResponseModel, HttpError> {
        match crate::request::first_boundary(buffer, 0) {
            None => Err(HttpError::IncompleteHeaders),
            Some(i) => if !vstd::utf8::valid_utf8(buffer.take(i)) {
                Err(HttpError::InvalidEncoding)
            } else {
                parse_response_spec(buffer.take(i), buffer.skip(i + 4))
            },
        }
    }

    /// Parses a response out of a whole raw buffer, locating the
    /// header/body boundary itself, as `try_from_spec` describes.
    pub fn try_from(buffer: &[u8]) -> (r: Result<ParsedResponse, HttpError>)
        ensures
            match Self::try_from_spec(buffer@) {
                Ok(m) => r is Ok && r->Ok_0@ == m,
                Err(e) => r == Err::<ParsedResponse, HttpError>(e),
            },
    {
        let end = match crate::request::find_double_crlf(buffer) {
            Some(i) => i,
            None => {
                proof {
                    crate::request::lemma_first_boundary_from(buffer@, 0, buffer@.len() as int);
                }
                return Err(HttpError::IncompleteHeaders);
            },
        };
        proof {
            crate::request::lemma_first_boundary_from(buffer@, 0, end as int);
        }
        let head: &[u8] = &buffer[0..end];
        proof {
            assert(head@ == buffer@.take(end as int));
        }
        match as_utf8_str(head) {
            None => Err(HttpError::InvalidEncoding),
            Some(s) => {
                let tail_part: &[u8] = &buffer[end..buffer.len()];
                let body: &[u8] = &tail_part[4..tail_part.len()];
                proof {
                    assert(body@ =~= buffer@.skip(end as int + 4));
                }
                Self::parse_from(s, body)
            },
        }
    }
}

} // verus!
