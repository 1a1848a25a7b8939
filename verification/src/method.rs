//! The nine standard HTTP request methods, with their canonical tokens and
//! an exact, case-sensitive parse from a byte or character span.

use crate::text::bytes_eq;
use vstd::prelude::*;
use vstd::string::*;

verus! {

/// The standard HTTP request methods.
#[derive(Clone, Copy, Debug, PartialEq, Eq, Structural)]
pub enum HttpMethod {
    /// Requests a representation of the specified resource.
    GET,
    /// Submits an entity to the specified resource.
    POST,
    /// Replaces all current representations of the target resource.
    PUT,
    /// Deletes the specified resource.
    DELETE,
    /// Applies partial modifications to a resource.
    PATCH,
    /// Establishes a tunnel to the server identified by the target resource.
    CONNECT,
    /// Describes the communication options for the target resource.
    OPTIONS,
    /// Performs a message loop-back test along the path to the target.
    TRACE,
    /// Asks for a GET-like response without the response body.
    HEAD,
}

/// The failure of parsing a method token: the token matches no method.
#[derive(Clone, Copy, Debug, PartialEq, Eq, Structural)]
pub struct InvalidHttpMethod;

impl InvalidHttpMethod {
    /// A human-readable description of this failure.
    pub fn message(&self) -> (r: &'static str)
        ensures
            r@ == "Invalid HTTP method"@,
    {
        "Invalid HTTP method"
    }
}

impl HttpMethod {
    /// The canonical token of this method, as characters.
    pub open spec fn spec_name(self) -> Seq<char> {
        match self {
            HttpMethod::GET => "GET"@,
            HttpMethod::POST => "POST"@,
            HttpMethod::PUT => "PUT"@,
            HttpMethod::DELETE => "DELETE"@,
            HttpMethod::PATCH => "PATCH"@,
            HttpMethod::CONNECT => "CONNECT"@,
            HttpMethod::OPTIONS => "OPTIONS"@,
            HttpMethod::TRACE => "TRACE"@,
            HttpMethod::HEAD => "HEAD"@,
        }
    }

    /// The canonical token of this method, as the bytes sent on the wire.
    pub open spec fn name_bytes(self) -> Seq<u8> {
        match self {
            HttpMethod::GET => seq!['G' as u8, 'E' as u8, 'T' as u8],
            HttpMethod::POST => seq!['P' as u8, 'O' as u8, 'S' as u8, 'T' as u8],
            HttpMethod::PUT => seq!['P' as u8, 'U' as u8, 'T' as u8],
            HttpMethod::DELETE => seq![
                'D' as u8,
                'E' as u8,
                'L' as u8,
                'E' as u8,
                'T' as u8,
                'E' as u8,
            ],
            HttpMethod::PATCH => seq!['P' as u8, 'A' as u8, 'T' as u8, 'C' as u8, 'H' as u8],
            HttpMethod::CONNECT => seq![
                'C' as u8,
                'O' as u8,
                'N' as u8,
                'N' as u8,
                'E' as u8,
                'C' as u8,
                'T' as u8,
            ],
            HttpMethod::OPTIONS => seq![
                'O' as u8,
                'P' as u8,
                'T' as u8,
                'I' as u8,
                'O' as u8,
                'N' as u8,
                'S' as u8,
            ],
            HttpMethod::TRACE => seq!['T' as u8, 'R' as u8, 'A' as u8, 'C' as u8, 'E' as u8],
            HttpMethod::HEAD => seq!['H' as u8, 'E' as u8, 'A' as u8, 'D' as u8],
        }
    }

    /// The string representation of the HTTP method.
    #[must_use]
    pub fn as_str(self) -> (r: &'static str)
        ensures
            r@ == self.spec_name(),
    {
        match self {
            HttpMethod::GET => "GET",
            HttpMethod::POST => "POST",
            HttpMethod::PUT => "PUT",
            HttpMethod::DELETE => "DELETE",
            HttpMethod::PATCH => "PATCH",
            HttpMethod::CONNECT => "CONNECT",
            HttpMethod::OPTIONS => "OPTIONS",
            HttpMethod::TRACE => "TRACE",
            HttpMethod::HEAD => "HEAD",
        }
    }

    /// The wire bytes of the HTTP method token.
    #[must_use]
    pub fn as_bytes(self) -> (r: &'static [u8])
        ensures
            r@ == self.name_bytes(),
    {
        let s = self.as_str();
        proof {
            match self {
                HttpMethod::GET => {
                    reveal_strlit("GET");
                },
                HttpMethod::POST => {
                    reveal_strlit("POST");
                },
                HttpMethod::PUT => {
                    reveal_strlit("PUT");
                },
                HttpMethod::DELETE => {
                    reveal_strlit("DELETE");
                },
                HttpMethod::PATCH => {
                    reveal_strlit("PATCH");
                },
                HttpMethod::CONNECT => {
                    reveal_strlit("CONNECT");
                },
                HttpMethod::OPTIONS => {
                    reveal_strlit("OPTIONS");
                },
                HttpMethod::TRACE => {
                    reveal_strlit("TRACE");
                },
                HttpMethod::HEAD => {
                    reveal_strlit("HEAD");
                },
            }
            lemma_method_token_forms_agree(self);
            crate::text::ascii_bytes_of_str(s);
        }
        s.as_bytes()
    }
}

/// The method whose canonical token equals the given bytes, if any.
pub open spec fn method_of(b: Seq<u8>) -> Option<HttpMethod> {
    if b == HttpMethod::GET.name_bytes() {
        Some(HttpMethod::GET)
    } else if b == HttpMethod::POST.name_bytes() {
        Some(HttpMethod::POST)
    } else if b == HttpMethod::PUT.name_bytes() {
        Some(HttpMethod::PUT)
    } else if b == HttpMethod::DELETE.name_bytes() {
        Some(HttpMethod::DELETE)
    } else if b == HttpMethod::PATCH.name_bytes() {
        Some(HttpMethod::PATCH)
    } else if b == HttpMethod::HEAD.name_bytes() {
        Some(HttpMethod::HEAD)
    } else if b == HttpMethod::OPTIONS.name_bytes() {
        Some(HttpMethod::OPTIONS)
    } else if b == HttpMethod::TRACE.name_bytes() {
        Some(HttpMethod::TRACE)
    } else if b == HttpMethod::CONNECT.name_bytes() {
        Some(HttpMethod::CONNECT)
    } else {
        None
    }
}

/// Parses a method from its exact, case-sensitive token bytes.
pub(crate) fn method_from_bytes(value: &[u8]) -> (r: Result<HttpMethod, InvalidHttpMethod>)
    ensures
        r == (match method_of(value@) {
            Some(m) => Result::<HttpMethod, InvalidHttpMethod>::Ok(m),
            None => Result::<HttpMethod, InvalidHttpMethod>::Err(InvalidHttpMethod),
        }),
{
    {
        if bytes_eq(value, HttpMethod::GET.as_bytes()) {
            Ok(HttpMethod::GET)
        } else if bytes_eq(value, HttpMethod::POST.as_bytes()) {
            Ok(HttpMethod::POST)
        } else if bytes_eq(value, HttpMethod::PUT.as_bytes()) {
            Ok(HttpMethod::PUT)
        } else if bytes_eq(value, HttpMethod::DELETE.as_bytes()) {
            Ok(HttpMethod::DELETE)
        } else if bytes_eq(value, HttpMethod::PATCH.as_bytes()) {
            Ok(HttpMethod::PATCH)
        } else if bytes_eq(value, HttpMethod::HEAD.as_bytes()) {
            Ok(HttpMethod::HEAD)
        } else if bytes_eq(value, HttpMethod::OPTIONS.as_bytes()) {
            Ok(HttpMethod::OPTIONS)
        } else if bytes_eq(value, HttpMethod::TRACE.as_bytes()) {
            Ok(HttpMethod::TRACE)
        } else if bytes_eq(value, HttpMethod::CONNECT.as_bytes()) {
            Ok(HttpMethod::CONNECT)
        } else {
            Err(InvalidHttpMethod)
        }
    }
}

impl<'a> TryFrom<&'a [u8]> for HttpMethod {
    type Error = InvalidHttpMethod;

    /// Parses a method from its exact, case-sensitive token bytes.
    fn try_from(value: &'a [u8]) -> (r: Result<HttpMethod, InvalidHttpMethod>) {
        method_from_bytes(value)
    }
}

impl<'a> vstd::std_specs::convert::TryFromSpecImpl<&'a [u8]> for HttpMethod {
    open spec fn obeys_try_from_spec() -> bool {
        true
    }

    open spec fn try_from_spec(v: &'a [u8]) -> Result<HttpMethod, InvalidHttpMethod> {
        match method_of(v@) {
            Some(m) => Ok(m),
            None => Err(InvalidHttpMethod),
        }
    }
}

impl<'a> TryFrom<&'a str> for HttpMethod {
    type Error = InvalidHttpMethod;

    /// Parses a method from its exact, case-sensitive token characters.
    fn try_from(value: &'a str) -> (r: Result<HttpMethod, InvalidHttpMethod>) {
        method_from_bytes(value.as_bytes())
    }
}

impl<'a> vstd::std_specs::convert::TryFromSpecImpl<&'a str> for HttpMethod {
    open spec fn obeys_try_from_spec() -> bool {
        true
    }

    open spec fn try_from_spec(v: &'a str) -> Result<HttpMethod, InvalidHttpMethod> {
        match method_of(v.spec_bytes()) {
            Some(m) => Ok(m),
            None => Err(InvalidHttpMethod),
        }
    }
}

/// The two token forms agree: the wire bytes are the ASCII bytes of the
/// character form.
pub proof fn lemma_method_token_forms_agree(m: HttpMethod)
    ensures
        crate::text::ascii_seq(m.spec_name()) == m.name_bytes(),
{
    match m {
        HttpMethod::GET => {
            reveal_strlit("GET");
            assert(crate::text::ascii_seq(m.spec_name()) =~= m.name_bytes());
        },
        HttpMethod::POST => {
            reveal_strlit("POST");
            assert(crate::text::ascii_seq(m.spec_name()) =~= m.name_bytes());
        },
        HttpMethod::PUT => {
            reveal_strlit("PUT");
            assert(crate::text::ascii_seq(m.spec_name()) =~= m.name_bytes());
        },
        HttpMethod::DELETE => {
            reveal_strlit("DELETE");
            assert(crate::text::ascii_seq(m.spec_name()) =~= m.name_bytes());
        },
        HttpMethod::PATCH => {
            reveal_strlit("PATCH");
            assert(crate::text::ascii_seq(m.spec_name()) =~= m.name_bytes());
        },
        HttpMethod::CONNECT => {
            reveal_strlit("CONNECT");
            assert(crate::text::ascii_seq(m.spec_name()) =~= m.name_bytes());
        },
        HttpMethod::OPTIONS => {
            reveal_strlit("OPTIONS");
            assert(crate::text::ascii_seq(m.spec_name()) =~= m.name_bytes());
        },
        HttpMethod::TRACE => {
            reveal_strlit("TRACE");
            assert(crate::text::ascii_seq(m.spec_name()) =~= m.name_bytes());
        },
        HttpMethod::HEAD => {
            reveal_strlit("HEAD");
            assert(crate::text::ascii_seq(m.spec_name()) =~= m.name_bytes());
        },
    }
}

/// A method's canonical token is nonempty and free of whitespace.
pub proof fn lemma_method_token_wf(m: HttpMethod)
    ensures
        m.name_bytes().len() > 0,
        forall|i: int| 0 <= i < m.name_bytes().len() ==> !crate::text::is_ws(
            #[trigger] m.name_bytes()[i],
        ),
{
    let t = m.name_bytes();
    assert forall|i: int| 0 <= i < t.len() implies !crate::text::is_ws(t[i]) by {
        match m {
            HttpMethod::GET => {
            },
            HttpMethod::POST => {
            },
            HttpMethod::PUT => {
            },
            HttpMethod::DELETE => {
            },
            HttpMethod::PATCH => {
            },
            HttpMethod::CONNECT => {
            },
            HttpMethod::OPTIONS => {
            },
            HttpMethod::TRACE => {
            },
            HttpMethod::HEAD => {
            },
        }
    }
}

/// Parsing a method's own canonical token always gives that method back.
pub proof fn lemma_method_token_round_trip(m: HttpMethod)
    ensures
        method_of(m.name_bytes()) == Some(m),
{
    match m {
        HttpMethod::GET => {
        },
        HttpMethod::POST => {
        },
        HttpMethod::PUT => {
            assert(HttpMethod::PUT.name_bytes()[0] != HttpMethod::GET.name_bytes()[0]);
        },
        HttpMethod::DELETE => {
        },
        HttpMethod::PATCH => {
        },
        HttpMethod::CONNECT => {
            assert(HttpMethod::CONNECT.name_bytes()[0] != HttpMethod::OPTIONS.name_bytes()[0]);
        },
        HttpMethod::OPTIONS => {
        },
        HttpMethod::TRACE => {
            assert(HttpMethod::TRACE.name_bytes()[0] != HttpMethod::PATCH.name_bytes()[0]);
        },
        HttpMethod::HEAD => {
            assert(HttpMethod::HEAD.name_bytes()[0] != HttpMethod::POST.name_bytes()[0]);
        },
    }
}

} // verus!
