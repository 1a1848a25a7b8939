//! HTTP status codes from the common registry, each with its numeric code
//! and canonical reason phrase, and the classification predicates derived
//! from the numeric range.

use crate::text::{ascii_bytes_of_str, ascii_seq};
use vstd::prelude::*;
use vstd::string::*;

verus! {

/// The failure of reading a numeric status code: the number is not in the
/// supported registry.
#[derive(Clone, Copy, Debug, PartialEq, Eq, Structural)]
pub struct InvalidStatusCode;

/// A status code of the common HTTP registry.
#[derive(Clone, Copy, Debug, PartialEq, Eq, Structural)]
pub enum StatusCode {
    /// 200
    OK,
    /// 201
    Created,
    /// 202
    Accepted,
    /// 204
    NoContent,
    /// 301
    MovedPermanently,
    /// 302
    Found,
    /// 304
    NotModified,
    /// 400
    BadRequest,
    /// 401
    Unauthorized,
    /// 403
    Forbidden,
    /// 404
    NotFound,
    /// 405
    MethodNotAllowed,
    /// 408
    RequestTimeout,
    /// 413
    PayloadTooLarge,
    /// 500
    InternalServerError,
    /// 501
    NotImplemented,
    /// 502
    BadGateway,
    /// 503
    ServiceUnavailable,
}

impl StatusCode {
    /// The numeric code.
    pub open spec fn spec_code(self) -> u16 {
        match self {
            StatusCode::OK => 200,
            StatusCode::Created => 201,
            StatusCode::Accepted => 202,
            StatusCode::NoContent => 204,
            StatusCode::MovedPermanently => 301,
            StatusCode::Found => 302,
            StatusCode::NotModified => 304,
            StatusCode::BadRequest => 400,
            StatusCode::Unauthorized => 401,
            StatusCode::Forbidden => 403,
            StatusCode::NotFound => 404,
            StatusCode::MethodNotAllowed => 405,
            StatusCode::RequestTimeout => 408,
            StatusCode::PayloadTooLarge => 413,
            StatusCode::InternalServerError => 500,
            StatusCode::NotImplemented => 501,
            StatusCode::BadGateway => 502,
            StatusCode::ServiceUnavailable => 503,
        }
    }

    /// The canonical reason phrase, as characters.
    pub open spec fn spec_phrase(self) -> Seq<char> {
        match self {
            StatusCode::OK => "OK"@,
            StatusCode::Created => "Created"@,
            StatusCode::Accepted => "Accepted"@,
            StatusCode::NoContent => "No Content"@,
            StatusCode::MovedPermanently => "Moved Permanently"@,
            StatusCode::Found => "Found"@,
            StatusCode::NotModified => "Not Modified"@,
            StatusCode::BadRequest => "Bad Request"@,
            StatusCode::Unauthorized => "Unauthorized"@,
            StatusCode::Forbidden => "Forbidden"@,
            StatusCode::NotFound => "Not Found"@,
            StatusCode::MethodNotAllowed => "Method Not Allowed"@,
            StatusCode::RequestTimeout => "Request Timeout"@,
            StatusCode::PayloadTooLarge => "Payload Too Large"@,
            StatusCode::InternalServerError => "Internal Server Error"@,
            StatusCode::NotImplemented => "Not Implemented"@,
            StatusCode::BadGateway => "Bad Gateway"@,
            StatusCode::ServiceUnavailable => "Service Unavailable"@,
        }
    }

    /// The canonical reason phrase, as the bytes sent on the wire.
    pub open spec fn phrase_bytes(self) -> Seq<u8> {
        ascii_seq(self.spec_phrase())
    }

    /// The numeric code of this status.
    #[must_use]
    pub fn as_u16(self) -> (r: u16)
        ensures
            r == self.spec_code(),
    {
        match self {
            StatusCode::OK => 200,
            StatusCode::Created => 201,
            StatusCode::Accepted => 202,
            StatusCode::NoContent => 204,
            StatusCode::MovedPermanently => 301,
            StatusCode::Found => 302,
            StatusCode::NotModified => 304,
            StatusCode::BadRequest => 400,
            StatusCode::Unauthorized => 401,
            StatusCode::Forbidden => 403,
            StatusCode::NotFound => 404,
            StatusCode::MethodNotAllowed => 405,
            StatusCode::RequestTimeout => 408,
            StatusCode::PayloadTooLarge => 413,
            StatusCode::InternalServerError => 500,
            StatusCode::NotImplemented => 501,
            StatusCode::BadGateway => 502,
            StatusCode::ServiceUnavailable => 503,
        }
    }

    /// The canonical reason phrase of this status.
    #[must_use]
    pub fn text(self) -> (r: &'static str)
        ensures
            r@ == self.spec_phrase(),
            r.spec_bytes() == self.phrase_bytes(),
    {
        match self {
            StatusCode::OK => {
                proof {
                    reveal_strlit("OK");
                    ascii_bytes_of_str("OK");
                }
                "OK"
            },
            StatusCode::Created => {
                proof {
                    reveal_strlit("Created");
                    ascii_bytes_of_str("Created");
                }
                "Created"
            },
            StatusCode::Accepted => {
                proof {
                    reveal_strlit("Accepted");
                    ascii_bytes_of_str("Accepted");
                }
                "Accepted"
            },
            StatusCode::NoContent => {
                proof {
                    reveal_strlit("No Content");
                    ascii_bytes_of_str("No Content");
                }
                "No Content"
            },
            StatusCode::MovedPermanently => {
                proof {
                    reveal_strlit("Moved Permanently");
                    ascii_bytes_of_str("Moved Permanently");
                }
                "Moved Permanently"
            },
            StatusCode::Found => {
                proof {
                    reveal_strlit("Found");
                    ascii_bytes_of_str("Found");
                }
                "Found"
            },
            StatusCode::NotModified => {
                proof {
                    reveal_strlit("Not Modified");
                    ascii_bytes_of_str("Not Modified");
                }
                "Not Modified"
            },
            StatusCode::BadRequest => {
                proof {
                    reveal_strlit("Bad Request");
                    ascii_bytes_of_str("Bad Request");
                }
                "Bad Request"
            },
            StatusCode::Unauthorized => {
                proof {
                    reveal_strlit("Unauthorized");
                    ascii_bytes_of_str("Unauthorized");
                }
                "Unauthorized"
            },
            StatusCode::Forbidden => {
                proof {
                    reveal_strlit("Forbidden");
                    ascii_bytes_of_str("Forbidden");
                }
                "Forbidden"
            },
            StatusCode::NotFound => {
                proof {
                    reveal_strlit("Not Found");
                    ascii_bytes_of_str("Not Found");
                }
                "Not Found"
            },
            StatusCode::MethodNotAllowed => {
                proof {
                    reveal_strlit("Method Not Allowed");
                    ascii_bytes_of_str("Method Not Allowed");
                }
                "Method Not Allowed"
            },
            StatusCode::RequestTimeout => {
                proof {
                    reveal_strlit("Request Timeout");
                    ascii_bytes_of_str("Request Timeout");
                }
                "Request Timeout"
            },
            StatusCode::PayloadTooLarge => {
                proof {
                    reveal_strlit("Payload Too Large");
                    ascii_bytes_of_str("Payload Too Large");
                }
                "Payload Too Large"
            },
            StatusCode::InternalServerError => {
                proof {
                    reveal_strlit("Internal Server Error");
                    ascii_bytes_of_str("Internal Server Error");
                }
                "Internal Server Error"
            },
            StatusCode::NotImplemented => {
                proof {
                    reveal_strlit("Not Implemented");
                    ascii_bytes_of_str("Not Implemented");
                }
                "Not Implemented"
            },
            StatusCode::BadGateway => {
                proof {
                    reveal_strlit("Bad Gateway");
                    ascii_bytes_of_str("Bad Gateway");
                }
                "Bad Gateway"
            },
            StatusCode::ServiceUnavailable => {
                proof {
                    reveal_strlit("Service Unavailable");
                    ascii_bytes_of_str("Service Unavailable");
                }
                "Service Unavailable"
            },
        }
    }

    /// The registry status carrying the given numeric code, if any.
    pub open spec fn status_of_code(n: int) -> Option<StatusCode> {
        if n == 200 {
            Some(StatusCode::OK)
        } else if n == 201 {
            Some(StatusCode::Created)
        } else if n == 202 {
            Some(StatusCode::Accepted)
        } else if n == 204 {
            Some(StatusCode::NoContent)
        } else if n == 301 {
            Some(StatusCode::MovedPermanently)
        } else if n == 302 {
            Some(StatusCode::Found)
        } else if n == 304 {
            Some(StatusCode::NotModified)
        } else if n == 400 {
            Some(StatusCode::BadRequest)
        } else if n == 401 {
            Some(StatusCode::Unauthorized)
        } else if n == 403 {
            Some(StatusCode::Forbidden)
        } else if n == 404 {
            Some(StatusCode::NotFound)
        } else if n == 405 {
            Some(StatusCode::MethodNotAllowed)
        } else if n == 408 {
            Some(StatusCode::RequestTimeout)
        } else if n == 413 {
            Some(StatusCode::PayloadTooLarge)
        } else if n == 500 {
            Some(StatusCode::InternalServerError)
        } else if n == 501 {
            Some(StatusCode::NotImplemented)
        } else if n == 502 {
            Some(StatusCode::BadGateway)
        } else if n == 503 {
            Some(StatusCode::ServiceUnavailable)
        } else {
            None
        }
    }

    /// Reads a status from its numeric code; a number outside the
    /// supported registry is a distinguishable failure, never a fallback.
    pub fn try_from_u16(code: u16) -> (r: Result<StatusCode, InvalidStatusCode>)
        ensures
            r == (match StatusCode::status_of_code(code as int) {
                Some(c) => Result::<StatusCode, InvalidStatusCode>::Ok(c),
                None => Result::<StatusCode, InvalidStatusCode>::Err(InvalidStatusCode),
            }),
    {
        match code {
            200u16 => Ok(StatusCode::OK),
            201u16 => Ok(StatusCode::Created),
            202u16 => Ok(StatusCode::Accepted),
            204u16 => Ok(StatusCode::NoContent),
            301u16 => Ok(StatusCode::MovedPermanently),
            302u16 => Ok(StatusCode::Found),
            304u16 => Ok(StatusCode::NotModified),
            400u16 => Ok(StatusCode::BadRequest),
            401u16 => Ok(StatusCode::Unauthorized),
            403u16 => Ok(StatusCode::Forbidden),
            404u16 => Ok(StatusCode::NotFound),
            405u16 => Ok(StatusCode::MethodNotAllowed),
            408u16 => Ok(StatusCode::RequestTimeout),
            413u16 => Ok(StatusCode::PayloadTooLarge),
            500u16 => Ok(StatusCode::InternalServerError),
            501u16 => Ok(StatusCode::NotImplemented),
            502u16 => Ok(StatusCode::BadGateway),
            503u16 => Ok(StatusCode::ServiceUnavailable),
            _ => Err(InvalidStatusCode),
        }
    }

    /// Whether this status reports success (a 2xx code).
    #[must_use]
    pub fn is_success(self) -> (r: bool)
        ensures
            r == (200 <= self.spec_code() < 300),
    {
        let code = self.as_u16();
        200 <= code && code < 300
    }

    /// Whether this status reports a client error (a 4xx code).
    #[must_use]
    pub fn is_client_error(self) -> (r: bool)
        ensures
            r == (400 <= self.spec_code() < 500),
    {
        let code = self.as_u16();
        400 <= code && code < 500
    }

    /// Whether this status reports a server error (a 5xx code).
    #[must_use]
    pub fn is_server_error(self) -> (r: bool)
        ensures
            r == (500 <= self.spec_code() < 600),
    {
        let code = self.as_u16();
        500 <= code && code < 600
    }
}

/// Reading back a status's own numeric code always gives that status.
pub proof fn lemma_status_code_round_trip(c: StatusCode)
    ensures
        StatusCode::status_of_code(c.spec_code() as int) == Some(c),
{
}

} // verus!
