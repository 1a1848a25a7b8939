//! A simple request handler that serves a few fixed endpoints, routing on
//! the exact request path. The decision from request to response is pure;
//! hosting code may wrap it behind any asynchronous handler interface.

use crate::error::HttpError;
use crate::header::{HeaderList, HttpHeader};
use crate::request::HttpRequest;
use crate::response::{HttpResponse, ResponseBody};
use crate::status_code::StatusCode;
use crate::text::bytes_eq;
use vstd::prelude::*;
use vstd::string::*;

verus! {

/// A simple handler that serves basic endpoints for testing.
#[derive(Debug)]
pub struct SimpleHandler;

/// The single (name, value) header pair a simple-handler response carries.
pub open spec fn one_header(name: Seq<u8>, value: Seq<u8>) -> Seq<(Seq<u8>, Seq<u8>)> {
    seq![(name, value)]
}

impl SimpleHandler {
    /// Handles a request: the root path and the health endpoint succeed
    /// with fixed bodies; every other path is answered with a not-found
    /// response. The handler never fails.
    pub fn handle_request(&mut self, request: &HttpRequest) -> (r: Result<HttpResponse, HttpError>)
        ensures
            r is Ok,
            ({
                let resp = r->Ok_0;
                if request@.path == "/".spec_bytes() {
                    &&& resp.status_code == StatusCode::OK
                    &&& resp.body matches ResponseBody::Text(s) && s@
                        == "<h1>Hello from nanofish HTTP server!</h1>"@
                    &&& resp.headers@ == one_header(
                        "Content-Type".spec_bytes(),
                        "text/html".spec_bytes(),
                    )
                } else if request@.path == "/health".spec_bytes() {
                    &&& resp.status_code == StatusCode::OK
                    &&& resp.body matches ResponseBody::Text(s) && s@ == "{\"status\":\"ok\"}"@
                    &&& resp.headers@ == one_header(
                        "Content-Type".spec_bytes(),
                        "application/json".spec_bytes(),
                    )
                } else {
                    &&& resp.status_code == StatusCode::NotFound
                    &&& resp.body matches ResponseBody::Text(s) && s@ == "404 Not Found"@
                    &&& resp.headers@ == one_header(
                        "Content-Type".spec_bytes(),
                        "text/plain".spec_bytes(),
                    )
                }
            }),
    {
        let mut headers = HeaderList::new();
        if bytes_eq(request.path.as_slice(), "/".as_bytes()) {
            let _ = headers.push(
                HttpHeader::new("Content-Type".as_bytes(), "text/html".as_bytes()),
            );
            proof {
                assert(headers@ =~= one_header(
                    "Content-Type".spec_bytes(),
                    "text/html".spec_bytes(),
                ));
            }
            Ok(
                HttpResponse {
                    status_code: StatusCode::OK,
                    headers,
                    body: ResponseBody::Text("<h1>Hello from nanofish HTTP server!</h1>".to_owned()),
                },
            )
        } else if bytes_eq(request.path.as_slice(), "/health".as_bytes()) {
            let _ = headers.push(
                HttpHeader::new("Content-Type".as_bytes(), "application/json".as_bytes()),
            );
            proof {
                assert(headers@ =~= one_header(
                    "Content-Type".spec_bytes(),
                    "application/json".spec_bytes(),
                ));
            }
            Ok(
                HttpResponse {
                    status_code: StatusCode::OK,
                    headers,
                    body: ResponseBody::Text("{\"status\":\"ok\"}".to_owned()),
                },
            )
        } else {
            let _ = headers.push(
                HttpHeader::new("Content-Type".as_bytes(), "text/plain".as_bytes()),
            );
            proof {
                assert(headers@ =~= one_header(
                    "Content-Type".spec_bytes(),
                    "text/plain".spec_bytes(),
                ));
            }
            Ok(
                HttpResponse {
                    status_code: StatusCode::NotFound,
                    headers,
                    body: ResponseBody::Text("404 Not Found".to_owned()),
                },
            )
        }
    }
}

} // verus!
