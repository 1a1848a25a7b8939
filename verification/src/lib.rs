//! An HTTP/1.1 wire codec for resource-constrained hosts: parsing a request
//! out of a raw byte buffer, building a response (or a request) into a
//! bounded buffer, and the bounded header collection both sides share.
//!
//! Every public operation carries a contract: parsers state exactly which
//! inputs succeed and which error each rejected input raises; builders state
//! the exact byte sequence they produce.

pub mod driver;
pub mod error;
pub mod handler;
pub mod header;
pub mod method;
pub mod request;
pub mod response;
pub mod status_code;
pub mod text;

pub use driver::{client_step, server_error_response, ClientState, IoEvent, ServerTimeouts};
pub use error::HttpError;
pub use handler::SimpleHandler;
pub use header::{HeaderList, HttpHeader, MAX_HEADERS};
pub use method::{HttpMethod, InvalidHttpMethod};
pub use request::{find_double_crlf, HttpRequest};
pub use response::{HttpResponse, ParsedResponse, ResponseBody};
pub use status_code::{InvalidStatusCode, StatusCode};
