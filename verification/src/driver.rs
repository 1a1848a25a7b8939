//! The decidable core of the connection drivers: the client's per-request
//! state machine, the timeout configuration both drivers take at
//! construction, and the server's policy for answering a failed parse.
//! Hosting code performs the reads, writes and timer races these decisions
//! refer to, and feeds the outcome back as an event.

use crate::error::HttpError;
use crate::header::HeaderList;
use crate::response::{HttpResponse, ResponseBody};
use crate::status_code::StatusCode;
use vstd::prelude::*;
use vstd::string::*;

verus! {

/// The state of one outstanding client request.
#[derive(Clone, Copy, Debug, PartialEq, Eq, Structural)]
pub enum ClientState {
    /// Nothing is in flight.
    Idle,
    /// A connection has been requested and not yet granted.
    Connecting,
    /// The rendered request is being flushed; this many bytes went out.
    Sending(usize),
    /// The response is being read; this many bytes have arrived.
    AwaitingResponse(usize),
    /// A complete response was recognized and handed over.
    Done,
    /// The request failed, with the failure that ended it.
    Failed(HttpError),
}

impl ClientState {
    /// Whether no further event can move this state.
    pub open spec fn is_terminal(self) -> bool {
        self is Done || self is Failed
    }
}

/// What the hosting code observed since the last decision.
#[derive(Clone, Copy, Debug, PartialEq, Eq, Structural)]
pub enum IoEvent {
    /// A request cycle was started.
    Start,
    /// The transport granted the connection.
    Connected,
    /// The transport accepted this many bytes of the rendered request.
    Wrote(usize),
    /// This many bytes arrived in the read buffer (zero: none were ready).
    Read(usize),
    /// The read buffer now holds a complete, well-formed response.
    ResponseComplete,
    /// The read buffer holds a response that can never become well-formed.
    ResponseInvalid(HttpError),
    /// The timeout racing the outstanding read or write fired.
    TimedOut,
    /// The transport failed outright.
    TransportFailed,
}

/// The client transition function: how one observed event moves the state
/// of a request whose rendered form is `request_len` bytes and whose read
/// buffer holds `capacity` bytes.
///
/// A timeout or a transport failure ends every non-terminal state; sending
/// finishes once all request bytes went out; a response that outgrows the
/// read buffer is its own failure, since the buffer cannot grow; terminal
/// states absorb every event, and an event that does not belong to the
/// current state changes nothing.
pub open spec fn client_step_spec(
    s: ClientState,
    e: IoEvent,
    request_len: int,
    capacity: int,
) -> ClientState {
    if s.is_terminal() {
        s
    } else if e is TimedOut {
        ClientState::Failed(HttpError::Timeout)
    } else if e is TransportFailed {
        ClientState::Failed(HttpError::TransportError)
    } else {
        match (s, e) {
            (ClientState::Idle, IoEvent::Start) => ClientState::Connecting,
            (ClientState::Connecting, IoEvent::Connected) => ClientState::Sending(0),
            (ClientState::Sending(sent), IoEvent::Wrote(n)) => if sent + n >= request_len {
                ClientState::AwaitingResponse(0)
            } else {
                ClientState::Sending((sent + n) as usize)
            },
            (ClientState::AwaitingResponse(got), IoEvent::Read(n)) => if got + n > capacity {
                ClientState::Failed(HttpError::ResponseTooLarge)
            } else {
                ClientState::AwaitingResponse((got + n) as usize)
            },
            (ClientState::AwaitingResponse(_), IoEvent::ResponseComplete) => ClientState::Done,
            (ClientState::AwaitingResponse(_), IoEvent::ResponseInvalid(err)) => ClientState::Failed(
                err,
            ),
            _ => s,
        }
    }
}

/// Applies one observed event to a client request state, exactly as
/// `client_step_spec` describes.
pub fn client_step(s: ClientState, e: IoEvent, request_len: usize, capacity: usize) -> (r:
    ClientState)
    ensures
        r == client_step_spec(s, e, request_len as int, capacity as int),
{
    match s {
        ClientState::Done => s,
        ClientState::Failed(_) => s,
        _ => {
            match e {
                IoEvent::TimedOut => ClientState::Failed(HttpError::Timeout),
                IoEvent::TransportFailed => ClientState::Failed(HttpError::TransportError),
                _ => {
                    match (s, e) {
                        (ClientState::Idle, IoEvent::Start) => ClientState::Connecting,
                        (ClientState::Connecting, IoEvent::Connected) => ClientState::Sending(0),
                        (ClientState::Sending(sent), IoEvent::Wrote(n)) => {
                            if n >= request_len || sent >= request_len - n {
                                ClientState::AwaitingResponse(0)
                            } else {
                                ClientState::Sending(sent + n)
                            }
                        },
                        (ClientState::AwaitingResponse(got), IoEvent::Read(n)) => {
                            if n > capacity || got > capacity - n {
                                ClientState::Failed(HttpError::ResponseTooLarge)
                            } else {
                                ClientState::AwaitingResponse(got + n)
                            }
                        },
                        (ClientState::AwaitingResponse(_), IoEvent::ResponseComplete) => ClientState::Done,
                        (
                            ClientState::AwaitingResponse(_),
                            IoEvent::ResponseInvalid(err),
                        ) => ClientState::Failed(err),
                        _ => s,
                    }
                },
            }
        },
    }
}

/// Once a request is done or failed, no event moves it again.
pub proof fn lemma_terminal_states_absorb(
    s: ClientState,
    e: IoEvent,
    request_len: int,
    capacity: int,
)
    requires
        s.is_terminal(),
    ensures
        client_step_spec(s, e, request_len, capacity) == s,
{
}

/// A timeout ends every non-terminal state with the timeout failure, so a
/// slow peer is always distinguishable from bad data.
pub proof fn lemma_timeout_cancels(s: ClientState, request_len: int, capacity: int)
    requires
        !s.is_terminal(),
    ensures
        client_step_spec(s, IoEvent::TimedOut, request_len, capacity) == ClientState::Failed(
            HttpError::Timeout,
        ),
{
}

/// The timeouts a server connection is driven under, supplied at driver
/// construction rather than hard-coded.
#[derive(Clone, Copy, Debug, PartialEq, Eq, Structural)]
pub struct ServerTimeouts {
    /// Milliseconds granted to reading one request.
    pub read_timeout_ms: u64,
    /// Milliseconds granted to writing one response.
    pub write_timeout_ms: u64,
    /// Milliseconds a connection may stay open in all.
    pub idle_timeout_ms: u64,
}

impl ServerTimeouts {
    /// Bundles the three timeouts of one server connection.
    pub fn new(read_timeout_ms: u64, write_timeout_ms: u64, idle_timeout_ms: u64) -> (r:
        ServerTimeouts)
        ensures
            r.read_timeout_ms == read_timeout_ms,
            r.write_timeout_ms == write_timeout_ms,
            r.idle_timeout_ms == idle_timeout_ms,
    {
        ServerTimeouts { read_timeout_ms, write_timeout_ms, idle_timeout_ms }
    }
}

/// Whether a request failure was caused by what the client sent, so that
/// answering with a client-error status is meaningful.
pub open spec fn is_client_fault(e: HttpError) -> bool {
    match e {
        HttpError::MissingRequestLine => true,
        HttpError::MissingMethod => true,
        HttpError::MissingPath => true,
        HttpError::MissingVersion => true,
        HttpError::UnknownMethod => true,
        HttpError::TooManyHeaders => true,
        HttpError::InvalidEncoding => true,
        _ => false,
    }
}

/// The server's answer to a request that could not be parsed: a
/// client-caused malformed request is answered with a bad-request response,
/// a read that timed out with a request-timeout response; anything else —
/// transport failure or framing never completed — closes the connection
/// without a response.
pub fn server_error_response(e: &HttpError) -> (r: Option<HttpResponse>)
    ensures
        is_client_fault(*e) ==> r is Some && r->0.status_code == StatusCode::BadRequest,
        *e is Timeout ==> r is Some && r->0.status_code == StatusCode::RequestTimeout,
        !is_client_fault(*e) && !(*e is Timeout) ==> r is None,
        r is Some ==> r->0.headers@.len() == 0 && (r->0.body matches ResponseBody::Text(s) && s@
            == (r->0.status_code).spec_phrase()),
{
    let status = match e {
        HttpError::MissingRequestLine => StatusCode::BadRequest,
        HttpError::MissingMethod => StatusCode::BadRequest,
        HttpError::MissingPath => StatusCode::BadRequest,
        HttpError::MissingVersion => StatusCode::BadRequest,
        HttpError::UnknownMethod => StatusCode::BadRequest,
        HttpError::TooManyHeaders => StatusCode::BadRequest,
        HttpError::InvalidEncoding => StatusCode::BadRequest,
        HttpError::Timeout => StatusCode::RequestTimeout,
        _ => {
            return None;
        },
    };
    let phrase = status.text();
    Some(
        HttpResponse {
            status_code: status,
            headers: HeaderList::new(),
            body: ResponseBody::Text(phrase.to_owned()),
        },
    )
}

} // verus!
