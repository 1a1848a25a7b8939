use nanofish::{
    client_step, server_error_response, ClientState, HttpError, IoEvent, ServerTimeouts,
    StatusCode,
};

#[test]
fn test_client_happy_path() {
    let req_len = 10;
    let cap = 64;
    let s = ClientState::Idle;
    let s = client_step(s, IoEvent::Start, req_len, cap);
    assert_eq!(s, ClientState::Connecting);
    let s = client_step(s, IoEvent::Connected, req_len, cap);
    assert_eq!(s, ClientState::Sending(0));
    let s = client_step(s, IoEvent::Wrote(4), req_len, cap);
    assert_eq!(s, ClientState::Sending(4));
    let s = client_step(s, IoEvent::Wrote(6), req_len, cap);
    assert_eq!(s, ClientState::AwaitingResponse(0));
    let s = client_step(s, IoEvent::Read(32), req_len, cap);
    assert_eq!(s, ClientState::AwaitingResponse(32));
    let s = client_step(s, IoEvent::ResponseComplete, req_len, cap);
    assert_eq!(s, ClientState::Done);
}

#[test]
fn test_client_timeout_cancels() {
    let s = ClientState::Sending(3);
    assert_eq!(
        client_step(s, IoEvent::TimedOut, 10, 64),
        ClientState::Failed(HttpError::Timeout)
    );
    let s = ClientState::AwaitingResponse(5);
    assert_eq!(
        client_step(s, IoEvent::TransportFailed, 10, 64),
        ClientState::Failed(HttpError::TransportError)
    );
}

#[test]
fn test_client_response_too_large() {
    let s = ClientState::AwaitingResponse(60);
    assert_eq!(
        client_step(s, IoEvent::Read(5), 10, 64),
        ClientState::Failed(HttpError::ResponseTooLarge)
    );
    // Filling the buffer exactly is still fine.
    let s = ClientState::AwaitingResponse(60);
    assert_eq!(client_step(s, IoEvent::Read(4), 10, 64), ClientState::AwaitingResponse(64));
}

#[test]
fn test_client_terminal_states_absorb() {
    let done = ClientState::Done;
    assert_eq!(client_step(done, IoEvent::TimedOut, 10, 64), ClientState::Done);
    let failed = ClientState::Failed(HttpError::Timeout);
    assert_eq!(client_step(failed, IoEvent::Read(3), 10, 64), failed);
    // A stray event leaves a non-terminal state unchanged.
    assert_eq!(
        client_step(ClientState::Connecting, IoEvent::Read(3), 10, 64),
        ClientState::Connecting
    );
}

#[test]
fn test_server_error_response_policy() {
    let r = server_error_response(&HttpError::UnknownMethod).unwrap();
    assert_eq!(r.status_code, StatusCode::BadRequest);
    assert_eq!(r.body.as_str(), Some("Bad Request"));

    let r = server_error_response(&HttpError::MissingVersion).unwrap();
    assert_eq!(r.status_code, StatusCode::BadRequest);

    let r = server_error_response(&HttpError::Timeout).unwrap();
    assert_eq!(r.status_code, StatusCode::RequestTimeout);

    assert!(server_error_response(&HttpError::TransportError).is_none());
    assert!(server_error_response(&HttpError::IncompleteHeaders).is_none());
}

#[test]
fn test_server_timeouts_configuration() {
    let t = ServerTimeouts::new(5000, 3000, 30000);
    assert_eq!(t.read_timeout_ms, 5000);
    assert_eq!(t.write_timeout_ms, 3000);
    assert_eq!(t.idle_timeout_ms, 30000);
}
