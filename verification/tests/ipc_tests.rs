use omnirec::ipc::{
    check_response_length, decode_length, frame_message, invalid_request, request_text,
    CaptureSelection, Geometry, IpcRequest, IpcResponse, IpcServerState, ServiceError,
};

#[test]
fn query_returns_stored_selection() {
    let mut state = IpcServerState::default();
    assert!(matches!(state.respond(IpcRequest::QuerySelection), IpcResponse::NoSelection));
    state.set_selection(CaptureSelection {
        source_type: "region".to_string(),
        source_id: "DP-1".to_string(),
        geometry: Some(Geometry { x: 10, y: 20, width: 300, height: 200 }),
    });
    match state.respond(IpcRequest::QuerySelection) {
        IpcResponse::Selection { source_type, source_id, geometry } => {
            assert_eq!(source_type, "region");
            assert_eq!(source_id, "DP-1");
            assert_eq!(geometry, Some(Geometry { x: 10, y: 20, width: 300, height: 200 }));
        }
        other => panic!("unexpected {:?}", other),
    }
    state.clear_selection();
    assert!(matches!(state.respond(IpcRequest::QuerySelection), IpcResponse::NoSelection));
}

#[test]
fn request_lines_are_trimmed() {
    assert_eq!(request_text("  {\"type\":\"query_selection\"}\n"), Some("{\"type\":\"query_selection\"}".to_string()));
    assert_eq!(request_text(" \n"), None);
    match invalid_request("bad json") {
        IpcResponse::Error { message } => assert_eq!(message, "Invalid request: bad json"),
        other => panic!("unexpected {:?}", other),
    }
}

#[test]
fn frames_carry_little_endian_length() {
    let f = frame_message(b"hello");
    assert_eq!(f, vec![5, 0, 0, 0, b'h', b'e', b'l', b'l', b'o']);
    assert_eq!(decode_length([5, 0, 0, 0]), 5);
    assert_eq!(decode_length([0x01, 0x02, 0x03, 0x04]), 0x04030201);
    let big = vec![0u8; 300];
    let f = frame_message(&big);
    assert_eq!(decode_length([f[0], f[1], f[2], f[3]]), 300);
}

#[test]
fn response_length_limit() {
    assert!(matches!(check_response_length(10, 100), Ok(10)));
    match check_response_length(101, 100) {
        Err(ServiceError::ReceiveFailed(m)) => assert_eq!(m, "Response too large: 101 bytes"),
        other => panic!("unexpected {:?}", other),
    }
}

#[test]
fn service_error_messages() {
    assert_eq!(ServiceError::NotConnected.message(), "Not connected to service");
    assert_eq!(ServiceError::Timeout.message(), "Request timed out");
    assert_eq!(ServiceError::ConnectionFailed("x".to_string()).message(), "Connection failed: x");
    assert_eq!(ServiceError::SendFailed("y".to_string()).message(), "Send failed: y");
    assert_eq!(ServiceError::ReceiveFailed("z".to_string()).message(), "Receive failed: z");
    assert_eq!(ServiceError::ServiceError("w".to_string()).message(), "Service error: w");
}
