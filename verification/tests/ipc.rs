use snipespotter::ipc::{
    accept_step, decode_command, encode_response, finish_drain, unframe_request, AcceptStep,
    DecodeError, DrainElapsed, FrameError, ServiceCommand, IPC_MAX_LINE_BYTES, MAX_ACTIVE_PIPE_SESSIONS,
};

fn parse(line: &[u8]) -> Option<ServiceCommand> {
    let value: serde_json::Value = serde_json::from_slice(line).ok()?;
    match value.get("cmd")?.as_str()? {
        "get_status" => Some(ServiceCommand::GetStatus),
        "trigger_sync" => Some(ServiceCommand::TriggerSync),
        _ => None,
    }
}

#[test]
fn rejects_oversized_and_roundtrips_json() {
    assert!(decode_command(&[], parse).is_err());
    assert!(decode_command(b"not-json", parse).is_err());
    assert!(decode_command(&vec![b'x'; IPC_MAX_LINE_BYTES + 1], parse).is_err());
    assert_eq!(
        decode_command(b"{\"cmd\":\"get_status\"}", parse),
        Ok(ServiceCommand::GetStatus)
    );
    let frame = encode_response(b"{\"type\":\"ok\",\"message\":\"ok\"}".to_vec());
    assert!(frame.expect("the response is short").ends_with(b"\n"));
}

#[test]
fn requests_are_decoded_or_refused_for_a_reason() {
    assert_eq!(
        decode_command(&[], parse),
        Err(DecodeError::Frame(FrameError::EmptyRequest))
    );
    assert_eq!(decode_command(b"not-json", parse), Err(DecodeError::InvalidJson));
    assert_eq!(
        decode_command(&vec![b'x'; IPC_MAX_LINE_BYTES + 1], parse),
        Err(DecodeError::Frame(FrameError::OversizedRequest))
    );
}

#[test]
fn frames_are_taken_off_with_either_line_ending() {
    assert_eq!(unframe_request(b"abc\n".to_vec()), Ok(b"abc".to_vec()));
    assert_eq!(unframe_request(b"abc\r\n".to_vec()), Ok(b"abc".to_vec()));
    assert_eq!(unframe_request(Vec::new()), Err(FrameError::Disconnected));
    let unterminated = unframe_request(b"abc".to_vec());
    assert_eq!(unterminated, Err(FrameError::Unterminated));
    assert!(FrameError::Unterminated.message().contains("unterminated"));
}

#[test]
fn oversized_responses_are_refused() {
    assert_eq!(
        encode_response(vec![b'x'; IPC_MAX_LINE_BYTES + 1]),
        Err(FrameError::OversizedResponse)
    );
    assert_eq!(encode_response(b"{}".to_vec()), Ok(b"{}\n".to_vec()));
}

#[test]
fn sessions_are_bounded() {
    assert_eq!(accept_step(true, 0, false), AcceptStep::Drain);
    assert_eq!(
        accept_step(false, 0, false),
        AcceptStep::Serve {
            first_instance: true
        }
    );
    assert_eq!(
        accept_step(false, MAX_ACTIVE_PIPE_SESSIONS - 1, true),
        AcceptStep::Serve {
            first_instance: false
        }
    );
    assert_eq!(
        accept_step(false, MAX_ACTIVE_PIPE_SESSIONS, true),
        AcceptStep::Refuse
    );
}

#[test]
fn accepts_crlf_framing() {
    let line = unframe_request(b"{\"cmd\":\"get_status\"}\r\n".to_vec());
    let line = line.expect("the request is terminated");
    assert_eq!(decode_command(&line, parse), Ok(ServiceCommand::GetStatus));
}

#[test]
fn rejects_disconnect_and_unterminated_requests() {
    assert!(unframe_request(Vec::new()).is_err());
    let error = unframe_request(b"{\"cmd\":\"get_status\"}".to_vec())
        .expect_err("unterminated requests must be rejected");
    assert!(error.message().contains("unterminated"));
}

#[test]
fn a_drain_that_takes_too_long_is_an_error() {
    assert_eq!(finish_drain(true), Ok(()));
    assert_eq!(finish_drain(false), Err(DrainElapsed));
    assert!(DrainElapsed.message().contains("drain deadline elapsed"));
}
