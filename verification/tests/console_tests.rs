use serverkeeper::console::{
    interpret_status, player_names, trim_line_terminator, ConsoleError, ConsoleReply, ServerStatus,
};
use serverkeeper::packet::{
    auth_result, encode_packet, parse_frame_length, parse_packet_payload, Packet,
    AUTH_FAILURE_ID, PACKET_TYPE_EXEC,
};

#[test]
fn trim_drops_crlf() {
    assert_eq!(trim_line_terminator(b"abc\r\n".to_vec()), b"abc".to_vec());
}

#[test]
fn trim_drops_lone_lf() {
    assert_eq!(trim_line_terminator(b"abc\n".to_vec()), b"abc".to_vec());
}

#[test]
fn trim_keeps_lone_cr_and_plain_text() {
    assert_eq!(trim_line_terminator(b"abc\r".to_vec()), b"abc\r".to_vec());
    assert_eq!(trim_line_terminator(b"abc".to_vec()), b"abc".to_vec());
    assert_eq!(trim_line_terminator(b"".to_vec()), b"".to_vec());
}

#[test]
fn trim_drops_only_one_terminator() {
    assert_eq!(trim_line_terminator(b"abc\n\n".to_vec()), b"abc\n".to_vec());
}

#[test]
fn status_of_failed_query_is_unknown() {
    let s = interpret_status(&ConsoleReply::Failed(ConsoleError::Unreachable));
    assert_eq!(s, ServerStatus::Unknown);
}

#[test]
fn status_of_empty_response_is_stopped() {
    let s = interpret_status(&ConsoleReply::Output(Vec::new()));
    assert_eq!(s, ServerStatus::Stopped);
}

#[test]
fn status_counts_one_entry_per_line() {
    let s = interpret_status(&ConsoleReply::Output(b"Alice,1\nBob,2".to_vec()));
    assert_eq!(s, ServerStatus::Running(2));
    let s = interpret_status(&ConsoleReply::Output(b"Alice,1".to_vec()));
    assert_eq!(s, ServerStatus::Running(1));
}

#[test]
fn player_names_take_first_field_per_line() {
    let names = player_names(&b"Alice,123,x\nBob,456".to_vec());
    assert_eq!(names, vec![b"Alice".to_vec(), b"Bob".to_vec()]);
}

#[test]
fn player_names_of_empty_listing() {
    let names = player_names(&Vec::new());
    assert!(names.is_empty());
}

#[test]
fn player_names_without_commas() {
    let names = player_names(&b"solo".to_vec());
    assert_eq!(names, vec![b"solo".to_vec()]);
}

#[test]
fn packet_round_trip() {
    let body = b"status".to_vec();
    let frame = encode_packet(7, PACKET_TYPE_EXEC, &body);
    assert_eq!(frame.len(), 4 + 10 + body.len());
    let len = parse_frame_length(&frame[0..4].to_vec());
    assert_eq!(len as usize, 10 + body.len());
    let payload = frame[4..].to_vec();
    let p = parse_packet_payload(&payload).unwrap();
    assert_eq!(p.id, 7);
    assert_eq!(p.ptype, PACKET_TYPE_EXEC);
    assert_eq!(p.body, body);
}

#[test]
fn packet_payload_without_terminators_is_protocol_error() {
    let bad = b"0123456789abcdefX1".to_vec();
    assert_eq!(
        parse_packet_payload(&bad),
        Err(ConsoleError::ProtocolError)
    );
    let short = b"123".to_vec();
    assert_eq!(
        parse_packet_payload(&short),
        Err(ConsoleError::ProtocolError)
    );
}

#[test]
fn auth_checks_echoed_id() {
    let ok = Packet { id: 5, ptype: PACKET_TYPE_EXEC, body: Vec::new() };
    assert_eq!(auth_result(5, &ok), Ok(()));
    let refused = Packet { id: AUTH_FAILURE_ID, ptype: PACKET_TYPE_EXEC, body: Vec::new() };
    assert_eq!(auth_result(5, &refused), Err(ConsoleError::AuthFailed));
}
