use hp_thermal::pipe::{
    build_request_frame, client_integrity_ok, client_transact, client_validate_server, io_started,
    io_waited, our_program, own_process_is_privileged, parse_request_frame, read2, read_request,
    server_validate_client, server_wait, write2, write_request, IoStart, IoStep, TransactStep,
};
use hp_thermal::protocol::PIPE_MAGIC;

#[test]
fn frame_roundtrips_through_build_and_parse() {
    for (cmd, payload) in [(0x01u8, 0u8), (0x02, 3), (0x0A, 100), (0xFF, 0xFF)] {
        let frame = build_request_frame(cmd, payload);
        assert_eq!(&frame[0..2], &PIPE_MAGIC, "frame must carry the magic prefix");
        assert_eq!(
            parse_request_frame(frame),
            Some([cmd, payload]),
            "our own frame must parse back",
        );
    }
}

#[test]
fn wire_envelope_is_frozen() {
    assert_eq!(build_request_frame(0, 0).len(), 4, "request frame is 4 bytes");
    assert_eq!(PIPE_MAGIC.len(), 2, "magic prefix is 2 bytes");
}

#[test]
fn parse_accepts_correct_magic_and_extracts_command_payload() {
    let frame = [PIPE_MAGIC[0], PIPE_MAGIC[1], 0x07, 0x2A];
    assert_eq!(parse_request_frame(frame), Some([0x07, 0x2A]));
}

#[test]
fn parse_rejects_wrong_or_partial_magic() {
    assert_eq!(parse_request_frame([0x00, 0x00, 0x01, 0x00]), None);
    assert_eq!(parse_request_frame([PIPE_MAGIC[0], 0x00, 0x01, 0x00]), None);
    assert_eq!(parse_request_frame([0x00, PIPE_MAGIC[1], 0x01, 0x00]), None);
}

#[test]
fn short_reads_are_no_requests() {
    let frame = build_request_frame(1, 0);
    assert_eq!(read_request(true, 4, frame), Some([1, 0]));
    assert_eq!(read_request(true, 3, frame), None);
    assert_eq!(read_request(false, 4, frame), None);
}

#[test]
fn short_answers_are_none() {
    assert_eq!(read2(Some(2), [0, 5]), Some([0, 5]));
    assert_eq!(read2(Some(1), [0, 5]), None);
    assert_eq!(read2(None, [0, 5]), None);
    assert!(write2(true, 2));
    assert!(!write2(true, 1));
    assert!(!write2(false, 2));
    assert!(write_request(Some(4)));
    assert!(!write_request(Some(2)));
    assert!(!write_request(None));
}

#[test]
fn only_the_same_program_is_ours() {
    let own = "C:\\Program Files\\HpThermal\\hp-thermal.exe";
    assert!(our_program("C:\\Program Files\\HpThermal\\HP-THERMAL.EXE", own));
    assert!(!our_program("C:\\Temp\\hp-thermal.exe", own));
    assert!(!our_program("C:\\Program Files\\HpThermal\\other.exe", own));
}

#[test]
fn low_integrity_clients_are_turned_down() {
    let own = "C:\\Program Files\\HpThermal\\hp-thermal.exe";
    assert!(client_integrity_ok(Some(0x2000)));
    assert!(!client_integrity_ok(Some(0x1000)));
    assert!(!client_integrity_ok(None));
    assert!(own_process_is_privileged(Some(0x3000)));
    assert!(!own_process_is_privileged(Some(0x2000)));
    assert!(server_validate_client(Some(own), own, Some(0x2000)));
    assert!(!server_validate_client(Some(own), own, None));
    assert!(!server_validate_client(None, own, Some(0x2000)));
    assert!(client_validate_server(Some(own), own));
    assert!(!client_validate_server(Some("C:\\Temp\\hp-thermal.exe"), own));
    assert!(client_validate_server(None, own), "a server that cannot be looked at is not ruled out");
}

#[test]
fn io_waits_only_where_it_is_pending() {
    assert_eq!(io_started(IoStart::Completed), IoStep::Fetch);
    assert_eq!(io_started(IoStart::Pending), IoStep::Wait);
    assert_eq!(io_started(IoStart::Failed), IoStep::GiveUp);
    assert_eq!(io_waited(true), IoStep::Fetch);
    assert_eq!(io_waited(false), IoStep::CancelAndDrain);
}

#[test]
fn nothing_is_sent_to_an_unknown_server() {
    assert_eq!(client_transact(TransactStep::Connect, false), TransactStep::Unconnected);
    assert_eq!(client_transact(TransactStep::Connect, true), TransactStep::Validate);
    assert_eq!(client_transact(TransactStep::Validate, false), TransactStep::Close);
    assert_eq!(client_transact(TransactStep::Validate, true), TransactStep::Send);
    assert_eq!(client_transact(TransactStep::Send, true), TransactStep::Receive);
}

#[test]
fn the_stop_event_ends_the_wait() {
    assert!(server_wait(true, 0));
    assert!(!server_wait(true, 1));
    assert!(!server_wait(false, 0));
}
