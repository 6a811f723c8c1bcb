use simple_aprs::error::{ISReadError, ISSendError};
use simple_aprs::reader::{
    contains_subseq, login_outcome, reader_step, LoginOutcome, ReaderAction, ReaderEvent,
};
use simple_aprs::writer::{encode_for_send, send_payload};
use simple_aprs::{heartbeat_step, keep_alive_line, HeartbeatAction, ISSettings, RawPacket};

fn settings(filter: &str) -> ISSettings {
    ISSettings::new(
        String::from("euro.aprs2.net"),
        14580,
        String::from("N0CALL"),
        String::from("12345"),
        String::from(filter),
    )
}

#[test]
fn login_line_with_filter() {
    let line = settings("r/55/-4/600").login_line("NAME", "VERSION");
    assert_eq!(line, "user N0CALL pass 12345 vers NAME VERSION filter r/55/-4/600");
}

#[test]
fn login_line_without_filter_has_no_trailing_clause() {
    let line = settings("").login_line("NAME", "VERSION");
    assert_eq!(line, "user N0CALL pass 12345 vers NAME VERSION");
}

#[test]
fn address_bytes_is_host_colon_port() {
    assert_eq!(settings("").address_bytes(), b"euro.aprs2.net:14580".to_vec());
}

#[test]
fn address_bytes_small_ports() {
    let low = ISSettings::new(
        String::from("localhost"),
        7,
        String::new(),
        String::new(),
        String::new(),
    );
    assert_eq!(low.address_bytes(), b"localhost:7".to_vec());

    let zero = ISSettings::new(
        String::from("localhost"),
        0,
        String::new(),
        String::new(),
        String::new(),
    );
    assert_eq!(zero.address_bytes(), b"localhost:0".to_vec());
}

#[test]
fn status_line_is_never_yielded() {
    let status = b"# logresp CALL verified, server TEST".to_vec();
    match reader_step(ReaderEvent::Line(status)) {
        ReaderAction::Skip => {}
        _ => panic!("status line must be absorbed"),
    }
}

#[test]
fn data_line_is_yielded_verbatim() {
    let data = b"CALL>APRS,TCPIP*:data".to_vec();
    match reader_step(ReaderEvent::Line(data.clone())) {
        ReaderAction::Yield(packet) => assert_eq!(packet.raw, data),
        _ => panic!("data line must be yielded"),
    }
}

#[test]
fn noise_lines_are_skipped() {
    for noise in [&b""[..], &b"ab"[..]] {
        match reader_step(ReaderEvent::Line(noise.to_vec())) {
            ReaderAction::Skip => {}
            _ => panic!("short non-status line must be absorbed"),
        }
    }
}

#[test]
fn timeout_yields_one_timeout_failure() {
    match reader_step(ReaderEvent::TimedOut) {
        ReaderAction::Fail(ISReadError::TcpReadTimeout) => {}
        _ => panic!("a liveness timeout must end the stream with its own error"),
    }
}

#[test]
fn orderly_close_ends_quietly() {
    match reader_step(ReaderEvent::Closed) {
        ReaderAction::End => {}
        _ => panic!("an orderly close must end the stream without an item"),
    }
}

#[test]
fn transport_failure_carries_message() {
    match reader_step(ReaderEvent::Failed(String::from("boom"))) {
        ReaderAction::Fail(ISReadError::IoError(m)) => assert_eq!(m, "boom"),
        _ => panic!("a transport failure must end the stream with its message"),
    }
}

#[test]
fn undecodable_status_line_yields_utf8_error() {
    let bad = vec![b'#', 0xff, 0xfe];
    match reader_step(ReaderEvent::Line(bad.clone())) {
        ReaderAction::Fail(ISReadError::ServerCommandInvalidUtf8(bytes)) => {
            assert_eq!(bytes, bad)
        }
        _ => panic!("an undecodable status line must surface as a text error"),
    }
}

#[test]
fn login_outcome_markers() {
    let verified = b"# logresp CALL verified, server TEST".to_vec();
    assert!(matches!(login_outcome(&verified), LoginOutcome::Verified));

    let unverified = b"# logresp CALL unverified, server TEST".to_vec();
    assert!(matches!(login_outcome(&unverified), LoginOutcome::Unverified));

    let other = b"# javAPRSSrvr 4.3.0b41".to_vec();
    assert!(matches!(login_outcome(&other), LoginOutcome::Other));
}

#[test]
fn substring_search() {
    assert!(contains_subseq(&b"hello world".to_vec(), &b"lo wo".to_vec()));
    assert!(!contains_subseq(&b"abc".to_vec(), &b"abcd".to_vec()));
    assert!(contains_subseq(&b"abc".to_vec(), &Vec::new()));
}

#[test]
fn keep_alive_line_text() {
    assert_eq!(keep_alive_line(), "# keep alive");
}

#[test]
fn heartbeat_stops_exactly_on_write_failure() {
    assert!(matches!(heartbeat_step(true), HeartbeatAction::ScheduleNext));
    assert!(matches!(heartbeat_step(false), HeartbeatAction::Stop));
}

#[test]
fn raw_packet_parses_on_demand() {
    let packet = RawPacket { raw: b"3D17F2>APRS,qAU,dl4mea:>312359zStatus seems okay!".to_vec() };
    let parsed = packet.parsed().expect("a well-formed line must parse");
    assert!(matches!(parsed.data, aprs_parser::AprsData::Status(_)));
}

#[test]
fn raw_packet_parse_failure_is_local() {
    let packet = RawPacket { raw: b"not a packet".to_vec() };
    assert!(packet.parsed().is_err());
}

#[test]
fn encode_for_send_round_trips() {
    let line = b"3D17F2>APRS,qAU,dl4mea:>312359zStatus seems okay!".to_vec();
    let packet = aprs_parser::AprsPacket::decode_textual(&line).unwrap();
    let bytes = encode_for_send(&packet).expect("a decoded packet must re-encode");
    let again = aprs_parser::AprsPacket::decode_textual(&bytes).unwrap();
    assert_eq!(again, packet);
}

#[test]
fn encode_for_send_fails_on_unencodable_packet() {
    let packet = aprs_parser::AprsPacket {
        from: aprs_parser::Callsign::new_no_ssid("N0CALL"),
        via: Vec::new(),
        data: aprs_parser::AprsData::Unknown(aprs_parser::Callsign::new_no_ssid("APRS")),
    };
    match encode_for_send(&packet) {
        Err(ISSendError::EncodeError(aprs_parser::EncodeError::InvalidData)) => {}
        _ => panic!("a packet the encoder cannot serialize must fail the send"),
    }
}

#[test]
fn send_payload_maps_outcomes_exactly() {
    let ok = send_payload(Ok(b"payload".to_vec()));
    assert_eq!(ok.unwrap(), b"payload".to_vec());

    match send_payload(Err(aprs_parser::EncodeError::InvalidData)) {
        Err(ISSendError::EncodeError(aprs_parser::EncodeError::InvalidData)) => {}
        _ => panic!("an encoding failure must come back as the send error that carries it"),
    }
}
