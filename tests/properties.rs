use smpp::bind_transmitter::{BindTransmitterPdu, BIND_TRANSMITTER};
use smpp::bind_transmitter_resp::BIND_TRANSMITTER_RESP;
use smpp::error::{FieldName, PduParseError, PduParseErrorBody};
use smpp::generic_nack::GENERIC_NACK;
use smpp::pdu::{parse_body, CheckOutcome, Pdu, PduBody};
use smpp::status::PduStatus;
use smpp::submit_sm::SubmitSmPdu;
use smpp::submit_sm_resp::{SubmitSmRespPdu, SUBMIT_SM_RESP};

fn written(pdu: &Pdu) -> Vec<u8> {
    let mut out = Vec::new();
    pdu.write(&mut out);
    out
}

fn sample_bind_transmitter() -> Pdu {
    Pdu::new(
        BIND_TRANSMITTER,
        0,
        0x01020344,
        PduBody::BindTransmitter(
            BindTransmitterPdu::new("mysystem_ID", "pw$xx", "t_p_", 0x34, 0x13, 0x50, "rng")
                .unwrap(),
        ),
    )
}

fn sample_submit_sm(short_message: &[u8]) -> Pdu {
    Pdu::new(
        smpp::submit_sm::SUBMIT_SM,
        0,
        3,
        PduBody::SubmitSm(
            SubmitSmPdu::new(
                "",
                0,
                0,
                "447000123123",
                0,
                0,
                "447111222222",
                0,
                1,
                1,
                "",
                "",
                1,
                0,
                3,
                0,
                short_message,
            )
            .unwrap(),
        ),
    )
}

#[test]
fn write_bind_transmitter_gives_exact_bytes() {
    let bytes = written(&sample_bind_transmitter());
    let expected: &[u8] = b"\x00\x00\x00\x2e\x00\x00\x00\x02\x00\x00\x00\x00\x01\x02\x03\x44\
        mysystem_ID\0pw$xx\0t_p_\0\x34\x13\x50rng\0";
    assert_eq!(bytes, expected.to_vec());
}

#[test]
fn write_bind_transmitter_resp_gives_scenario_bytes() {
    let pdu = Pdu::new_bind_transmitter_resp(2, "TestServer").unwrap();
    let expected: &[u8] =
        b"\x00\x00\x00\x1b\x80\x00\x00\x02\x00\x00\x00\x00\x00\x00\x00\x02TestServer\0";
    assert_eq!(written(&pdu), expected.to_vec());
}

#[test]
fn round_trip_bind_transmitter() {
    let pdu = sample_bind_transmitter();
    assert_eq!(Pdu::parse(&written(&pdu)).unwrap(), pdu);
}

#[test]
fn round_trip_submit_sm_with_trailing_bytes() {
    let pdu = sample_submit_sm(b"hihi");
    let mut bytes = written(&pdu);
    bytes.extend_from_slice(b"next pdu");
    assert_eq!(Pdu::parse(&bytes).unwrap(), pdu);
}

#[test]
fn round_trip_submit_sm_with_longest_short_message() {
    let message = vec![0xffu8; 255];
    let pdu = sample_submit_sm(&message);
    assert_eq!(Pdu::parse(&written(&pdu)).unwrap(), pdu);
}

#[test]
fn round_trip_responses_and_nack() {
    let pdus = vec![
        Pdu::new_bind_transmitter_resp(7, "server").unwrap(),
        Pdu::new_bind_transmitter_resp_error(0x0d, 8),
        Pdu::new_submit_sm_resp_error(0x45, 9),
        Pdu::new_generic_nack_error(0x03, 10),
        Pdu::new(
            SUBMIT_SM_RESP,
            0,
            11,
            PduBody::SubmitSmResp(SubmitSmRespPdu::new("abc-123").unwrap()),
        ),
    ];
    for pdu in pdus {
        assert_eq!(Pdu::parse(&written(&pdu)).unwrap(), pdu);
    }
}

#[test]
fn generic_nack_is_header_only() {
    let pdu = Pdu::new_generic_nack_error(0x03, 0x0a);
    let expected: &[u8] = b"\x00\x00\x00\x10\x80\x00\x00\x00\x00\x00\x00\x03\x00\x00\x00\x0a";
    assert_eq!(written(&pdu), expected.to_vec());
    assert_eq!(pdu.command_id.value, GENERIC_NACK);
}

#[test]
fn check_incomplete_until_declared_length() {
    let bytes = written(&sample_bind_transmitter());
    assert_eq!(Pdu::check(&bytes[..3]), CheckOutcome::Incomplete);
    assert_eq!(Pdu::check(&bytes[..bytes.len() - 1]), CheckOutcome::Incomplete);
    assert_eq!(Pdu::check(&bytes), CheckOutcome::Ready);
    assert_eq!(Pdu::check(&[]), CheckOutcome::Incomplete);
}

#[test]
fn scenario_bind_transmitter_resp_check_and_parse() {
    let bytes: &[u8] = b"\x00\x00\x00\x1b\x80\x00\x00\x02\x00\x00\x00\x00\x00\x00\x00\x02\
        TestServer\0\x01\x02\x03";
    assert_eq!(Pdu::check(bytes), CheckOutcome::Ready);
    let pdu = Pdu::parse(bytes).unwrap();
    assert_eq!(pdu.command_id.value, BIND_TRANSMITTER_RESP);
    assert_eq!(pdu.sequence_number.value, 2);
    assert_eq!(pdu, Pdu::new_bind_transmitter_resp(2, "TestServer").unwrap());
    assert_eq!(Pdu::check(&bytes[..0x1a]), CheckOutcome::Incomplete);
}

#[test]
fn short_length_is_too_short_whatever_follows() {
    let bytes: &[u8] = b"\x00\x00\x00\x07\x00\x00\x00\x02\x00\x00\x00\x00\x00\x00\x00\x01";
    let err = Pdu::parse(bytes).unwrap_err();
    assert_eq!(err.body, PduParseErrorBody::LengthTooShort(7));
    assert_eq!(err.command_id, None);
}

#[test]
fn huge_length_with_truncated_header_is_too_long() {
    let bytes: &[u8] = b"\x00\x01\x11\x71\x00\x00\x00\x02";
    let err = Pdu::parse(bytes).unwrap_err();
    assert_eq!(err.body, PduParseErrorBody::LengthTooLong(70001));
    assert_eq!(err.command_id, Some(2));
    assert_eq!(err.command_status, None);
}

#[test]
fn fewer_than_four_bytes_is_not_enough() {
    let err = Pdu::parse(b"\x00\x00").unwrap_err();
    assert_eq!(err, PduParseError::new(PduParseErrorBody::NotEnoughBytes));
}

#[test]
fn unknown_command_id_is_reported() {
    let bytes: &[u8] = b"\x00\x00\x00\x10\x00\x00\x00\x99\x00\x00\x00\x00\x00\x00\x00\x05";
    let err = Pdu::parse(bytes).unwrap_err();
    assert_eq!(err.body, PduParseErrorBody::UnknownCommandId);
    assert_eq!(err.sequence_number, Some(5));
    assert_eq!(
        err.to_string(),
        "Error parsing PDU (command_id=0x00000099, command_status=0x00000000, \
        sequence_number=0x00000005, field_name=UNKNOWN): Supplied command_id is unknown."
    );
}

#[test]
fn bytes_left_inside_length_are_an_error() {
    let mut bytes = written(&Pdu::new_bind_transmitter_resp(2, "TestServer").unwrap());
    bytes[3] += 2;
    bytes.extend_from_slice(b"xy");
    let err = Pdu::parse(&bytes).unwrap_err();
    assert_eq!(err.body, PduParseErrorBody::LengthLongerThanPdu(0x1d));
    assert_eq!(err.sequence_number, Some(2));
    assert_eq!(
        err.to_string(),
        "Error parsing PDU (command_id=0x80000002, command_status=0x00000000, \
        sequence_number=0x00000002, field_name=UNKNOWN): \
        Finished parsing PDU but its length (29) suggested it was longer."
    );
}

#[test]
fn generic_nack_with_body_bytes_is_longer_than_pdu() {
    let bytes: &[u8] = b"\x00\x00\x00\x11\x80\x00\x00\x00\x00\x00\x00\x03\x00\x00\x00\x0a\x00";
    let err = Pdu::parse(bytes).unwrap_err();
    assert_eq!(err.body, PduParseErrorBody::LengthLongerThanPdu(0x11));
}

#[test]
fn submit_sm_resp_error_with_stray_byte() {
    let bytes: &[u8] = b"\x00\x00\x00\x11\x80\x00\x00\x04\x00\x00\x00\x08\x00\x00\x00\x01z";
    let err = Pdu::parse(bytes).unwrap_err();
    assert_eq!(err.body, PduParseErrorBody::BodyNotAllowedWhenStatusIsNotZero);
    assert_eq!(err.field_name, None);
}

#[test]
fn submit_sm_with_nonzero_status_is_refused() {
    let mut bytes = written(&sample_submit_sm(b"hi"));
    bytes[11] = 1;
    let err = Pdu::parse(&bytes).unwrap_err();
    assert_eq!(err.body, PduParseErrorBody::StatusIsNotZero);
    assert_eq!(err.field_name, Some(FieldName::CommandStatus));
}

#[test]
fn string_without_terminator_before_input_ends() {
    let err = parse_body(b"abc", BIND_TRANSMITTER, 0).unwrap_err();
    assert_eq!(err.body, PduParseErrorBody::StringDoesNotEndWithZeroByte);
    assert_eq!(err.field_name, Some(FieldName::SystemId));
}

#[test]
fn non_ascii_offset_in_later_field() {
    let body: &[u8] = b"id\0p\xc3w\0";
    let err = parse_body(body, BIND_TRANSMITTER, 0).unwrap_err();
    assert_eq!(err.body, PduParseErrorBody::StringIsNotAscii(1));
    assert_eq!(err.field_name, Some(FieldName::Password));
}

#[test]
fn parse_body_reports_bytes_consumed() {
    let (body, n) = parse_body(b"msg-1\0rest", SUBMIT_SM_RESP, 0).unwrap();
    assert_eq!(n, 6);
    assert_eq!(body, PduBody::SubmitSmResp(SubmitSmRespPdu::new("msg-1").unwrap()));
}

#[test]
fn new_rejects_long_and_non_ascii_strings() {
    let err = BindTransmitterPdu::new("0123456789abcdef", "", "", 0, 0, 0, "").unwrap_err();
    assert_eq!(err.body, PduParseErrorBody::StringTooLong(16));
    assert_eq!(err.field_name, Some(FieldName::SystemId));
    let err = BindTransmitterPdu::new("ok", "pässwd", "", 0, 0, 0, "").unwrap_err();
    assert_eq!(err.body, PduParseErrorBody::StringIsNotAscii(1));
    assert_eq!(err.field_name, Some(FieldName::Password));
    assert!(BindTransmitterPdu::new("0123456789abcde", "12345678", "", 0, 0, 0, "").is_ok());
}

#[test]
fn new_rejects_oversized_short_message() {
    let message = vec![b'x'; 256];
    let err = SubmitSmPdu::new(
        "", 0, 0, "a", 0, 0, "b", 0, 0, 0, "", "", 0, 0, 0, 0, &message,
    )
    .unwrap_err();
    assert_eq!(err.body, PduParseErrorBody::OctetStringTooLong(255));
    assert_eq!(err.field_name, Some(FieldName::ShortMessage));
}

#[test]
fn error_rendering_shows_context_or_unknown() {
    let err = PduParseError::new(PduParseErrorBody::StatusIsNotZero)
        .into_with_field_name(FieldName::CommandStatus)
        .into_with_header(Some(2), None, None);
    assert_eq!(
        err.to_string(),
        "Error parsing PDU (command_id=0x00000002, command_status=UNKNOWN, \
        sequence_number=UNKNOWN, field_name=command_status): \
        command_status must be 0, but was UNKNOWN."
    );
}

#[test]
fn header_context_is_not_overwritten() {
    let err = PduParseError::new(PduParseErrorBody::NotEnoughBytes)
        .into_with_header(Some(1), None, None)
        .into_with_header(Some(9), Some(3), None)
        .into_with_field_name(FieldName::AddrTon)
        .into_with_field_name(FieldName::AddrNpi);
    assert_eq!(err.command_id, Some(1));
    assert_eq!(err.command_status, Some(3));
    assert_eq!(err.sequence_number, None);
    assert_eq!(err.field_name, Some(FieldName::AddrTon));
}

#[test]
fn status_codes() {
    assert_eq!(PduStatus::ESME_ROK.code(), 0);
    assert_eq!(PduStatus::ESME_RINVSYSID.code(), 0x0f);
    assert_eq!(PduStatus::ESME_RUNKNOWNERR.code(), 0xff);
}
