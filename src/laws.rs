use crate::error::{FieldName, PduParseError, PduParseErrorBody};
use crate::formats::{
    be_u32, fields_valid, is_first_non_ascii, is_first_zero, lemma_be_u32_of_bytes,
    lemma_encode_fields_len, lemma_fields_round_trip, min, read_c_octet_string, u32_bytes,
};
use crate::pdu::{
    body_layout, body_optional, check_spec, encode_body, encode_pdu, frame, operation_of,
    parse_after_header, parse_spec, pdu_valid, BodyView, CheckOutcome, Operation, PduView,
    COMMAND_LENGTH_MAX, HEADER_LENGTH,
};
use crate::submit_sm_resp::SUBMIT_SM_RESP;
use vstd::prelude::*;

verus! {

/// Parsing a framed body reads the header back and goes on with exactly that body,
/// whatever follows the frame.
pub proof fn lemma_parse_frame(id: u32, status: u32, seq: u32, body: Seq<u8>, rest: Seq<u8>)
    requires
        body.len() + HEADER_LENGTH <= COMMAND_LENGTH_MAX,
    ensures
        parse_spec(frame(id, status, seq, body) + rest) == parse_after_header(
            (body.len() + HEADER_LENGTH) as u32,
            id,
            status,
            seq,
            body,
        ),
{
    let cl = (body.len() + HEADER_LENGTH) as u32;
    let tail = u32_bytes(id) + u32_bytes(status) + u32_bytes(seq) + body;
    let input = frame(id, status, seq, body) + rest;
    assert(input =~= u32_bytes(cl) + (tail + rest));
    lemma_be_u32_of_bytes(cl, tail + rest);
    let view = input.subrange(4, cl as int);
    assert(view =~= tail);
    assert(view =~= u32_bytes(id) + (u32_bytes(status) + u32_bytes(seq) + body));
    lemma_be_u32_of_bytes(id, u32_bytes(status) + u32_bytes(seq) + body);
    assert(view.skip(4) =~= u32_bytes(status) + (u32_bytes(seq) + body));
    lemma_be_u32_of_bytes(status, u32_bytes(seq) + body);
    assert(view.skip(8) =~= u32_bytes(seq) + body);
    lemma_be_u32_of_bytes(seq, body);
    assert(view.skip(12) =~= body);
}

proof fn lemma_valid_body_len(p: PduView)
    requires
        pdu_valid(p),
    ensures
        encode_body(p.body).len() + HEADER_LENGTH + 256 <= COMMAND_LENGTH_MAX,
{
    let layout = body_layout(p.body.operation, p.body.fields.len() > 0);
    lemma_encode_fields_len(layout, p.body.fields);
    assert(layout.len() <= 18);
}

/// A valid PDU reads back as itself from its wire form, whatever bytes follow it.
pub proof fn lemma_parse_write_round_trip(p: PduView, rest: Seq<u8>)
    requires
        pdu_valid(p),
    ensures
        parse_spec(encode_pdu(p) + rest) == Ok::<PduView, PduParseError>(p),
{
    let body = encode_body(p.body);
    let op = p.body.operation;
    let layout = body_layout(op, p.body.fields.len() > 0);
    lemma_valid_body_len(p);
    lemma_parse_frame(p.command_id, p.command_status, p.sequence_number, body, rest);
    assert(body_layout(op, p.command_status == 0) == layout);
    lemma_fields_round_trip(layout, p.body.fields, Seq::empty());
    assert(body + Seq::<u8>::empty() =~= body);
}

/// The framing check is Ready exactly when the buffer holds the four length bytes
/// and at least as many bytes as they declare.
pub proof fn lemma_check_ready_iff_complete(input: Seq<u8>)
    ensures
        input.len() < 4 ==> check_spec(input) == CheckOutcome::Incomplete,
        input.len() >= 4 ==> (check_spec(input) == CheckOutcome::Ready <==> input.len()
            >= be_u32(input)),
        input.len() >= 4 && input.len() < be_u32(input) ==> check_spec(input)
            == CheckOutcome::Incomplete,
{
}

/// A declared command_length below 8 fails with LengthTooShort and one above 70000
/// with LengthTooLong, whatever the other header fields hold and however many bytes
/// follow.
pub proof fn lemma_length_out_of_bounds(input: Seq<u8>)
    requires
        input.len() >= 4,
    ensures
        be_u32(input) < 8 ==> (parse_spec(input) matches Err(e) && e.body
            == PduParseErrorBody::LengthTooShort(be_u32(input))),
        be_u32(input) > 70000 ==> (parse_spec(input) matches Err(e) && e.body
            == PduParseErrorBody::LengthTooLong(be_u32(input))),
{
}

/// A C-octet string whose input ends, before its bound, without a zero byte fails
/// with StringDoesNotEndWithZeroByte.
pub proof fn lemma_unterminated_string(input: Seq<u8>, max_len: usize)
    requires
        input.len() < max_len,
        forall|j: int| 0 <= j < input.len() ==> input[j] != 0,
    ensures
        read_c_octet_string(input, max_len) == Err::<(Seq<u8>, nat), PduParseErrorBody>(
            PduParseErrorBody::StringDoesNotEndWithZeroByte,
        ),
{
    let window = input.take(input.len() as int);
    assert(window =~= input);
}

/// A C-octet string terminated within its bound, with a non-ASCII byte before the
/// terminator, fails with StringIsNotAscii at the offset of the first such byte.
pub proof fn lemma_non_ascii_string(input: Seq<u8>, max_len: usize, k: int, j: int)
    requires
        k < max_len,
        is_first_zero(input, k),
        is_first_non_ascii(input.take(k), j),
    ensures
        read_c_octet_string(input, max_len) == Err::<(Seq<u8>, nat), PduParseErrorBody>(
            PduParseErrorBody::StringIsNotAscii(j as usize),
        ),
{
    let window = input.take(min(max_len as int, input.len() as int));
    assert forall|i: int| 0 <= i < window.len() implies window[i] == input[i] by {}
    assert(is_first_zero(window, k));
    assert(forall|z: int| is_first_zero(window, z) ==> z == k);
    let value = window.take(k);
    assert(value =~= input.take(k));
    assert(is_first_non_ascii(value, j));
    assert(forall|z: int| is_first_non_ascii(value, z) ==> z == j);
}

/// A bind_transmitter whose fields are all well formed still fails with
/// StatusIsNotZero, reported against command_status, when its status is not zero.
pub proof fn lemma_bind_transmitter_nonzero_status(p: PduView, rest: Seq<u8>)
    requires
        p.body.operation == Operation::BindTransmitter,
        operation_of(p.command_id) == Some(Operation::BindTransmitter),
        fields_valid(body_layout(Operation::BindTransmitter, true), p.body.fields),
        p.command_status != 0,
    ensures
        parse_spec(encode_pdu(p) + rest) == Err::<PduView, PduParseError>(
            PduParseError {
                body: PduParseErrorBody::StatusIsNotZero,
                command_id: Some(p.command_id),
                command_status: Some(p.command_status),
                sequence_number: Some(p.sequence_number),
                field_name: Some(FieldName::CommandStatus),
            },
        ),
{
    let body = encode_body(p.body);
    let layout = body_layout(Operation::BindTransmitter, true);
    lemma_encode_fields_len(layout, p.body.fields);
    lemma_parse_frame(p.command_id, p.command_status, p.sequence_number, body, rest);
    lemma_fields_round_trip(layout, p.body.fields, Seq::empty());
    assert(body + Seq::<u8>::empty() =~= body);
}

/// A submit_sm_resp with a zero status and no message_id fails.
pub proof fn lemma_submit_sm_resp_missing_message_id(seq: u32, rest: Seq<u8>)
    ensures
        parse_spec(frame(SUBMIT_SM_RESP, 0, seq, Seq::empty()) + rest) == Err::<
            PduView,
            PduParseError,
        >(
            PduParseError {
                body: PduParseErrorBody::StringDoesNotEndWithZeroByte,
                command_id: Some(SUBMIT_SM_RESP),
                command_status: Some(0),
                sequence_number: Some(seq),
                field_name: Some(FieldName::MessageId),
            },
        ),
{
    lemma_parse_frame(SUBMIT_SM_RESP, 0, seq, Seq::empty(), rest);
    lemma_unterminated_string(Seq::empty(), 65);
    assert(Seq::<u8>::empty().skip(0) =~= Seq::<u8>::empty());
}

/// A submit_sm_resp with a nonzero status and a byte of body fails with
/// BodyNotAllowedWhenStatusIsNotZero.
pub proof fn lemma_submit_sm_resp_stray_byte(status: u32, seq: u32, b: u8, rest: Seq<u8>)
    requires
        status != 0,
    ensures
        parse_spec(frame(SUBMIT_SM_RESP, status, seq, seq![b]) + rest) == Err::<
            PduView,
            PduParseError,
        >(
            PduParseError {
                body: PduParseErrorBody::BodyNotAllowedWhenStatusIsNotZero,
                command_id: Some(SUBMIT_SM_RESP),
                command_status: Some(status),
                sequence_number: Some(seq),
                field_name: None,
            },
        ),
{
    lemma_parse_frame(SUBMIT_SM_RESP, status, seq, seq![b], rest);
}

/// A submit_sm_resp with a nonzero status and no body parses, without a message_id.
pub proof fn lemma_submit_sm_resp_error_without_body(status: u32, seq: u32, rest: Seq<u8>)
    requires
        status != 0,
    ensures
        parse_spec(frame(SUBMIT_SM_RESP, status, seq, Seq::empty()) + rest) == Ok::<
            PduView,
            PduParseError,
        >(
            PduView {
                command_id: SUBMIT_SM_RESP,
                command_status: status,
                sequence_number: seq,
                body: BodyView { operation: Operation::SubmitSmResp, fields: Seq::empty() },
            },
        ),
{
    let p = PduView {
        command_id: SUBMIT_SM_RESP,
        command_status: status,
        sequence_number: seq,
        body: BodyView { operation: Operation::SubmitSmResp, fields: Seq::empty() },
    };
    assert(encode_body(p.body) =~= Seq::<u8>::empty());
    lemma_parse_write_round_trip(p, rest);
}

/// A valid PDU whose declared length also covers `extra` bytes after its body fails
/// with LengthLongerThanPdu, unless it is a response whose nonzero status forbids a
/// body (that one fails with BodyNotAllowedWhenStatusIsNotZero).
pub proof fn lemma_trailing_bytes_in_length(p: PduView, extra: Seq<u8>, rest: Seq<u8>)
    requires
        pdu_valid(p),
        extra.len() > 0,
        encode_body(p.body).len() + extra.len() + HEADER_LENGTH <= COMMAND_LENGTH_MAX,
        body_optional(p.body.operation) ==> p.command_status == 0,
    ensures
        parse_spec(frame(p.command_id, p.command_status, p.sequence_number, encode_body(p.body) + extra) + rest)
            == Err::<PduView, PduParseError>(
            PduParseError {
                body: PduParseErrorBody::LengthLongerThanPdu(
                    (encode_body(p.body).len() + extra.len() + HEADER_LENGTH) as u32,
                ),
                command_id: Some(p.command_id),
                command_status: Some(p.command_status),
                sequence_number: Some(p.sequence_number),
                field_name: None,
            },
        ),
{
    let body = encode_body(p.body);
    let op = p.body.operation;
    let layout = body_layout(op, p.body.fields.len() > 0);
    lemma_valid_body_len(p);
    lemma_parse_frame(p.command_id, p.command_status, p.sequence_number, body + extra, rest);
    assert(body_layout(op, p.command_status == 0) == layout);
    lemma_fields_round_trip(layout, p.body.fields, extra);
}

} // verus!
