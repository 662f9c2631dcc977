use crate::bind_transmitter::{
    bind_transmitter_fields, bind_transmitter_layout, BindTransmitterPdu, BIND_TRANSMITTER,
};
use crate::bind_transmitter_resp::{
    bind_transmitter_resp_fields, bind_transmitter_resp_layout, BindTransmitterRespPdu,
    BIND_TRANSMITTER_RESP,
};
use crate::error::{
    error_of, with_field_name, with_header, FieldName, PduParseError, PduParseErrorBody,
};
use crate::formats::{
    be_u32, check_fields, encode_fields, fields_fit, fields_valid, fields_view, layout_bounded,
    lemma_encode_fields_len, lemma_parse_fields_fit, parse_fields, read_fields, read_u32,
    u32_bytes, write_u32, FieldSpec, FieldValue, FieldView, Integer4,
};
use crate::generic_nack::{GenericNackPdu, GENERIC_NACK};
use crate::submit_sm::{submit_sm_fields, submit_sm_layout, SubmitSmPdu, SUBMIT_SM};
use crate::submit_sm_resp::{
    submit_sm_resp_fields, submit_sm_resp_layout, SubmitSmRespPdu, SUBMIT_SM_RESP,
};
use vstd::prelude::*;
use vstd::slice::slice_subrange;
use vstd::string::StringSliceAdditionalSpecFns;

verus! {

/// The smallest command_length accepted: a header-only PDU.
pub const COMMAND_LENGTH_MIN: u32 = 8;

/// The largest command_length accepted.
pub const COMMAND_LENGTH_MAX: u32 = 70000;

/// The size of the four header fields.
pub const HEADER_LENGTH: u32 = 16;

/// The operations whose bodies this library reads and writes.
#[derive(Clone, Copy, Debug, PartialEq, Eq)]
pub enum Operation {
    BindTransmitter,
    BindTransmitterResp,
    GenericNack,
    SubmitSm,
    SubmitSmResp,
}

pub open spec fn operation_of(command_id: u32) -> Option<Operation> {
    if command_id == BIND_TRANSMITTER {
        Some(Operation::BindTransmitter)
    } else if command_id == BIND_TRANSMITTER_RESP {
        Some(Operation::BindTransmitterResp)
    } else if command_id == GENERIC_NACK {
        Some(Operation::GenericNack)
    } else if command_id == SUBMIT_SM {
        Some(Operation::SubmitSm)
    } else if command_id == SUBMIT_SM_RESP {
        Some(Operation::SubmitSmResp)
    } else {
        None
    }
}

pub fn operation_for(command_id: u32) -> (r: Option<Operation>)
    ensures
        r == operation_of(command_id),
{
    if command_id == BIND_TRANSMITTER {
        Some(Operation::BindTransmitter)
    } else if command_id == BIND_TRANSMITTER_RESP {
        Some(Operation::BindTransmitterResp)
    } else if command_id == GENERIC_NACK {
        Some(Operation::GenericNack)
    } else if command_id == SUBMIT_SM {
        Some(Operation::SubmitSm)
    } else if command_id == SUBMIT_SM_RESP {
        Some(Operation::SubmitSmResp)
    } else {
        None
    }
}

/// Requests carry a zero command_status.
pub open spec fn is_request(op: Operation) -> bool {
    op is BindTransmitter || op is SubmitSm
}

/// Responses whose body is present exactly when command_status is zero.
pub open spec fn body_optional(op: Operation) -> bool {
    op is BindTransmitterResp || op is SubmitSmResp
}

/// The fields of `op`'s body; `with_body` says whether an optional body is there.
pub open spec fn body_layout(op: Operation, with_body: bool) -> Seq<FieldSpec> {
    match op {
        Operation::BindTransmitter => bind_transmitter_layout(),
        Operation::BindTransmitterResp => if with_body {
            bind_transmitter_resp_layout()
        } else {
            Seq::empty()
        },
        Operation::GenericNack => Seq::empty(),
        Operation::SubmitSm => submit_sm_layout(),
        Operation::SubmitSmResp => if with_body {
            submit_sm_resp_layout()
        } else {
            Seq::empty()
        },
    }
}

pub fn body_fields(op: Operation, with_body: bool) -> (r: Vec<FieldSpec>)
    ensures
        r@ == body_layout(op, with_body),
        layout_bounded(r@),
        r@.len() <= 18,
{
    let r = match op {
        Operation::BindTransmitter => bind_transmitter_fields(),
        Operation::BindTransmitterResp => if with_body {
            bind_transmitter_resp_fields()
        } else {
            Vec::new()
        },
        Operation::GenericNack => Vec::new(),
        Operation::SubmitSm => submit_sm_fields(),
        Operation::SubmitSmResp => if with_body {
            submit_sm_resp_fields()
        } else {
            Vec::new()
        },
    };
    assert(r@ =~= body_layout(op, with_body));
    r
}

/// Reading the body of `op` from the whole of the bounded body bytes `input`: the
/// field values and the bytes they took. A request with a nonzero status is refused
/// once its fields are read; a response with a nonzero status may hold no byte.
pub open spec fn parse_body_spec(op: Operation, command_status: u32, input: Seq<u8>) -> Result<
    (Seq<FieldView>, nat),
    PduParseError,
> {
    match parse_fields(body_layout(op, command_status == 0), input) {
        Err(e) => Err(e),
        Ok((vals, n)) => if is_request(op) && command_status != 0 {
            Err(
                with_field_name(
                    error_of(PduParseErrorBody::StatusIsNotZero),
                    FieldName::CommandStatus,
                ),
            )
        } else if body_optional(op) && command_status != 0 && input.len() > 0 {
            Err(error_of(PduParseErrorBody::BodyNotAllowedWhenStatusIsNotZero))
        } else {
            Ok((vals, n))
        },
    }
}

/// Reads the fields of `op`'s body and applies its status rules.
pub fn parse_op_fields(op: Operation, command_status: u32, bytes: &[u8]) -> (r: Result<
    (Vec<FieldValue>, usize),
    PduParseError,
>)
    ensures
        match r {
            Ok((v, n)) => n <= bytes@.len() && fields_fit(
                body_layout(op, fields_view(v@).len() > 0),
                fields_view(v@),
            ) && parse_body_spec(op, command_status, bytes@) == Ok::<
                (Seq<FieldView>, nat),
                PduParseError,
            >((fields_view(v@), n as nat)),
            Err(e) => parse_body_spec(op, command_status, bytes@) == Err::<
                (Seq<FieldView>, nat),
                PduParseError,
            >(e),
        },
{
    let layout = body_fields(op, command_status == 0);
    match read_fields(&layout, bytes) {
        Err(e) => Err(e),
        Ok((fields, n)) => {
            proof {
                lemma_parse_fields_fit(layout@, bytes@);
            }
            let request = match op {
                Operation::BindTransmitter | Operation::SubmitSm => true,
                _ => false,
            };
            let optional = match op {
                Operation::BindTransmitterResp | Operation::SubmitSmResp => true,
                _ => false,
            };
            if request && command_status != 0 {
                Err(
                    PduParseError::new(PduParseErrorBody::StatusIsNotZero).into_with_field_name(
                        FieldName::CommandStatus,
                    ),
                )
            } else if optional && command_status != 0 && bytes.len() > 0 {
                Err(PduParseError::new(PduParseErrorBody::BodyNotAllowedWhenStatusIsNotZero))
            } else {
                assert(body_layout(op, command_status == 0) == body_layout(
                    op,
                    fields_view(fields@).len() > 0,
                ));
                Ok((fields, n))
            }
        },
    }
}

#[derive(Debug, PartialEq, Eq)]
pub enum PduBody {
    BindTransmitter(BindTransmitterPdu),
    BindTransmitterResp(BindTransmitterRespPdu),
    GenericNack(GenericNackPdu),
    SubmitSm(SubmitSmPdu),
    SubmitSmResp(SubmitSmRespPdu),
}

/// A body as its operation and its field values in wire order.
pub struct BodyView {
    pub operation: Operation,
    pub fields: Seq<FieldView>,
}

impl View for PduBody {
    type V = BodyView;

    open spec fn view(&self) -> BodyView {
        match self {
            PduBody::BindTransmitter(b) => BodyView {
                operation: Operation::BindTransmitter,
                fields: b@,
            },
            PduBody::BindTransmitterResp(b) => BodyView {
                operation: Operation::BindTransmitterResp,
                fields: b@,
            },
            PduBody::GenericNack(b) => BodyView { operation: Operation::GenericNack, fields: b@ },
            PduBody::SubmitSm(b) => BodyView { operation: Operation::SubmitSm, fields: b@ },
            PduBody::SubmitSmResp(b) => BodyView {
                operation: Operation::SubmitSmResp,
                fields: b@,
            },
        }
    }
}

/// The fields that a body of its operation may hold.
pub open spec fn body_wf(b: BodyView) -> bool {
    fields_fit(body_layout(b.operation, b.fields.len() > 0), b.fields)
}

/// The wire form of a body.
pub open spec fn encode_body(b: BodyView) -> Seq<u8> {
    encode_fields(body_layout(b.operation, b.fields.len() > 0), b.fields)
}

impl PduBody {
    pub open spec fn wf(&self) -> bool {
        body_wf(self@)
    }

    pub fn operation(&self) -> (r: Operation)
        ensures
            r == self@.operation,
    {
        match self {
            PduBody::BindTransmitter(_) => Operation::BindTransmitter,
            PduBody::BindTransmitterResp(_) => Operation::BindTransmitterResp,
            PduBody::GenericNack(_) => Operation::GenericNack,
            PduBody::SubmitSm(_) => Operation::SubmitSm,
            PduBody::SubmitSmResp(_) => Operation::SubmitSmResp,
        }
    }

    pub fn fields(&self) -> (r: &Vec<FieldValue>)
        ensures
            fields_view(r@) == self@.fields,
    {
        match self {
            PduBody::BindTransmitter(b) => b.fields(),
            PduBody::BindTransmitterResp(b) => b.fields(),
            PduBody::GenericNack(b) => b.fields(),
            PduBody::SubmitSm(b) => b.fields(),
            PduBody::SubmitSmResp(b) => b.fields(),
        }
    }
}

/// Reading a body whose operation `command_id` names.
pub open spec fn parse_body_of(command_id: u32, command_status: u32, input: Seq<u8>) -> Result<
    (BodyView, nat),
    PduParseError,
> {
    match operation_of(command_id) {
        None => Err(error_of(PduParseErrorBody::UnknownCommandId)),
        Some(op) => match parse_body_spec(op, command_status, input) {
            Ok((fields, n)) => Ok((BodyView { operation: op, fields }, n)),
            Err(e) => Err(e),
        },
    }
}

/// Parses the body that `command_id` names from the front of `bytes`: the body and
/// the bytes it took.
pub fn parse_body(bytes: &[u8], command_id: u32, command_status: u32) -> (r: Result<
    (PduBody, usize),
    PduParseError,
>)
    ensures
        match r {
            Ok((b, n)) => n <= bytes@.len() && b.wf() && parse_body_of(
                command_id,
                command_status,
                bytes@,
            ) == Ok::<(BodyView, nat), PduParseError>((b@, n as nat)),
            Err(e) => parse_body_of(command_id, command_status, bytes@) == Err::<
                (BodyView, nat),
                PduParseError,
            >(e),
        },
{
    match operation_for(command_id) {
        None => Err(PduParseError::new(PduParseErrorBody::UnknownCommandId)),
        Some(Operation::BindTransmitter) => match BindTransmitterPdu::parse(bytes, command_status) {
            Ok((p, n)) => Ok((PduBody::BindTransmitter(p), n)),
            Err(e) => Err(e),
        },
        Some(Operation::BindTransmitterResp) => match BindTransmitterRespPdu::parse(
            bytes,
            command_status,
        ) {
            Ok((p, n)) => Ok((PduBody::BindTransmitterResp(p), n)),
            Err(e) => Err(e),
        },
        Some(Operation::GenericNack) => match GenericNackPdu::parse(bytes, command_status) {
            Ok((p, n)) => Ok((PduBody::GenericNack(p), n)),
            Err(e) => Err(e),
        },
        Some(Operation::SubmitSm) => match SubmitSmPdu::parse(bytes, command_status) {
            Ok((p, n)) => Ok((PduBody::SubmitSm(p), n)),
            Err(e) => Err(e),
        },
        Some(Operation::SubmitSmResp) => match SubmitSmRespPdu::parse(bytes, command_status) {
            Ok((p, n)) => Ok((PduBody::SubmitSmResp(p), n)),
            Err(e) => Err(e),
        },
    }
}

#[derive(Debug, PartialEq, Eq)]
pub struct Pdu {
    pub command_id: Integer4,
    pub command_status: Integer4,
    pub sequence_number: Integer4,
    pub body: PduBody,
}

/// A PDU as its three stored header values and its body; command_length is derived.
pub struct PduView {
    pub command_id: u32,
    pub command_status: u32,
    pub sequence_number: u32,
    pub body: BodyView,
}

impl View for Pdu {
    type V = PduView;

    open spec fn view(&self) -> PduView {
        PduView {
            command_id: self.command_id.value,
            command_status: self.command_status.value,
            sequence_number: self.sequence_number.value,
            body: self.body@,
        }
    }
}

/// Whether a complete PDU is in the buffer yet.
#[derive(Clone, Copy, Debug, PartialEq, Eq)]
pub enum CheckOutcome {
    Ready,
    Incomplete,
}

/// Ready exactly when the four length bytes are there and the buffer holds at
/// least as many bytes as they declare.
pub open spec fn check_spec(input: Seq<u8>) -> CheckOutcome {
    if input.len() >= 4 && input.len() >= be_u32(input) {
        CheckOutcome::Ready
    } else {
        CheckOutcome::Incomplete
    }
}

/// The error for a declared command_length out of bounds, if it is.
pub open spec fn length_error(command_length: u32) -> Option<PduParseErrorBody> {
    if command_length < COMMAND_LENGTH_MIN {
        Some(PduParseErrorBody::LengthTooShort(command_length))
    } else if command_length > COMMAND_LENGTH_MAX {
        Some(PduParseErrorBody::LengthTooLong(command_length))
    } else {
        None
    }
}

pub fn validate_command_length(command_length: u32) -> (r: Option<PduParseErrorBody>)
    ensures
        r == length_error(command_length),
{
    if command_length < COMMAND_LENGTH_MIN {
        Some(PduParseErrorBody::LengthTooShort(command_length))
    } else if command_length > COMMAND_LENGTH_MAX {
        Some(PduParseErrorBody::LengthTooLong(command_length))
    } else {
        None
    }
}

/// A header field ran out of bytes: a bad declared length is the likelier cause, so
/// it is reported first; otherwise the field is named.
pub open spec fn header_field_error(command_length: u32, name: FieldName) -> PduParseError {
    match length_error(command_length) {
        Some(b) => error_of(b),
        None => with_field_name(error_of(PduParseErrorBody::NotEnoughBytes), name),
    }
}

fn hfld(command_length: u32, name: FieldName) -> (r: PduParseError)
    ensures
        r == header_field_error(command_length, name),
{
    match validate_command_length(command_length) {
        Some(b) => PduParseError::new(b),
        None => PduParseError::new(PduParseErrorBody::NotEnoughBytes).into_with_field_name(name),
    }
}

/// Where the bytes after command_length end: at the declared length, or earlier at
/// the end of the input.
pub open spec fn bounded_end(command_length: u32, len: nat) -> int {
    if command_length < 4 {
        4
    } else if command_length > len {
        len as int
    } else {
        command_length as int
    }
}

/// What parsing does once the header is read: the length is checked, the body
/// (the bytes up to the declared length) read, and any byte of it left over is an
/// error. Every error carries the whole header.
pub open spec fn parse_after_header(
    command_length: u32,
    id: u32,
    status: u32,
    seq: u32,
    body: Seq<u8>,
) -> Result<PduView, PduParseError> {
    match length_error(command_length) {
        Some(b) => Err(with_header(error_of(b), Some(id), Some(status), Some(seq))),
        None => match parse_body_of(id, status, body) {
            Err(e) => Err(with_header(e, Some(id), Some(status), Some(seq))),
            Ok((b, n)) => if n < body.len() {
                Err(
                    with_header(
                        error_of(PduParseErrorBody::LengthLongerThanPdu(command_length)),
                        Some(id),
                        Some(status),
                        Some(seq),
                    ),
                )
            } else {
                Ok(PduView { command_id: id, command_status: status, sequence_number: seq, body: b })
            },
        },
    }
}

/// Parsing one PDU from the front of `input`. All reads after command_length are
/// held to the declared length; the header is read field by field, each error
/// carrying the fields before it; then the length is checked, the body read, and
/// any byte left inside the declared length is an error.
pub open spec fn parse_spec(input: Seq<u8>) -> Result<PduView, PduParseError> {
    if input.len() < 4 {
        Err(error_of(PduParseErrorBody::NotEnoughBytes))
    } else {
        let command_length = be_u32(input);
        let view = input.subrange(4, bounded_end(command_length, input.len()));
        if view.len() < 4 {
            Err(header_field_error(command_length, FieldName::CommandId))
        } else {
            let id = be_u32(view);
            if view.len() < 8 {
                Err(
                    with_header(
                        header_field_error(command_length, FieldName::CommandStatus),
                        Some(id),
                        None,
                        None,
                    ),
                )
            } else {
                let status = be_u32(view.skip(4));
                if view.len() < 12 {
                    Err(
                        with_header(
                            header_field_error(command_length, FieldName::SequenceNumber),
                            Some(id),
                            Some(status),
                            None,
                        ),
                    )
                } else {
                    parse_after_header(command_length, id, status, be_u32(view.skip(8)), view.skip(12))
                }
            }
        }
    }
}

/// The wire form of a PDU: command_length (the header's 16 bytes and the body's),
/// the three header values, then the body.
pub open spec fn encode_pdu(p: PduView) -> Seq<u8> {
    frame(p.command_id, p.command_status, p.sequence_number, encode_body(p.body))
}

/// A header for `body`, whose command_length counts the header and `body`, then `body`.
pub open spec fn frame(id: u32, status: u32, seq: u32, body: Seq<u8>) -> Seq<u8> {
    u32_bytes((body.len() + HEADER_LENGTH) as u32) + u32_bytes(id) + u32_bytes(status) + u32_bytes(
        seq,
    ) + body
}

/// A PDU that reads back as itself: its command_id names its body, requests have a
/// zero status, optional bodies are there exactly when the status is zero, and no
/// C-octet string holds a zero byte.
pub open spec fn pdu_valid(p: PduView) -> bool {
    &&& operation_of(p.command_id) == Some(p.body.operation)
    &&& fields_valid(body_layout(p.body.operation, p.body.fields.len() > 0), p.body.fields)
    &&& is_request(p.body.operation) ==> p.command_status == 0
    &&& body_optional(p.body.operation) ==> (p.command_status == 0 <==> p.body.fields.len() > 0)
}

impl Pdu {
    pub open spec fn wf(&self) -> bool {
        self.body.wf()
    }

    pub fn new(command_id: u32, command_status: u32, sequence_number: u32, body: PduBody) -> (r:
        Self)
        ensures
            r@ == (PduView { command_id, command_status, sequence_number, body: body@ }),
            body.wf() ==> r.wf(),
    {
        Pdu {
            command_id: Integer4::new(command_id),
            command_status: Integer4::new(command_status),
            sequence_number: Integer4::new(sequence_number),
            body,
        }
    }

    pub fn new_generic_nack_error(command_status: u32, sequence_number: u32) -> (r: Self)
        ensures
            r.wf(),
            r@ == (PduView {
                command_id: GENERIC_NACK,
                command_status,
                sequence_number,
                body: BodyView { operation: Operation::GenericNack, fields: Seq::empty() },
            }),
    {
        Self::new(
            GENERIC_NACK,
            command_status,
            sequence_number,
            PduBody::GenericNack(GenericNackPdu::new_error()),
        )
    }

    /// A successful bind_transmitter_resp carrying the server's `system_id`.
    pub fn new_bind_transmitter_resp(sequence_number: u32, system_id: &str) -> (r: Result<
        Self,
        PduParseError,
    >)
        ensures
            ({
                let candidate = seq![FieldView::Octets(system_id.spec_bytes())];
                match r {
                    Ok(p) => p.wf() && check_fields(bind_transmitter_resp_layout(), candidate) is Ok
                        && p@ == (PduView {
                        command_id: BIND_TRANSMITTER_RESP,
                        command_status: 0,
                        sequence_number,
                        body: BodyView { operation: Operation::BindTransmitterResp, fields: candidate },
                    }),
                    Err(e) => check_fields(bind_transmitter_resp_layout(), candidate) == Err::<
                        (),
                        PduParseError,
                    >(e),
                }
            }),
    {
        match BindTransmitterRespPdu::new(system_id) {
            Ok(b) => Ok(
                Self::new(
                    BIND_TRANSMITTER_RESP,
                    0x00000000,
                    sequence_number,
                    PduBody::BindTransmitterResp(b),
                ),
            ),
            Err(e) => Err(e),
        }
    }

    pub fn new_bind_transmitter_resp_error(command_status: u32, sequence_number: u32) -> (r: Self)
        ensures
            r.wf(),
            r@ == (PduView {
                command_id: BIND_TRANSMITTER_RESP,
                command_status,
                sequence_number,
                body: BodyView { operation: Operation::BindTransmitterResp, fields: Seq::empty() },
            }),
    {
        Self::new(
            BIND_TRANSMITTER_RESP,
            command_status,
            sequence_number,
            PduBody::BindTransmitterResp(BindTransmitterRespPdu::new_error()),
        )
    }

    pub fn new_submit_sm_resp_error(command_status: u32, sequence_number: u32) -> (r: Self)
        ensures
            r.wf(),
            r@ == (PduView {
                command_id: SUBMIT_SM_RESP,
                command_status,
                sequence_number,
                body: BodyView { operation: Operation::SubmitSmResp, fields: Seq::empty() },
            }),
    {
        Self::new(
            SUBMIT_SM_RESP,
            command_status,
            sequence_number,
            PduBody::SubmitSmResp(SubmitSmRespPdu::new_error()),
        )
    }

    /// Parses one PDU from the front of `bytes`; bytes past its declared length are
    /// left alone.
    pub fn parse(bytes: &[u8]) -> (r: Result<Pdu, PduParseError>)
        ensures
            match r {
                Ok(p) => p.wf() && parse_spec(bytes@) == Ok::<PduView, PduParseError>(p@),
                Err(e) => parse_spec(bytes@) == Err::<PduView, PduParseError>(e),
            },
    {
        let command_length = match read_u32(bytes, 0) {
            Some(v) => v,
            None => {
                return Err(PduParseError::new(PduParseErrorBody::NotEnoughBytes));
            },
        };
        assert(bytes@.skip(0) =~= bytes@);
        let end: usize = if command_length < 4 {
            4
        } else if command_length as usize > bytes.len() {
            bytes.len()
        } else {
            command_length as usize
        };
        let view = slice_subrange(bytes, 4, end);
        let command_id = match read_u32(view, 0) {
            Some(v) => v,
            None => {
                return Err(hfld(command_length, FieldName::CommandId));
            },
        };
        assert(view@.skip(0) =~= view@);
        let command_status = match read_u32(view, 4) {
            Some(v) => v,
            None => {
                return Err(
                    hfld(command_length, FieldName::CommandStatus).into_with_header(
                        Some(command_id),
                        None,
                        None,
                    ),
                );
            },
        };
        let sequence_number = match read_u32(view, 8) {
            Some(v) => v,
            None => {
                return Err(
                    hfld(command_length, FieldName::SequenceNumber).into_with_header(
                        Some(command_id),
                        Some(command_status),
                        None,
                    ),
                );
            },
        };
        if let Some(b) = validate_command_length(command_length) {
            return Err(
                PduParseError::new(b).into_with_header(
                    Some(command_id),
                    Some(command_status),
                    Some(sequence_number),
                ),
            );
        }
        let body_bytes = slice_subrange(view, 12, view.len());
        assert(body_bytes@ =~= view@.skip(12));
        match parse_body(body_bytes, command_id, command_status) {
            Err(e) => Err(
                e.into_with_header(Some(command_id), Some(command_status), Some(sequence_number)),
            ),
            Ok((body, n)) => {
                if n < body_bytes.len() {
                    Err(
                        PduParseError::new(
                            PduParseErrorBody::LengthLongerThanPdu(command_length),
                        ).into_with_header(
                            Some(command_id),
                            Some(command_status),
                            Some(sequence_number),
                        ),
                    )
                } else {
                    Ok(
                        Pdu {
                            command_id: Integer4::new(command_id),
                            command_status: Integer4::new(command_status),
                            sequence_number: Integer4::new(sequence_number),
                            body,
                        },
                    )
                }
            },
        }
    }

    /// Whether `bytes` holds a whole PDU yet, by its declared length alone.
    pub fn check(bytes: &[u8]) -> (r: CheckOutcome)
        ensures
            r == check_spec(bytes@),
    {
        match read_u32(bytes, 0) {
            None => CheckOutcome::Incomplete,
            Some(command_length) => {
                assert(bytes@.skip(0) =~= bytes@);
                if bytes.len() as u64 >= command_length as u64 {
                    CheckOutcome::Ready
                } else {
                    CheckOutcome::Incomplete
                }
            },
        }
    }

    /// Appends the wire form of the PDU: the body goes to a scratch buffer first, so
    /// that command_length is known before the header is written.
    pub fn write(&self, out: &mut Vec<u8>)
        ensures
            self.wf(),
            final(out)@ == old(out)@ + encode_pdu(self@),
    {
        let mut buf: Vec<u8> = Vec::new();
        match &self.body {
            PduBody::BindTransmitter(b) => b.write(&mut buf),
            PduBody::BindTransmitterResp(b) => b.write(&mut buf),
            PduBody::GenericNack(b) => b.write(&mut buf),
            PduBody::SubmitSm(b) => b.write(&mut buf),
            PduBody::SubmitSmResp(b) => b.write(&mut buf),
        }
        proof {
            lemma_encode_fields_len(
                body_layout(self.body@.operation, self.body@.fields.len() > 0),
                self.body@.fields,
            );
            assert(buf@ =~= encode_body(self.body@));
            assert(body_layout(self.body@.operation, self.body@.fields.len() > 0).len() <= 18);
        }
        let command_length = (buf.len() as u32) + (HEADER_LENGTH as u32);
        write_u32(out, command_length);
        write_u32(out, self.command_id.value);
        write_u32(out, self.command_status.value);
        write_u32(out, self.sequence_number.value);
        out.extend_from_slice(buf.as_slice());
        assert(final(out)@ =~= old(out)@ + encode_pdu(self@));
    }
}

} // verus!
