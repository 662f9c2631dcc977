use crate::error::{FieldName, PduParseError};
use crate::formats::{
    check_fields, encode_fields, fields_fit, fields_view, str_bytes, validate_fields,
    write_fields, FieldSpec, FieldValue, FieldView, Format,
};
use crate::pdu::{body_fields, body_layout, parse_body_spec, parse_op_fields, Operation};
use vstd::prelude::*;
use vstd::string::StringSliceAdditionalSpecFns;

verus! {

pub const SUBMIT_SM_RESP: u32 = 0x80000004;

pub const MAX_LENGTH_MESSAGE_ID: usize = 65;

/// The body of a submit_sm_resp with a zero status: the message_id.
pub open spec fn submit_sm_resp_layout() -> Seq<FieldSpec> {
    seq![FieldSpec { name: FieldName::MessageId, format: Format::COctetString(MAX_LENGTH_MESSAGE_ID) }]
}

pub fn submit_sm_resp_fields() -> (r: Vec<FieldSpec>)
    ensures
        r@ == submit_sm_resp_layout(),
{
    let r = vec![FieldSpec { name: FieldName::MessageId, format: Format::COctetString(MAX_LENGTH_MESSAGE_ID) }];
    assert(r@ =~= submit_sm_resp_layout());
    r
}

#[derive(Debug, PartialEq, Eq)]
pub struct SubmitSmRespPdu {
    fields: Vec<FieldValue>,
}

impl View for SubmitSmRespPdu {
    type V = Seq<FieldView>;

    closed spec fn view(&self) -> Seq<FieldView> {
        fields_view(self.fields@)
    }
}

impl SubmitSmRespPdu {
    /// Every value holds fields that fit its layout, so it can always be written.
    #[verifier::type_invariant]
    spec fn fields_fit_layout(&self) -> bool {
        fields_fit(
            body_layout(Operation::SubmitSmResp, fields_view(self.fields@).len() > 0),
            fields_view(self.fields@),
        )
    }

    pub open spec fn wf(&self) -> bool {
        fields_fit(body_layout(Operation::SubmitSmResp, self@.len() > 0), self@)
    }

    /// A successful response carrying `message_id`.
    pub fn new(message_id: &str) -> (r: Result<Self, PduParseError>)
        ensures
            ({
                let candidate = seq![FieldView::Octets(message_id.spec_bytes())];
                match r {
                    Ok(p) => p.wf() && p@ == candidate && check_fields(submit_sm_resp_layout(), candidate) is Ok,
                    Err(e) => check_fields(submit_sm_resp_layout(), candidate) == Err::<(), PduParseError>(e),
                }
            }),
    {
        let fields = vec![FieldValue::Octets(str_bytes(message_id))];
        let layout = body_fields(Operation::SubmitSmResp, true);
        assert(fields_view(fields@) =~= seq![FieldView::Octets(message_id.spec_bytes())]);
        match validate_fields(&layout, &fields) {
            Ok(()) => Ok(SubmitSmRespPdu { fields }),
            Err(e) => Err(e),
        }
    }

    /// The body of an error response: no fields.
    pub fn new_error() -> (r: Self)
        ensures
            r.wf(),
            r@ == Seq::<FieldView>::empty(),
    {
        let r = SubmitSmRespPdu { fields: Vec::new() };
        assert(r@ =~= Seq::<FieldView>::empty());
        r
    }

    /// Appends the wire form of the body.
    pub fn write(&self, out: &mut Vec<u8>)
        ensures
            self.wf(),
            final(out)@ == old(out)@ + encode_fields(
                body_layout(Operation::SubmitSmResp, self@.len() > 0),
                self@,
            ),
    {
        proof {
            use_type_invariant(self);
        }
        let layout = body_fields(Operation::SubmitSmResp, self.fields.len() > 0);
        write_fields(&layout, &self.fields, out);
    }

    pub fn fields(&self) -> (r: &Vec<FieldValue>)
        ensures
            fields_view(r@) == self@,
    {
        &self.fields
    }

    /// Parses the body from the whole of `bytes`, which must hold nothing past the
    /// declared length: with a nonzero status any byte there is an error.
    pub fn parse(bytes: &[u8], command_status: u32) -> (r: Result<(SubmitSmRespPdu, usize), PduParseError>)
        ensures
            match r {
                Ok((p, n)) => n <= bytes@.len() && p.wf() && parse_body_spec(
                    Operation::SubmitSmResp,
                    command_status,
                    bytes@,
                ) == Ok::<(Seq<FieldView>, nat), PduParseError>((p@, n as nat)),
                Err(e) => parse_body_spec(Operation::SubmitSmResp, command_status, bytes@)
                    == Err::<(Seq<FieldView>, nat), PduParseError>(e),
            },
    {
        match parse_op_fields(Operation::SubmitSmResp, command_status, bytes) {
            Ok((fields, n)) => Ok((SubmitSmRespPdu { fields }, n)),
            Err(e) => Err(e),
        }
    }
}

} // verus!
