use crate::error::{FieldName, PduParseError};
use crate::formats::{
    check_fields, encode_fields, fields_fit, fields_view, str_bytes, validate_fields,
    write_fields, FieldSpec, FieldValue, FieldView, Format,
};
use crate::pdu::{body_fields, body_layout, parse_body_spec, parse_op_fields, Operation};
use vstd::prelude::*;
use vstd::string::StringSliceAdditionalSpecFns;

verus! {

pub const BIND_TRANSMITTER_RESP: u32 = 0x80000002;

pub const MAX_LENGTH_SYSTEM_ID: usize = 16;

/// The body of a bind_transmitter_resp with a zero status: the server's system_id.
pub open spec fn bind_transmitter_resp_layout() -> Seq<FieldSpec> {
    seq![FieldSpec { name: FieldName::SystemId, format: Format::COctetString(MAX_LENGTH_SYSTEM_ID) }]
}

pub fn bind_transmitter_resp_fields() -> (r: Vec<FieldSpec>)
    ensures
        r@ == bind_transmitter_resp_layout(),
{
    let r = vec![FieldSpec { name: FieldName::SystemId, format: Format::COctetString(MAX_LENGTH_SYSTEM_ID) }];
    assert(r@ =~= bind_transmitter_resp_layout());
    r
}

#[derive(Debug, PartialEq, Eq)]
pub struct BindTransmitterRespPdu {
    fields: Vec<FieldValue>,
}

impl View for BindTransmitterRespPdu {
    type V = Seq<FieldView>;

    closed spec fn view(&self) -> Seq<FieldView> {
        fields_view(self.fields@)
    }
}

impl BindTransmitterRespPdu {
    /// Every value holds fields that fit its layout, so it can always be written.
    #[verifier::type_invariant]
    spec fn fields_fit_layout(&self) -> bool {
        fields_fit(
            body_layout(Operation::BindTransmitterResp, fields_view(self.fields@).len() > 0),
            fields_view(self.fields@),
        )
    }

    pub open spec fn wf(&self) -> bool {
        fields_fit(body_layout(Operation::BindTransmitterResp, self@.len() > 0), self@)
    }

    /// A successful response carrying `system_id`.
    pub fn new(system_id: &str) -> (r: Result<Self, PduParseError>)
        ensures
            ({
                let candidate = seq![FieldView::Octets(system_id.spec_bytes())];
                match r {
                    Ok(p) => p.wf() && p@ == candidate && check_fields(bind_transmitter_resp_layout(), candidate) is Ok,
                    Err(e) => check_fields(bind_transmitter_resp_layout(), candidate) == Err::<(), PduParseError>(e),
                }
            }),
    {
        let fields = vec![FieldValue::Octets(str_bytes(system_id))];
        let layout = body_fields(Operation::BindTransmitterResp, true);
        assert(fields_view(fields@) =~= seq![FieldView::Octets(system_id.spec_bytes())]);
        match validate_fields(&layout, &fields) {
            Ok(()) => Ok(BindTransmitterRespPdu { fields }),
            Err(e) => Err(e),
        }
    }

    /// The body of an error response: no fields.
    pub fn new_error() -> (r: Self)
        ensures
            r.wf(),
            r@ == Seq::<FieldView>::empty(),
    {
        let r = BindTransmitterRespPdu { fields: Vec::new() };
        assert(r@ =~= Seq::<FieldView>::empty());
        r
    }

    /// Appends the wire form of the body.
    pub fn write(&self, out: &mut Vec<u8>)
        ensures
            self.wf(),
            final(out)@ == old(out)@ + encode_fields(
                body_layout(Operation::BindTransmitterResp, self@.len() > 0),
                self@,
            ),
    {
        proof {
            use_type_invariant(self);
        }
        let layout = body_fields(Operation::BindTransmitterResp, self.fields.len() > 0);
        write_fields(&layout, &self.fields, out);
    }

    pub fn fields(&self) -> (r: &Vec<FieldValue>)
        ensures
            fields_view(r@) == self@,
    {
        &self.fields
    }

    /// Parses the body from the whole of `bytes`, which must hold nothing past the
    /// declared length: with a nonzero status any byte there is an error.
    pub fn parse(bytes: &[u8], command_status: u32) -> (r: Result<(BindTransmitterRespPdu, usize), PduParseError>)
        ensures
            match r {
                Ok((p, n)) => n <= bytes@.len() && p.wf() && parse_body_spec(
                    Operation::BindTransmitterResp,
                    command_status,
                    bytes@,
                ) == Ok::<(Seq<FieldView>, nat), PduParseError>((p@, n as nat)),
                Err(e) => parse_body_spec(Operation::BindTransmitterResp, command_status, bytes@)
                    == Err::<(Seq<FieldView>, nat), PduParseError>(e),
            },
    {
        match parse_op_fields(Operation::BindTransmitterResp, command_status, bytes) {
            Ok((fields, n)) => Ok((BindTransmitterRespPdu { fields }, n)),
            Err(e) => Err(e),
        }
    }
}

} // verus!
