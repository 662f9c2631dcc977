use crate::error::PduParseError;
use crate::formats::{encode_fields, fields_fit, fields_view, write_fields, FieldValue, FieldView};
use crate::pdu::{body_fields, body_layout, parse_body_spec, parse_op_fields, Operation};
use vstd::prelude::*;

verus! {

pub const GENERIC_NACK: u32 = 0x80000000;

/// A generic_nack has no body.
#[derive(Debug, PartialEq, Eq)]
pub struct GenericNackPdu {
    fields: Vec<FieldValue>,
}

impl View for GenericNackPdu {
    type V = Seq<FieldView>;

    closed spec fn view(&self) -> Seq<FieldView> {
        fields_view(self.fields@)
    }
}

impl GenericNackPdu {
    /// Every value holds fields that fit its layout, so it can always be written.
    #[verifier::type_invariant]
    spec fn fields_fit_layout(&self) -> bool {
        fields_fit(
            body_layout(Operation::GenericNack, fields_view(self.fields@).len() > 0),
            fields_view(self.fields@),
        )
    }

    pub open spec fn wf(&self) -> bool {
        fields_fit(body_layout(Operation::GenericNack, self@.len() > 0), self@)
    }

    pub fn new_error() -> (r: Self)
        ensures
            r.wf(),
            r@ == Seq::<FieldView>::empty(),
    {
        let r = GenericNackPdu { fields: Vec::new() };
        assert(r@ =~= Seq::<FieldView>::empty());
        r
    }

    /// Appends the wire form of the body.
    pub fn write(&self, out: &mut Vec<u8>)
        ensures
            self.wf(),
            final(out)@ == old(out)@ + encode_fields(
                body_layout(Operation::GenericNack, self@.len() > 0),
                self@,
            ),
    {
        proof {
            use_type_invariant(self);
        }
        let layout = body_fields(Operation::GenericNack, self.fields.len() > 0);
        write_fields(&layout, &self.fields, out);
    }

    pub fn fields(&self) -> (r: &Vec<FieldValue>)
        ensures
            fields_view(r@) == self@,
    {
        &self.fields
    }

    /// Parses the (empty) body: it reads nothing.
    pub fn parse(bytes: &[u8], command_status: u32) -> (r: Result<(GenericNackPdu, usize), PduParseError>)
        ensures
            match r {
                Ok((p, n)) => n <= bytes@.len() && p.wf() && parse_body_spec(
                    Operation::GenericNack,
                    command_status,
                    bytes@,
                ) == Ok::<(Seq<FieldView>, nat), PduParseError>((p@, n as nat)),
                Err(e) => parse_body_spec(Operation::GenericNack, command_status, bytes@)
                    == Err::<(Seq<FieldView>, nat), PduParseError>(e),
            },
    {
        match parse_op_fields(Operation::GenericNack, command_status, bytes) {
            Ok((fields, n)) => Ok((GenericNackPdu { fields }, n)),
            Err(e) => Err(e),
        }
    }
}

} // verus!
