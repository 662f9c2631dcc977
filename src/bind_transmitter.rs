use crate::error::{FieldName, PduParseError};
use crate::formats::{
    check_fields, encode_fields, fields_fit, fields_view, str_bytes, validate_fields,
    write_fields, FieldSpec, FieldValue, FieldView, Format,
};
use crate::pdu::{body_fields, body_layout, parse_body_spec, parse_op_fields, Operation};
use vstd::prelude::*;
use vstd::string::StringSliceAdditionalSpecFns;

verus! {

pub const BIND_TRANSMITTER: u32 = 0x00000002;

pub const MAX_LENGTH_SYSTEM_ID: usize = 16;

pub const MAX_LENGTH_PASSWORD: usize = 9;

pub const MAX_LENGTH_SYSTEM_TYPE: usize = 13;

pub const MAX_LENGTH_ADDRESS_RANGE: usize = 41;

/// The body of a bind_transmitter request: seven fields, always present.
pub open spec fn bind_transmitter_layout() -> Seq<FieldSpec> {
    seq![
        FieldSpec { name: FieldName::SystemId, format: Format::COctetString(MAX_LENGTH_SYSTEM_ID) },
        FieldSpec { name: FieldName::Password, format: Format::COctetString(MAX_LENGTH_PASSWORD) },
        FieldSpec {
            name: FieldName::SystemType,
            format: Format::COctetString(MAX_LENGTH_SYSTEM_TYPE),
        },
        FieldSpec { name: FieldName::InterfaceVersion, format: Format::Integer1 },
        FieldSpec { name: FieldName::AddrTon, format: Format::Integer1 },
        FieldSpec { name: FieldName::AddrNpi, format: Format::Integer1 },
        FieldSpec {
            name: FieldName::AddressRange,
            format: Format::COctetString(MAX_LENGTH_ADDRESS_RANGE),
        },
    ]
}

pub fn bind_transmitter_fields() -> (r: Vec<FieldSpec>)
    ensures
        r@ == bind_transmitter_layout(),
{
    let r = vec![
        FieldSpec { name: FieldName::SystemId, format: Format::COctetString(MAX_LENGTH_SYSTEM_ID) },
        FieldSpec { name: FieldName::Password, format: Format::COctetString(MAX_LENGTH_PASSWORD) },
        FieldSpec {
            name: FieldName::SystemType,
            format: Format::COctetString(MAX_LENGTH_SYSTEM_TYPE),
        },
        FieldSpec { name: FieldName::InterfaceVersion, format: Format::Integer1 },
        FieldSpec { name: FieldName::AddrTon, format: Format::Integer1 },
        FieldSpec { name: FieldName::AddrNpi, format: Format::Integer1 },
        FieldSpec {
            name: FieldName::AddressRange,
            format: Format::COctetString(MAX_LENGTH_ADDRESS_RANGE),
        },
    ];
    assert(r@ =~= bind_transmitter_layout());
    r
}

/// The values that `BindTransmitterPdu::new` is asked to hold, in wire order.
pub open spec fn bind_transmitter_candidate(
    system_id: &str,
    password: &str,
    system_type: &str,
    interface_version: u8,
    addr_ton: u8,
    addr_npi: u8,
    address_range: &str,
) -> Seq<FieldView> {
    seq![
        FieldView::Octets(system_id.spec_bytes()),
        FieldView::Octets(password.spec_bytes()),
        FieldView::Octets(system_type.spec_bytes()),
        FieldView::Integer1(interface_version),
        FieldView::Integer1(addr_ton),
        FieldView::Integer1(addr_npi),
        FieldView::Octets(address_range.spec_bytes()),
    ]
}

#[derive(Debug, PartialEq, Eq)]
pub struct BindTransmitterPdu {
    fields: Vec<FieldValue>,
}

impl View for BindTransmitterPdu {
    type V = Seq<FieldView>;

    closed spec fn view(&self) -> Seq<FieldView> {
        fields_view(self.fields@)
    }
}

impl BindTransmitterPdu {
    /// Every value holds fields that fit its layout, so it can always be written.
    #[verifier::type_invariant]
    spec fn fields_fit_layout(&self) -> bool {
        fields_fit(
            body_layout(Operation::BindTransmitter, fields_view(self.fields@).len() > 0),
            fields_view(self.fields@),
        )
    }

    pub open spec fn wf(&self) -> bool {
        fields_fit(body_layout(Operation::BindTransmitter, self@.len() > 0), self@)
    }

    pub fn new(
        system_id: &str,
        password: &str,
        system_type: &str,
        interface_version: u8,
        addr_ton: u8,
        addr_npi: u8,
        address_range: &str,
    ) -> (r: Result<Self, PduParseError>)
        ensures
            ({
                let candidate = bind_transmitter_candidate(
                    system_id,
                    password,
                    system_type,
                    interface_version,
                    addr_ton,
                    addr_npi,
                    address_range,
                );
                match r {
                    Ok(p) => p.wf() && p@ == candidate && check_fields(
                        bind_transmitter_layout(),
                        candidate,
                    ) is Ok,
                    Err(e) => check_fields(bind_transmitter_layout(), candidate) == Err::<
                        (),
                        PduParseError,
                    >(e),
                }
            }),
    {
        let fields = vec![
            FieldValue::Octets(str_bytes(system_id)),
            FieldValue::Octets(str_bytes(password)),
            FieldValue::Octets(str_bytes(system_type)),
            FieldValue::Integer1(interface_version),
            FieldValue::Integer1(addr_ton),
            FieldValue::Integer1(addr_npi),
            FieldValue::Octets(str_bytes(address_range)),
        ];
        let layout = body_fields(Operation::BindTransmitter, true);
        assert(fields_view(fields@) =~= bind_transmitter_candidate(
            system_id,
            password,
            system_type,
            interface_version,
            addr_ton,
            addr_npi,
            address_range,
        ));
        match validate_fields(&layout, &fields) {
            Ok(()) => Ok(BindTransmitterPdu { fields }),
            Err(e) => Err(e),
        }
    }

    /// Appends the wire form of the body.
    pub fn write(&self, out: &mut Vec<u8>)
        ensures
            self.wf(),
            final(out)@ == old(out)@ + encode_fields(
                body_layout(Operation::BindTransmitter, self@.len() > 0),
                self@,
            ),
    {
        proof {
            use_type_invariant(self);
        }
        let layout = body_fields(Operation::BindTransmitter, self.fields.len() > 0);
        write_fields(&layout, &self.fields, out);
    }

    pub fn fields(&self) -> (r: &Vec<FieldValue>)
        ensures
            fields_view(r@) == self@,
    {
        &self.fields
    }

    /// Parses the body from the front of `bytes`: the PDU and the bytes consumed.
    pub fn parse(bytes: &[u8], command_status: u32) -> (r: Result<
        (BindTransmitterPdu, usize),
        PduParseError,
    >)
        ensures
            match r {
                Ok((p, n)) => n <= bytes@.len() && p.wf() && parse_body_spec(
                    Operation::BindTransmitter,
                    command_status,
                    bytes@,
                ) == Ok::<(Seq<FieldView>, nat), PduParseError>((p@, n as nat)),
                Err(e) => parse_body_spec(Operation::BindTransmitter, command_status, bytes@)
                    == Err::<(Seq<FieldView>, nat), PduParseError>(e),
            },
    {
        match parse_op_fields(Operation::BindTransmitter, command_status, bytes) {
            Ok((fields, n)) => Ok((BindTransmitterPdu { fields }, n)),
            Err(e) => Err(e),
        }
    }
}

} // verus!
