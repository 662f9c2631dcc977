use crate::error::{FieldName, PduParseError};
use crate::formats::{
    check_fields, encode_fields, fields_fit, fields_view, str_bytes, validate_fields,
    write_fields, FieldSpec, FieldValue, FieldView, Format,
};
use crate::pdu::{body_fields, body_layout, parse_body_spec, parse_op_fields, Operation};
use vstd::prelude::*;
use vstd::slice::slice_to_vec;
use vstd::string::StringSliceAdditionalSpecFns;

verus! {

pub const SUBMIT_SM: u32 = 0x00000004;

pub const MAX_LENGTH_SERVICE_TYPE: usize = 6;

pub const MAX_LENGTH_SOURCE_ADDR: usize = 21;

pub const MAX_LENGTH_DESTINATION_ADDR: usize = 21;

pub const MAX_LENGTH_SCHEDULE_DELIVERY_TIME: usize = 17;

pub const MAX_LENGTH_VALIDITY_PERIOD: usize = 17;

/// The body of a submit_sm request without optional parameters: the short message
/// is raw bytes whose count is given by sm_length, the field before it.
pub open spec fn submit_sm_layout() -> Seq<FieldSpec> {
    seq![
        FieldSpec { name: FieldName::ServiceType, format: Format::COctetString(MAX_LENGTH_SERVICE_TYPE) },
        FieldSpec { name: FieldName::SourceAddrTon, format: Format::Integer1 },
        FieldSpec { name: FieldName::SourceAddrNpi, format: Format::Integer1 },
        FieldSpec { name: FieldName::SourceAddr, format: Format::COctetString(MAX_LENGTH_SOURCE_ADDR) },
        FieldSpec { name: FieldName::DestAddrTon, format: Format::Integer1 },
        FieldSpec { name: FieldName::DestAddrNpi, format: Format::Integer1 },
        FieldSpec { name: FieldName::DestinationAddr, format: Format::COctetString(MAX_LENGTH_DESTINATION_ADDR) },
        FieldSpec { name: FieldName::EsmClass, format: Format::Integer1 },
        FieldSpec { name: FieldName::ProtocolId, format: Format::Integer1 },
        FieldSpec { name: FieldName::PriorityFlag, format: Format::Integer1 },
        FieldSpec { name: FieldName::ScheduleDeliveryTime, format: Format::COctetString(MAX_LENGTH_SCHEDULE_DELIVERY_TIME) },
        FieldSpec { name: FieldName::ValidityPeriod, format: Format::COctetString(MAX_LENGTH_VALIDITY_PERIOD) },
        FieldSpec { name: FieldName::RegisteredDelivery, format: Format::Integer1 },
        FieldSpec { name: FieldName::ReplaceIfPresentFlag, format: Format::Integer1 },
        FieldSpec { name: FieldName::DataCoding, format: Format::Integer1 },
        FieldSpec { name: FieldName::SmDefaultMsgId, format: Format::Integer1 },
        FieldSpec { name: FieldName::SmLength, format: Format::Integer1 },
        FieldSpec { name: FieldName::ShortMessage, format: Format::OctetString },
    ]
}

pub fn submit_sm_fields() -> (r: Vec<FieldSpec>)
    ensures
        r@ == submit_sm_layout(),
{
    let r = vec![
        FieldSpec { name: FieldName::ServiceType, format: Format::COctetString(MAX_LENGTH_SERVICE_TYPE) },
        FieldSpec { name: FieldName::SourceAddrTon, format: Format::Integer1 },
        FieldSpec { name: FieldName::SourceAddrNpi, format: Format::Integer1 },
        FieldSpec { name: FieldName::SourceAddr, format: Format::COctetString(MAX_LENGTH_SOURCE_ADDR) },
        FieldSpec { name: FieldName::DestAddrTon, format: Format::Integer1 },
        FieldSpec { name: FieldName::DestAddrNpi, format: Format::Integer1 },
        FieldSpec { name: FieldName::DestinationAddr, format: Format::COctetString(MAX_LENGTH_DESTINATION_ADDR) },
        FieldSpec { name: FieldName::EsmClass, format: Format::Integer1 },
        FieldSpec { name: FieldName::ProtocolId, format: Format::Integer1 },
        FieldSpec { name: FieldName::PriorityFlag, format: Format::Integer1 },
        FieldSpec { name: FieldName::ScheduleDeliveryTime, format: Format::COctetString(MAX_LENGTH_SCHEDULE_DELIVERY_TIME) },
        FieldSpec { name: FieldName::ValidityPeriod, format: Format::COctetString(MAX_LENGTH_VALIDITY_PERIOD) },
        FieldSpec { name: FieldName::RegisteredDelivery, format: Format::Integer1 },
        FieldSpec { name: FieldName::ReplaceIfPresentFlag, format: Format::Integer1 },
        FieldSpec { name: FieldName::DataCoding, format: Format::Integer1 },
        FieldSpec { name: FieldName::SmDefaultMsgId, format: Format::Integer1 },
        FieldSpec { name: FieldName::SmLength, format: Format::Integer1 },
        FieldSpec { name: FieldName::ShortMessage, format: Format::OctetString },
    ];
    assert(r@ =~= submit_sm_layout());
    r
}

/// The values that `SubmitSmPdu::new` is asked to hold, in wire order; sm_length is
/// the short message's length as one byte.
pub open spec fn submit_sm_candidate(
    service_type: &str,
    source_addr_ton: u8,
    source_addr_npi: u8,
    source_addr: &str,
    dest_addr_ton: u8,
    dest_addr_npi: u8,
    destination_addr: &str,
    esm_class: u8,
    protocol_id: u8,
    priority_flag: u8,
    schedule_delivery_time: &str,
    validity_period: &str,
    registered_delivery: u8,
    replace_if_present_flag: u8,
    data_coding: u8,
    sm_default_msg_id: u8,
    short_message: &[u8],
) -> Seq<FieldView> {
    seq![
        FieldView::Octets(service_type.spec_bytes()),
        FieldView::Integer1(source_addr_ton),
        FieldView::Integer1(source_addr_npi),
        FieldView::Octets(source_addr.spec_bytes()),
        FieldView::Integer1(dest_addr_ton),
        FieldView::Integer1(dest_addr_npi),
        FieldView::Octets(destination_addr.spec_bytes()),
        FieldView::Integer1(esm_class),
        FieldView::Integer1(protocol_id),
        FieldView::Integer1(priority_flag),
        FieldView::Octets(schedule_delivery_time.spec_bytes()),
        FieldView::Octets(validity_period.spec_bytes()),
        FieldView::Integer1(registered_delivery),
        FieldView::Integer1(replace_if_present_flag),
        FieldView::Integer1(data_coding),
        FieldView::Integer1(sm_default_msg_id),
        FieldView::Integer1(short_message@.len() as u8),
        FieldView::Octets(short_message@),
    ]
}

#[derive(Debug, PartialEq, Eq)]
pub struct SubmitSmPdu {
    fields: Vec<FieldValue>,
}

impl View for SubmitSmPdu {
    type V = Seq<FieldView>;

    closed spec fn view(&self) -> Seq<FieldView> {
        fields_view(self.fields@)
    }
}

impl SubmitSmPdu {
    /// Every value holds fields that fit its layout, so it can always be written.
    #[verifier::type_invariant]
    spec fn fields_fit_layout(&self) -> bool {
        fields_fit(
            body_layout(Operation::SubmitSm, fields_view(self.fields@).len() > 0),
            fields_view(self.fields@),
        )
    }

    pub open spec fn wf(&self) -> bool {
        fields_fit(body_layout(Operation::SubmitSm, self@.len() > 0), self@)
    }

    pub fn new(
    service_type: &str,
    source_addr_ton: u8,
    source_addr_npi: u8,
    source_addr: &str,
    dest_addr_ton: u8,
    dest_addr_npi: u8,
    destination_addr: &str,
    esm_class: u8,
    protocol_id: u8,
    priority_flag: u8,
    schedule_delivery_time: &str,
    validity_period: &str,
    registered_delivery: u8,
    replace_if_present_flag: u8,
    data_coding: u8,
    sm_default_msg_id: u8,
    short_message: &[u8],
    ) -> (r: Result<Self, PduParseError>)
        ensures
            ({
                let candidate = submit_sm_candidate(service_type, source_addr_ton, source_addr_npi, source_addr, dest_addr_ton, dest_addr_npi, destination_addr, esm_class, protocol_id, priority_flag, schedule_delivery_time, validity_period, registered_delivery, replace_if_present_flag, data_coding, sm_default_msg_id, short_message);
                match r {
                    Ok(p) => p.wf() && p@ == candidate && check_fields(submit_sm_layout(), candidate) is Ok,
                    Err(e) => check_fields(submit_sm_layout(), candidate) == Err::<(), PduParseError>(e),
                }
            }),
    {
        let fields = vec![
            FieldValue::Octets(str_bytes(service_type)),
            FieldValue::Integer1(source_addr_ton),
            FieldValue::Integer1(source_addr_npi),
            FieldValue::Octets(str_bytes(source_addr)),
            FieldValue::Integer1(dest_addr_ton),
            FieldValue::Integer1(dest_addr_npi),
            FieldValue::Octets(str_bytes(destination_addr)),
            FieldValue::Integer1(esm_class),
            FieldValue::Integer1(protocol_id),
            FieldValue::Integer1(priority_flag),
            FieldValue::Octets(str_bytes(schedule_delivery_time)),
            FieldValue::Octets(str_bytes(validity_period)),
            FieldValue::Integer1(registered_delivery),
            FieldValue::Integer1(replace_if_present_flag),
            FieldValue::Integer1(data_coding),
            FieldValue::Integer1(sm_default_msg_id),
            FieldValue::Integer1(short_message.len() as u8),
            FieldValue::Octets(slice_to_vec(short_message)),
        ];
        let layout = body_fields(Operation::SubmitSm, true);
        assert(fields_view(fields@) =~= submit_sm_candidate(service_type, source_addr_ton, source_addr_npi, source_addr, dest_addr_ton, dest_addr_npi, destination_addr, esm_class, protocol_id, priority_flag, schedule_delivery_time, validity_period, registered_delivery, replace_if_present_flag, data_coding, sm_default_msg_id, short_message));
        match validate_fields(&layout, &fields) {
            Ok(()) => Ok(SubmitSmPdu { fields }),
            Err(e) => Err(e),
        }
    }

    /// Appends the wire form of the body.
    pub fn write(&self, out: &mut Vec<u8>)
        ensures
            self.wf(),
            final(out)@ == old(out)@ + encode_fields(
                body_layout(Operation::SubmitSm, self@.len() > 0),
                self@,
            ),
    {
        proof {
            use_type_invariant(self);
        }
        let layout = body_fields(Operation::SubmitSm, self.fields.len() > 0);
        write_fields(&layout, &self.fields, out);
    }

    pub fn fields(&self) -> (r: &Vec<FieldValue>)
        ensures
            fields_view(r@) == self@,
    {
        &self.fields
    }

    /// Parses the body from the front of `bytes`: the PDU and the bytes consumed.
    pub fn parse(bytes: &[u8], command_status: u32) -> (r: Result<(SubmitSmPdu, usize), PduParseError>)
        ensures
            match r {
                Ok((p, n)) => n <= bytes@.len() && p.wf() && parse_body_spec(
                    Operation::SubmitSm,
                    command_status,
                    bytes@,
                ) == Ok::<(Seq<FieldView>, nat), PduParseError>((p@, n as nat)),
                Err(e) => parse_body_spec(Operation::SubmitSm, command_status, bytes@)
                    == Err::<(Seq<FieldView>, nat), PduParseError>(e),
            },
    {
        match parse_op_fields(Operation::SubmitSm, command_status, bytes) {
            Ok((fields, n)) => Ok((SubmitSmPdu { fields }, n)),
            Err(e) => Err(e),
        }
    }
}

} // verus!
