use vstd::prelude::*;

verus! {

/// The PDU fields that a parse error can be reported against.
#[derive(Clone, Copy, Debug, PartialEq, Eq)]
pub enum FieldName {
    CommandId,
    CommandStatus,
    SequenceNumber,
    SystemId,
    Password,
    SystemType,
    InterfaceVersion,
    AddrTon,
    AddrNpi,
    AddressRange,
    MessageId,
    ServiceType,
    SourceAddrTon,
    SourceAddrNpi,
    SourceAddr,
    DestAddrTon,
    DestAddrNpi,
    DestinationAddr,
    EsmClass,
    ProtocolId,
    PriorityFlag,
    ScheduleDeliveryTime,
    ValidityPeriod,
    RegisteredDelivery,
    ReplaceIfPresentFlag,
    DataCoding,
    SmDefaultMsgId,
    SmLength,
    ShortMessage,
}

/// The wire name of a field, as shown in error messages.
pub open spec fn field_name_text(f: FieldName) -> Seq<char> {
    match f {
        FieldName::CommandId => "command_id"@,
        FieldName::CommandStatus => "command_status"@,
        FieldName::SequenceNumber => "sequence_number"@,
        FieldName::SystemId => "system_id"@,
        FieldName::Password => "password"@,
        FieldName::SystemType => "system_type"@,
        FieldName::InterfaceVersion => "interface_version"@,
        FieldName::AddrTon => "addr_ton"@,
        FieldName::AddrNpi => "addr_npi"@,
        FieldName::AddressRange => "address_range"@,
        FieldName::MessageId => "message_id"@,
        FieldName::ServiceType => "service_type"@,
        FieldName::SourceAddrTon => "source_addr_ton"@,
        FieldName::SourceAddrNpi => "source_addr_npi"@,
        FieldName::SourceAddr => "source_addr"@,
        FieldName::DestAddrTon => "dest_addr_ton"@,
        FieldName::DestAddrNpi => "dest_addr_npi"@,
        FieldName::DestinationAddr => "destination_addr"@,
        FieldName::EsmClass => "esm_class"@,
        FieldName::ProtocolId => "protocol_id"@,
        FieldName::PriorityFlag => "priority_flag"@,
        FieldName::ScheduleDeliveryTime => "schedule_delivery_time"@,
        FieldName::ValidityPeriod => "validity_period"@,
        FieldName::RegisteredDelivery => "registered_delivery"@,
        FieldName::ReplaceIfPresentFlag => "replace_if_present_flag"@,
        FieldName::DataCoding => "data_coding"@,
        FieldName::SmDefaultMsgId => "sm_default_msg_id"@,
        FieldName::SmLength => "sm_length"@,
        FieldName::ShortMessage => "short_message"@,
    }
}

impl FieldName {
    pub fn as_str(&self) -> (r: &'static str)
        ensures
            r@ == field_name_text(*self),
    {
        match self {
            FieldName::CommandId => "command_id",
            FieldName::CommandStatus => "command_status",
            FieldName::SequenceNumber => "sequence_number",
            FieldName::SystemId => "system_id",
            FieldName::Password => "password",
            FieldName::SystemType => "system_type",
            FieldName::InterfaceVersion => "interface_version",
            FieldName::AddrTon => "addr_ton",
            FieldName::AddrNpi => "addr_npi",
            FieldName::AddressRange => "address_range",
            FieldName::MessageId => "message_id",
            FieldName::ServiceType => "service_type",
            FieldName::SourceAddrTon => "source_addr_ton",
            FieldName::SourceAddrNpi => "source_addr_npi",
            FieldName::SourceAddr => "source_addr",
            FieldName::DestAddrTon => "dest_addr_ton",
            FieldName::DestAddrNpi => "dest_addr_npi",
            FieldName::DestinationAddr => "destination_addr",
            FieldName::EsmClass => "esm_class",
            FieldName::ProtocolId => "protocol_id",
            FieldName::PriorityFlag => "priority_flag",
            FieldName::ScheduleDeliveryTime => "schedule_delivery_time",
            FieldName::ValidityPeriod => "validity_period",
            FieldName::RegisteredDelivery => "registered_delivery",
            FieldName::ReplaceIfPresentFlag => "replace_if_present_flag",
            FieldName::DataCoding => "data_coding",
            FieldName::SmDefaultMsgId => "sm_default_msg_id",
            FieldName::SmLength => "sm_length",
            FieldName::ShortMessage => "short_message",
        }
    }
}

/// What went wrong while parsing (or building) a PDU.
#[derive(Clone, Copy, Debug, PartialEq, Eq)]
pub enum PduParseErrorBody {
    /// The declared command_length is below the protocol minimum.
    LengthTooShort(u32),
    /// The declared command_length is above the protocol maximum.
    LengthTooLong(u32),
    UnknownCommandId,
    /// Input (or the declared length) ended before a fixed-width field.
    NotEnoughBytes,
    /// No terminator within the maximum length (which is carried).
    StringTooLong(usize),
    /// Input (or the declared length) ended before the terminator.
    StringDoesNotEndWithZeroByte,
    /// A byte above 0x7F; carries the offset of the first such byte.
    StringIsNotAscii(usize),
    /// Input (or the declared length) ended inside a raw octet string.
    OctetStringEndedEarly,
    /// A raw octet string longer than its maximum (which is carried).
    OctetStringTooLong(usize),
    StatusIsNotZero,
    BodyNotAllowedWhenStatusIsNotZero,
    /// The body ended before the declared command_length (which is carried).
    LengthLongerThanPdu(u32),
}

/// A parse error with as much header context as was known when it happened.
#[derive(Clone, Copy, Debug, PartialEq, Eq)]
pub struct PduParseError {
    pub body: PduParseErrorBody,
    pub command_id: Option<u32>,
    pub command_status: Option<u32>,
    pub sequence_number: Option<u32>,
    pub field_name: Option<FieldName>,
}

/// An error with no context at all.
pub open spec fn error_of(body: PduParseErrorBody) -> PduParseError {
    PduParseError {
        body,
        command_id: None,
        command_status: None,
        sequence_number: None,
        field_name: None,
    }
}

pub open spec fn fill<T>(known: Option<T>, supplied: Option<T>) -> Option<T> {
    if known is Some {
        known
    } else {
        supplied
    }
}

/// Adds header context, keeping whatever the error already carries.
pub open spec fn with_header(
    e: PduParseError,
    command_id: Option<u32>,
    command_status: Option<u32>,
    sequence_number: Option<u32>,
) -> PduParseError {
    PduParseError {
        command_id: fill(e.command_id, command_id),
        command_status: fill(e.command_status, command_status),
        sequence_number: fill(e.sequence_number, sequence_number),
        ..e
    }
}

/// Adds a field name, keeping one that the error already carries.
pub open spec fn with_field_name(e: PduParseError, name: FieldName) -> PduParseError {
    PduParseError { field_name: fill(e.field_name, Some(name)), ..e }
}

fn fill_u32(known: Option<u32>, supplied: Option<u32>) -> (r: Option<u32>)
    ensures
        r == fill(known, supplied),
{
    match known {
        Some(v) => Some(v),
        None => supplied,
    }
}

impl PduParseError {
    pub fn new(body: PduParseErrorBody) -> (r: PduParseError)
        ensures
            r == error_of(body),
    {
        PduParseError {
            body,
            command_id: None,
            command_status: None,
            sequence_number: None,
            field_name: None,
        }
    }

    pub fn into_with_header(
        self,
        command_id: Option<u32>,
        command_status: Option<u32>,
        sequence_number: Option<u32>,
    ) -> (r: PduParseError)
        ensures
            r == with_header(self, command_id, command_status, sequence_number),
    {
        PduParseError {
            body: self.body,
            command_id: fill_u32(self.command_id, command_id),
            command_status: fill_u32(self.command_status, command_status),
            sequence_number: fill_u32(self.sequence_number, sequence_number),
            field_name: self.field_name,
        }
    }

    pub fn into_with_field_name(self, name: FieldName) -> (r: PduParseError)
        ensures
            r == with_field_name(self, name),
    {
        let field_name = match self.field_name {
            Some(f) => Some(f),
            None => Some(name),
        };
        PduParseError { field_name, ..self }
    }

    /// One line naming the error and every context field (`UNKNOWN` where absent).
    pub fn to_string(&self) -> (r: String)
        ensures
            r@ == render_error(*self),
    {
        let mut s = String::from_str("Error parsing PDU (command_id=");
        append_hex_or_unknown(&mut s, self.command_id);
        s.append(", command_status=");
        append_hex_or_unknown(&mut s, self.command_status);
        s.append(", sequence_number=");
        append_hex_or_unknown(&mut s, self.sequence_number);
        s.append(", field_name=");
        match self.field_name {
            Some(f) => s.append(f.as_str()),
            None => s.append("UNKNOWN"),
        }
        s.append("): ");
        append_message(&mut s, self.body, self.command_status);
        s
    }
}

pub open spec fn digit_text(d: nat) -> Seq<char> {
    if d == 0 {
        "0"@
    } else if d == 1 {
        "1"@
    } else if d == 2 {
        "2"@
    } else if d == 3 {
        "3"@
    } else if d == 4 {
        "4"@
    } else if d == 5 {
        "5"@
    } else if d == 6 {
        "6"@
    } else if d == 7 {
        "7"@
    } else if d == 8 {
        "8"@
    } else if d == 9 {
        "9"@
    } else if d == 10 {
        "a"@
    } else if d == 11 {
        "b"@
    } else if d == 12 {
        "c"@
    } else if d == 13 {
        "d"@
    } else if d == 14 {
        "e"@
    } else {
        "f"@
    }
}

/// The last `n` hexadecimal digits of `v`, most significant first.
pub open spec fn hex_digits(v: nat, n: nat) -> Seq<char>
    decreases n,
{
    if n == 0 {
        Seq::empty()
    } else {
        hex_digits(v / 16, (n - 1) as nat) + digit_text(v % 16)
    }
}

/// `v` in decimal, without leading zeros.
pub open spec fn decimal_text(v: nat) -> Seq<char>
    decreases v,
{
    if v < 10 {
        digit_text(v)
    } else {
        decimal_text(v / 10) + digit_text(v % 10)
    }
}

pub open spec fn hex_or_unknown(v: Option<u32>) -> Seq<char> {
    match v {
        Some(x) => "0x"@ + hex_digits(x as nat, 8),
        None => "UNKNOWN"@,
    }
}

/// The human message for each kind of error; a status is read from the context.
pub open spec fn message_text(body: PduParseErrorBody, status: Option<u32>) -> Seq<char> {
    match body {
        PduParseErrorBody::LengthTooShort(n) => "Length ("@ + decimal_text(n as nat)
            + ") too short.  Min allowed is 8 octets."@,
        PduParseErrorBody::LengthTooLong(n) => "Length ("@ + decimal_text(n as nat)
            + ") too long.  Max allowed is 70000 octets."@,
        PduParseErrorBody::UnknownCommandId => "Supplied command_id is unknown."@,
        PduParseErrorBody::NotEnoughBytes =>
            "Reached end of PDU length (or end of input) before finding all fields of the PDU."@,
        PduParseErrorBody::StringTooLong(m) => "Octet String is too long.  Max length is "@
            + decimal_text(m as nat) + ", including final zero byte."@,
        PduParseErrorBody::StringDoesNotEndWithZeroByte =>
            "C-Octet String does not end with the NULL character."@,
        PduParseErrorBody::StringIsNotAscii(i) => "Octet String is not ASCII (valid up to byte "@
            + decimal_text(i as nat) + ")."@,
        PduParseErrorBody::OctetStringEndedEarly =>
            "IO error creating Octet String: failed to fill whole buffer"@,
        PduParseErrorBody::OctetStringTooLong(m) => "Octet String is too long.  Max length is "@
            + decimal_text(m as nat) + "."@,
        PduParseErrorBody::StatusIsNotZero => "command_status must be 0, but was "@
            + hex_or_unknown(status) + "."@,
        PduParseErrorBody::BodyNotAllowedWhenStatusIsNotZero =>
            "PDU body must not be supplied when status is not zero, but command_status is "@
            + hex_or_unknown(status) + "."@,
        PduParseErrorBody::LengthLongerThanPdu(n) => "Finished parsing PDU but its length ("@
            + decimal_text(n as nat) + ") suggested it was longer."@,
    }
}

pub open spec fn field_name_or_unknown(f: Option<FieldName>) -> Seq<char> {
    match f {
        Some(name) => field_name_text(name),
        None => "UNKNOWN"@,
    }
}

pub open spec fn render_error(e: PduParseError) -> Seq<char> {
    "Error parsing PDU (command_id="@ + hex_or_unknown(e.command_id) + ", command_status="@
        + hex_or_unknown(e.command_status) + ", sequence_number="@ + hex_or_unknown(
        e.sequence_number,
    ) + ", field_name="@ + field_name_or_unknown(e.field_name) + "): "@ + message_text(
        e.body,
        e.command_status,
    )
}

fn digit_str(d: u64) -> (r: &'static str)
    requires
        d < 16,
    ensures
        r@ == digit_text(d as nat),
{
    if d == 0 {
        "0"
    } else if d == 1 {
        "1"
    } else if d == 2 {
        "2"
    } else if d == 3 {
        "3"
    } else if d == 4 {
        "4"
    } else if d == 5 {
        "5"
    } else if d == 6 {
        "6"
    } else if d == 7 {
        "7"
    } else if d == 8 {
        "8"
    } else if d == 9 {
        "9"
    } else if d == 10 {
        "a"
    } else if d == 11 {
        "b"
    } else if d == 12 {
        "c"
    } else if d == 13 {
        "d"
    } else if d == 14 {
        "e"
    } else {
        "f"
    }
}

fn append_hex_digits(s: &mut String, v: u64, n: u64)
    ensures
        final(s)@ == old(s)@ + hex_digits(v as nat, n as nat),
    decreases n,
{
    if n == 0 {
        assert(hex_digits(v as nat, 0) =~= Seq::empty());
        assert(final(s)@ =~= old(s)@ + hex_digits(v as nat, n as nat));
    } else {
        append_hex_digits(s, v / 16, n - 1);
        s.append(digit_str(v % 16));
        assert(final(s)@ =~= old(s)@ + hex_digits(v as nat, n as nat));
    }
}

fn append_decimal(s: &mut String, v: u64)
    ensures
        final(s)@ == old(s)@ + decimal_text(v as nat),
    decreases v,
{
    if v < 10 {
        s.append(digit_str(v));
    } else {
        append_decimal(s, v / 10);
        s.append(digit_str(v % 10));
        assert(final(s)@ =~= old(s)@ + decimal_text(v as nat));
    }
}

fn append_hex_or_unknown(s: &mut String, v: Option<u32>)
    ensures
        final(s)@ == old(s)@ + hex_or_unknown(v),
{
    match v {
        Some(x) => {
            s.append("0x");
            append_hex_digits(s, x as u64, 8);
            assert(final(s)@ =~= old(s)@ + hex_or_unknown(v));
        },
        None => s.append("UNKNOWN"),
    }
}

fn append_message(s: &mut String, body: PduParseErrorBody, status: Option<u32>)
    ensures
        final(s)@ == old(s)@ + message_text(body, status),
{
    let ghost s0 = s@;
    match body {
        PduParseErrorBody::LengthTooShort(n) => {
            s.append("Length (");
            append_decimal(s, n as u64);
            s.append(") too short.  Min allowed is 8 octets.");
        },
        PduParseErrorBody::LengthTooLong(n) => {
            s.append("Length (");
            append_decimal(s, n as u64);
            s.append(") too long.  Max allowed is 70000 octets.");
        },
        PduParseErrorBody::UnknownCommandId => s.append("Supplied command_id is unknown."),
        PduParseErrorBody::NotEnoughBytes => s.append(
            "Reached end of PDU length (or end of input) before finding all fields of the PDU.",
        ),
        PduParseErrorBody::StringTooLong(m) => {
            s.append("Octet String is too long.  Max length is ");
            append_decimal(s, m as u64);
            s.append(", including final zero byte.");
        },
        PduParseErrorBody::StringDoesNotEndWithZeroByte => s.append(
            "C-Octet String does not end with the NULL character.",
        ),
        PduParseErrorBody::StringIsNotAscii(i) => {
            s.append("Octet String is not ASCII (valid up to byte ");
            append_decimal(s, i as u64);
            s.append(").");
        },
        PduParseErrorBody::OctetStringEndedEarly => s.append(
            "IO error creating Octet String: failed to fill whole buffer",
        ),
        PduParseErrorBody::OctetStringTooLong(m) => {
            s.append("Octet String is too long.  Max length is ");
            append_decimal(s, m as u64);
            s.append(".");
        },
        PduParseErrorBody::StatusIsNotZero => {
            s.append("command_status must be 0, but was ");
            append_hex_or_unknown(s, status);
            s.append(".");
        },
        PduParseErrorBody::BodyNotAllowedWhenStatusIsNotZero => {
            s.append(
                "PDU body must not be supplied when status is not zero, but command_status is ",
            );
            append_hex_or_unknown(s, status);
            s.append(".");
        },
        PduParseErrorBody::LengthLongerThanPdu(n) => {
            s.append("Finished parsing PDU but its length (");
            append_decimal(s, n as u64);
            s.append(") suggested it was longer.");
        },
    }
    assert(s@ =~= s0 + message_text(body, status));
}

} // verus!
