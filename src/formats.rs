use crate::error::{error_of, with_field_name, FieldName, PduParseError, PduParseErrorBody};
use vstd::prelude::*;
use vstd::slice::{slice_subrange, slice_to_vec};
use vstd::string::StringSliceAdditionalSpecFns;

verus! {

/// Largest raw octet string: its length must fit the one-byte length field before it.
pub const MAX_OCTET_STRING_LENGTH: usize = 255;

/// A four-byte unsigned header value, big-endian on the wire.
#[derive(Clone, Copy, Debug, PartialEq, Eq)]
pub struct Integer4 {
    pub value: u32,
}

impl Integer4 {
    pub fn new(value: u32) -> (r: Integer4)
        ensures
            r.value == value,
    {
        Integer4 { value }
    }
}

/// How one body field is laid out on the wire.
#[derive(Clone, Copy, Debug, PartialEq, Eq)]
pub enum Format {
    /// One unsigned byte.
    Integer1,
    /// ASCII bytes and a zero terminator; the bound counts the terminator.
    COctetString(usize),
    /// Raw bytes whose count is the value of the `Integer1` field just before.
    OctetString,
}

#[derive(Clone, Copy, Debug, PartialEq, Eq)]
pub struct FieldSpec {
    pub name: FieldName,
    pub format: Format,
}

/// A decoded body field.
#[derive(Clone, Debug, PartialEq, Eq)]
pub enum FieldValue {
    Integer1(u8),
    Octets(Vec<u8>),
}

/// The mathematical value of a body field.
pub enum FieldView {
    Integer1(u8),
    Octets(Seq<u8>),
}

impl View for FieldValue {
    type V = FieldView;

    open spec fn view(&self) -> FieldView {
        match self {
            FieldValue::Integer1(b) => FieldView::Integer1(*b),
            FieldValue::Octets(v) => FieldView::Octets(v@),
        }
    }
}

pub open spec fn fields_view(v: Seq<FieldValue>) -> Seq<FieldView> {
    v.map_values(|f: FieldValue| f@)
}

/// Big-endian value of the first four bytes.
pub open spec fn be_u32(s: Seq<u8>) -> u32 {
    (s[0] as int * 0x1000000 + s[1] as int * 0x10000 + s[2] as int * 0x100 + s[3] as int) as u32
}

/// The four big-endian bytes of `v`.
pub open spec fn u32_bytes(v: u32) -> Seq<u8> {
    seq![
        (v / 0x1000000) as u8,
        (v / 0x10000 % 0x100) as u8,
        (v / 0x100 % 0x100) as u8,
        (v % 0x100) as u8,
    ]
}

pub open spec fn is_ascii_byte(b: u8) -> bool {
    b < 0x80
}

/// `k` is the index of the first zero byte of `s`.
pub open spec fn is_first_zero(s: Seq<u8>, k: int) -> bool {
    0 <= k < s.len() && s[k] == 0 && forall|j: int| 0 <= j < k ==> s[j] != 0
}

/// `k` is the index of the first non-ASCII byte of `s`.
pub open spec fn is_first_non_ascii(s: Seq<u8>, k: int) -> bool {
    0 <= k < s.len() && !is_ascii_byte(s[k]) && forall|j: int|
        0 <= j < k ==> is_ascii_byte(#[trigger] s[j])
}

pub open spec fn min(a: int, b: int) -> int {
    if a < b {
        a
    } else {
        b
    }
}

/// Reading a C-octet string of at most `max_len` bytes (terminator included) from
/// the front of `input`: the string and the number of bytes consumed.
pub open spec fn read_c_octet_string(input: Seq<u8>, max_len: usize) -> Result<
    (Seq<u8>, nat),
    PduParseErrorBody,
> {
    let window = input.take(min(max_len as int, input.len() as int));
    if exists|k: int| is_first_zero(window, k) {
        let k = choose|k: int| is_first_zero(window, k);
        let value = window.take(k);
        if exists|j: int| is_first_non_ascii(value, j) {
            let j = choose|j: int| is_first_non_ascii(value, j);
            Err(PduParseErrorBody::StringIsNotAscii(j as usize))
        } else {
            Ok((value, (k + 1) as nat))
        }
    } else if input.len() >= max_len {
        Err(PduParseErrorBody::StringTooLong(max_len))
    } else {
        Err(PduParseErrorBody::StringDoesNotEndWithZeroByte)
    }
}

/// Reading one field from the front of `input`; `declared` is the length that an
/// octet string takes from the field before it.
pub open spec fn read_field(format: Format, declared: nat, input: Seq<u8>) -> Result<
    (FieldView, nat),
    PduParseErrorBody,
> {
    match format {
        Format::Integer1 => if input.len() >= 1 {
            Ok((FieldView::Integer1(input[0]), 1))
        } else {
            Err(PduParseErrorBody::NotEnoughBytes)
        },
        Format::COctetString(max_len) => match read_c_octet_string(input, max_len) {
            Ok((v, n)) => Ok((FieldView::Octets(v), n)),
            Err(e) => Err(e),
        },
        Format::OctetString => if input.len() >= declared {
            Ok((FieldView::Octets(input.take(declared as int)), declared))
        } else {
            Err(PduParseErrorBody::OctetStringEndedEarly)
        },
    }
}

/// The length that an octet string following `prior` takes: the last field's value.
pub open spec fn declared_length(prior: Seq<FieldView>) -> nat {
    if prior.len() > 0 && prior.last() is Integer1 {
        prior.last()->Integer1_0 as nat
    } else {
        0
    }
}

/// Reading the fields `layout[i..]` from `input` at `pos`, after `acc` was read.
pub open spec fn parse_fields_from(
    layout: Seq<FieldSpec>,
    input: Seq<u8>,
    i: nat,
    pos: nat,
    acc: Seq<FieldView>,
) -> Result<(Seq<FieldView>, nat), PduParseError>
    decreases layout.len() - i,
{
    if i >= layout.len() {
        Ok((acc, pos))
    } else {
        match read_field(layout[i as int].format, declared_length(acc), input.skip(pos as int)) {
            Err(e) => Err(with_field_name(error_of(e), layout[i as int].name)),
            Ok((v, n)) => parse_fields_from(layout, input, i + 1, pos + n, acc.push(v)),
        }
    }
}

/// Reading every field of `layout` in order from the front of `input`: the values
/// and the number of bytes consumed, or the first field's error, named after it.
pub open spec fn parse_fields(layout: Seq<FieldSpec>, input: Seq<u8>) -> Result<
    (Seq<FieldView>, nat),
    PduParseError,
> {
    parse_fields_from(layout, input, 0, 0, Seq::empty())
}

pub open spec fn encode_field(format: Format, v: FieldView) -> Seq<u8> {
    match v {
        FieldView::Integer1(b) => seq![b],
        FieldView::Octets(s) => if format is COctetString {
            s.push(0)
        } else {
            s
        },
    }
}

/// The wire form of the fields `vals[i..]` laid out by `layout`.
pub open spec fn encode_fields_from(layout: Seq<FieldSpec>, vals: Seq<FieldView>, i: nat) -> Seq<
    u8,
>
    decreases layout.len() - i,
{
    if i >= layout.len() {
        Seq::empty()
    } else {
        encode_field(layout[i as int].format, vals[i as int]) + encode_fields_from(
            layout,
            vals,
            i + 1,
        )
    }
}

pub open spec fn encode_fields(layout: Seq<FieldSpec>, vals: Seq<FieldView>) -> Seq<u8> {
    encode_fields_from(layout, vals, 0)
}

/// What a field must hold to be written: the right kind, a C-octet string of ASCII
/// within its bound, an octet string whose length the field before it states.
pub open spec fn field_fits(layout: Seq<FieldSpec>, vals: Seq<FieldView>, i: int) -> bool {
    match layout[i].format {
        Format::Integer1 => vals[i] is Integer1,
        Format::COctetString(max_len) => vals[i] is Octets && vals[i]->Octets_0.len() + 1
            <= max_len && vals[i]->Octets_0.len() <= MAX_OCTET_STRING_LENGTH && forall|j: int|
            0 <= j < vals[i]->Octets_0.len() ==> is_ascii_byte(#[trigger] vals[i]->Octets_0[j]),
        Format::OctetString => vals[i] is Octets && vals[i]->Octets_0.len()
            <= MAX_OCTET_STRING_LENGTH && 0 < i && vals[i - 1] is Integer1 && vals[i
            - 1]->Integer1_0 as nat == vals[i]->Octets_0.len(),
    }
}

pub open spec fn fields_fit(layout: Seq<FieldSpec>, vals: Seq<FieldView>) -> bool {
    &&& vals.len() == layout.len()
    &&& forall|i: int| 0 <= i < layout.len() ==> #[trigger] field_fits(layout, vals, i)
}

/// A C-octet string that holds no zero byte, so that its terminator is its end.
pub open spec fn field_unambiguous(layout: Seq<FieldSpec>, vals: Seq<FieldView>, i: int) -> bool {
    layout[i].format is COctetString ==> forall|j: int|
        0 <= j < vals[i]->Octets_0.len() ==> #[trigger] vals[i]->Octets_0[j] != 0
}

/// Fields that read back as themselves once written.
pub open spec fn fields_valid(layout: Seq<FieldSpec>, vals: Seq<FieldView>) -> bool {
    &&& fields_fit(layout, vals)
    &&& forall|i: int| 0 <= i < layout.len() ==> #[trigger] field_unambiguous(layout, vals, i)
}

/// Reads a big-endian u32 at `pos`, if four bytes are there.
pub fn read_u32(input: &[u8], pos: usize) -> (r: Option<u32>)
    requires
        pos <= input@.len(),
    ensures
        match r {
            Some(v) => pos + 4 <= input@.len() && v == be_u32(input@.skip(pos as int)),
            None => pos + 4 > input@.len(),
        },
{
    if input.len() - pos < 4 {
        None
    } else {
        let v = (input[pos] as u32) * 0x1000000 + (input[pos + 1] as u32) * 0x10000 + (input[pos
            + 2] as u32) * 0x100 + input[pos + 3] as u32;
        Some(v)
    }
}

/// Appends the four big-endian bytes of `v`.
pub fn write_u32(out: &mut Vec<u8>, v: u32)
    ensures
        final(out)@ == old(out)@ + u32_bytes(v),
{
    out.push((v / 0x1000000) as u8);
    out.push((v / 0x10000 % 0x100) as u8);
    out.push((v / 0x100 % 0x100) as u8);
    out.push((v % 0x100) as u8);
    assert(final(out)@ =~= old(out)@ + u32_bytes(v));
}

pub proof fn lemma_be_u32_of_bytes(v: u32, rest: Seq<u8>)
    ensures
        be_u32(u32_bytes(v) + rest) == v,
{
    let s = u32_bytes(v) + rest;
    assert(s[0] == (v / 0x1000000) as u8);
    assert(s[1] == (v / 0x10000 % 0x100) as u8);
    assert(s[2] == (v / 0x100 % 0x100) as u8);
    assert(s[3] == (v % 0x100) as u8);
}

/// Reads a C-octet string of at most `max_len` bytes, terminator included.
pub fn read_c_octet(input: &[u8], pos: usize, max_len: usize) -> (r: Result<
    (Vec<u8>, usize),
    PduParseErrorBody,
>)
    requires
        pos <= input@.len(),
    ensures
        match r {
            Ok((v, n)) => pos + n <= input@.len() && read_c_octet_string(
                input@.skip(pos as int),
                max_len,
            ) == Ok::<(Seq<u8>, nat), PduParseErrorBody>((v@, n as nat)),
            Err(e) => read_c_octet_string(input@.skip(pos as int), max_len) == Err::<
                (Seq<u8>, nat),
                PduParseErrorBody,
            >(e),
        },
{
    let ghost rest = input@.skip(pos as int);
    let avail = input.len() - pos;
    let limit = if max_len < avail {
        max_len
    } else {
        avail
    };
    let ghost window = rest.take(min(max_len as int, rest.len() as int));
    assert(window.len() == limit);
    let mut k: usize = 0;
    while k < limit && input[pos + k] != 0
        invariant
            k <= limit,
            limit <= avail,
            pos + limit <= input.len(),
            avail == input@.len() - pos,
            window == rest.take(limit as int),
            rest == input@.skip(pos as int),
            forall|j: int| 0 <= j < k ==> window[j] != 0,
        decreases limit - k,
    {
        k = k + 1;
    }
    if k == limit {
        assert(!exists|z: int| is_first_zero(window, z));
        if avail >= max_len {
            return Err(PduParseErrorBody::StringTooLong(max_len));
        } else {
            return Err(PduParseErrorBody::StringDoesNotEndWithZeroByte);
        }
    }
    assert(is_first_zero(window, k as int));
    assert(forall|z: int| is_first_zero(window, z) ==> z == k);
    let ghost value = window.take(k as int);
    let mut j: usize = 0;
    while j < k && input[pos + j] < 0x80
        invariant
            j <= k,
            k < limit,
            pos + limit <= input.len(),
            limit <= avail,
            avail == input@.len() - pos,
            value == rest.take(k as int),
            rest == input@.skip(pos as int),
            forall|i: int| 0 <= i < j ==> is_ascii_byte(#[trigger] value[i]),
        decreases k - j,
    {
        j = j + 1;
    }
    if j < k {
        assert(is_first_non_ascii(value, j as int));
        assert(forall|z: int| is_first_non_ascii(value, z) ==> z == j);
        return Err(PduParseErrorBody::StringIsNotAscii(j));
    }
    assert(!exists|z: int| is_first_non_ascii(value, z));
    let v = slice_to_vec(slice_subrange(input, pos, pos + k));
    assert(v@ =~= value);
    Ok((v, k + 1))
}

/// Reads one field laid out as `format` at `pos`.
pub fn read_one_field(input: &[u8], pos: usize, format: Format, declared: u8) -> (r: Result<
    (FieldValue, usize),
    PduParseErrorBody,
>)
    requires
        pos <= input@.len(),
    ensures
        match r {
            Ok((v, n)) => pos + n <= input@.len() && read_field(
                format,
                declared as nat,
                input@.skip(pos as int),
            ) == Ok::<(FieldView, nat), PduParseErrorBody>((v@, n as nat)),
            Err(e) => read_field(format, declared as nat, input@.skip(pos as int)) == Err::<
                (FieldView, nat),
                PduParseErrorBody,
            >(e),
        },
{
    match format {
        Format::Integer1 => {
            if pos < input.len() {
                Ok((FieldValue::Integer1(input[pos]), 1))
            } else {
                Err(PduParseErrorBody::NotEnoughBytes)
            }
        },
        Format::COctetString(max_len) => {
            match read_c_octet(input, pos, max_len) {
                Ok((v, n)) => Ok((FieldValue::Octets(v), n)),
                Err(e) => Err(e),
            }
        },
        Format::OctetString => {
            let n = declared as usize;
            if input.len() - pos >= n {
                let v = slice_to_vec(slice_subrange(input, pos, pos + n));
                assert(v@ =~= input@.skip(pos as int).take(n as int));
                Ok((FieldValue::Octets(v), n))
            } else {
                Err(PduParseErrorBody::OctetStringEndedEarly)
            }
        },
    }
}

/// Reads the fields of `layout` in order from the front of `input`.
pub fn read_fields(layout: &Vec<FieldSpec>, input: &[u8]) -> (r: Result<
    (Vec<FieldValue>, usize),
    PduParseError,
>)
    ensures
        match r {
            Ok((v, n)) => n <= input@.len() && parse_fields(layout@, input@) == Ok::<
                (Seq<FieldView>, nat),
                PduParseError,
            >((fields_view(v@), n as nat)),
            Err(e) => parse_fields(layout@, input@) == Err::<(Seq<FieldView>, nat), PduParseError>(
                e,
            ),
        },
{
    let mut vals: Vec<FieldValue> = Vec::new();
    let mut pos: usize = 0;
    let mut declared: u8 = 0;
    let mut i: usize = 0;
    assert(fields_view(vals@) =~= Seq::empty());
    while i < layout.len()
        invariant
            i <= layout@.len(),
            pos <= input.len(),
            declared as nat == declared_length(fields_view(vals@)),
            parse_fields(layout@, input@) == parse_fields_from(
                layout@,
                input@,
                i as nat,
                pos as nat,
                fields_view(vals@),
            ),
        decreases layout@.len() - i,
    {
        let spec = layout[i];
        match read_one_field(input, pos, spec.format, declared) {
            Err(e) => {
                return Err(PduParseError::new(e).into_with_field_name(spec.name));
            },
            Ok((v, n)) => {
                declared = match &v {
                    FieldValue::Integer1(b) => *b,
                    FieldValue::Octets(_) => 0,
                };
                let ghost vv = v@;
                let ghost before = vals@;
                vals.push(v);
                assert(fields_view(vals@) =~= fields_view(before).push(vv));
                pos = pos + n;
                i = i + 1;
            },
        }
    }
    Ok((vals, pos))
}

/// Appends the wire form of `vals`, laid out by `layout`.
pub fn write_fields(layout: &Vec<FieldSpec>, vals: &Vec<FieldValue>, out: &mut Vec<u8>)
    requires
        vals@.len() == layout@.len(),
    ensures
        final(out)@ == old(out)@ + encode_fields(layout@, fields_view(vals@)),
{
    let ghost views = fields_view(vals@);
    let ghost whole = old(out)@ + encode_fields(layout@, views);
    let mut i: usize = 0;
    assert(out@ + encode_fields_from(layout@, views, 0) =~= whole);
    while i < layout.len()
        invariant
            i <= layout@.len(),
            vals@.len() == layout@.len(),
            views == fields_view(vals@),
            out@ + encode_fields_from(layout@, views, i as nat) == whole,
        decreases layout@.len() - i,
    {
        let ghost before = out@;
        match &vals[i] {
            FieldValue::Integer1(b) => {
                out.push(*b);
            },
            FieldValue::Octets(v) => {
                out.extend_from_slice(v.as_slice());
                if let Format::COctetString(_) = layout[i].format {
                    out.push(0);
                }
            },
        }
        assert(out@ =~= before + encode_field(layout@[i as int].format, views[i as int]));
        assert(out@ + encode_fields_from(layout@, views, (i + 1) as nat) =~= before
            + encode_fields_from(layout@, views, i as nat));
        i = i + 1;
    }
    assert(out@ =~= whole);
}

/// A C-octet string within its bound, of ASCII bytes and no zero byte, reads back
/// as itself from its wire form, whatever follows.
pub proof fn lemma_c_octet_string_round_trip(s: Seq<u8>, max_len: usize, rest: Seq<u8>)
    requires
        s.len() + 1 <= max_len,
        forall|j: int| 0 <= j < s.len() ==> is_ascii_byte(#[trigger] s[j]),
        forall|j: int| 0 <= j < s.len() ==> #[trigger] s[j] != 0,
    ensures
        read_c_octet_string(s.push(0) + rest, max_len) == Ok::<(Seq<u8>, nat), PduParseErrorBody>(
            (s, s.len() + 1),
        ),
{
    let input = s.push(0) + rest;
    let window = input.take(min(max_len as int, input.len() as int));
    assert(window[s.len() as int] == 0);
    assert forall|j: int| 0 <= j < s.len() implies window[j] != 0 by {
        assert(window[j] == s[j]);
    }
    assert(is_first_zero(window, s.len() as int));
    assert(forall|z: int| is_first_zero(window, z) ==> z == s.len());
    assert(window.take(s.len() as int) =~= s);
    assert(!exists|j: int| is_first_non_ascii(s, j));
}

proof fn lemma_read_field_round_trip(
    layout: Seq<FieldSpec>,
    vals: Seq<FieldView>,
    i: int,
    rest: Seq<u8>,
)
    requires
        fields_valid(layout, vals),
        0 <= i < layout.len(),
    ensures
        read_field(
            layout[i].format,
            declared_length(vals.take(i)),
            encode_field(layout[i].format, vals[i]) + rest,
        ) == Ok::<(FieldView, nat), PduParseErrorBody>(
            (vals[i], encode_field(layout[i].format, vals[i]).len()),
        ),
{
    assert(field_fits(layout, vals, i));
    assert(field_unambiguous(layout, vals, i));
    let e = encode_field(layout[i].format, vals[i]);
    match layout[i].format {
        Format::Integer1 => {
            assert((e + rest)[0] == vals[i]->Integer1_0);
        },
        Format::COctetString(max_len) => {
            lemma_c_octet_string_round_trip(vals[i]->Octets_0, max_len, rest);
        },
        Format::OctetString => {
            assert(vals.take(i).last() == vals[i - 1]);
            assert((e + rest).take(e.len() as int) =~= e);
        },
    }
}

proof fn lemma_fields_round_trip_from(
    layout: Seq<FieldSpec>,
    vals: Seq<FieldView>,
    rest: Seq<u8>,
    input: Seq<u8>,
    i: nat,
    pos: nat,
)
    requires
        fields_valid(layout, vals),
        i <= layout.len(),
        pos <= input.len(),
        input.skip(pos as int) == encode_fields_from(layout, vals, i) + rest,
    ensures
        parse_fields_from(layout, input, i, pos, vals.take(i as int)) == Ok::<
            (Seq<FieldView>, nat),
            PduParseError,
        >((vals, pos + encode_fields_from(layout, vals, i).len())),
    decreases layout.len() - i,
{
    if i >= layout.len() {
        assert(vals.take(i as int) =~= vals);
    } else {
        let e = encode_field(layout[i as int].format, vals[i as int]);
        let tail = encode_fields_from(layout, vals, i + 1);
        lemma_read_field_round_trip(layout, vals, i as int, tail + rest);
        assert(input.skip(pos as int) =~= e + (tail + rest));
        let x = e + (tail + rest);
        assert forall|j: int| 0 <= j < tail.len() + rest.len() implies input.skip(
            pos + e.len() as int,
        )[j] == (tail + rest)[j] by {
            assert(input.skip(pos as int)[e.len() + j] == x[e.len() + j]);
        }
        assert(input.skip(pos + e.len() as int) =~= tail + rest);
        assert(vals.take(i as int).push(vals[i as int]) =~= vals.take(i + 1 as int));
        lemma_fields_round_trip_from(layout, vals, rest, input, i + 1, pos + e.len());
    }
}

/// Fields that are valid for their layout read back as themselves from their wire
/// form, whatever follows, consuming exactly that form.
pub proof fn lemma_fields_round_trip(layout: Seq<FieldSpec>, vals: Seq<FieldView>, rest: Seq<u8>)
    requires
        fields_valid(layout, vals),
    ensures
        parse_fields(layout, encode_fields(layout, vals) + rest) == Ok::<
            (Seq<FieldView>, nat),
            PduParseError,
        >((vals, encode_fields(layout, vals).len())),
{
    let input = encode_fields(layout, vals) + rest;
    assert(input.skip(0) =~= input);
    assert(vals.take(0) =~= Seq::<FieldView>::empty());
    lemma_fields_round_trip_from(layout, vals, rest, input, 0, 0);
}

/// Every C-octet string bound of `layout` leaves room for at most 255 bytes, and
/// every octet string follows the one-byte field that gives its length.
pub open spec fn layout_bounded(layout: Seq<FieldSpec>) -> bool {
    forall|i: int|
        0 <= i < layout.len() ==> match #[trigger] layout[i].format {
            Format::COctetString(max_len) => max_len <= MAX_OCTET_STRING_LENGTH + 1,
            Format::OctetString => 0 < i && layout[i - 1].format is Integer1,
            Format::Integer1 => true,
        }
}

/// Values of the kinds that `layout` asks for, each octet string preceded by its
/// length as one byte.
pub open spec fn fields_shaped(layout: Seq<FieldSpec>, vals: Seq<FieldView>) -> bool {
    &&& vals.len() == layout.len()
    &&& forall|i: int|
        0 <= i < layout.len() ==> (#[trigger] layout[i].format is Integer1 <==> vals[i] is Integer1)
    &&& forall|i: int|
        0 <= i < layout.len() && #[trigger] layout[i].format is OctetString ==> 0 < i && vals[i
            - 1] == FieldView::Integer1(vals[i]->Octets_0.len() as u8)
}

/// Why a value cannot stand in a field of `format`, if it cannot.
pub open spec fn field_problem(format: Format, v: FieldView) -> Option<PduParseErrorBody> {
    match (format, v) {
        (Format::COctetString(max_len), FieldView::Octets(s)) => if exists|j: int|
            is_first_non_ascii(s, j) {
            Some(PduParseErrorBody::StringIsNotAscii(
                (choose|j: int| is_first_non_ascii(s, j)) as usize,
            ))
        } else if s.len() + 1 > max_len {
            Some(PduParseErrorBody::StringTooLong(max_len))
        } else {
            None
        },
        (Format::OctetString, FieldView::Octets(s)) => if s.len() > MAX_OCTET_STRING_LENGTH {
            Some(PduParseErrorBody::OctetStringTooLong(MAX_OCTET_STRING_LENGTH))
        } else {
            None
        },
        _ => None,
    }
}

pub open spec fn check_fields_from(layout: Seq<FieldSpec>, vals: Seq<FieldView>, i: nat) -> Result<
    (),
    PduParseError,
>
    decreases layout.len() - i,
{
    if i >= layout.len() {
        Ok(())
    } else {
        match field_problem(layout[i as int].format, vals[i as int]) {
            Some(b) => Err(with_field_name(error_of(b), layout[i as int].name)),
            None => check_fields_from(layout, vals, i + 1),
        }
    }
}

/// Checking candidate values in layout order: the first problem, named after its field.
pub open spec fn check_fields(layout: Seq<FieldSpec>, vals: Seq<FieldView>) -> Result<
    (),
    PduParseError,
> {
    check_fields_from(layout, vals, 0)
}

/// The bytes of a string, as a C-octet string's value.
pub fn str_bytes(value: &str) -> (r: Vec<u8>)
    ensures
        r@ == value.spec_bytes(),
{
    slice_to_vec(value.as_bytes())
}

/// Checks candidate values against `layout`, in order.
pub fn validate_fields(layout: &Vec<FieldSpec>, vals: &Vec<FieldValue>) -> (r: Result<
    (),
    PduParseError,
>)
    requires
        layout_bounded(layout@),
        fields_shaped(layout@, fields_view(vals@)),
    ensures
        r == check_fields(layout@, fields_view(vals@)),
        r is Ok ==> fields_fit(layout@, fields_view(vals@)),
{
    let ghost views = fields_view(vals@);
    let mut i: usize = 0;
    while i < layout.len()
        invariant
            i <= layout@.len(),
            views == fields_view(vals@),
            vals@.len() == layout@.len(),
            layout_bounded(layout@),
            fields_shaped(layout@, views),
            check_fields(layout@, views) == check_fields_from(layout@, views, i as nat),
            forall|k: int| 0 <= k < i ==> #[trigger] field_fits(layout@, views, k),
        decreases layout@.len() - i,
    {
        let spec = layout[i];
        assert(views[i as int] == vals@[i as int]@);
        match (spec.format, &vals[i]) {
            (Format::COctetString(max_len), FieldValue::Octets(v)) => {
                let mut j: usize = 0;
                while j < v.len() && v[j] < 0x80
                    invariant
                        j <= v@.len(),
                        forall|k: int| 0 <= k < j ==> is_ascii_byte(#[trigger] v@[k]),
                    decreases v@.len() - j,
                {
                    j = j + 1;
                }
                if j < v.len() {
                    assert(is_first_non_ascii(v@, j as int));
                    assert(forall|z: int| is_first_non_ascii(v@, z) ==> z == j);
                    return Err(
                        PduParseError::new(PduParseErrorBody::StringIsNotAscii(j)).into_with_field_name(
                        spec.name),
                    );
                }
                assert(!exists|z: int| is_first_non_ascii(v@, z));
                if v.len() >= max_len {
                    return Err(
                        PduParseError::new(
                            PduParseErrorBody::StringTooLong(max_len),
                        ).into_with_field_name(spec.name),
                    );
                }
            },
            (Format::OctetString, FieldValue::Octets(v)) => {
                if v.len() > MAX_OCTET_STRING_LENGTH {
                    return Err(
                        PduParseError::new(
                            PduParseErrorBody::OctetStringTooLong(MAX_OCTET_STRING_LENGTH),
                        ).into_with_field_name(spec.name),
                    );
                }
            },
            _ => {},
        }
        assert(field_fits(layout@, views, i as int));
        i = i + 1;
    }
    Ok(())
}

proof fn lemma_encode_fields_len_from(layout: Seq<FieldSpec>, vals: Seq<FieldView>, i: nat)
    requires
        fields_fit(layout, vals),
        i <= layout.len(),
    ensures
        encode_fields_from(layout, vals, i).len() <= (MAX_OCTET_STRING_LENGTH + 1) * (
        layout.len() - i),
    decreases layout.len() - i,
{
    if i < layout.len() {
        assert(field_fits(layout, vals, i as int));
        lemma_encode_fields_len_from(layout, vals, i + 1);
    }
}

/// Fields that fit take at most 256 bytes each on the wire.
pub proof fn lemma_encode_fields_len(layout: Seq<FieldSpec>, vals: Seq<FieldView>)
    requires
        fields_fit(layout, vals),
    ensures
        encode_fields(layout, vals).len() <= (MAX_OCTET_STRING_LENGTH + 1) * layout.len(),
{
    lemma_encode_fields_len_from(layout, vals, 0);
}

/// A byte sequence with a non-ASCII byte has a first one.
pub proof fn lemma_first_non_ascii_exists(s: Seq<u8>, j: int)
    requires
        0 <= j < s.len(),
        !is_ascii_byte(s[j]),
    ensures
        exists|k: int| is_first_non_ascii(s, k),
    decreases j,
{
    if exists|k: int| 0 <= k < j && !is_ascii_byte(#[trigger] s[k]) {
        let k = choose|k: int| 0 <= k < j && !is_ascii_byte(#[trigger] s[k]);
        lemma_first_non_ascii_exists(s, k);
    } else {
        assert(is_first_non_ascii(s, j));
    }
}

/// What a C-octet string read yields: ASCII bytes within the bound, then the terminator.
pub proof fn lemma_read_c_octet_string_ok(input: Seq<u8>, max_len: usize)
    ensures
        read_c_octet_string(input, max_len) matches Ok((v, n)) ==> n == v.len() + 1 && n
            <= max_len && n <= input.len() && forall|j: int|
            0 <= j < v.len() ==> is_ascii_byte(#[trigger] v[j]),
{
    if let Ok((v, n)) = read_c_octet_string(input, max_len) {
        assert forall|j: int| 0 <= j < v.len() implies is_ascii_byte(#[trigger] v[j]) by {
            if !is_ascii_byte(v[j]) {
                lemma_first_non_ascii_exists(v, j);
            }
        }
    }
}

proof fn lemma_parse_fields_fit_from(
    layout: Seq<FieldSpec>,
    input: Seq<u8>,
    i: nat,
    pos: nat,
    acc: Seq<FieldView>,
)
    requires
        layout_bounded(layout),
        i <= layout.len(),
        acc.len() == i,
        forall|k: int| 0 <= k < i ==> #[trigger] field_fits(layout, acc, k),
    ensures
        parse_fields_from(layout, input, i, pos, acc) matches Ok((vals, n)) ==> fields_fit(
            layout,
            vals,
        ),
    decreases layout.len() - i,
{
    if i < layout.len() {
        let rest = input.skip(pos as int);
        let format = layout[i as int].format;
        if let Ok((v, n)) = read_field(format, declared_length(acc), rest) {
            let next = acc.push(v);
            assert forall|k: int| 0 <= k < i implies #[trigger] field_fits(layout, next, k) by {
                assert(field_fits(layout, acc, k));
                assert(next[k] == acc[k]);
                if k > 0 {
                    assert(next[k - 1] == acc[k - 1]);
                }
            }
            assert(layout_bounded(layout) ==> match layout[i as int].format {
                Format::COctetString(max_len) => max_len <= MAX_OCTET_STRING_LENGTH + 1,
                Format::OctetString => 0 < i && layout[i - 1].format is Integer1,
                Format::Integer1 => true,
            });
            match format {
                Format::COctetString(max_len) => {
                    lemma_read_c_octet_string_ok(rest, max_len);
                },
                Format::OctetString => {
                    assert(field_fits(layout, acc, i - 1));
                    assert(next[i - 1] == acc[i - 1]);
                },
                Format::Integer1 => {},
            }
            assert(field_fits(layout, next, i as int));
            lemma_parse_fields_fit_from(layout, input, i + 1, pos + n, next);
        }
    }
}

/// Fields read by a bounded layout fit it, so they can be written back.
pub proof fn lemma_parse_fields_fit(layout: Seq<FieldSpec>, input: Seq<u8>)
    requires
        layout_bounded(layout),
    ensures
        parse_fields(layout, input) matches Ok((vals, n)) ==> fields_fit(layout, vals),
{
    lemma_parse_fields_fit_from(layout, input, 0, 0, Seq::empty());
}

} // verus!
