//! A decoder for Protobuf messages whose schema is not known. It walks the
//! wire format and keeps, for each field number, the values that it met,
//! in their order. It is a best-effort reader: on damaged input it tries to
//! find the next field, within fixed limits, and gives back what it has.

use crate::bytes::{copy_bytes, slice_bytes};
use crate::text::{decimal, decimal_string, string_from_utf8};
use vstd::prelude::*;
use vstd::string::StringExecFns;
use vstd::utf8::{decode_utf8, valid_utf8};

verus! {

/// The most fields that are read from one message.
pub const MAX_FIELDS: usize = 100000;

/// The most failures in a row after which reading goes on.
pub const MAX_ERRORS: usize = 10;

/// The most bytes that are passed over in search of the next field.
pub const MAX_SKIP_BYTES: usize = 1024;

/// The most bytes that a length-delimited field may hold.
pub const MAX_FIELD_SIZE: usize = 10485760;

/// The most bytes of a varint.
pub const MAX_VARINT_BYTES: usize = 10;

/// Why a read of the decoder failed.
#[derive(Debug)]
pub enum ProtobufError {
    Io(String),
    Utf8(String),
    UnknownWireType(u64),
    Parse(String),
    TooManyErrors,
    FieldTooLarge(u64),
    EndOfStream,
    RecoveryFailed,
    ParseTimeout,
}

impl ProtobufError {
    /// The error in words.
    pub fn message(&self) -> (r: String)
        ensures
            r@ == match *self {
                ProtobufError::Io(m) => "IO error: "@ + m@,
                ProtobufError::Utf8(m) => "UTF-8 error: "@ + m@,
                ProtobufError::UnknownWireType(w) => "Unknown wire type: "@ + decimal(w as nat),
                ProtobufError::Parse(m) => "Parse error: "@ + m@,
                ProtobufError::TooManyErrors => "Too many consecutive errors"@,
                ProtobufError::FieldTooLarge(n) => "Field size too large: "@ + decimal(n as nat)
                    + " bytes"@,
                ProtobufError::EndOfStream => "End of stream"@,
                ProtobufError::RecoveryFailed => "Failed to recover from parsing errors"@,
                ProtobufError::ParseTimeout => "Parse timeout"@,
            },
    {
        match self {
            ProtobufError::Io(m) => {
                let mut s = String::from_str("IO error: ");
                s.append(m.as_str());
                s
            },
            ProtobufError::Utf8(m) => {
                let mut s = String::from_str("UTF-8 error: ");
                s.append(m.as_str());
                s
            },
            ProtobufError::UnknownWireType(w) => {
                let mut s = String::from_str("Unknown wire type: ");
                let n = decimal_string(*w);
                s.append(n.as_str());
                s
            },
            ProtobufError::Parse(m) => {
                let mut s = String::from_str("Parse error: ");
                s.append(m.as_str());
                s
            },
            ProtobufError::TooManyErrors => String::from_str("Too many consecutive errors"),
            ProtobufError::FieldTooLarge(n) => {
                let mut s = String::from_str("Field size too large: ");
                let d = decimal_string(*n);
                s.append(d.as_str());
                s.append(" bytes");
                s
            },
            ProtobufError::EndOfStream => String::from_str("End of stream"),
            ProtobufError::RecoveryFailed => String::from_str(
                "Failed to recover from parsing errors",
            ),
            ProtobufError::ParseTimeout => String::from_str("Parse timeout"),
        }
    }
}

/// One value of a field. The fixed-width values are kept as the bits that
/// stood on the wire.
#[derive(Debug)]
pub enum Value {
    Varint(i64),
    Fixed64(u64),
    LengthDelimited(Vec<u8>),
    String(String),
    Fixed32(u32),
    Boolean(bool),
}

/// A value as plain mathematical values.
pub enum ValueView {
    Varint(i64),
    Fixed64(u64),
    LengthDelimited(Seq<u8>),
    String(Seq<char>),
    Fixed32(u32),
    Boolean(bool),
}

impl View for Value {
    type V = ValueView;

    open spec fn view(&self) -> ValueView {
        match self {
            Value::Varint(v) => ValueView::Varint(*v),
            Value::Fixed64(v) => ValueView::Fixed64(*v),
            Value::LengthDelimited(b) => ValueView::LengthDelimited(b@),
            Value::String(s) => ValueView::String(s@),
            Value::Fixed32(v) => ValueView::Fixed32(*v),
            Value::Boolean(b) => ValueView::Boolean(*b),
        }
    }
}

impl DeepView for Value {
    type V = ValueView;

    open spec fn deep_view(&self) -> ValueView {
        self@
    }
}

/// The fields of a message: each field number with the values met under
/// it, the numbers in the order of their first appearance.
pub type Fields = Seq<(u32, Seq<ValueView>)>;

/// What a read of a varint comes to.
pub enum VarintRead {
    /// The value, and the position behind it.
    Value(u64, int),
    /// The input ends before the varint does.
    Eof,
    /// The varint goes on after ten bytes; with the position behind them.
    TooLong(int),
}

/// The varint at `pos`, of which `count` bytes have been read into `acc`.
pub open spec fn varint_at(data: Seq<u8>, pos: int, count: int, acc: u64) -> VarintRead
    decreases MAX_VARINT_BYTES - count,
{
    if count < 0 || count >= MAX_VARINT_BYTES {
        VarintRead::TooLong(pos)
    } else if pos < 0 || pos >= data.len() {
        VarintRead::Eof
    } else {
        let byte = data[pos];
        let next = acc | (((byte & 0x7f) as u64) << ((7 * count) as u64));
        if byte & 0x80 == 0 {
            VarintRead::Value(next, pos + 1)
        } else {
            varint_at(data, pos + 1, count + 1, next)
        }
    }
}

/// Whether a byte may begin a field: its wire type is at most five and its
/// field number is not zero.
pub open spec fn may_begin_field(byte: u8) -> bool {
    (byte & 0x7) <= 5 && (byte >> 3) > 0
}

/// What the search for the next field comes to.
pub enum Skip {
    /// A byte that may begin a field stands at this position.
    Found(int),
    /// The input ends first.
    Eof,
    /// None was found within the limit; with the position that was reached.
    Failed(int),
}

/// The search for the next field from `pos` on, after `skipped` bytes.
pub open spec fn skip_from(data: Seq<u8>, pos: int, skipped: int) -> Skip
    decreases MAX_SKIP_BYTES - skipped,
{
    if skipped < 0 || skipped >= MAX_SKIP_BYTES {
        Skip::Failed(pos)
    } else if pos < 0 || pos >= data.len() {
        Skip::Eof
    } else if may_begin_field(data[pos]) {
        Skip::Found(pos)
    } else {
        skip_from(data, pos + 1, skipped + 1)
    }
}

/// The value that a varint stands for: a truth value for zero and one, else
/// the number, read as a signed one.
pub open spec fn varint_value(v: u64) -> ValueView {
    if v <= 1 {
        ValueView::Boolean(v == 1)
    } else if v <= i64::MAX {
        ValueView::Varint(v as i64)
    } else {
        ValueView::Varint((v - 0x1_0000_0000_0000_0000) as i64)
    }
}

/// The value that the bytes of a length-delimited field stand for: a text
/// where they are UTF-8, else the bytes.
pub open spec fn bytes_value(bytes: Seq<u8>) -> ValueView {
    if valid_utf8(bytes) {
        ValueView::String(decode_utf8(bytes))
    } else {
        ValueView::LengthDelimited(bytes)
    }
}

/// The number that four bytes stand for, the lowest byte first.
pub open spec fn le_u32(data: Seq<u8>, pos: int) -> u32 {
    (data[pos] as u32) | ((data[pos + 1] as u32) << 8) | ((data[pos + 2] as u32) << 16) | ((data[pos
        + 3] as u32) << 24)
}

/// The number that eight bytes stand for, the lowest byte first.
pub open spec fn le_u64(data: Seq<u8>, pos: int) -> u64 {
    (le_u32(data, pos) as u64) | ((le_u32(data, pos + 4) as u64) << 32)
}

/// What the reading of one field comes to.
pub enum Step {
    /// The input ends where a field would begin: the walk is over.
    Done,
    /// A field that is not understood: the walk is over.
    Stop,
    /// A field with its number and value, and the position behind it.
    Field(u32, ValueView, int),
    /// Something that is passed over; with the position of the byte that may
    /// begin the next field.
    Recovered(int),
    /// Something that cannot be read and behind which no field was found;
    /// with the position that was reached.
    Error(int),
}

/// What follows a part that cannot be read: a search for the next field.
pub open spec fn recover(data: Seq<u8>, pos: int) -> Step {
    match skip_from(data, pos, 0) {
        Skip::Found(p) => Step::Recovered(p),
        Skip::Eof => Step::Error(data.len() as int),
        Skip::Failed(p) => Step::Error(p),
    }
}

/// The field number of a tag: the tag without its three lowest bits, cut
/// to 32 bits.
pub open spec fn tag_number(tag: u64) -> u32 {
    ((tag >> 3) & 0xffff_ffff) as u32
}

/// The reading of the field at `pos`.
pub open spec fn field_at(data: Seq<u8>, pos: int) -> Step {
    match varint_at(data, pos, 0, 0) {
        VarintRead::Eof => Step::Done,
        VarintRead::TooLong(p) => Step::Error(p),
        VarintRead::Value(tag, p) => {
            let wire = tag & 0x7;
            let number = tag_number(tag);
            if number == 0 || number >= 536870912 {
                recover(data, p)
            } else if wire == 0 {
                match varint_at(data, p, 0, 0) {
                    VarintRead::Value(v, q) => Step::Field(number, varint_value(v), q),
                    VarintRead::Eof => recover(data, data.len() as int),
                    VarintRead::TooLong(q) => recover(data, q),
                }
            } else if wire == 1 {
                if p + 8 <= data.len() {
                    Step::Field(number, ValueView::Fixed64(le_u64(data, p)), p + 8)
                } else {
                    recover(data, data.len() as int)
                }
            } else if wire == 2 {
                match varint_at(data, p, 0, 0) {
                    VarintRead::Value(len, q) => if len > MAX_FIELD_SIZE {
                        recover(data, q)
                    } else if q + len <= data.len() {
                        Step::Field(number, bytes_value(data.subrange(q, q + len)), q + len)
                    } else {
                        recover(data, data.len() as int)
                    },
                    VarintRead::Eof => recover(data, data.len() as int),
                    VarintRead::TooLong(q) => recover(data, q),
                }
            } else if wire == 5 {
                if p + 4 <= data.len() {
                    Step::Field(number, ValueView::Fixed32(le_u32(data, p)), p + 4)
                } else {
                    recover(data, data.len() as int)
                }
            } else {
                Step::Stop
            }
        },
    }
}

/// The first entry at or after `from` that is kept under `number`.
pub open spec fn entry_of(fields: Fields, number: u32, from: int) -> Option<int>
    decreases fields.len() - from,
{
    if from < 0 || from >= fields.len() {
        None
    } else if fields[from].0 == number {
        Some(from)
    } else {
        entry_of(fields, number, from + 1)
    }
}

/// The fields with one more value: it joins the values of its number, or
/// opens a new entry at the end.
pub open spec fn stored(fields: Fields, number: u32, value: ValueView) -> Fields {
    match entry_of(fields, number, 0) {
        Some(i) => fields.update(i, (number, fields[i].1.push(value))),
        None => fields.push((number, seq![value])),
    }
}

/// The walk over the message from `pos` on, with `fields_left` fields still
/// to read, after `errors` failures in a row, with the fields `acc` read so
/// far.
pub open spec fn walk(data: Seq<u8>, pos: int, fields_left: nat, errors: nat, acc: Fields) -> Fields
    decreases fields_left,
{
    if fields_left == 0 {
        acc
    } else {
        match field_at(data, pos) {
            Step::Done => acc,
            Step::Stop => acc,
            Step::Field(number, value, next) => walk(
                data,
                next,
                (fields_left - 1) as nat,
                0,
                stored(acc, number, value),
            ),
            Step::Recovered(next) => walk(data, next, (fields_left - 1) as nat, 0, acc),
            Step::Error(p) => if errors + 1 > MAX_ERRORS {
                acc
            } else {
                match skip_from(data, p, 0) {
                    Skip::Found(q) => walk(data, q, (fields_left - 1) as nat, errors + 1, acc),
                    _ => acc,
                }
            },
        }
    }
}

/// The fields of a message.
pub open spec fn decode(data: Seq<u8>) -> Fields {
    walk(data, 0, MAX_FIELDS as nat, 0, Seq::empty())
}

/// Reads the varint at `pos`. The second part of the result is the
/// position behind what was read: behind the varint, at the end of the input
/// where it ends first, or behind the ten bytes of a varint that goes on.
pub fn read_varint(data: &[u8], pos: usize) -> (r: (Result<u64, ProtobufError>, usize))
    ensures
        match varint_at(data@, pos as int, 0, 0) {
            VarintRead::Value(v, p) => r.0 == Ok::<u64, ProtobufError>(v) && r.1 == p,
            VarintRead::Eof => r.0 == Err::<u64, ProtobufError>(ProtobufError::EndOfStream) && r.1
                == data.len(),
            VarintRead::TooLong(p) => r.0 matches Err(ProtobufError::Parse(_)) && r.1 == p,
        },
{
    let mut acc: u64 = 0;
    let mut count: usize = 0;
    let mut p: usize = pos;
    loop
        invariant
            count <= MAX_VARINT_BYTES,
            varint_at(data@, pos as int, 0, 0) == varint_at(data@, p as int, count as int, acc),
        decreases MAX_VARINT_BYTES - count,
    {
        if count >= MAX_VARINT_BYTES {
            return (Err(ProtobufError::Parse(String::from_str("Varint too long"))), p);
        }
        if p >= data.len() {
            return (Err(ProtobufError::EndOfStream), data.len());
        }
        let byte = data[p];
        acc = acc | (((byte & 0x7f) as u64) << ((7 * count) as u64));
        p = p + 1;
        if byte & 0x80 == 0 {
            return (Ok(acc), p);
        }
        count = count + 1;
    }
}

/// Looks for the next byte that may begin a field, from `pos` on. The
/// second part of the result is the position of that byte, the end of the
/// input where it ends first, or the position that was reached where the
/// search is given up.
pub fn skip_to_next_field(data: &[u8], pos: usize) -> (r: (Result<(), ProtobufError>, usize))
    ensures
        match skip_from(data@, pos as int, 0) {
            Skip::Found(p) => r.0 == Ok::<(), ProtobufError>(()) && r.1 == p,
            Skip::Eof => r.0 == Err::<(), ProtobufError>(ProtobufError::EndOfStream) && r.1
                == data.len(),
            Skip::Failed(p) => r.0 == Err::<(), ProtobufError>(ProtobufError::RecoveryFailed) && r.1
                == p,
        },
{
    let mut skipped: usize = 0;
    let mut p: usize = pos;
    loop
        invariant
            skipped <= MAX_SKIP_BYTES,
            skip_from(data@, pos as int, 0) == skip_from(data@, p as int, skipped as int),
        decreases MAX_SKIP_BYTES - skipped,
    {
        if skipped >= MAX_SKIP_BYTES {
            return (Err(ProtobufError::RecoveryFailed), p);
        }
        if p >= data.len() {
            return (Err(ProtobufError::EndOfStream), data.len());
        }
        let byte = data[p];
        if (byte & 0x7) <= 5 && (byte >> 3) > 0 {
            return (Ok(()), p);
        }
        p = p + 1;
        skipped = skipped + 1;
    }
}

/// The value that a varint stands for.
pub fn process_varint(value: u64) -> (r: Value)
    ensures
        r@ == varint_value(value),
{
    if value <= 1 {
        Value::Boolean(value == 1)
    } else if value <= 0x7fff_ffff_ffff_ffff {
        Value::Varint(value as i64)
    } else {
        let below: u64 = u64::MAX - value;
        Value::Varint(-(below as i64) - 1)
    }
}

/// The value that the bytes of a length-delimited field stand for.
pub fn process_bytes(bytes: Vec<u8>) -> (r: Value)
    ensures
        r@ == bytes_value(bytes@),
{
    let kept = copy_bytes(bytes.as_slice());
    match string_from_utf8(bytes) {
        Some(text) => Value::String(text),
        None => Value::LengthDelimited(kept),
    }
}

fn read_u32(data: &[u8], pos: usize) -> (r: u32)
    requires
        pos + 4 <= data.len(),
    ensures
        r == le_u32(data@, pos as int),
{
    (data[pos] as u32) | ((data[pos + 1] as u32) << 8) | ((data[pos + 2] as u32) << 16) | ((data[pos
        + 3] as u32) << 24)
}

fn read_u64(data: &[u8], pos: usize) -> (r: u64)
    requires
        pos + 8 <= data.len(),
    ensures
        r == le_u64(data@, pos as int),
{
    (read_u32(data, pos) as u64) | ((read_u32(data, pos + 4) as u64) << 32)
}

/// Adds a value to the values of its field number.
pub fn store_value(fields: &mut Vec<(u32, Vec<Value>)>, field_number: u32, value: Value)
    ensures
        final(fields).deep_view() == stored(old(fields).deep_view(), field_number, value@),
{
    let ghost before = fields.deep_view();
    let mut i: usize = 0;
    while i < fields.len()
        invariant
            i <= fields.len(),
            *fields == *old(fields),
            before == fields.deep_view(),
            entry_of(before, field_number, 0) == entry_of(before, field_number, i as int),
        decreases fields.len() - i,
    {
        assert(before[i as int] == (fields[i as int].0, fields[i as int].1.deep_view()));
        if fields[i].0 == field_number {
            let mut entry = fields.remove(i);
            let ghost values = entry.1.deep_view();
            entry.1.push(value);
            assert(entry.1.deep_view() =~= values.push(value@));
            fields.insert(i, entry);
            assert(fields.deep_view() =~= before.update(
                i as int,
                (field_number, before[i as int].1.push(value@)),
            ));
            return ;
        }
        i += 1;
    }
    let mut values: Vec<Value> = Vec::new();
    values.push(value);
    assert(values.deep_view() =~= seq![value@]);
    fields.push((field_number, values));
    assert(fields.deep_view() =~= before.push((field_number, seq![value@])));
}

fn recover_from(data: &[u8], pos: usize) -> (r: (Result<bool, ProtobufError>, usize))
    ensures
        match recover(data@, pos as int) {
            Step::Recovered(p) => r.0 == Ok::<bool, ProtobufError>(true) && r.1 == p,
            Step::Error(p) => r.0 is Err && !(r.0 matches Err(ProtobufError::UnknownWireType(_)))
                && r.1 == p,
            _ => false,
        },
{
    let (found, p) = skip_to_next_field(data, pos);
    match found {
        Ok(_) => (Ok(true), p),
        Err(e) => (Err(e), p),
    }
}

/// Reads the field at `pos` into `fields`. The answer is `Ok(false)` where
/// the input ends, `Ok(true)` where a field was read or passed over, the
/// error `UnknownWireType` for a field that is not understood, and another
/// error where something could not be read and no next field was found. The
/// second part of the result is the position at which reading goes on.
pub fn parse_field(data: &[u8], pos: usize, fields: &mut Vec<(u32, Vec<Value>)>) -> (r: (
    Result<bool, ProtobufError>,
    usize,
))
    ensures
        match field_at(data@, pos as int) {
            Step::Done => r.0 == Ok::<bool, ProtobufError>(false) && final(fields).deep_view()
                == old(fields).deep_view(),
            Step::Stop => r.0 matches Err(ProtobufError::UnknownWireType(_))
                && final(fields).deep_view() == old(fields).deep_view(),
            Step::Field(number, value, next) => r.0 == Ok::<bool, ProtobufError>(true) && r.1
                == next && final(fields).deep_view() == stored(
                old(fields).deep_view(),
                number,
                value,
            ),
            Step::Recovered(next) => r.0 == Ok::<bool, ProtobufError>(true) && r.1 == next
                && final(fields).deep_view() == old(fields).deep_view(),
            Step::Error(p) => r.0 is Err && !(r.0 matches Err(ProtobufError::UnknownWireType(_)))
                && r.1 == p && final(fields).deep_view() == old(fields).deep_view(),
        },
{
    let (tag_read, p) = read_varint(data, pos);
    let tag = match tag_read {
        Ok(tag) => tag,
        Err(ProtobufError::EndOfStream) => {
            return (Ok(false), p);
        },
        Err(e) => {
            return (Err(e), p);
        },
    };
    let wire: u64 = tag & 0x7;
    let number: u32 = ((tag >> 3) & 0xffff_ffff) as u32;
    if number == 0 || number >= 536870912 {
        return recover_from(data, p);
    }
    if wire == 0 {
        let (read, q) = read_varint(data, p);
        match read {
            Ok(v) => {
                store_value(fields, number, process_varint(v));
                (Ok(true), q)
            },
            Err(_) => recover_from(data, q),
        }
    } else if wire == 1 {
        if data.len() >= 8 && p <= data.len() - 8 {
            store_value(fields, number, Value::Fixed64(read_u64(data, p)));
            (Ok(true), p + 8)
        } else {
            recover_from(data, data.len())
        }
    } else if wire == 2 {
        let (read, q) = read_varint(data, p);
        match read {
            Ok(len) => {
                if len > MAX_FIELD_SIZE as u64 {
                    return recover_from(data, q);
                }
                let n: usize = len as usize;
                if data.len() >= n && q <= data.len() - n {
                    let bytes = slice_bytes(data, q, q + n);
                    store_value(fields, number, process_bytes(bytes));
                    (Ok(true), q + n)
                } else {
                    recover_from(data, data.len())
                }
            },
            Err(_) => recover_from(data, q),
        }
    } else if wire == 5 {
        if data.len() >= 4 && p <= data.len() - 4 {
            store_value(fields, number, Value::Fixed32(read_u32(data, p)));
            (Ok(true), p + 4)
        } else {
            recover_from(data, data.len())
        }
    } else {
        (Err(ProtobufError::UnknownWireType(wire)), p)
    }
}

/// Reads a message of unknown schema. The walk ends with the input, with a
/// field that is not understood, after `MAX_FIELDS` fields, after more than
/// `MAX_ERRORS` failures in a row, or where no next field is found; what has
/// been read by then is the result.
pub fn parse_unknown_protobuf(buffer: &[u8]) -> (r: Vec<(u32, Vec<Value>)>)
    ensures
        r.deep_view() == decode(buffer@),
{
    let mut fields: Vec<(u32, Vec<Value>)> = Vec::new();
    assert(fields.deep_view() =~= Seq::empty());
    let mut pos: usize = 0;
    let mut left: usize = MAX_FIELDS;
    let mut errors: usize = 0;
    while left > 0
        invariant
            errors <= MAX_ERRORS,
            decode(buffer@) == walk(
                buffer@,
                pos as int,
                left as nat,
                errors as nat,
                fields.deep_view(),
            ),
        decreases left,
    {
        let (read, next) = parse_field(buffer, pos, &mut fields);
        left = left - 1;
        match read {
            Ok(true) => {
                errors = 0;
                pos = next;
            },
            Ok(false) => {
                return fields;
            },
            Err(ProtobufError::UnknownWireType(_)) => {
                return fields;
            },
            Err(_) => {
                if errors + 1 > MAX_ERRORS {
                    return fields;
                }
                errors = errors + 1;
                let (found, q) = skip_to_next_field(buffer, next);
                match found {
                    Ok(_) => {
                        pos = q;
                    },
                    Err(_) => {
                        return fields;
                    },
                }
            },
        }
    }
    fields
}

/// A reader of one message.
pub struct ProtobufUnknownParser {
    pub data: Vec<u8>,
    pub result: Vec<(u32, Vec<Value>)>,
}

impl ProtobufUnknownParser {
    /// A reader of the message in `data`.
    pub fn new(data: Vec<u8>) -> (r: Self)
        ensures
            r.data@ == data@,
            r.result@.len() == 0,
    {
        ProtobufUnknownParser { data, result: Vec::new() }
    }

    /// Reads the message and keeps its fields as the result.
    pub fn parse(&mut self) -> (r: &Vec<(u32, Vec<Value>)>)
        ensures
            final(self).data == old(self).data,
            final(self).result.deep_view() == decode(old(self).data@),
            r == final(self).result,
    {
        self.result = parse_unknown_protobuf(self.data.as_slice());
        &self.result
    }

    /// The name of the kind of a value.
    pub fn get_type_name(value: &Value) -> (r: &'static str)
        ensures
            r@ == match value@ {
                ValueView::Varint(_) => "Varint"@,
                ValueView::Fixed64(_) => "Fixed64"@,
                ValueView::LengthDelimited(_) => "Bytes"@,
                ValueView::String(_) => "String"@,
                ValueView::Fixed32(_) => "Fixed32"@,
                ValueView::Boolean(_) => "Boolean"@,
            },
    {
        match value {
            Value::Varint(_) => "Varint",
            Value::Fixed64(_) => "Fixed64",
            Value::LengthDelimited(_) => "Bytes",
            Value::String(_) => "String",
            Value::Fixed32(_) => "Fixed32",
            Value::Boolean(_) => "Boolean",
        }
    }
}

} // verus!
