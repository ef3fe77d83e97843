//! A decoder for one OTLP span in protobuf encoding.
//!
//! A message is read as the list of its fields. The span is then told by the
//! last field of each number, as protobuf has it for fields that repeat.

use vstd::prelude::*;
use vstd::slice::slice_subrange;

use crate::number;
use crate::number::{decimal_signed, flag, hex_of_bytes, parse_i64};
use crate::observe::{SpanStatus, SpanView};
use crate::text;
use crate::text::same_text;

verus! {

#[derive(Debug, PartialEq, Eq)]
pub enum DecodeError {
    Malformed,
    MissingField(&'static str),
}

impl DecodeError {
    /// What the error says.
    pub open spec fn message_text(self) -> Seq<char> {
        match self {
            DecodeError::Malformed => "malformed protobuf"@,
            DecodeError::MissingField(field) => "missing OTLP span field "@ + field@,
        }
    }

    pub fn message(&self) -> (r: String)
        ensures
            r@ == self.message_text(),
    {
        match self {
            DecodeError::Malformed => "malformed protobuf".to_string(),
            DecodeError::MissingField(field) => {
                "missing OTLP span field ".to_string().concat(*field)
            },
        }
    }
}

/// The text that bytes spell where ill-formed sequences are replaced.
pub uninterp spec fn lossy_text(bytes: Seq<u8>) -> Seq<char>;

/// `String::from_utf8_lossy` reads bytes as text and puts U+FFFD in place of
/// what is not UTF-8. Well-formed UTF-8 is read as it stands.
#[verifier::external_body]
fn read_lossy(bytes: &[u8]) -> (r: String)
    ensures
        r@ == lossy_text(bytes@),
        vstd::utf8::valid_utf8(bytes@) ==> r@ == vstd::utf8::decode_utf8(bytes@),
{
    String::from_utf8_lossy(bytes).to_string()
}

/// The text that bytes spell: what they encode where they are well-formed
/// UTF-8, else the text with ill-formed sequences replaced.
pub open spec fn bytes_text(bytes: Seq<u8>) -> Seq<char> {
    if vstd::utf8::valid_utf8(bytes) {
        vstd::utf8::decode_utf8(bytes)
    } else {
        lossy_text(bytes)
    }
}

fn read_text(bytes: &[u8]) -> (r: String)
    ensures
        r@ == bytes_text(bytes@),
{
    read_lossy(bytes)
}

// ---------------------------------------------------------------------------
// The wire format
// ---------------------------------------------------------------------------

/// How the value of a field is written.
#[derive(Clone, Copy, Debug, PartialEq, Eq, Structural)]
pub enum Wire {
    Varint,
    Fixed64,
    Len,
}

/// The value of a field.
pub enum FieldValue {
    Varint(u64),
    Fixed64(u64),
    Len(Seq<u8>),
}

/// One field of a message.
pub struct Field {
    pub number: u64,
    pub value: FieldValue,
}

/// 128 to the power of `n`.
pub open spec fn pow128(n: nat) -> nat
    decreases n,
{
    if n == 0 {
        1
    } else {
        128 * pow128((n - 1) as nat)
    }
}

/// The groups of seven bits that a varint is made of, the lowest first.
pub open spec fn varint_value(groups: Seq<u8>) -> nat
    decreases groups.len(),
{
    if groups.len() == 0 {
        0
    } else {
        varint_value(groups.drop_last()) + (groups.last() % 128) as nat * pow128(
            (groups.len() - 1) as nat,
        )
    }
}

/// The place behind the first byte from `pos` on that does not continue.
pub open spec fn varint_end(bytes: Seq<u8>, pos: int) -> Option<int>
    decreases bytes.len() - pos,
{
    if pos < 0 || pos >= bytes.len() {
        None
    } else if bytes[pos] < 128 {
        Some(pos + 1)
    } else {
        varint_end(bytes, pos + 1)
    }
}

/// A varint at `pos` and the place behind it: at most ten bytes, of whose value
/// the low 64 bits count.
pub open spec fn varint_at(bytes: Seq<u8>, pos: int) -> Option<(u64, int)> {
    match varint_end(bytes, pos) {
        Some(end) => if end - pos <= 10 {
            Some(
                (
                    (varint_value(bytes.subrange(pos, end)) % 0x1_0000_0000_0000_0000) as u64,
                    end,
                ),
            )
        } else {
            None
        },
        None => None,
    }
}

/// The wire type that the low three bits of a key name.
pub open spec fn wire_of(key: u64) -> Option<Wire> {
    if key % 8 == 0 {
        Some(Wire::Varint)
    } else if key % 8 == 1 {
        Some(Wire::Fixed64)
    } else if key % 8 == 2 {
        Some(Wire::Len)
    } else {
        None
    }
}

/// A field's key at `pos`: its number, its wire type, and the place behind it.
pub open spec fn key_at(bytes: Seq<u8>, pos: int) -> Option<(u64, Wire, int)> {
    match varint_at(bytes, pos) {
        Some((key, end)) => match wire_of(key) {
            Some(wire) => Some((key / 8, wire, end)),
            None => None,
        },
        None => None,
    }
}

/// Bytes with a varint in front that tells how many they are.
pub open spec fn payload_at(bytes: Seq<u8>, pos: int) -> Option<(Seq<u8>, int)> {
    match varint_at(bytes, pos) {
        Some((len, from)) => if from + (len as usize) <= bytes.len() {
            Some((bytes.subrange(from, from + (len as usize)), from + (len as usize)))
        } else {
            None
        },
        None => None,
    }
}

/// The number that bytes stand for, the lowest byte first.
pub open spec fn little_endian(bytes: Seq<u8>) -> nat
    decreases bytes.len(),
{
    if bytes.len() == 0 {
        0
    } else {
        bytes[0] as nat + 256 * little_endian(bytes.drop_first())
    }
}

/// Eight bytes as a number.
pub open spec fn fixed64_at(bytes: Seq<u8>, pos: int) -> Option<(u64, int)> {
    if pos + 8 <= bytes.len() {
        Some((little_endian(bytes.subrange(pos, pos + 8)) as u64, pos + 8))
    } else {
        None
    }
}

/// The field at `pos` and the place behind it.
pub open spec fn field_at(bytes: Seq<u8>, pos: int) -> Option<(Field, int)> {
    match key_at(bytes, pos) {
        Some((number, Wire::Varint, from)) => match varint_at(bytes, from) {
            Some((value, end)) => Some((Field { number, value: FieldValue::Varint(value) }, end)),
            None => None,
        },
        Some((number, Wire::Fixed64, from)) => match fixed64_at(bytes, from) {
            Some((value, end)) => Some((Field { number, value: FieldValue::Fixed64(value) }, end)),
            None => None,
        },
        Some((number, Wire::Len, from)) => match payload_at(bytes, from) {
            Some((value, end)) => Some((Field { number, value: FieldValue::Len(value) }, end)),
            None => None,
        },
        None => None,
    }
}

/// The fields from `pos` to the end, or nothing where one is malformed.
pub open spec fn fields_from(bytes: Seq<u8>, pos: int) -> Option<Seq<Field>>
    decreases bytes.len() - pos,
{
    if pos >= bytes.len() {
        Some(seq![])
    } else {
        match field_at(bytes, pos) {
            Some((field, end)) => if pos < end <= bytes.len() {
                match fields_from(bytes, end) {
                    Some(rest) => Some(seq![field] + rest),
                    None => None,
                }
            } else {
                None
            },
            None => None,
        }
    }
}

/// The fields of a message, or nothing where it is malformed.
pub open spec fn fields_of(bytes: Seq<u8>) -> Option<Seq<Field>> {
    fields_from(bytes, 0)
}

proof fn lemma_varint_end(bytes: Seq<u8>, pos: int)
    requires
        0 <= pos,
    ensures
        varint_end(bytes, pos) matches Some(end) ==> pos < end <= bytes.len(),
    decreases bytes.len() - pos,
{
    if pos < bytes.len() && bytes[pos] >= 128 {
        lemma_varint_end(bytes, pos + 1);
    }
}

proof fn lemma_field_end(bytes: Seq<u8>, pos: int)
    requires
        0 <= pos,
    ensures
        varint_at(bytes, pos) matches Some((_, end)) ==> pos < end <= bytes.len(),
        field_at(bytes, pos) matches Some((_, end)) ==> pos < end <= bytes.len(),
{
    lemma_varint_end(bytes, pos);
    if let Some((number, wire, from)) = key_at(bytes, pos) {
        lemma_varint_end(bytes, from);
    }
}

proof fn lemma_pow128()
    ensures
        pow128(0) == 1,
        pow128(1) == 0x80,
        pow128(2) == 0x4000,
        pow128(3) == 0x20_0000,
        pow128(4) == 0x1000_0000,
        pow128(5) == 0x8_0000_0000,
        pow128(6) == 0x400_0000_0000,
        pow128(7) == 0x2_0000_0000_0000,
        pow128(8) == 0x100_0000_0000_0000,
        pow128(9) == 0x8000_0000_0000_0000,
{
    reveal_with_fuel(pow128, 11);
}

proof fn lemma_varint_value_bound(groups: Seq<u8>)
    ensures
        varint_value(groups) < pow128(groups.len()),
    decreases groups.len(),
{
    if groups.len() > 0 {
        lemma_varint_value_bound(groups.drop_last());
        let low = (groups.last() % 128) as nat;
        let unit = pow128((groups.len() - 1) as nat);
        assert(low * unit <= 127 * unit) by (nonlinear_arith)
            requires
                low <= 127,
        ;
    }
}

proof fn lemma_little_endian_bound(bytes: Seq<u8>)
    ensures
        bytes.len() == 8 ==> little_endian(bytes) <= u64::MAX,
{
    reveal_with_fuel(little_endian, 9);
    if bytes.len() == 8 {
        let b = bytes;
        assert(little_endian(b) <= u64::MAX);
    }
}

// ---------------------------------------------------------------------------
// Reading
// ---------------------------------------------------------------------------

/// A place in the bytes of a message.
struct ProtoReader<'a> {
    bytes: &'a [u8],
    pos: usize,
}

/// The value of a field as the reader hands it out.
enum RawValue<'a> {
    Varint(u64),
    Fixed64(u64),
    Len(&'a [u8]),
}

impl<'a> RawValue<'a> {
    spec fn value(self) -> FieldValue {
        match self {
            RawValue::Varint(value) => FieldValue::Varint(value),
            RawValue::Fixed64(value) => FieldValue::Fixed64(value),
            RawValue::Len(bytes) => FieldValue::Len(bytes@),
        }
    }
}

impl<'a> ProtoReader<'a> {
    spec fn wf(self) -> bool {
        self.pos <= self.bytes@.len()
    }

    fn new(bytes: &'a [u8]) -> (r: Self)
        ensures
            r.wf(),
            r.bytes == bytes,
            r.pos == 0,
    {
        ProtoReader { bytes, pos: 0 }
    }

    fn is_empty(&self) -> (r: bool)
        ensures
            r == (self.pos >= self.bytes@.len()),
    {
        self.pos >= self.bytes.len()
    }

    fn read_varint(&mut self) -> (r: Result<u64, DecodeError>)
        requires
            old(self).wf(),
        ensures
            final(self).wf(),
            final(self).bytes == old(self).bytes,
            r is Ok <==> varint_at(old(self).bytes@, old(self).pos as int) is Some,
            r matches Ok(value) ==> varint_at(old(self).bytes@, old(self).pos as int) == Some(
                (value, final(self).pos as int),
            ),
            r matches Err(err) ==> err is Malformed,
    {
        let ghost bytes = self.bytes@;
        let ghost start = self.pos as int;
        let mut out: u64 = 0;
        let mut unit: u64 = 1;
        let mut taken: usize = 0;
        assert(bytes.subrange(start, start) =~= seq![]);
        while self.pos < self.bytes.len()
            invariant
                self.bytes@ == bytes,
                self.bytes == old(self).bytes,
                self.pos == start + taken <= bytes.len(),
                taken <= 9,
                unit == pow128(taken as nat),
                out == varint_value(bytes.subrange(start, start + taken)),
                varint_end(bytes, start) == varint_end(bytes, self.pos as int),
                start == old(self).pos,
            decreases 10 - taken,
        {
            let b: u8 = self.bytes[self.pos];
            let ghost before = bytes.subrange(start, start + taken);
            let ghost after = bytes.subrange(start, start + taken + 1);
            proof {
                lemma_pow128();
                lemma_varint_value_bound(before);
                assert(after.drop_last() =~= before);
                assert(after.last() == b);
            }
            self.pos = self.pos + 1;
            let low: u64 = (b % 128) as u64;
            if taken == 9 {
                proof {
                    lemma_varint_end(bytes, self.pos as int);
                }
                if b >= 128 {
                    return Err(DecodeError::Malformed);
                }
                let top: u64 = low % 2;
                assert(low == 2 * (low / 2) + top);
                assert(low * 0x8000_0000_0000_0000 == (low / 2) * 0x1_0000_0000_0000_0000 + top
                    * 0x8000_0000_0000_0000);
                assert(varint_value(after) % 0x1_0000_0000_0000_0000 == out + top
                    * 0x8000_0000_0000_0000);
                return Ok(out + top * 0x8000_0000_0000_0000);
            }
            assert(low * unit <= 127 * unit) by (nonlinear_arith)
                requires
                    low <= 127,
            ;
            out = out + low * unit;
            if b < 128 {
                assert(out < 0x1_0000_0000_0000_0000);
                return Ok(out);
            }
            unit = unit * 128;
            taken = taken + 1;
        }
        Err(DecodeError::Malformed)
    }

    fn read_key(&mut self) -> (r: Result<(u64, Wire), DecodeError>)
        requires
            old(self).wf(),
        ensures
            final(self).wf(),
            final(self).bytes == old(self).bytes,
            r is Ok <==> key_at(old(self).bytes@, old(self).pos as int) is Some,
            r matches Ok((number, wire)) ==> key_at(old(self).bytes@, old(self).pos as int) == Some(
                (number, wire, final(self).pos as int),
            ),
            r matches Err(err) ==> err is Malformed,
    {
        let key: u64 = match self.read_varint() {
            Ok(key) => key,
            Err(err) => return Err(err),
        };
        let wire = if key % 8 == 0 {
            Wire::Varint
        } else if key % 8 == 1 {
            Wire::Fixed64
        } else if key % 8 == 2 {
            Wire::Len
        } else {
            return Err(DecodeError::Malformed);
        };
        Ok((key / 8, wire))
    }

    fn read_len(&mut self) -> (r: Result<&'a [u8], DecodeError>)
        requires
            old(self).wf(),
        ensures
            final(self).wf(),
            final(self).bytes == old(self).bytes,
            r is Ok <==> payload_at(old(self).bytes@, old(self).pos as int) is Some,
            r matches Ok(payload) ==> payload_at(old(self).bytes@, old(self).pos as int) == Some(
                (payload@, final(self).pos as int),
            ),
            r matches Err(err) ==> err is Malformed,
    {
        let len: usize = match self.read_varint() {
            Ok(len) => len as usize,
            Err(err) => return Err(err),
        };
        if len > self.bytes.len() - self.pos {
            return Err(DecodeError::Malformed);
        }
        let end: usize = self.pos + len;
        let payload = slice_subrange(self.bytes, self.pos, end);
        self.pos = end;
        Ok(payload)
    }

    fn read_fixed64(&mut self) -> (r: Result<u64, DecodeError>)
        requires
            old(self).wf(),
        ensures
            final(self).wf(),
            final(self).bytes == old(self).bytes,
            r is Ok <==> fixed64_at(old(self).bytes@, old(self).pos as int) is Some,
            r matches Ok(value) ==> fixed64_at(old(self).bytes@, old(self).pos as int) == Some(
                (value, final(self).pos as int),
            ),
            r matches Err(err) ==> err is Malformed,
    {
        if self.bytes.len() - self.pos < 8 {
            return Err(DecodeError::Malformed);
        }
        let ghost word = self.bytes@.subrange(self.pos as int, self.pos + 8);
        let from: usize = self.pos;
        let end: usize = from + 8;
        let mut value: u64 = 0;
        let mut left: usize = 8;
        proof {
            lemma_little_endian_bound(word);
            assert(word.skip(8) =~= seq![]);
        }
        while left > 0
            invariant
                self.bytes == old(self).bytes,
                self.pos == old(self).pos,
                from == self.pos,
                end == from + 8 <= self.bytes@.len(),
                word == self.bytes@.subrange(from as int, from + 8),
                left <= 8,
                value == little_endian(word.skip(left as int)),
                little_endian(word) <= u64::MAX,
            decreases left,
        {
            let b: u8 = self.bytes[from + (left - 1)];
            proof {
                assert(word.skip(left - 1).drop_first() =~= word.skip(left as int));
                assert(word.skip(left - 1)[0] == b);
                lemma_little_endian_tail(word, left - 1);
            }
            value = value * 256 + b as u64;
            left = left - 1;
        }
        assert(word.skip(0) =~= word);
        self.pos = end;
        Ok(value)
    }

    /// Reads a whole field.
    fn read_field(&mut self) -> (r: Result<(u64, RawValue<'a>), DecodeError>)
        requires
            old(self).wf(),
        ensures
            final(self).wf(),
            final(self).bytes == old(self).bytes,
            r is Ok <==> field_at(old(self).bytes@, old(self).pos as int) is Some,
            r matches Ok((number, value)) ==> {
                &&& field_at(old(self).bytes@, old(self).pos as int) == Some(
                    (Field { number, value: value.value() }, final(self).pos as int),
                )
                &&& old(self).pos < final(self).pos
            },
            r matches Err(err) ==> err is Malformed,
    {
        proof {
            lemma_field_end(self.bytes@, self.pos as int);
        }
        let (number, wire) = match self.read_key() {
            Ok(key) => key,
            Err(err) => return Err(err),
        };
        match wire {
            Wire::Varint => match self.read_varint() {
                Ok(value) => Ok((number, RawValue::Varint(value))),
                Err(err) => Err(err),
            },
            Wire::Fixed64 => match self.read_fixed64() {
                Ok(value) => Ok((number, RawValue::Fixed64(value))),
                Err(err) => Err(err),
            },
            Wire::Len => match self.read_len() {
                Ok(value) => Ok((number, RawValue::Len(value))),
                Err(err) => Err(err),
            },
        }
    }
}

proof fn lemma_little_endian_tail(word: Seq<u8>, from: int)
    requires
        0 <= from <= word.len(),
    ensures
        little_endian(word.skip(from)) <= little_endian(word),
    decreases from,
{
    if from == 0 {
        assert(word.skip(0) =~= word);
    } else {
        lemma_little_endian_tail(word, from - 1);
        assert(word.skip(from - 1).drop_first() =~= word.skip(from));
    }
}

// ---------------------------------------------------------------------------
// Messages
// ---------------------------------------------------------------------------

/// The bytes of a field with this number.
pub open spec fn payload_of(field: Field, number: u64) -> Option<Seq<u8>> {
    match field.value {
        FieldValue::Len(payload) => if field.number == number {
            Some(payload)
        } else {
            None
        },
        _ => None,
    }
}

/// The bytes of the last field with this number.
pub open spec fn last_payload(fields: Seq<Field>, number: u64) -> Option<Seq<u8>>
    decreases fields.len(),
{
    if fields.len() == 0 {
        None
    } else if payload_of(fields.last(), number) is Some {
        payload_of(fields.last(), number)
    } else {
        last_payload(fields.drop_last(), number)
    }
}

/// The number in the last eight-byte field with this number, 0 where there is none.
pub open spec fn last_fixed64(fields: Seq<Field>, number: u64) -> u64
    decreases fields.len(),
{
    if fields.len() == 0 {
        0
    } else if fields.last().value is Fixed64 && fields.last().number == number {
        fields.last().value->Fixed64_0
    } else {
        last_fixed64(fields.drop_last(), number)
    }
}

/// The number in the last varint field with this number.
pub open spec fn last_varint(fields: Seq<Field>, number: u64) -> Option<u64>
    decreases fields.len(),
{
    if fields.len() == 0 {
        None
    } else if fields.last().value is Varint && fields.last().number == number {
        Some(fields.last().value->Varint_0)
    } else {
        last_varint(fields.drop_last(), number)
    }
}

/// The status that a code stands for.
pub open spec fn status_of_code(code: Option<u64>) -> SpanStatus {
    if code == Some(1u64) {
        SpanStatus::Okay
    } else if code == Some(2u64) {
        SpanStatus::Error
    } else {
        SpanStatus::Unset
    }
}

/// The status message: its code is field 3.
pub open spec fn status_of(bytes: Seq<u8>) -> Option<SpanStatus> {
    match fields_of(bytes) {
        Some(fields) => Some(status_of_code(last_varint(fields, 3))),
        None => None,
    }
}

/// A 64-bit pattern read as a two's complement number.
pub open spec fn as_signed(value: u64) -> int {
    if value < 0x8000_0000_0000_0000 {
        value as int
    } else {
        value - 0x1_0000_0000_0000_0000
    }
}

/// What a field of a value message says: text, a number, or a flag.
pub open spec fn value_text(field: Field) -> Option<Seq<char>> {
    match field.value {
        FieldValue::Len(payload) => if field.number == 1 {
            Some(bytes_text(payload))
        } else {
            None
        },
        FieldValue::Varint(value) => if field.number == 3 {
            Some(number::signed_text(as_signed(value)))
        } else if field.number == 4 {
            Some(number::flag_text(value != 0))
        } else {
            None
        },
        FieldValue::Fixed64(_) => None,
    }
}

/// What the first field from `pos` on says that says something.
pub open spec fn any_value_from(bytes: Seq<u8>, pos: int) -> Option<Seq<char>>
    decreases bytes.len() - pos,
{
    if pos >= bytes.len() {
        Some(seq![])
    } else {
        match field_at(bytes, pos) {
            Some((field, end)) => if value_text(field) is Some {
                value_text(field)
            } else if pos < end <= bytes.len() {
                any_value_from(bytes, end)
            } else {
                None
            },
            None => None,
        }
    }
}

/// A value message as text; nothing where it is malformed before it says something.
pub open spec fn any_value(bytes: Seq<u8>) -> Option<Seq<char>> {
    any_value_from(bytes, 0)
}

/// Every value in the fields of an attribute can be read.
pub open spec fn values_read(fields: Seq<Field>) -> bool {
    forall|i: int|
        0 <= i < fields.len() ==> (payload_of(#[trigger] fields[i], 2) matches Some(payload)
            ==> any_value(payload) is Some)
}

/// The text of a payload, empty where there is none.
pub open spec fn payload_text(payload: Option<Seq<u8>>) -> Seq<char> {
    match payload {
        Some(bytes) => bytes_text(bytes),
        None => seq![],
    }
}

/// The value in a payload, empty where there is none.
pub open spec fn payload_value(payload: Option<Seq<u8>>) -> Seq<char> {
    match payload {
        Some(bytes) => any_value(bytes)->0,
        None => seq![],
    }
}

/// An attribute message: its key is field 1 and its value field 2.
pub open spec fn attr_of(bytes: Seq<u8>) -> Option<(Seq<char>, Seq<char>)> {
    match fields_of(bytes) {
        Some(fields) => if values_read(fields) {
            Some((payload_text(last_payload(fields, 1)), payload_value(last_payload(fields, 2))))
        } else {
            None
        },
        None => None,
    }
}

/// Every attribute and every status in the fields of a span can be read.
pub open spec fn parts_read(fields: Seq<Field>) -> bool {
    forall|i: int|
        #![trigger fields[i]]
        0 <= i < fields.len() ==> {
            &&& payload_of(fields[i], 9) matches Some(payload) ==> attr_of(payload) is Some
            &&& payload_of(fields[i], 15) matches Some(payload) ==> status_of(payload) is Some
        }
}

/// The value of the last attribute with this key.
pub open spec fn last_attr(fields: Seq<Field>, key: Seq<char>) -> Option<Seq<char>>
    decreases fields.len(),
{
    if fields.len() == 0 {
        None
    } else {
        match payload_of(fields.last(), 9) {
            Some(payload) => if (attr_of(payload)->0).0 == key {
                Some((attr_of(payload)->0).1)
            } else {
                last_attr(fields.drop_last(), key)
            },
            None => last_attr(fields.drop_last(), key),
        }
    }
}

/// The last status of a span, unset where there is none.
pub open spec fn last_status(fields: Seq<Field>) -> SpanStatus {
    match last_payload(fields, 15) {
        Some(payload) => status_of(payload)->0,
        None => SpanStatus::Unset,
    }
}

/// The text of an optional value, empty where there is none.
pub open spec fn or_empty(value: Option<Seq<char>>) -> Seq<char> {
    match value {
        Some(inner) => inner,
        None => seq![],
    }
}

/// The face that an attribute names: a decimal number, else none.
pub open spec fn face_of(value: Option<Seq<char>>) -> Option<int> {
    match value {
        Some(inner) => number::read_signed(inner),
        None => None,
    }
}

/// An optional number as a mathematical integer.
pub open spec fn opt_int(value: Option<i64>) -> Option<int> {
    match value {
        Some(inner) => Some(inner as int),
        None => None,
    }
}

/// The hexadecimal text of an optional id.
pub open spec fn opt_hex(id: Option<Seq<u8>>) -> Option<Seq<char>> {
    match id {
        Some(bytes) => Some(number::hex_bytes(bytes)),
        None => None,
    }
}

/// The bytes are a span message whose parts can all be read.
pub open spec fn is_span_message(bytes: Seq<u8>) -> bool {
    fields_of(bytes) matches Some(fields) && parts_read(fields)
}

/// The first of the fields that every span has and that is not there.
pub open spec fn missing_field(fields: Seq<Field>) -> Option<Seq<char>> {
    if last_payload(fields, 1) is None {
        Some("trace_id"@)
    } else if last_payload(fields, 2) is None {
        Some("span_id"@)
    } else if last_payload(fields, 5) is None {
        Some("name"@)
    } else {
        None
    }
}

/// The microseconds between two times in nanoseconds, 0 where the end comes first.
pub open spec fn elapsed_us(start: u64, end: u64) -> int {
    if end < start {
        0
    } else {
        (end - start) / 1000
    }
}

/// The span that the fields of a message tell.
pub open spec fn tells(fields: Seq<Field>, span: SpanView) -> bool {
    &&& span.trace_id@ == number::hex_bytes(last_payload(fields, 1)->0)
    &&& span.span_id@ == number::hex_bytes(last_payload(fields, 2)->0)
    &&& text::opt_text(span.parent_span_id) == opt_hex(last_payload(fields, 4))
    &&& span.name@ == bytes_text(last_payload(fields, 5)->0)
    &&& span.target@ == or_empty(last_attr(fields, "ndn.target"@))
    &&& text::opt_text(span.interest_name) == last_attr(fields, "interest.name"@)
    &&& opt_int(span.face_id) == face_of(last_attr(fields, "face.id"@))
    &&& text::opt_text(span.strategy) == last_attr(fields, "strategy.name"@)
    &&& span.status == last_status(fields)
    &&& span.duration_us == elapsed_us(last_fixed64(fields, 7), last_fixed64(fields, 8))
}

/// The fields of `bytes` are those in `done` and then those from `pos` on.
spec fn read_up_to(bytes: Seq<u8>, pos: int, done: Seq<Field>) -> bool {
    &&& 0 <= pos <= bytes.len()
    &&& fields_of(bytes) is Some <==> fields_from(bytes, pos) is Some
    &&& fields_of(bytes) is Some ==> fields_of(bytes)->0 == done + fields_from(bytes, pos)->0
}

proof fn lemma_read_one(bytes: Seq<u8>, pos: int, done: Seq<Field>)
    requires
        read_up_to(bytes, pos, done),
        pos < bytes.len(),
    ensures
        field_at(bytes, pos) is None ==> fields_of(bytes) is None,
        field_at(bytes, pos) matches Some((field, end)) ==> pos < end && read_up_to(
            bytes,
            end,
            done.push(field),
        ),
{
    lemma_field_end(bytes, pos);
    if let Some((field, end)) = field_at(bytes, pos) {
        if let Some(rest) = fields_from(bytes, end) {
            assert(done + (seq![field] + rest) =~= done.push(field) + rest);
        }
    }
}

proof fn lemma_read_all(bytes: Seq<u8>, pos: int, done: Seq<Field>)
    requires
        read_up_to(bytes, pos, done),
        pos >= bytes.len(),
    ensures
        fields_of(bytes) == Some(done),
{
    assert(done + seq![] =~= done);
}

proof fn lemma_part_of_message(bytes: Seq<u8>, pos: int, done: Seq<Field>, i: int)
    requires
        read_up_to(bytes, pos, done),
        fields_of(bytes) is Some,
        0 <= i < done.len(),
    ensures
        i < (fields_of(bytes)->0).len(),
        (fields_of(bytes)->0)[i] == done[i],
{
}

fn decode_status(bytes: &[u8]) -> (r: Result<SpanStatus, DecodeError>)
    ensures
        r is Ok <==> status_of(bytes@) is Some,
        r matches Ok(status) ==> status_of(bytes@) == Some(status),
        r matches Err(err) ==> err is Malformed,
{
    let mut reader = ProtoReader::new(bytes);
    let mut status = SpanStatus::Unset;
    let ghost mut done: Seq<Field> = seq![];
    assert(fields_of(bytes@) is Some ==> fields_of(bytes@)->0 =~= done + fields_from(bytes@, 0)->0);
    while !reader.is_empty()
        invariant
            reader.wf(),
            reader.bytes@ == bytes@,
            read_up_to(bytes@, reader.pos as int, done),
            status == status_of_code(last_varint(done, 3)),
        decreases bytes@.len() - reader.pos,
    {
        proof {
            lemma_read_one(bytes@, reader.pos as int, done);
        }
        let (number, value) = match reader.read_field() {
            Ok(field) => field,
            Err(err) => return Err(err),
        };
        let ghost field = Field { number, value: value.value() };
        assert(done.push(field).drop_last() =~= done);
        proof {
            done = done.push(field);
        }
        if number == 3 {
            if let RawValue::Varint(code) = value {
                status = if code == 1 {
                    SpanStatus::Okay
                } else if code == 2 {
                    SpanStatus::Error
                } else {
                    SpanStatus::Unset
                };
            }
        }
    }
    proof {
        lemma_read_all(bytes@, reader.pos as int, done);
    }
    Ok(status)
}

/// The bits of a number read as a two's complement number.
fn signed_bits(value: u64) -> (r: i64)
    ensures
        r == as_signed(value),
{
    if value < 0x8000_0000_0000_0000 {
        value as i64
    } else {
        -((0xffff_ffff_ffff_ffff - value) as i64) - 1
    }
}

fn decode_any_value(bytes: &[u8]) -> (r: Result<String, DecodeError>)
    ensures
        r is Ok <==> any_value(bytes@) is Some,
        r matches Ok(value) ==> any_value(bytes@) == Some(value@),
        r matches Err(err) ==> err is Malformed,
{
    let mut reader = ProtoReader::new(bytes);
    while !reader.is_empty()
        invariant
            reader.wf(),
            reader.bytes@ == bytes@,
            any_value(bytes@) == any_value_from(bytes@, reader.pos as int),
        decreases bytes@.len() - reader.pos,
    {
        let (number, value) = match reader.read_field() {
            Ok(field) => field,
            Err(err) => return Err(err),
        };
        match value {
            RawValue::Len(payload) => {
                if number == 1 {
                    return Ok(read_text(payload));
                }
            },
            RawValue::Varint(bits) => {
                if number == 3 {
                    return Ok(decimal_signed(signed_bits(bits)));
                }
                if number == 4 {
                    return Ok(flag(bits != 0));
                }
            },
            RawValue::Fixed64(_) => {},
        }
    }
    Ok(String::new())
}

fn decode_attr(bytes: &[u8]) -> (r: Result<(String, String), DecodeError>)
    ensures
        r is Ok <==> attr_of(bytes@) is Some,
        r matches Ok((key, value)) ==> attr_of(bytes@) == Some((key@, value@)),
        r matches Err(err) ==> err is Malformed,
{
    let mut reader = ProtoReader::new(bytes);
    let mut key = String::new();
    let mut value = String::new();
    let ghost mut done: Seq<Field> = seq![];
    assert(fields_of(bytes@) is Some ==> fields_of(bytes@)->0 =~= done + fields_from(bytes@, 0)->0);
    while !reader.is_empty()
        invariant
            reader.wf(),
            reader.bytes@ == bytes@,
            read_up_to(bytes@, reader.pos as int, done),
            values_read(done),
            key@ == payload_text(last_payload(done, 1)),
            value@ == payload_value(last_payload(done, 2)),
        decreases bytes@.len() - reader.pos,
    {
        proof {
            lemma_read_one(bytes@, reader.pos as int, done);
        }
        let (number, raw) = match reader.read_field() {
            Ok(field) => field,
            Err(err) => return Err(err),
        };
        let ghost field = Field { number, value: raw.value() };
        assert(done.push(field).drop_last() =~= done);
        proof {
            done = done.push(field);
        }
        if let RawValue::Len(payload) = raw {
            if number == 1 {
                key = read_text(payload);
            } else if number == 2 {
                value = match decode_any_value(payload) {
                    Ok(value) => value,
                    Err(err) => {
                        proof {
                            assert(payload_of(done.last(), 2) == Some(payload@));
                            if fields_of(bytes@) is Some {
                                lemma_part_of_message(
                                    bytes@,
                                    reader.pos as int,
                                    done,
                                    done.len() - 1,
                                );
                            }
                        }
                        return Err(err);
                    },
                };
            }
        }
    }
    proof {
        lemma_read_all(bytes@, reader.pos as int, done);
    }
    Ok((key, value))
}

/// The attributes of a span that the dashboard shows.
pub struct SpanAttributes {
    pub target: String,
    pub interest_name: Option<String>,
    pub face_id: Option<i64>,
    pub strategy: Option<String>,
}

impl SpanAttributes {
    pub fn new() -> (r: Self)
        ensures
            r.target@ == Seq::<char>::empty(),
            r.interest_name is None,
            r.face_id is None,
            r.strategy is None,
    {
        SpanAttributes {
            target: String::new(),
            interest_name: None,
            face_id: None,
            strategy: None,
        }
    }

    /// Takes over an attribute; one with another key is passed over.
    pub fn set(&mut self, key: &str, value: String)
        ensures
            final(self).target@ == (if key@ == "ndn.target"@ {
                value@
            } else {
                old(self).target@
            }),
            text::opt_text(final(self).interest_name) == (if key@ == "interest.name"@ {
                Some(value@)
            } else {
                text::opt_text(old(self).interest_name)
            }),
            opt_int(final(self).face_id) == (if key@ == "face.id"@ {
                number::read_signed(value@)
            } else {
                opt_int(old(self).face_id)
            }),
            text::opt_text(final(self).strategy) == (if key@ == "strategy.name"@ {
                Some(value@)
            } else {
                text::opt_text(old(self).strategy)
            }),
    {
        proof {
            reveal_strlit("ndn.target");
            reveal_strlit("interest.name");
            reveal_strlit("face.id");
            reveal_strlit("strategy.name");
            assert("ndn.target"@.len() == 10 && "face.id"@.len() == 7);
            assert("interest.name"@[0] == 'i' && "strategy.name"@[0] == 's');
        }
        if same_text(key, "ndn.target") {
            self.target = value;
        } else if same_text(key, "interest.name") {
            self.interest_name = Some(value);
        } else if same_text(key, "face.id") {
            self.face_id = parse_i64(value.as_str());
        } else if same_text(key, "strategy.name") {
            self.strategy = Some(value);
        }
    }
}

pub fn decode_otlp_span(bytes: &[u8]) -> (r: Result<SpanView, DecodeError>)
    ensures
        r is Ok <==> is_span_message(bytes@) && missing_field(fields_of(bytes@)->0) is None,
        r matches Ok(span) ==> tells(fields_of(bytes@)->0, span),
        r matches Err(DecodeError::Malformed) ==> !is_span_message(bytes@),
        r matches Err(DecodeError::MissingField(field)) ==> is_span_message(bytes@)
            && missing_field(fields_of(bytes@)->0) == Some(field@),
{
    let mut reader = ProtoReader::new(bytes);
    let mut trace_id: Option<String> = None;
    let mut span_id: Option<String> = None;
    let mut parent_span_id: Option<String> = None;
    let mut name: Option<String> = None;
    let mut start: u64 = 0;
    let mut end: u64 = 0;
    let mut attributes = SpanAttributes::new();
    let mut status = SpanStatus::Unset;
    let ghost mut done: Seq<Field> = seq![];
    assert(fields_of(bytes@) is Some ==> fields_of(bytes@)->0 =~= done + fields_from(bytes@, 0)->0);
    while !reader.is_empty()
        invariant
            reader.wf(),
            reader.bytes@ == bytes@,
            read_up_to(bytes@, reader.pos as int, done),
            parts_read(done),
            text::opt_text(trace_id) == opt_hex(last_payload(done, 1)),
            text::opt_text(span_id) == opt_hex(last_payload(done, 2)),
            text::opt_text(parent_span_id) == opt_hex(last_payload(done, 4)),
            name is Some <==> last_payload(done, 5) is Some,
            name matches Some(text) ==> text@ == bytes_text(last_payload(done, 5)->0),
            start == last_fixed64(done, 7),
            end == last_fixed64(done, 8),
            attributes.target@ == or_empty(last_attr(done, "ndn.target"@)),
            text::opt_text(attributes.interest_name) == last_attr(done, "interest.name"@),
            opt_int(attributes.face_id) == face_of(last_attr(done, "face.id"@)),
            text::opt_text(attributes.strategy) == last_attr(done, "strategy.name"@),
            status == last_status(done),
        decreases bytes@.len() - reader.pos,
    {
        proof {
            lemma_read_one(bytes@, reader.pos as int, done);
        }
        let (number, raw) = match reader.read_field() {
            Ok(field) => field,
            Err(err) => return Err(err),
        };
        let ghost field = Field { number, value: raw.value() };
        let ghost before = done;
        assert(done.push(field).drop_last() =~= done);
        proof {
            done = done.push(field);
        }
        match raw {
            RawValue::Len(payload) => {
                if number == 1 {
                    trace_id = Some(hex_of_bytes(payload));
                } else if number == 2 {
                    span_id = Some(hex_of_bytes(payload));
                } else if number == 4 {
                    parent_span_id = Some(hex_of_bytes(payload));
                } else if number == 5 {
                    name = Some(read_text(payload));
                } else if number == 9 {
                    match decode_attr(payload) {
                        Ok((key, value)) => {
                            attributes.set(key.as_str(), value);
                        },
                        Err(err) => {
                            proof {
                                assert(payload_of(done.last(), 9) == Some(payload@));
                                if fields_of(bytes@) is Some {
                                    lemma_part_of_message(
                                        bytes@,
                                        reader.pos as int,
                                        done,
                                        done.len() - 1,
                                    );
                                }
                            }
                            return Err(err);
                        },
                    }
                } else if number == 15 {
                    status = match decode_status(payload) {
                        Ok(status) => status,
                        Err(err) => {
                            proof {
                                assert(payload_of(done.last(), 15) == Some(payload@));
                                if fields_of(bytes@) is Some {
                                    lemma_part_of_message(
                                        bytes@,
                                        reader.pos as int,
                                        done,
                                        done.len() - 1,
                                    );
                                }
                            }
                            return Err(err);
                        },
                    };
                }
            },
            RawValue::Fixed64(value) => {
                if number == 7 {
                    start = value;
                } else if number == 8 {
                    end = value;
                }
            },
            RawValue::Varint(_) => {},
        }
    }
    proof {
        lemma_read_all(bytes@, reader.pos as int, done);
    }
    let trace_id = match trace_id {
        Some(id) => id,
        None => return Err(DecodeError::MissingField("trace_id")),
    };
    let span_id = match span_id {
        Some(id) => id,
        None => return Err(DecodeError::MissingField("span_id")),
    };
    let name = match name {
        Some(name) => name,
        None => return Err(DecodeError::MissingField("name")),
    };
    Ok(
        SpanView {
            trace_id,
            span_id,
            parent_span_id,
            name,
            target: attributes.target,
            interest_name: attributes.interest_name,
            face_id: attributes.face_id,
            strategy: attributes.strategy,
            status,
            duration_us: if end < start {
                0
            } else {
                (end - start) / 1000
            },
        },
    )
}

// ---------------------------------------------------------------------------
// Laws
// ---------------------------------------------------------------------------

/// A span shows something of the field.
pub open spec fn is_shown(field: Field) -> bool {
    match field.value {
        FieldValue::Len(_) => field.number == 1 || field.number == 2 || field.number == 4
            || field.number == 5 || field.number == 9 || field.number == 15,
        FieldValue::Fixed64(_) => field.number == 7 || field.number == 8,
        FieldValue::Varint(_) => false,
    }
}

/// The fields that a span shows something of.
pub open spec fn shown_fields(fields: Seq<Field>) -> Seq<Field> {
    fields.filter(|field: Field| is_shown(field))
}

proof fn lemma_parts_read_push(fields: Seq<Field>, field: Field)
    ensures
        parts_read(fields.push(field)) <==> parts_read(fields) && parts_read(seq![field]),
{
    let all = fields.push(field);
    if parts_read(all) {
        assert forall|i: int| #![trigger fields[i]] 0 <= i < fields.len() implies {
            &&& payload_of(fields[i], 9) matches Some(payload) ==> attr_of(payload) is Some
            &&& payload_of(fields[i], 15) matches Some(payload) ==> status_of(payload) is Some
        } by {
            assert(all[i] == fields[i]);
        }
        assert(all[fields.len() as int] == field);
    }
    if parts_read(fields) && parts_read(seq![field]) {
        assert(seq![field][0] == field);
        assert forall|i: int| #![trigger all[i]] 0 <= i < all.len() implies {
            &&& payload_of(all[i], 9) matches Some(payload) ==> attr_of(payload) is Some
            &&& payload_of(all[i], 15) matches Some(payload) ==> status_of(payload) is Some
        } by {
            if i < fields.len() {
                assert(all[i] == fields[i]);
            }
        }
    }
}

proof fn lemma_shown_fields(fields: Seq<Field>, key: Seq<char>)
    ensures
        last_payload(shown_fields(fields), 1) == last_payload(fields, 1),
        last_payload(shown_fields(fields), 2) == last_payload(fields, 2),
        last_payload(shown_fields(fields), 4) == last_payload(fields, 4),
        last_payload(shown_fields(fields), 5) == last_payload(fields, 5),
        last_payload(shown_fields(fields), 15) == last_payload(fields, 15),
        last_fixed64(shown_fields(fields), 7) == last_fixed64(fields, 7),
        last_fixed64(shown_fields(fields), 8) == last_fixed64(fields, 8),
        last_attr(shown_fields(fields), key) == last_attr(fields, key),
        parts_read(shown_fields(fields)) == parts_read(fields),
    decreases fields.len(),
{
    reveal(Seq::filter);
    if fields.len() > 0 {
        let before = fields.drop_last();
        let field = fields.last();
        lemma_shown_fields(before, key);
        assert(fields =~= before.push(field));
        lemma_parts_read_push(before, field);
        if is_shown(field) {
            assert(shown_fields(fields) == shown_fields(before).push(field));
            assert(shown_fields(fields).drop_last() =~= shown_fields(before));
            lemma_parts_read_push(shown_fields(before), field);
        } else {
            assert(shown_fields(fields) == shown_fields(before));
        }
    }
}

/// Fields that a span shows nothing of are skipped: whatever they hold, the
/// other fields tell the same span, and lack or break the same parts.
pub proof fn other_fields_are_skipped(fields: Seq<Field>, span: SpanView)
    ensures
        tells(shown_fields(fields), span) == tells(fields, span),
        missing_field(shown_fields(fields)) == missing_field(fields),
        parts_read(shown_fields(fields)) == parts_read(fields),
{
    lemma_shown_fields(fields, "ndn.target"@);
    lemma_shown_fields(fields, "interest.name"@);
    lemma_shown_fields(fields, "face.id"@);
    lemma_shown_fields(fields, "strategy.name"@);
}

// ---------------------------------------------------------------------------
// Writing messages
// ---------------------------------------------------------------------------

/// A number as a varint is written: seven bits in a byte, the lowest first, and
/// every byte but the last marked as going on.
pub open spec fn varint_bytes(n: nat) -> Seq<u8>
    decreases n,
{
    if n < 128 {
        seq![n as u8]
    } else {
        seq![(128 + n % 128) as u8] + varint_bytes(n / 128)
    }
}

/// The `len` low bytes of a number, the lowest first.
pub open spec fn low_bytes(n: nat, len: nat) -> Seq<u8>
    decreases len,
{
    if len == 0 {
        seq![]
    } else {
        seq![(n % 256) as u8] + low_bytes(n / 256, (len - 1) as nat)
    }
}

/// A field as it is written: its number and wire type, then its value.
pub open spec fn field_bytes(field: Field) -> Seq<u8> {
    match field.value {
        FieldValue::Varint(value) => varint_bytes((field.number * 8) as nat) + varint_bytes(
            value as nat,
        ),
        FieldValue::Fixed64(value) => varint_bytes((field.number * 8 + 1) as nat) + low_bytes(
            value as nat,
            8,
        ),
        FieldValue::Len(payload) => varint_bytes((field.number * 8 + 2) as nat) + (varint_bytes(
            payload.len(),
        ) + payload),
    }
}

/// A message as it is written: field after field.
pub open spec fn message_bytes(fields: Seq<Field>) -> Seq<u8>
    decreases fields.len(),
{
    if fields.len() == 0 {
        seq![]
    } else {
        field_bytes(fields[0]) + message_bytes(fields.drop_first())
    }
}

/// The field can be written: its number fits beside the wire type, and its
/// length is one that a slice can have.
pub open spec fn can_be_written(field: Field) -> bool {
    &&& field.number < 0x2000_0000_0000_0000
    &&& field.value matches FieldValue::Len(payload) ==> payload.len() <= usize::MAX
}

proof fn lemma_pow128_grows(a: nat, b: nat)
    requires
        a <= b,
    ensures
        1 <= pow128(a) <= pow128(b),
    decreases b,
{
    if a < b {
        lemma_pow128_grows(a, (b - 1) as nat);
    } else if a > 0 {
        lemma_pow128_grows((a - 1) as nat, (a - 1) as nat);
    }
}

proof fn lemma_varint_value_front(first: u8, rest: Seq<u8>)
    ensures
        varint_value(seq![first] + rest) == (first % 128) as nat + 128 * varint_value(rest),
    decreases rest.len(),
{
    let all = seq![first] + rest;
    if rest.len() == 0 {
        assert(all.drop_last() =~= seq![]);
        assert(all.last() == first);
        assert(varint_value(all.drop_last()) == 0);
        assert(pow128(0) == 1);
        assert(varint_value(rest) == 0);
        let low = (first % 128) as nat;
        assert(varint_value(all) == 0 + low * pow128(0));
        assert(low * 1 == low);
    } else {
        let before = rest.drop_last();
        lemma_varint_value_front(first, before);
        assert(all.drop_last() =~= seq![first] + before);
        assert(all.last() == rest.last());
        let low = (rest.last() % 128) as nat;
        let unit = pow128((rest.len() - 1) as nat);
        assert(pow128(rest.len()) == 128 * unit);
        assert(low * (128 * unit) == 128 * (low * unit)) by (nonlinear_arith);
        assert(varint_value(rest) == varint_value(before) + low * unit);
        assert((all.len() - 1) as nat == rest.len());
        assert(varint_value(all) == varint_value(all.drop_last()) + low * pow128(rest.len()));
    }
}

proof fn lemma_varint_bytes(n: nat, k: nat)
    requires
        k > 0,
        n < pow128(k),
    ensures
        1 <= varint_bytes(n).len() <= k,
        varint_value(varint_bytes(n)) == n,
        varint_bytes(n).last() < 128,
        forall|i: int|
            0 <= i < varint_bytes(n).len() - 1 ==> #[trigger] varint_bytes(n)[i] >= 128,
    decreases n,
{
    let bytes = varint_bytes(n);
    if n < 128 {
        assert(bytes =~= seq![n as u8] + seq![]);
        lemma_varint_value_front(n as u8, seq![]);
        assert(varint_value(Seq::<u8>::empty()) == 0);
    } else {
        if k == 1 {
            assert(pow128(1) == 128) by {
                reveal_with_fuel(pow128, 2);
            }
        }
        let rest = varint_bytes(n / 128);
        let first = (128 + n % 128) as u8;
        assert(pow128(k) == 128 * pow128((k - 1) as nat));
        lemma_varint_bytes(n / 128, (k - 1) as nat);
        lemma_varint_value_front(first, rest);
        assert(bytes == seq![first] + rest);
        assert forall|i: int| 0 <= i < bytes.len() - 1 implies #[trigger] bytes[i] >= 128 by {
            if i > 0 {
                assert(bytes[i] == rest[i - 1]);
            }
        }
        assert(bytes.last() == rest.last());
    }
}

proof fn lemma_varint_end_is(bytes: Seq<u8>, pos: int, end: int)
    requires
        0 <= pos < end <= bytes.len(),
        forall|i: int| pos <= i < end - 1 ==> #[trigger] bytes[i] >= 128,
        bytes[end - 1] < 128,
    ensures
        varint_end(bytes, pos) == Some(end),
    decreases end - pos,
{
    if pos < end - 1 {
        assert(bytes[pos] >= 128);
        lemma_varint_end_is(bytes, pos + 1, end);
    }
}

/// A varint that was written is read back, and the place behind it is found.
pub proof fn varints_are_read_back(bytes: Seq<u8>, pos: int, n: u64)
    requires
        0 <= pos,
        pos + varint_bytes(n as nat).len() <= bytes.len(),
        bytes.subrange(pos, pos + varint_bytes(n as nat).len()) == varint_bytes(n as nat),
    ensures
        varint_at(bytes, pos) == Some((n, pos + varint_bytes(n as nat).len())),
{
    let written = varint_bytes(n as nat);
    lemma_pow128();
    assert(pow128(10) == 128 * pow128(9));
    lemma_varint_bytes(n as nat, 10);
    let end = pos + written.len();
    let piece = bytes.subrange(pos, end);
    assert forall|i: int| pos <= i < end - 1 implies #[trigger] bytes[i] >= 128 by {
        assert(piece[i - pos] == bytes[i]);
    }
    assert(piece[written.len() - 1] == bytes[end - 1]);
    lemma_varint_end_is(bytes, pos, end);
}

/// 256 to the power of `n`.
spec fn pow256(n: nat) -> nat
    decreases n,
{
    if n == 0 {
        1
    } else {
        256 * pow256((n - 1) as nat)
    }
}

proof fn lemma_low_bytes(n: nat, len: nat)
    requires
        n < pow256(len),
    ensures
        low_bytes(n, len).len() == len,
        little_endian(low_bytes(n, len)) == n,
    decreases len,
{
    if len > 0 {
        let rest = low_bytes(n / 256, (len - 1) as nat);
        assert(pow256(len) == 256 * pow256((len - 1) as nat));
        lemma_low_bytes(n / 256, (len - 1) as nat);
        let all = low_bytes(n, len);
        assert(all == seq![(n % 256) as u8] + rest);
        assert(all.drop_first() =~= rest);
    }
}

proof fn lemma_field_read_back(bytes: Seq<u8>, pos: int, field: Field)
    requires
        0 <= pos,
        pos + field_bytes(field).len() <= bytes.len(),
        bytes.subrange(pos, pos + field_bytes(field).len()) == field_bytes(field),
        can_be_written(field),
    ensures
        field_at(bytes, pos) == Some((field, pos + field_bytes(field).len())),
        field_bytes(field).len() > 0,
{
    let written = field_bytes(field);
    let wire: int = match field.value {
        FieldValue::Varint(_) => 0,
        FieldValue::Fixed64(_) => 1,
        FieldValue::Len(_) => 2,
    };
    let key = (field.number * 8 + wire) as u64;
    let head = varint_bytes(key as nat);
    lemma_pow128();
    assert(pow128(10) == 128 * pow128(9));
    lemma_varint_bytes(key as nat, 10);
    let piece = bytes.subrange(pos, pos + written.len());
    let from = pos + head.len();
    assert(bytes.subrange(pos, from) =~= head) by {
        assert(piece.subrange(0, head.len() as int) =~= head);
        assert(piece.subrange(0, head.len() as int) =~= bytes.subrange(pos, from));
    }
    varints_are_read_back(bytes, pos, key);
    assert(key % 8 == wire && key / 8 == field.number);
    match field.value {
        FieldValue::Varint(value) => {
            let body = varint_bytes(value as nat);
            assert(bytes.subrange(from, from + body.len()) =~= body) by {
                assert(piece.subrange(head.len() as int, written.len() as int) =~= body);
                assert(piece.subrange(head.len() as int, written.len() as int) =~= bytes.subrange(
                    from,
                    from + body.len(),
                ));
            }
            varints_are_read_back(bytes, from, value);
        },
        FieldValue::Fixed64(value) => {
            let body = low_bytes(value as nat, 8);
            assert(pow256(8) == 0x1_0000_0000_0000_0000) by {
                reveal_with_fuel(pow256, 9);
            }
            lemma_low_bytes(value as nat, 8);
            assert(bytes.subrange(from, from + 8) =~= body) by {
                assert(piece.subrange(head.len() as int, written.len() as int) =~= body);
                assert(piece.subrange(head.len() as int, written.len() as int) =~= bytes.subrange(
                    from,
                    from + 8,
                ));
            }
        },
        FieldValue::Len(payload) => {
            let count = varint_bytes(payload.len());
            let body = count + payload;
            let start = from + count.len();
            assert(piece.subrange(head.len() as int, written.len() as int) =~= body);
            assert(bytes.subrange(from, start) =~= count) by {
                assert(body.subrange(0, count.len() as int) =~= count);
                assert(bytes.subrange(from, start) =~= body.subrange(0, count.len() as int)) by {
                    assert forall|i: int| 0 <= i < count.len() implies bytes.subrange(
                        from,
                        start,
                    )[i] == #[trigger] body[i] by {
                        assert(piece[head.len() + i] == body[i]);
                    }
                }
            }
            varints_are_read_back(bytes, from, payload.len() as u64);
            assert(bytes.subrange(start, start + payload.len()) =~= payload) by {
                assert forall|i: int| 0 <= i < payload.len() implies bytes.subrange(
                    start,
                    start + payload.len(),
                )[i] == #[trigger] payload[i] by {
                    assert(body[count.len() + i] == payload[i]);
                    assert(piece[head.len() + (count.len() + i)] == body[count.len() + i]);
                }
            }
        },
    }
}

proof fn lemma_message_read_back(before: Seq<u8>, fields: Seq<Field>)
    requires
        forall|i: int| 0 <= i < fields.len() ==> can_be_written(#[trigger] fields[i]),
    ensures
        fields_from(before + message_bytes(fields), before.len() as int) == Some(fields),
    decreases fields.len(),
{
    let bytes = before + message_bytes(fields);
    let pos = before.len() as int;
    if fields.len() == 0 {
        assert(fields =~= seq![]);
    } else {
        let written = field_bytes(fields[0]);
        let rest = fields.drop_first();
        let end = pos + written.len();
        assert(bytes.subrange(pos, end) =~= written);
        lemma_field_read_back(bytes, pos, fields[0]);
        assert(before + (written + message_bytes(rest)) =~= (before + written) + message_bytes(
            rest,
        ));
        assert forall|i: int| 0 <= i < rest.len() implies can_be_written(#[trigger] rest[i]) by {
            assert(rest[i] == fields[i + 1]);
        }
        lemma_message_read_back(before + written, rest);
        assert(seq![fields[0]] + rest =~= fields);
    }
}

/// A message that was written field by field is read back as those fields.
pub proof fn messages_are_read_back(fields: Seq<Field>)
    requires
        forall|i: int| 0 <= i < fields.len() ==> can_be_written(#[trigger] fields[i]),
    ensures
        fields_of(message_bytes(fields)) == Some(fields),
{
    lemma_message_read_back(seq![], fields);
    assert(Seq::<u8>::empty() + message_bytes(fields) =~= message_bytes(fields));
}

// ---------------------------------------------------------------------------
// What the fields tell
// ---------------------------------------------------------------------------

/// The field at `k` is the last with this number that holds bytes.
pub open spec fn last_len_at(fields: Seq<Field>, number: u64, k: int) -> bool {
    &&& 0 <= k < fields.len()
    &&& fields[k].number == number && fields[k].value is Len
    &&& forall|j: int|
        k < j < fields.len() ==> !((#[trigger] fields[j]).number == number
            && fields[j].value is Len)
}

/// No field with this number holds bytes.
pub open spec fn no_len(fields: Seq<Field>, number: u64) -> bool {
    forall|j: int|
        0 <= j < fields.len() ==> !((#[trigger] fields[j]).number == number
            && fields[j].value is Len)
}

/// The field at `k` is the last varint with this number.
pub open spec fn last_varint_at(fields: Seq<Field>, number: u64, k: int) -> bool {
    &&& 0 <= k < fields.len()
    &&& fields[k].number == number && fields[k].value is Varint
    &&& forall|j: int|
        k < j < fields.len() ==> !((#[trigger] fields[j]).number == number
            && fields[j].value is Varint)
}

/// No varint has this number.
pub open spec fn no_varint(fields: Seq<Field>, number: u64) -> bool {
    forall|j: int|
        0 <= j < fields.len() ==> !((#[trigger] fields[j]).number == number
            && fields[j].value is Varint)
}

/// The field at `k` is the last eight-byte number with this number.
pub open spec fn last_fixed_at(fields: Seq<Field>, number: u64, k: int) -> bool {
    &&& 0 <= k < fields.len()
    &&& fields[k].number == number && fields[k].value is Fixed64
    &&& forall|j: int|
        k < j < fields.len() ==> !((#[trigger] fields[j]).number == number
            && fields[j].value is Fixed64)
}

/// No eight-byte number has this number.
pub open spec fn no_fixed(fields: Seq<Field>, number: u64) -> bool {
    forall|j: int|
        0 <= j < fields.len() ==> !((#[trigger] fields[j]).number == number
            && fields[j].value is Fixed64)
}

proof fn lemma_last_len(fields: Seq<Field>, number: u64, k: int)
    ensures
        last_len_at(fields, number, k) ==> last_payload(fields, number) == Some(
            fields[k].value->Len_0,
        ),
        no_len(fields, number) <==> last_payload(fields, number) is None,
    decreases fields.len(),
{
    if fields.len() > 0 {
        let before = fields.drop_last();
        let last = fields.last();
        lemma_last_len(before, number, k);
        assert(last == fields[fields.len() - 1]);
        assert forall|j: int| 0 <= j < before.len() implies #[trigger] before[j] == fields[j] by {}
        assert forall|j: int| 0 <= j < fields.len() - 1 implies #[trigger] fields[j]
            == before[j] by {}
        if last_len_at(fields, number, k) && k < before.len() {
            assert(!(last.number == number && last.value is Len));
            assert(last_len_at(before, number, k));
        }
        if no_len(fields, number) {
            assert(no_len(before, number));
        }
    }
}

proof fn lemma_last_varint(fields: Seq<Field>, number: u64, k: int)
    ensures
        last_varint_at(fields, number, k) ==> last_varint(fields, number) == Some(
            fields[k].value->Varint_0,
        ),
        no_varint(fields, number) <==> last_varint(fields, number) is None,
    decreases fields.len(),
{
    if fields.len() > 0 {
        let before = fields.drop_last();
        let last = fields.last();
        lemma_last_varint(before, number, k);
        assert(last == fields[fields.len() - 1]);
        assert forall|j: int| 0 <= j < before.len() implies #[trigger] before[j] == fields[j] by {}
        assert forall|j: int| 0 <= j < fields.len() - 1 implies #[trigger] fields[j]
            == before[j] by {}
        if last_varint_at(fields, number, k) && k < before.len() {
            assert(!(last.number == number && last.value is Varint));
            assert(last_varint_at(before, number, k));
        }
        if no_varint(fields, number) {
            assert(no_varint(before, number));
        }
    }
}

proof fn lemma_last_fixed(fields: Seq<Field>, number: u64, k: int)
    ensures
        last_fixed_at(fields, number, k) ==> last_fixed64(fields, number)
            == fields[k].value->Fixed64_0,
        no_fixed(fields, number) ==> last_fixed64(fields, number) == 0,
    decreases fields.len(),
{
    if fields.len() > 0 {
        let before = fields.drop_last();
        let last = fields.last();
        lemma_last_fixed(before, number, k);
        assert(last == fields[fields.len() - 1]);
        assert forall|j: int| 0 <= j < before.len() implies #[trigger] before[j] == fields[j] by {}
        if last_fixed_at(fields, number, k) && k < before.len() {
            assert(!(last.number == number && last.value is Fixed64));
            assert(last_fixed_at(before, number, k));
        }
        if no_fixed(fields, number) {
            assert(no_fixed(before, number));
        }
    }
}

/// A span is identified by its own fields: field 1 is the trace, field 2 the
/// span, field 4 the parent where there is one, and field 5 the name. Of fields
/// that repeat the last counts.
pub proof fn span_is_identified_by_its_fields(fields: Seq<Field>, span: SpanView, k: int)
    requires
        tells(fields, span),
    ensures
        last_len_at(fields, 1, k) ==> span.trace_id@ == number::hex_bytes(fields[k].value->Len_0),
        last_len_at(fields, 2, k) ==> span.span_id@ == number::hex_bytes(fields[k].value->Len_0),
        last_len_at(fields, 4, k) ==> span.parent_span_id is Some && span.parent_span_id->0@
            == number::hex_bytes(fields[k].value->Len_0),
        no_len(fields, 4) ==> span.parent_span_id is None,
        last_len_at(fields, 5, k) && vstd::utf8::valid_utf8(fields[k].value->Len_0)
            ==> span.name@ == vstd::utf8::decode_utf8(fields[k].value->Len_0),
{
    lemma_last_len(fields, 1, k);
    lemma_last_len(fields, 2, k);
    lemma_last_len(fields, 4, k);
    lemma_last_len(fields, 5, k);
}

/// The status of a span is that of the last code of its last status message:
/// code 1 is okay, code 2 is an error, and any other, or none, leaves it unset.
pub proof fn status_follows_the_last_code(
    fields: Seq<Field>,
    span: SpanView,
    k: int,
    codes: Seq<Field>,
    j: int,
)
    requires
        tells(fields, span),
        last_len_at(fields, 15, k),
        fields_of(fields[k].value->Len_0) == Some(codes),
    ensures
        last_varint_at(codes, 3, j) ==> {
            let code = codes[j].value->Varint_0;
            &&& span.status is Okay <==> code == 1
            &&& span.status is Error <==> code == 2
            &&& span.status is Unset <==> code != 1 && code != 2
        },
        no_varint(codes, 3) ==> span.status is Unset,
{
    lemma_last_len(fields, 15, k);
    lemma_last_varint(codes, 3, j);
}

/// A span without a status message has no status.
pub proof fn no_status_message_leaves_it_unset(fields: Seq<Field>, span: SpanView)
    requires
        tells(fields, span),
        no_len(fields, 15),
    ensures
        span.status is Unset,
{
    lemma_last_len(fields, 15, 0);
}

/// The duration is the time from field 7 to field 8 in whole microseconds, and
/// nothing where the end comes first. A time that is missing counts as 0.
pub proof fn duration_is_the_time_between(
    fields: Seq<Field>,
    span: SpanView,
    a: int,
    b: int,
    start: int,
    end: int,
)
    requires
        tells(fields, span),
        (last_fixed_at(fields, 7, a) && start == fields[a].value->Fixed64_0) || (no_fixed(fields, 7)
            && start == 0),
        (last_fixed_at(fields, 8, b) && end == fields[b].value->Fixed64_0) || (no_fixed(fields, 8)
            && end == 0),
    ensures
        start <= end ==> span.duration_us * 1000 <= end - start < span.duration_us * 1000 + 1000,
        end < start ==> span.duration_us == 0,
{
    lemma_last_fixed(fields, 7, a);
    lemma_last_fixed(fields, 8, b);
}

/// What is missing is named: a span without field 1 lacks its trace, one that
/// has it but not field 2 its own id, and one that has both but not field 5 its
/// name; nothing is missing where all three are there.
pub proof fn missing_fields_are_named(fields: Seq<Field>)
    ensures
        no_len(fields, 1) ==> missing_field(fields) == Some("trace_id"@),
        !no_len(fields, 1) && no_len(fields, 2) ==> missing_field(fields) == Some("span_id"@),
        !no_len(fields, 1) && !no_len(fields, 2) && no_len(fields, 5) ==> missing_field(fields)
            == Some("name"@),
        missing_field(fields) is None <==> !no_len(fields, 1) && !no_len(fields, 2) && !no_len(
            fields,
            5,
        ),
{
    lemma_last_len(fields, 1, 0);
    lemma_last_len(fields, 2, 0);
    lemma_last_len(fields, 5, 0);
}

/// An attribute message gives its key in field 1 and its value in field 2.
pub proof fn attributes_have_a_key_and_a_value(
    bytes: Seq<u8>,
    parts: Seq<Field>,
    a: int,
    b: int,
)
    requires
        fields_of(bytes) == Some(parts),
        attr_of(bytes) is Some,
    ensures
        last_len_at(parts, 1, a) && vstd::utf8::valid_utf8(parts[a].value->Len_0) ==> (attr_of(
            bytes,
        )->0).0 == vstd::utf8::decode_utf8(parts[a].value->Len_0),
        no_len(parts, 1) ==> (attr_of(bytes)->0).0.len() == 0,
        last_len_at(parts, 2, b) ==> any_value(parts[b].value->Len_0) == Some(
            (attr_of(bytes)->0).1,
        ),
        no_len(parts, 2) ==> (attr_of(bytes)->0).1.len() == 0,
{
    lemma_last_len(parts, 1, a);
    lemma_last_len(parts, 2, b);
    if last_len_at(parts, 2, b) {
        assert(payload_of(parts[b], 2) == Some(parts[b].value->Len_0));
    }
}

proof fn lemma_first_value(bytes: Seq<u8>, pos: int, parts: Seq<Field>, k: int)
    requires
        0 <= pos <= bytes.len(),
        fields_from(bytes, pos) == Some(parts),
        0 <= k <= parts.len(),
        forall|j: int| 0 <= j < k ==> value_text(#[trigger] parts[j]) is None,
        k < parts.len() ==> value_text(parts[k]) is Some,
    ensures
        any_value_from(bytes, pos) == (if k < parts.len() {
            value_text(parts[k])
        } else {
            Some(seq![])
        }),
    decreases bytes.len() - pos,
{
    if pos < bytes.len() {
        let (field, end) = field_at(bytes, pos)->0;
        let rest = fields_from(bytes, end)->0;
        assert(parts == seq![field] + rest);
        assert(parts[0] == field);
        if k > 0 {
            assert forall|j: int| 0 <= j < k - 1 implies value_text(#[trigger] rest[j]) is None by {
                assert(rest[j] == parts[j + 1]);
            }
            if k < parts.len() {
                assert(rest[k - 1] == parts[k]);
            }
            lemma_first_value(bytes, end, rest, k - 1);
        }
    }
}

/// The field says nothing in a value message: it is neither text in field 1 nor
/// a varint in field 3 or 4.
pub open spec fn says_nothing(field: Field) -> bool {
    &&& !(field.value is Len && field.number == 1)
    &&& !(field.value is Varint && (field.number == 3 || field.number == 4))
}

/// A value message is told by the first of its fields that says something:
/// text in field 1 as it stands, a varint in field 3 as a signed number, and
/// one in field 4 as a flag. One that says nothing is empty.
pub proof fn values_are_told_by_their_first_field(bytes: Seq<u8>, parts: Seq<Field>, k: int)
    requires
        fields_of(bytes) == Some(parts),
        0 <= k <= parts.len(),
        forall|j: int| 0 <= j < k ==> says_nothing(#[trigger] parts[j]),
    ensures
        k == parts.len() ==> any_value(bytes) is Some && (any_value(bytes)->0).len() == 0,
        k < parts.len() ==> match parts[k].value {
            FieldValue::Len(payload) => parts[k].number == 1 && vstd::utf8::valid_utf8(payload)
                ==> any_value(bytes) == Some(vstd::utf8::decode_utf8(payload)),
            FieldValue::Varint(value) => {
                &&& parts[k].number == 3 && value < 0x8000_0000_0000_0000 ==> any_value(bytes)
                    == Some(number::signed_text(value as int))
                &&& parts[k].number == 3 && value >= 0x8000_0000_0000_0000 ==> any_value(bytes)
                    == Some(number::signed_text(value - 0x1_0000_0000_0000_0000))
                &&& parts[k].number == 4 ==> any_value(bytes) == Some(
                    number::flag_text(value != 0),
                )
            },
            FieldValue::Fixed64(_) => true,
        },
{
    if k == parts.len() || !says_nothing(parts[k]) {
        assert forall|j: int| 0 <= j < k implies value_text(#[trigger] parts[j]) is None by {
            assert(says_nothing(parts[j]));
        }
        lemma_first_value(bytes, 0, parts, k);
    }
}

/// The field at `k` is the last attribute with this key.
pub open spec fn last_attr_at(fields: Seq<Field>, key: Seq<char>, k: int) -> bool {
    &&& 0 <= k < fields.len()
    &&& fields[k].number == 9 && fields[k].value is Len
    &&& (attr_of(fields[k].value->Len_0)->0).0 == key
    &&& forall|j: int|
        k < j < fields.len() && (#[trigger] fields[j]).number == 9 && fields[j].value is Len ==> (
        attr_of(fields[j].value->Len_0)->0).0 != key
}

/// No attribute has this key.
pub open spec fn no_attr(fields: Seq<Field>, key: Seq<char>) -> bool {
    forall|j: int|
        0 <= j < fields.len() && (#[trigger] fields[j]).number == 9 && fields[j].value is Len ==> (
        attr_of(fields[j].value->Len_0)->0).0 != key
}

proof fn lemma_last_attr(fields: Seq<Field>, key: Seq<char>, k: int)
    ensures
        last_attr_at(fields, key, k) ==> last_attr(fields, key) == Some(
            (attr_of(fields[k].value->Len_0)->0).1,
        ),
        no_attr(fields, key) ==> last_attr(fields, key) is None,
    decreases fields.len(),
{
    if fields.len() > 0 {
        let before = fields.drop_last();
        let last = fields.last();
        lemma_last_attr(before, key, k);
        assert(last == fields[fields.len() - 1]);
        assert forall|j: int| 0 <= j < before.len() implies #[trigger] before[j] == fields[j] by {}
        if last_attr_at(fields, key, k) && k < before.len() {
            assert(last_attr_at(before, key, k));
        }
        if no_attr(fields, key) {
            assert(no_attr(before, key));
        }
    }
}

/// The attributes that are shown go by their keys: the target, the Interest,
/// the face as a decimal number, and the strategy. Of attributes with one key
/// the last counts, and one that is not there leaves its place empty.
pub proof fn shown_attributes_go_by_their_keys(
    fields: Seq<Field>,
    span: SpanView,
    k: int,
    face: i64,
)
    requires
        tells(fields, span),
    ensures
        ({
            let value = (attr_of(fields[k].value->Len_0)->0).1;
            &&& last_attr_at(fields, "ndn.target"@, k) ==> span.target@ == value
            &&& no_attr(fields, "ndn.target"@) ==> span.target@.len() == 0
            &&& last_attr_at(fields, "interest.name"@, k) ==> span.interest_name is Some
                && span.interest_name->0@ == value
            &&& no_attr(fields, "interest.name"@) ==> span.interest_name is None
            &&& last_attr_at(fields, "strategy.name"@, k) ==> span.strategy is Some
                && span.strategy->0@ == value
            &&& no_attr(fields, "strategy.name"@) ==> span.strategy is None
            &&& last_attr_at(fields, "face.id"@, k) && value == number::signed_text(face as int)
                ==> span.face_id == Some(face)
            &&& no_attr(fields, "face.id"@) ==> span.face_id is None
        }),
{
    lemma_last_attr(fields, "ndn.target"@, k);
    lemma_last_attr(fields, "interest.name"@, k);
    lemma_last_attr(fields, "strategy.name"@, k);
    lemma_last_attr(fields, "face.id"@, k);
    number::signed_round_trip(face);
}

/// The fields in which a span without attributes is written.
pub open spec fn span_fields(
    trace: Seq<u8>,
    id: Seq<u8>,
    parent: Seq<u8>,
    name: Seq<u8>,
    start: u64,
    end: u64,
    status: Seq<u8>,
) -> Seq<Field> {
    seq![
        Field { number: 1, value: FieldValue::Len(trace) },
        Field { number: 2, value: FieldValue::Len(id) },
        Field { number: 4, value: FieldValue::Len(parent) },
        Field { number: 5, value: FieldValue::Len(name) },
        Field { number: 7, value: FieldValue::Fixed64(start) },
        Field { number: 8, value: FieldValue::Fixed64(end) },
        Field { number: 15, value: FieldValue::Len(status) },
    ]
}

/// The message in which a status code is written.
pub open spec fn code_message(code: u64) -> Seq<u8> {
    message_bytes(seq![Field { number: 3, value: FieldValue::Varint(code) }])
}

proof fn lemma_code_message(code: u64)
    ensures
        code_message(code).len() <= 20,
        fields_of(code_message(code)) == Some(
            seq![Field { number: 3, value: FieldValue::Varint(code) }],
        ),
{
    let codes = seq![Field { number: 3, value: FieldValue::Varint(code) }];
    assert(forall|i: int| 0 <= i < codes.len() ==> can_be_written(#[trigger] codes[i]));
    messages_are_read_back(codes);
    lemma_pow128();
    assert(pow128(10) == 128 * pow128(9));
    lemma_varint_bytes(code as nat, 10);
    lemma_varint_bytes(24, 10);
    assert(codes.drop_first() =~= seq![]);
    assert(message_bytes(codes.drop_first()).len() == 0);
    assert(code_message(code) == field_bytes(codes[0]) + message_bytes(codes.drop_first()));
}

#[verifier::spinoff_prover]
#[verifier::rlimit(40)]
proof fn lemma_span_fields(
    trace: Seq<u8>,
    id: Seq<u8>,
    parent: Seq<u8>,
    name: Seq<u8>,
    start: u64,
    end: u64,
    code: u64,
)
    requires
        trace.len() <= usize::MAX && id.len() <= usize::MAX && parent.len() <= usize::MAX
            && name.len() <= usize::MAX,
    ensures
        ({
            let fields = span_fields(trace, id, parent, name, start, end, code_message(code));
            &&& fields_of(message_bytes(fields)) == Some(fields)
            &&& parts_read(fields)
            &&& last_len_at(fields, 1, 0) && last_len_at(fields, 2, 1)
            &&& last_len_at(fields, 4, 2) && last_len_at(fields, 5, 3)
            &&& last_fixed_at(fields, 7, 4) && last_fixed_at(fields, 8, 5)
            &&& last_len_at(fields, 15, 6)
            &&& forall|key: Seq<char>| #[trigger] no_attr(fields, key)
        }),
{
    lemma_code_message(code);
    let fields = span_fields(trace, id, parent, name, start, end, code_message(code));
    assert(forall|i: int| 0 <= i < fields.len() ==> can_be_written(#[trigger] fields[i]));
    messages_are_read_back(fields);
    assert(fields.len() == 7);
    assert forall|i: int|
        #![trigger fields[i]]
        0 <= i < fields.len() implies {
        &&& payload_of(fields[i], 9) matches Some(payload) ==> attr_of(payload) is Some
        &&& payload_of(fields[i], 15) matches Some(payload) ==> status_of(payload) is Some
    } by {}
}

#[verifier::spinoff_prover]
#[verifier::rlimit(40)]
proof fn lemma_span_told(
    fields: Seq<Field>,
    span: SpanView,
    trace: Seq<u8>,
    id: Seq<u8>,
    parent: Seq<u8>,
    name: Seq<u8>,
    start: u64,
    end: u64,
    code: u64,
)
    requires
        tells(fields, span),
        vstd::utf8::valid_utf8(name),
        last_len_at(fields, 1, 0) && fields[0].value == FieldValue::Len(trace),
        last_len_at(fields, 2, 1) && fields[1].value == FieldValue::Len(id),
        last_len_at(fields, 4, 2) && fields[2].value == FieldValue::Len(parent),
        last_len_at(fields, 5, 3) && fields[3].value == FieldValue::Len(name),
        last_fixed_at(fields, 7, 4) && fields[4].value == FieldValue::Fixed64(start),
        last_fixed_at(fields, 8, 5) && fields[5].value == FieldValue::Fixed64(end),
        last_len_at(fields, 15, 6) && fields[6].value == FieldValue::Len(code_message(code)),
        forall|key: Seq<char>| #[trigger] no_attr(fields, key),
    ensures
        span.trace_id@ == number::hex_bytes(trace),
        span.span_id@ == number::hex_bytes(id),
        span.parent_span_id is Some && span.parent_span_id->0@ == number::hex_bytes(parent),
        span.name@ == vstd::utf8::decode_utf8(name),
        span.target@.len() == 0,
        span.interest_name is None && span.face_id is None && span.strategy is None,
        span.status is Okay <==> code == 1,
        span.status is Error <==> code == 2,
        start <= end ==> span.duration_us * 1000 <= end - start < span.duration_us * 1000 + 1000,
        end < start ==> span.duration_us == 0,
{
    lemma_code_message(code);
    let codes = seq![Field { number: 3, value: FieldValue::Varint(code) }];
    assert(last_varint_at(codes, 3, 0));
    span_is_identified_by_its_fields(fields, span, 0);
    span_is_identified_by_its_fields(fields, span, 1);
    span_is_identified_by_its_fields(fields, span, 2);
    span_is_identified_by_its_fields(fields, span, 3);
    status_follows_the_last_code(fields, span, 6, codes, 0);
    duration_is_the_time_between(fields, span, 4, 5, start as int, end as int);
    shown_attributes_go_by_their_keys(fields, span, 0, 0);
    assert(no_attr(fields, "ndn.target"@) && no_attr(fields, "interest.name"@));
    assert(no_attr(fields, "strategy.name"@) && no_attr(fields, "face.id"@));
}

/// A span that was written with its parts is decoded, and as that span: the ids
/// in hexadecimal, the name as it stands, the status by its code, and the time
/// between start and end.
#[verifier::spinoff_prover]
#[verifier::rlimit(40)]
pub proof fn written_spans_are_decoded(
    trace: Seq<u8>,
    id: Seq<u8>,
    parent: Seq<u8>,
    name: Seq<u8>,
    start: u64,
    end: u64,
    code: u64,
    span: SpanView,
)
    requires
        trace.len() <= usize::MAX && id.len() <= usize::MAX && parent.len() <= usize::MAX
            && name.len() <= usize::MAX,
        vstd::utf8::valid_utf8(name),
    ensures
        ({
            let bytes = message_bytes(
                span_fields(trace, id, parent, name, start, end, code_message(code)),
            );
            &&& is_span_message(bytes) && missing_field(fields_of(bytes)->0) is None
            &&& tells(fields_of(bytes)->0, span) ==> {
                &&& span.trace_id@ == number::hex_bytes(trace)
                &&& span.span_id@ == number::hex_bytes(id)
                &&& span.parent_span_id is Some && span.parent_span_id->0@ == number::hex_bytes(
                    parent,
                )
                &&& span.name@ == vstd::utf8::decode_utf8(name)
                &&& span.target@.len() == 0
                &&& span.interest_name is None && span.face_id is None && span.strategy is None
                &&& span.status is Okay <==> code == 1
                &&& span.status is Error <==> code == 2
                &&& start <= end ==> span.duration_us * 1000 <= end - start < span.duration_us
                    * 1000 + 1000
                &&& end < start ==> span.duration_us == 0
            }
        }),
{
    let fields = span_fields(trace, id, parent, name, start, end, code_message(code));
    lemma_span_fields(trace, id, parent, name, start, end, code);
    lemma_code_message(code);
    missing_fields_are_named(fields);
    assert(!no_len(fields, 1)) by {
        assert(fields[0].number == 1);
    }
    assert(!no_len(fields, 2)) by {
        assert(fields[1].number == 2);
    }
    assert(!no_len(fields, 5)) by {
        assert(fields[3].number == 5);
    }
    if tells(fields, span) {
        assert(fields[0].value == FieldValue::Len(trace) && fields[1].value == FieldValue::Len(id));
        assert(fields[2].value == FieldValue::Len(parent));
        assert(fields[3].value == FieldValue::Len(name));
        assert(fields[4].value == FieldValue::Fixed64(start));
        assert(fields[5].value == FieldValue::Fixed64(end));
        assert(fields[6].value == FieldValue::Len(code_message(code)));
        lemma_span_told(fields, span, trace, id, parent, name, start, end, code);
    }
}

} // verus!
