//! What payloads are read as.
//!
//! A reader takes a message apart into its fields and takes each value from the field with its
//! number; a value without a field is the default of its type.
use vstd::prelude::*;
use vstd::utf8::*;
use crate::value::Double;
use crate::wire::{
    little_endian, little_endian_value, one_field, packed_bytes, read_message, WireField, WireValue,
};

verus! {

/// The fields that bytes are read as; none where the bytes are no message.
pub open spec fn fields_in(bytes: Seq<u8>) -> Seq<WireField> {
    match read_message(bytes) {
        Some(fields) => fields,
        None => Seq::empty(),
    }
}

/// The value of the last field with a number.
#[verifier::opaque]
pub open spec fn last_with(fields: Seq<WireField>, number: nat) -> Option<WireValue>
    decreases fields.len(),
{
    if fields.len() == 0 {
        None
    } else if fields.last().number == number {
        Some(fields.last().value)
    } else {
        last_with(fields.drop_last(), number)
    }
}

/// The bytes of all fields with a number, in their order.
#[verifier::opaque]
pub open spec fn all_with(fields: Seq<WireField>, number: nat) -> Seq<Seq<u8>>
    decreases fields.len(),
{
    if fields.len() == 0 {
        Seq::empty()
    } else {
        let rest = all_with(fields.drop_last(), number);
        match fields.last().value {
            WireValue::Bytes(bytes) => if fields.last().number == number {
                rest.push(bytes)
            } else {
                rest
            },
            _ => rest,
        }
    }
}

pub broadcast proof fn lemma_last_concat(a: Seq<WireField>, b: Seq<WireField>, number: nat)
    ensures
        #[trigger] last_with(a + b, number) == (match last_with(b, number) {
            Some(value) => Some(value),
            None => last_with(a, number),
        }),
    decreases b.len(),
{
    reveal(last_with);
    if b.len() == 0 {
        assert(a + b =~= a);
    } else {
        assert((a + b).drop_last() =~= a + b.drop_last());
        lemma_last_concat(a, b.drop_last(), number);
    }
}

pub broadcast proof fn lemma_all_concat(a: Seq<WireField>, b: Seq<WireField>, number: nat)
    ensures
        #[trigger] all_with(a + b, number) == all_with(a, number) + all_with(b, number),
    decreases b.len(),
{
    reveal(all_with);
    if b.len() == 0 {
        assert(a + b =~= a);
        assert(all_with(a, number) + all_with(b, number) =~= all_with(a, number));
    } else {
        assert((a + b).drop_last() =~= a + b.drop_last());
        lemma_all_concat(a, b.drop_last(), number);
        assert(all_with(a + b, number) =~= all_with(a, number) + all_with(b, number));
    }
}

pub broadcast proof fn lemma_last_one(own: nat, value: WireValue, number: nat)
    ensures
        #[trigger] last_with(one_field(own, value), number) == (if own == number {
            Some(value)
        } else {
            None
        }),
{
    reveal(last_with);
    assert(one_field(own, value).drop_last() =~= Seq::empty());
    assert(last_with(Seq::empty(), number) is None);
}

pub broadcast proof fn lemma_all_one(own: nat, value: WireValue, number: nat)
    ensures
        #[trigger] all_with(one_field(own, value), number) == (match value {
            WireValue::Bytes(bytes) => if own == number {
                seq![bytes]
            } else {
                Seq::empty()
            },
            _ => Seq::empty(),
        }),
{
    reveal(all_with);
    assert(one_field(own, value).drop_last() =~= Seq::empty());
    assert(all_with(Seq::empty(), number) =~= Seq::empty());
    assert(all_with(one_field(own, value), number) =~= (match value {
        WireValue::Bytes(bytes) => if own == number {
            seq![bytes]
        } else {
            Seq::empty()
        },
        _ => Seq::empty(),
    }));
}

pub broadcast proof fn lemma_last_none(number: nat)
    ensures
        #[trigger] last_with(Seq::empty(), number) is None,
{
    reveal(last_with);
}

pub broadcast proof fn lemma_all_none(number: nat)
    ensures
        #[trigger] all_with(Seq::empty(), number) == Seq::<Seq<u8>>::empty(),
{
    reveal(all_with);
}

pub broadcast group group_read_fields {
    lemma_last_concat,
    lemma_all_concat,
    lemma_last_one,
    lemma_all_one,
    lemma_last_none,
    lemma_all_none,
}

/// A number of eight bytes.
pub open spec fn read_fixed64(fields: Seq<WireField>, number: nat) -> u64 {
    match last_with(fields, number) {
        Some(WireValue::Fixed64(value)) => value,
        _ => 0,
    }
}

/// A number of four bytes.
pub open spec fn read_fixed32(fields: Seq<WireField>, number: nat) -> u32 {
    match last_with(fields, number) {
        Some(WireValue::Fixed32(value)) => value,
        _ => 0,
    }
}

/// An unsigned number.
pub open spec fn read_uint32(fields: Seq<WireField>, number: nat) -> u32 {
    match last_with(fields, number) {
        Some(WireValue::Varint(value)) => value as u32,
        _ => 0,
    }
}

/// A signed number.
pub open spec fn read_int32(fields: Seq<WireField>, number: nat) -> i32 {
    match last_with(fields, number) {
        Some(WireValue::Varint(value)) => value as u64 as i32,
        _ => 0,
    }
}

/// A truth value.
pub open spec fn read_bool(fields: Seq<WireField>, number: nat) -> bool {
    match last_with(fields, number) {
        Some(WireValue::Varint(value)) => value != 0,
        _ => false,
    }
}

/// A double.
pub open spec fn read_double(fields: Seq<WireField>, number: nat) -> Double {
    Double { bits: read_fixed64(fields, number) }
}

/// A double that may be absent.
pub open spec fn read_optional_double(fields: Seq<WireField>, number: nat) -> Option<Double> {
    match last_with(fields, number) {
        Some(WireValue::Fixed64(bits)) => Some(Double { bits }),
        _ => None,
    }
}

/// Bytes.
pub open spec fn read_bytes(fields: Seq<WireField>, number: nat) -> Seq<u8> {
    match last_with(fields, number) {
        Some(WireValue::Bytes(bytes)) => bytes,
        _ => Seq::empty(),
    }
}

/// A text.
pub open spec fn read_string(fields: Seq<WireField>, number: nat) -> Seq<char> {
    match last_with(fields, number) {
        Some(WireValue::Bytes(bytes)) => decode_utf8(bytes),
        _ => Seq::empty(),
    }
}

/// The numbers of eight bytes that stand one after the other in bytes.
pub open spec fn unpacked(bytes: Seq<u8>) -> Seq<u64>
    decreases bytes.len(),
{
    if bytes.len() < 8 {
        Seq::empty()
    } else {
        seq![little_endian_value(bytes.take(8)) as u64] + unpacked(bytes.skip(8))
    }
}

/// Numbers of eight bytes.
pub open spec fn read_packed(fields: Seq<WireField>, number: nat) -> Seq<u64> {
    unpacked(read_bytes(fields, number))
}

/// Doubles.
pub open spec fn read_packed_doubles(fields: Seq<WireField>, number: nat) -> Seq<Double> {
    let bits = read_packed(fields, number);
    Seq::new(bits.len(), |i: int| Double { bits: bits[i] })
}

/// Numbers are read as they were packed.
pub proof fn lemma_unpacked(values: Seq<u64>)
    ensures
        unpacked(packed_bytes(values)) == values,
    decreases values.len(),
{
    if values.len() == 0 {
        assert(unpacked(packed_bytes(values)) =~= values);
    } else {
        let rest = packed_bytes(values.drop_first());
        let bytes = packed_bytes(values);
        crate::wire::lemma_little_endian(values[0] as nat, 8);
        assert(bytes.take(8) =~= little_endian(values[0] as nat, 8));
        assert(bytes.skip(8) =~= rest);
        lemma_unpacked(values.drop_first());
        assert(unpacked(bytes) =~= values);
    }
}

/// A text is read as it was written.
pub proof fn lemma_text_read_back(text: Seq<char>)
    ensures
        decode_utf8(encode_utf8(text)) == text,
        text.len() == 0 ==> text == Seq::<char>::empty(),
{
    encode_utf8_decode_utf8(text);
    if text.len() == 0 {
        assert(text =~= Seq::empty());
    }
}

/// A signed number is read as it was written.
pub proof fn lemma_int32_read_back(number: i32)
    ensures
        number as u64 as nat as u64 as i32 == number,
{
    assert(number as u64 as i32 == number) by (bit_vector);
}

/// A signed number of 64 bits is read as it was written.
pub proof fn lemma_int64_read_back(number: i64)
    ensures
        number as u64 as nat as u64 as i64 == number,
{
    assert(number as u64 as i64 == number) by (bit_vector);
}

}
