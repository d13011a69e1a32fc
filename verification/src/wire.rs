//! The wire format of Protocol Buffers: a message is a sequence of numbered fields.
use vstd::prelude::*;
use vstd::string::*;
use vstd::utf8::*;
use crate::value::Double;

verus! {

/// The value of a field, by the four ways in which values are written.
#[verifier::ext_equal]
pub enum WireValue {
    /// A number, in as many groups of seven bits as it needs.
    Varint(nat),
    /// Eight bytes.
    Fixed64(u64),
    /// Bytes, after their number.
    Bytes(Seq<u8>),
    /// Four bytes.
    Fixed32(u32),
}

/// A field of a message.
#[verifier::ext_equal]
pub struct WireField {
    pub number: nat,
    pub value: WireValue,
}

/// A number in groups of seven bits, the lowest first; all but the last group have the top bit set.
pub open spec fn varint_bytes(n: nat) -> Seq<u8>
    decreases n,
{
    if n < 128 {
        seq![n as u8]
    } else {
        seq![(n % 128 + 128) as u8] + varint_bytes(n / 128)
    }
}

/// The `len` lowest bytes of a number, the lowest first.
pub open spec fn little_endian(n: nat, len: nat) -> Seq<u8>
    decreases len,
{
    if len == 0 {
        Seq::empty()
    } else {
        seq![(n % 256) as u8] + little_endian(n / 256, (len - 1) as nat)
    }
}

/// The number of a way in which values are written.
pub open spec fn wire_type(value: WireValue) -> nat {
    match value {
        WireValue::Varint(_) => 0,
        WireValue::Fixed64(_) => 1,
        WireValue::Bytes(_) => 2,
        WireValue::Fixed32(_) => 5,
    }
}

/// The bytes of a value.
pub open spec fn value_bytes(value: WireValue) -> Seq<u8> {
    match value {
        WireValue::Varint(n) => varint_bytes(n),
        WireValue::Fixed64(n) => little_endian(n as nat, 8),
        WireValue::Bytes(bytes) => varint_bytes(bytes.len()) + bytes,
        WireValue::Fixed32(n) => little_endian(n as nat, 4),
    }
}

/// The bytes of a field: its number and the way in which its value is written, then the value.
pub open spec fn field_bytes(field: WireField) -> Seq<u8> {
    varint_bytes(field.number * 8 + wire_type(field.value)) + value_bytes(field.value)
}

/// The bytes of a message: those of its fields, one after the other.
pub open spec fn message_bytes(fields: Seq<WireField>) -> Seq<u8>
    decreases fields.len(),
{
    if fields.len() == 0 {
        Seq::empty()
    } else {
        field_bytes(fields[0]) + message_bytes(fields.drop_first())
    }
}

/// The bytes of two messages in a row are those of the message with the fields of both.
pub proof fn lemma_message_bytes_concat(a: Seq<WireField>, b: Seq<WireField>)
    ensures
        message_bytes(a + b) == message_bytes(a) + message_bytes(b),
    decreases a.len(),
{
    if a.len() == 0 {
        assert(a + b =~= b);
        assert(message_bytes(a) + message_bytes(b) =~= message_bytes(b));
    } else {
        assert((a + b).drop_first() =~= a.drop_first() + b);
        lemma_message_bytes_concat(a.drop_first(), b);
        assert(field_bytes(a[0]) + (message_bytes(a.drop_first()) + message_bytes(b)) =~= (
        field_bytes(a[0]) + message_bytes(a.drop_first())) + message_bytes(b));
    }
}

/// A message of one field.
pub proof fn lemma_message_bytes_single(field: WireField)
    ensures
        message_bytes(seq![field]) == field_bytes(field),
{
    assert(seq![field].drop_first() =~= Seq::empty());
    assert(field_bytes(field) + Seq::<u8>::empty() =~= field_bytes(field));
    assert(message_bytes(Seq::empty()) =~= Seq::<u8>::empty());
}

/// Reads a number in groups of seven bits from the start of `bytes`; gives it with what follows.
pub open spec fn read_varint(bytes: Seq<u8>) -> Option<(nat, Seq<u8>)>
    decreases bytes.len(),
{
    if bytes.len() == 0 {
        None
    } else if bytes[0] < 128 {
        Some((bytes[0] as nat, bytes.drop_first()))
    } else {
        match read_varint(bytes.drop_first()) {
            Some((high, rest)) => Some(((bytes[0] - 128 + 128 * high) as nat, rest)),
            None => None,
        }
    }
}

/// The number that bytes stand for, the lowest first.
pub open spec fn little_endian_value(bytes: Seq<u8>) -> nat
    decreases bytes.len(),
{
    if bytes.len() == 0 {
        0
    } else {
        (bytes[0] + 256 * little_endian_value(bytes.drop_first())) as nat
    }
}

/// Reads a value that is written in a given way.
pub open spec fn read_value(wire_type: nat, bytes: Seq<u8>) -> Option<(WireValue, Seq<u8>)> {
    if wire_type == 0 {
        match read_varint(bytes) {
            Some((n, rest)) => Some((WireValue::Varint(n), rest)),
            None => None,
        }
    } else if wire_type == 1 && bytes.len() >= 8 {
        Some(
            (WireValue::Fixed64(little_endian_value(bytes.take(8)) as u64), bytes.skip(8)),
        )
    } else if wire_type == 2 {
        match read_varint(bytes) {
            Some((len, rest)) => if len <= rest.len() {
                Some((WireValue::Bytes(rest.take(len as int)), rest.skip(len as int)))
            } else {
                None
            },
            None => None,
        }
    } else if wire_type == 5 && bytes.len() >= 4 {
        Some(
            (WireValue::Fixed32(little_endian_value(bytes.take(4)) as u32), bytes.skip(4)),
        )
    } else {
        None
    }
}

/// Reads a field from the start of `bytes`; gives it with what follows.
pub open spec fn read_field(bytes: Seq<u8>) -> Option<(WireField, Seq<u8>)> {
    match read_varint(bytes) {
        Some((key, rest)) => match read_value(key % 8, rest) {
            Some((value, after)) => Some((WireField { number: key / 8, value }, after)),
            None => None,
        },
        None => None,
    }
}

/// Reads the fields of a message.
pub open spec fn read_message(bytes: Seq<u8>) -> Option<Seq<WireField>>
    decreases bytes.len(),
{
    if bytes.len() == 0 {
        Some(Seq::empty())
    } else {
        match read_field(bytes) {
            Some((field, rest)) => if rest.len() < bytes.len() {
                match read_message(rest) {
                    Some(fields) => Some(seq![field] + fields),
                    None => None,
                }
            } else {
                None
            },
            None => None,
        }
    }
}

/// A number is read as it was written.
pub proof fn lemma_read_varint(n: nat, tail: Seq<u8>)
    ensures
        read_varint(varint_bytes(n) + tail) == Some((n, tail)),
        varint_bytes(n).len() >= 1,
    decreases n,
{
    let bytes = varint_bytes(n) + tail;
    if n < 128 {
        assert(bytes.drop_first() =~= tail);
    } else {
        lemma_read_varint(n / 128, tail);
        assert(bytes.drop_first() =~= varint_bytes(n / 128) + tail);
        assert(bytes[0] == n % 128 + 128);
    }
}

pub proof fn lemma_little_endian(n: nat, len: nat)
    ensures
        little_endian(n, len).len() == len,
        len == 4 && n <= u32::MAX ==> little_endian_value(little_endian(n, len)) == n,
        len == 8 && n <= u64::MAX ==> little_endian_value(little_endian(n, len)) == n,
    decreases len,
{
    if len == 4 {
        lemma_little_endian_value(n, 4);
        reveal_with_fuel(bytes_limit, 5);
        assert(bytes_limit(4) == 0x1_0000_0000);
    }
    if len == 8 {
        lemma_little_endian_value(n, 8);
        reveal_with_fuel(bytes_limit, 9);
        assert(bytes_limit(8) == 0x1_0000_0000_0000_0000);
    }
    if len > 0 {
        lemma_little_endian(n / 256, (len - 1) as nat);
    }
}

/// The first number that `len` bytes cannot hold.
spec fn bytes_limit(len: nat) -> nat
    decreases len,
{
    if len == 0 {
        1
    } else {
        256 * bytes_limit((len - 1) as nat)
    }
}

proof fn lemma_little_endian_value(n: nat, len: nat)
    ensures
        n < bytes_limit(len) ==> little_endian_value(little_endian(n, len)) == n,
    decreases len,
{
    if len > 0 && n < bytes_limit(len) {
        lemma_little_endian_value(n / 256, (len - 1) as nat);
        assert(little_endian(n, len).drop_first() =~= little_endian(n / 256, (len - 1) as nat));
    }
}

/// A field is read as it was written.
pub proof fn lemma_read_field(field: WireField, tail: Seq<u8>)
    ensures
        read_field(field_bytes(field) + tail) == Some((field, tail)),
        field_bytes(field).len() >= 1,
{
    let key = field.number * 8 + wire_type(field.value);
    let body = value_bytes(field.value) + tail;
    assert(field_bytes(field) + tail =~= varint_bytes(key) + body);
    lemma_read_varint(key, body);
    assert(key % 8 == wire_type(field.value) && key / 8 == field.number);
    match field.value {
        WireValue::Varint(n) => {
            lemma_read_varint(n, tail);
        },
        WireValue::Fixed64(n) => {
            lemma_little_endian(n as nat, 8);
            assert(body.take(8) =~= little_endian(n as nat, 8));
            assert(body.skip(8) =~= tail);
        },
        WireValue::Bytes(bytes) => {
            lemma_read_varint(bytes.len(), bytes + tail);
            assert(body =~= varint_bytes(bytes.len()) + (bytes + tail));
            assert((bytes + tail).take(bytes.len() as int) =~= bytes);
            assert((bytes + tail).skip(bytes.len() as int) =~= tail);
        },
        WireValue::Fixed32(n) => {
            lemma_little_endian(n as nat, 4);
            assert(body.take(4) =~= little_endian(n as nat, 4));
            assert(body.skip(4) =~= tail);
        },
    }
}

/// What a message is read as is what was written.
pub proof fn law_message_read_back(fields: Seq<WireField>)
    ensures
        read_message(message_bytes(fields)) == Some(fields),
    decreases fields.len(),
{
    if fields.len() == 0 {
    } else {
        let rest = message_bytes(fields.drop_first());
        lemma_read_field(fields[0], rest);
        law_message_read_back(fields.drop_first());
        assert(seq![fields[0]] + fields.drop_first() =~= fields);
    }
}

/// Whether a field can have this number.
pub open spec fn valid_number(number: u32) -> bool {
    1 <= number <= 536870911
}

/// `prost::encoding::uint32::encode`: appends a field with a number in groups of seven bits.
#[verifier::external_body]
fn encode_uint32(number: u32, value: u32, buf: &mut Vec<u8>)
    requires
        valid_number(number),
    ensures
        final(buf)@ == old(buf)@ + field_bytes(
            (WireField { number: number as nat, value: WireValue::Varint(value as nat) }),
        ),
{
    prost::encoding::uint32::encode(number, &value, buf)
}

/// `prost::encoding::int32::encode`: appends a field with a number in groups of seven bits, a
/// negative one as the unsigned number of 64 bits with the same bits.
#[verifier::external_body]
fn encode_int32(number: u32, value: i32, buf: &mut Vec<u8>)
    requires
        valid_number(number),
    ensures
        final(buf)@ == old(buf)@ + field_bytes(
            (WireField { number: number as nat, value: WireValue::Varint(value as u64 as nat) }),
        ),
{
    prost::encoding::int32::encode(number, &value, buf)
}

/// `prost::encoding::int64::encode`: appends a field with a number in groups of seven bits, a
/// negative one as the unsigned number of 64 bits with the same bits.
#[verifier::external_body]
fn encode_int64(number: u32, value: i64, buf: &mut Vec<u8>)
    requires
        valid_number(number),
    ensures
        final(buf)@ == old(buf)@ + field_bytes(
            (WireField { number: number as nat, value: WireValue::Varint(value as u64 as nat) }),
        ),
{
    prost::encoding::int64::encode(number, &value, buf)
}

/// The number one for true and zero for false.
pub open spec fn truth_value(value: bool) -> WireValue {
    WireValue::Varint(
        if value {
            1
        } else {
            0
        },
    )
}

/// `prost::encoding::bool::encode`: appends a field with the number one for true and zero for false.
#[verifier::external_body]
fn encode_bool(number: u32, value: bool, buf: &mut Vec<u8>)
    requires
        valid_number(number),
    ensures
        final(buf)@ == old(buf)@ + field_bytes(
            (WireField { number: number as nat, value: truth_value(value) }),
        ),
{
    prost::encoding::bool::encode(number, &value, buf)
}

/// `prost::encoding::fixed32::encode`: appends a field with the four bytes of a number.
#[verifier::external_body]
fn encode_fixed32(number: u32, value: u32, buf: &mut Vec<u8>)
    requires
        valid_number(number),
    ensures
        final(buf)@ == old(buf)@ + field_bytes(
            (WireField { number: number as nat, value: WireValue::Fixed32(value) }),
        ),
{
    prost::encoding::fixed32::encode(number, &value, buf)
}

/// `prost::encoding::fixed64::encode`: appends a field with the eight bytes of a number.
#[verifier::external_body]
fn encode_fixed64(number: u32, value: u64, buf: &mut Vec<u8>)
    requires
        valid_number(number),
    ensures
        final(buf)@ == old(buf)@ + field_bytes(
            (WireField { number: number as nat, value: WireValue::Fixed64(value) }),
        ),
{
    prost::encoding::fixed64::encode(number, &value, buf)
}

/// `prost::encoding::string::encode`: appends a field with the UTF-8 bytes of a text.
#[verifier::external_body]
fn encode_string(number: u32, value: &String, buf: &mut Vec<u8>)
    requires
        valid_number(number),
    ensures
        final(buf)@ == old(buf)@ + field_bytes(
            (WireField { number: number as nat, value: WireValue::Bytes(encode_utf8(value@)) }),
        ),
{
    prost::encoding::string::encode(number, value, buf)
}

/// `prost::encoding::bytes::encode`: appends a field with bytes.
#[verifier::external_body]
fn encode_bytes(number: u32, value: &Vec<u8>, buf: &mut Vec<u8>)
    requires
        valid_number(number),
    ensures
        final(buf)@ == old(buf)@ + field_bytes(
            (WireField { number: number as nat, value: WireValue::Bytes(value@) }),
        ),
{
    prost::encoding::bytes::encode(number, value, buf)
}

/// The eight bytes of each number, one after the other.
pub open spec fn packed_bytes(values: Seq<u64>) -> Seq<u8>
    decreases values.len(),
{
    if values.len() == 0 {
        Seq::empty()
    } else {
        little_endian(values[0] as nat, 8) + packed_bytes(values.drop_first())
    }
}

/// `prost::encoding::fixed64::encode_packed`: appends a field with the eight bytes of each number,
/// and nothing where there are no numbers.
#[verifier::external_body]
fn encode_packed_fixed64(number: u32, values: &Vec<u64>, buf: &mut Vec<u8>)
    requires
        valid_number(number),
    ensures
        values@.len() == 0 ==> final(buf)@ == old(buf)@,
        values@.len() > 0 ==> final(buf)@ == old(buf)@ + field_bytes(
            (WireField { number: number as nat, value: WireValue::Bytes(packed_bytes(values@)) }),
        ),
{
    prost::encoding::fixed64::encode_packed(number, values, buf)
}

/// One field.
pub open spec fn one_field(number: nat, value: WireValue) -> Seq<WireField> {
    seq![WireField { number, value }]
}

/// The field of an unsigned number; none for zero.
pub open spec fn uint32_field(number: nat, value: u32) -> Seq<WireField> {
    if value == 0 {
        Seq::empty()
    } else {
        one_field(number, WireValue::Varint(value as nat))
    }
}

/// The field of a signed number; none for zero.
pub open spec fn int32_field(number: nat, value: i32) -> Seq<WireField> {
    if value == 0 {
        Seq::empty()
    } else {
        one_field(number, WireValue::Varint(value as u64 as nat))
    }
}

/// The field of a truth value; none for false.
pub open spec fn bool_field(number: nat, value: bool) -> Seq<WireField> {
    if value {
        one_field(number, WireValue::Varint(1))
    } else {
        Seq::empty()
    }
}

/// The field of a number of four bytes; none for zero.
pub open spec fn fixed32_field(number: nat, value: u32) -> Seq<WireField> {
    if value == 0 {
        Seq::empty()
    } else {
        one_field(number, WireValue::Fixed32(value))
    }
}

/// The field of a number of eight bytes; none for zero.
pub open spec fn fixed64_field(number: nat, value: u64) -> Seq<WireField> {
    if value == 0 {
        Seq::empty()
    } else {
        one_field(number, WireValue::Fixed64(value))
    }
}

/// The field of a double that is always there.
pub open spec fn double_value_field(number: nat, value: Double) -> Seq<WireField> {
    one_field(number, WireValue::Fixed64(value.bits))
}

/// The field of a double; none for either zero.
pub open spec fn double_field(number: nat, value: Double) -> Seq<WireField> {
    if value.bits == 0 || value.bits == 0x8000_0000_0000_0000 {
        Seq::empty()
    } else {
        double_value_field(number, value)
    }
}

/// The field of an optional double.
pub open spec fn optional_double_field(number: nat, value: Option<Double>) -> Seq<WireField> {
    match value {
        Some(double) => double_value_field(number, double),
        None => Seq::empty(),
    }
}

/// The field of a text; none for an empty one.
pub open spec fn string_field(number: nat, text: Seq<char>) -> Seq<WireField> {
    if text.len() == 0 {
        Seq::empty()
    } else {
        one_field(number, WireValue::Bytes(encode_utf8(text)))
    }
}

/// The field of bytes; none where there are none.
pub open spec fn bytes_field(number: nat, bytes: Seq<u8>) -> Seq<WireField> {
    if bytes.len() == 0 {
        Seq::empty()
    } else {
        one_field(number, WireValue::Bytes(bytes))
    }
}

/// The field of a message in a message.
pub open spec fn message_field(number: nat, fields: Seq<WireField>) -> Seq<WireField> {
    one_field(number, WireValue::Bytes(message_bytes(fields)))
}

/// The field of numbers of eight bytes; none where there are none.
pub open spec fn packed_field(number: nat, values: Seq<u64>) -> Seq<WireField> {
    if values.len() == 0 {
        Seq::empty()
    } else {
        one_field(number, WireValue::Bytes(packed_bytes(values)))
    }
}

/// The bit patterns of doubles.
pub open spec fn double_bits(values: Seq<Double>) -> Seq<u64> {
    Seq::new(values.len(), |i: int| values[i].bits)
}

/// Writes a message, field by field.
pub struct MessageWriter {
    buf: Vec<u8>,
    fields: Ghost<Seq<WireField>>,
}

impl View for MessageWriter {
    type V = Seq<WireField>;

    /// The fields written so far.
    closed spec fn view(&self) -> Seq<WireField> {
        self.fields@
    }
}

impl MessageWriter {
    #[verifier::type_invariant]
    spec fn well_formed(self) -> bool {
        self.buf@ == message_bytes(self.fields@)
    }

    /// A message without fields.
    pub fn new() -> (writer: Self)
        ensures
            writer@ == Seq::<WireField>::empty(),
    {
        MessageWriter { buf: Vec::new(), fields: Ghost(Seq::empty()) }
    }

    /// The bytes of the message.
    pub fn finish(self) -> (bytes: Vec<u8>)
        ensures
            bytes@ == message_bytes(self@),
    {
        proof {
            use_type_invariant(&self);
        }
        self.buf
    }

    /// The message with the bytes of one more field.
    fn extended(
        buf: Vec<u8>,
        Ghost(fields): Ghost<Seq<WireField>>,
        number: u32,
        Ghost(value): Ghost<WireValue>,
    ) -> (writer: Self)
        requires
            buf@ == message_bytes(fields) + field_bytes(
                (WireField { number: number as nat, value }),
            ),
        ensures
            writer@ == fields + one_field(number as nat, value),
    {
        let ghost field = WireField { number: number as nat, value };
        proof {
            lemma_message_bytes_single(field);
            lemma_message_bytes_concat(fields, seq![field]);
        }
        MessageWriter { buf, fields: Ghost(fields + seq![field]) }
    }

    /// Adds an unsigned number, unless it is zero.
    pub fn put_uint32(self, number: u32, value: u32) -> (writer: Self)
        requires
            valid_number(number),
        ensures
            writer@ == self@ + uint32_field(number as nat, value),
    {
        if value == 0 {
            assert(self@ + Seq::empty() =~= self@);
            return self;
        }
        proof {
            use_type_invariant(&self);
        }
        let ghost fields = self@;
        let mut buf = self.buf;
        encode_uint32(number, value, &mut buf);
        MessageWriter::extended(buf, Ghost(fields), number, Ghost(WireValue::Varint(value as nat)))
    }

    /// Adds a signed number, unless it is zero.
    pub fn put_int32(self, number: u32, value: i32) -> (writer: Self)
        requires
            valid_number(number),
        ensures
            writer@ == self@ + int32_field(number as nat, value),
    {
        if value == 0 {
            assert(self@ + Seq::empty() =~= self@);
            return self;
        }
        proof {
            use_type_invariant(&self);
        }
        let ghost fields = self@;
        let mut buf = self.buf;
        encode_int32(number, value, &mut buf);
        MessageWriter::extended(
            buf,
            Ghost(fields),
            number,
            Ghost(WireValue::Varint(value as u64 as nat)),
        )
    }

    /// Adds a signed number, zero too.
    pub fn put_int64_value(self, number: u32, value: i64) -> (writer: Self)
        requires
            valid_number(number),
        ensures
            writer@ == self@ + one_field(number as nat, WireValue::Varint(value as u64 as nat)),
    {
        proof {
            use_type_invariant(&self);
        }
        let ghost fields = self@;
        let mut buf = self.buf;
        encode_int64(number, value, &mut buf);
        MessageWriter::extended(
            buf,
            Ghost(fields),
            number,
            Ghost(WireValue::Varint(value as u64 as nat)),
        )
    }

    /// Adds a truth value, unless it is false.
    pub fn put_bool(self, number: u32, value: bool) -> (writer: Self)
        requires
            valid_number(number),
        ensures
            writer@ == self@ + bool_field(number as nat, value),
    {
        if !value {
            assert(self@ + Seq::empty() =~= self@);
            return self;
        }
        proof {
            use_type_invariant(&self);
        }
        let ghost fields = self@;
        let mut buf = self.buf;
        encode_bool(number, value, &mut buf);
        MessageWriter::extended(buf, Ghost(fields), number, Ghost(WireValue::Varint(1)))
    }

    /// Adds a truth value, false too.
    pub fn put_bool_value(self, number: u32, value: bool) -> (writer: Self)
        requires
            valid_number(number),
        ensures
            writer@ == self@ + one_field(number as nat, truth_value(value)),
    {
        proof {
            use_type_invariant(&self);
        }
        let ghost fields = self@;
        let mut buf = self.buf;
        encode_bool(number, value, &mut buf);
        MessageWriter::extended(
            buf,
            Ghost(fields),
            number,
            Ghost(truth_value(value)),
        )
    }

    /// Adds a number of four bytes, unless it is zero.
    pub fn put_fixed32(self, number: u32, value: u32) -> (writer: Self)
        requires
            valid_number(number),
        ensures
            writer@ == self@ + fixed32_field(number as nat, value),
    {
        if value == 0 {
            assert(self@ + Seq::empty() =~= self@);
            return self;
        }
        proof {
            use_type_invariant(&self);
        }
        let ghost fields = self@;
        let mut buf = self.buf;
        encode_fixed32(number, value, &mut buf);
        MessageWriter::extended(buf, Ghost(fields), number, Ghost(WireValue::Fixed32(value)))
    }

    /// Adds a number of eight bytes, unless it is zero.
    pub fn put_fixed64(self, number: u32, value: u64) -> (writer: Self)
        requires
            valid_number(number),
        ensures
            writer@ == self@ + fixed64_field(number as nat, value),
    {
        if value == 0 {
            assert(self@ + Seq::empty() =~= self@);
            return self;
        }
        proof {
            use_type_invariant(&self);
        }
        let ghost fields = self@;
        let mut buf = self.buf;
        encode_fixed64(number, value, &mut buf);
        MessageWriter::extended(buf, Ghost(fields), number, Ghost(WireValue::Fixed64(value)))
    }

    /// Adds a double, zero too.
    pub fn put_double_value(self, number: u32, value: Double) -> (writer: Self)
        requires
            valid_number(number),
        ensures
            writer@ == self@ + double_value_field(number as nat, value),
    {
        proof {
            use_type_invariant(&self);
        }
        let ghost fields = self@;
        let mut buf = self.buf;
        encode_fixed64(number, value.bits, &mut buf);
        MessageWriter::extended(buf, Ghost(fields), number, Ghost(WireValue::Fixed64(value.bits)))
    }

    /// Adds a double, unless it is zero.
    pub fn put_double(self, number: u32, value: Double) -> (writer: Self)
        requires
            valid_number(number),
        ensures
            writer@ == self@ + double_field(number as nat, value),
    {
        if value.bits == 0 || value.bits == 0x8000_0000_0000_0000 {
            assert(self@ + Seq::empty() =~= self@);
            return self;
        }
        proof {
            use_type_invariant(&self);
        }
        let ghost fields = self@;
        let mut buf = self.buf;
        encode_fixed64(number, value.bits, &mut buf);
        MessageWriter::extended(buf, Ghost(fields), number, Ghost(WireValue::Fixed64(value.bits)))
    }

    /// Adds a text, an empty one too.
    pub fn put_string_value(self, number: u32, value: &String) -> (writer: Self)
        requires
            valid_number(number),
        ensures
            writer@ == self@ + one_field(number as nat, WireValue::Bytes(encode_utf8(value@))),
    {
        proof {
            use_type_invariant(&self);
        }
        let ghost fields = self@;
        let mut buf = self.buf;
        encode_string(number, value, &mut buf);
        MessageWriter::extended(
            buf,
            Ghost(fields),
            number,
            Ghost(WireValue::Bytes(encode_utf8(value@))),
        )
    }

    /// Adds a text, unless it is empty.
    pub fn put_string(self, number: u32, value: &String) -> (writer: Self)
        requires
            valid_number(number),
        ensures
            writer@ == self@ + string_field(number as nat, value@),
    {
        if value.as_str().unicode_len() == 0 {
            assert(self@ + Seq::empty() =~= self@);
            return self;
        }
        self.put_string_value(number, value)
    }

    /// Adds bytes, where there are none too.
    pub fn put_bytes_value(self, number: u32, value: &Vec<u8>) -> (writer: Self)
        requires
            valid_number(number),
        ensures
            writer@ == self@ + one_field(number as nat, WireValue::Bytes(value@)),
    {
        proof {
            use_type_invariant(&self);
        }
        let ghost fields = self@;
        let mut buf = self.buf;
        encode_bytes(number, value, &mut buf);
        MessageWriter::extended(buf, Ghost(fields), number, Ghost(WireValue::Bytes(value@)))
    }

    /// Adds bytes, unless there are none.
    pub fn put_bytes(self, number: u32, value: &Vec<u8>) -> (writer: Self)
        requires
            valid_number(number),
        ensures
            writer@ == self@ + bytes_field(number as nat, value@),
    {
        if value.len() == 0 {
            assert(self@ + Seq::empty() =~= self@);
            return self;
        }
        self.put_bytes_value(number, value)
    }

    /// Adds a message.
    pub fn put_message(self, number: u32, message: MessageWriter) -> (writer: Self)
        requires
            valid_number(number),
        ensures
            writer@ == self@ + message_field(number as nat, message@),
    {
        let bytes = message.finish();
        self.put_bytes_value(number, &bytes)
    }

    /// Adds an optional double.
    pub fn put_optional_double(self, number: u32, value: Option<Double>) -> (writer: Self)
        requires
            valid_number(number),
        ensures
            writer@ == self@ + optional_double_field(number as nat, value),
    {
        match value {
            Some(double) => self.put_double_value(number, double),
            None => {
                assert(self@ + Seq::empty() =~= self@);
                self
            },
        }
    }

    /// Adds numbers of eight bytes, unless there are none.
    pub fn put_packed(self, number: u32, values: &Vec<u64>) -> (writer: Self)
        requires
            valid_number(number),
        ensures
            writer@ == self@ + packed_field(number as nat, values@),
    {
        proof {
            use_type_invariant(&self);
        }
        let ghost fields = self@;
        let mut buf = self.buf;
        encode_packed_fixed64(number, values, &mut buf);
        if values.len() == 0 {
            assert(fields + Seq::empty() =~= fields);
            MessageWriter { buf, fields: Ghost(fields) }
        } else {
            MessageWriter::extended(
                buf,
                Ghost(fields),
                number,
                Ghost(WireValue::Bytes(packed_bytes(values@))),
            )
        }
    }

    /// Adds doubles, unless there are none.
    pub fn put_packed_doubles(self, number: u32, values: &Vec<Double>) -> (writer: Self)
        requires
            valid_number(number),
        ensures
            writer@ == self@ + packed_field(number as nat, double_bits(values@)),
    {
        let mut bits: Vec<u64> = Vec::new();
        let mut i: usize = 0;
        while i < values.len()
            invariant
                i <= values@.len(),
                bits@ == double_bits(values@.take(i as int)),
            decreases values@.len() - i,
        {
            bits.push(values[i].bits);
            i = i + 1;
            assert(bits@ =~= double_bits(values@.take(i as int)));
        }
        assert(values@.take(i as int) =~= values@);
        self.put_packed(number, &bits)
    }
}

}
