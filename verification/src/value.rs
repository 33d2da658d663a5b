//! The AMQP primitive value model and its mathematical counterpart.

use vstd::prelude::*;

verus! {

/// Errors of the type codec.
#[derive(Clone, Copy, PartialEq, Eq, Structural, Debug)]
pub enum Error {
    /// A byte that is not a format code, or a payload that no value of the
    /// announced type can have.
    InvalidFormatCode,
    /// The input ended before the announced value was complete.
    UnexpectedEof,
    /// A declared size disagrees with the bytes that follow it.
    SizeMismatch,
    /// A string payload that is not valid UTF-8.
    Utf8,
    /// A typed decoder met a descriptor other than the one it expects.
    DescriptorMismatch,
    /// A category query on the described-type constructor.
    IsDescribedType,
    /// A value too large for the wire format's 32-bit sizes, or an array
    /// whose elements do not share one format code.
    NotEncodable,
}

/// A descriptor of a described type: a numeric code or a symbolic name.
#[derive(PartialEq, Eq, Debug)]
pub enum Descriptor {
    /// A 64-bit numeric descriptor code.
    Code(u64),
    /// A symbolic name, held as its ASCII bytes.
    Name(Vec<u8>),
}

/// A described value: a descriptor and the value it qualifies.
#[derive(PartialEq, Eq, Debug)]
pub struct Described {
    /// The descriptor that announces the protocol role of the value.
    pub descriptor: Descriptor,
    /// The value being described.
    pub value: Box<Value>,
}

/// An AMQP primitive value.
///
/// The 32- and 64-bit floating point values and the three decimal widths are
/// held as their raw wire bytes, read as unsigned integers in network order,
/// so that the codec is bit-exact without arithmetic on them.
#[derive(PartialEq, Eq, Debug)]
pub enum Value {
    /// The null value.
    Null,
    /// A boolean.
    Bool(bool),
    /// An 8-bit unsigned integer.
    UByte(u8),
    /// A 16-bit unsigned integer.
    UShort(u16),
    /// A 32-bit unsigned integer.
    UInt(u32),
    /// A 64-bit unsigned integer.
    ULong(u64),
    /// An 8-bit signed integer.
    Byte(i8),
    /// A 16-bit signed integer.
    Short(i16),
    /// A 32-bit signed integer.
    Int(i32),
    /// A 64-bit signed integer.
    Long(i64),
    /// The bit pattern of a 32-bit IEEE-754 number.
    Float(u32),
    /// The bit pattern of a 64-bit IEEE-754 number.
    Double(u64),
    /// The bytes of a 32-bit decimal, in network order.
    Dec32(u32),
    /// The bytes of a 64-bit decimal, in network order.
    Dec64(u64),
    /// The bytes of a 128-bit decimal, in network order.
    Dec128(u128),
    /// A UTF-32 code point.
    Char(char),
    /// Milliseconds since the UNIX epoch.
    Timestamp(i64),
    /// A universally unique identifier, as its sixteen bytes in network order.
    Uuid(u128),
    /// An opaque binary blob.
    Binary(Vec<u8>),
    /// A UTF-8 string.
    Str(String),
    /// A symbol from a constrained domain, held as its ASCII bytes.
    Symbol(Vec<u8>),
    /// A polymorphic ordered list.
    List(Vec<Value>),
    /// An ordered map that preserves insertion order.
    Mapping(Vec<(Value, Value)>),
    /// A homogeneous array: every element carries one format code.
    Array(Vec<Value>),
    /// A described value: a descriptor and the value it qualifies.
    Described(Descriptor, Box<Value>),
}

/// The mathematical model of a descriptor.
pub enum VDescriptor {
    /// A numeric descriptor code.
    Code(u64),
    /// A symbolic name, as its byte sequence.
    Name(Seq<u8>),
}

/// The mathematical model of a value, used throughout the codec's
/// specifications. Two values that differ only in their wire widths share
/// one model.
pub enum VData {
    /// The null value.
    Null,
    /// A boolean.
    Bool(bool),
    /// An 8-bit unsigned integer.
    UByte(u8),
    /// A 16-bit unsigned integer.
    UShort(u16),
    /// A 32-bit unsigned integer.
    UInt(u32),
    /// A 64-bit unsigned integer.
    ULong(u64),
    /// An 8-bit signed integer.
    Byte(i8),
    /// A 16-bit signed integer.
    Short(i16),
    /// A 32-bit signed integer.
    Int(i32),
    /// A 64-bit signed integer.
    Long(i64),
    /// The bit pattern of a 32-bit IEEE-754 number.
    Float(u32),
    /// The bit pattern of a 64-bit IEEE-754 number.
    Double(u64),
    /// The bytes of a 32-bit decimal.
    Dec32(u32),
    /// The bytes of a 64-bit decimal.
    Dec64(u64),
    /// The bytes of a 128-bit decimal.
    Dec128(u128),
    /// A UTF-32 code point.
    Char(char),
    /// Milliseconds since the UNIX epoch.
    Timestamp(i64),
    /// A universally unique identifier.
    Uuid(u128),
    /// An opaque binary blob.
    Binary(Seq<u8>),
    /// A string, as its character sequence.
    Str(Seq<char>),
    /// A symbol, as its byte sequence.
    Symbol(Seq<u8>),
    /// An ordered list.
    List(Seq<VData>),
    /// An ordered map.
    Mapping(Seq<(VData, VData)>),
    /// A homogeneous array.
    Array(Seq<VData>),
    /// A described value.
    Described(VDescriptor, Box<VData>),
}

/// The model of a descriptor.
pub open spec fn model_descriptor(d: Descriptor) -> VDescriptor {
    match d {
        Descriptor::Code(c) => VDescriptor::Code(c),
        Descriptor::Name(n) => VDescriptor::Name(n@),
    }
}

/// The mathematical model of a value.
pub open spec fn model(v: Value) -> VData
    decreases v, 1int,
{
    match v {
        Value::Null => VData::Null,
        Value::Bool(b) => VData::Bool(b),
        Value::UByte(x) => VData::UByte(x),
        Value::UShort(x) => VData::UShort(x),
        Value::UInt(x) => VData::UInt(x),
        Value::ULong(x) => VData::ULong(x),
        Value::Byte(x) => VData::Byte(x),
        Value::Short(x) => VData::Short(x),
        Value::Int(x) => VData::Int(x),
        Value::Long(x) => VData::Long(x),
        Value::Float(x) => VData::Float(x),
        Value::Double(x) => VData::Double(x),
        Value::Dec32(x) => VData::Dec32(x),
        Value::Dec64(x) => VData::Dec64(x),
        Value::Dec128(x) => VData::Dec128(x),
        Value::Char(c) => VData::Char(c),
        Value::Timestamp(t) => VData::Timestamp(t),
        Value::Uuid(u) => VData::Uuid(u),
        Value::Binary(b) => VData::Binary(b@),
        Value::Str(s) => VData::Str(s@),
        Value::Symbol(s) => VData::Symbol(s@),
        Value::List(es) => VData::List(model_seq(es@)),
        Value::Mapping(ps) => VData::Mapping(model_pairs(ps@)),
        Value::Array(es) => VData::Array(model_seq(es@)),
        Value::Described(d, inner) => VData::Described(
            model_descriptor(d),
            Box::new(model(*inner)),
        ),
    }
}

/// The models of a sequence of values, elementwise.
pub open spec fn model_seq(s: Seq<Value>) -> Seq<VData>
    decreases s, 0int,
{
    if s.len() == 0 {
        Seq::empty()
    } else {
        seq![model(s[0])] + model_seq(s.drop_first())
    }
}

/// The models of a sequence of key-value pairs, elementwise.
pub open spec fn model_pairs(s: Seq<(Value, Value)>) -> Seq<(VData, VData)>
    decreases s, 0int,
{
    if s.len() == 0 {
        Seq::empty()
    } else {
        seq![(model(s[0].0), model(s[0].1))] + model_pairs(s.drop_first())
    }
}

/// The model of a sequence of values has one entry per value, each the model
/// of the value in place.
pub proof fn lemma_model_seq(s: Seq<Value>)
    ensures
        model_seq(s).len() == s.len(),
        forall|i: int| 0 <= i < s.len() ==> model_seq(s)[i] == model(#[trigger] s[i]),
    decreases s.len(),
{
    if s.len() > 0 {
        lemma_model_seq(s.drop_first());
        assert forall|i: int| 0 <= i < s.len() implies model_seq(s)[i] == model(#[trigger] s[i]) by {
            if i > 0 {
                assert(s.drop_first()[i - 1] == s[i]);
            }
        }
    }
}

/// The model of a sequence of pairs has one entry per pair, each the models
/// of the key and the value in place.
pub proof fn lemma_model_pairs(s: Seq<(Value, Value)>)
    ensures
        model_pairs(s).len() == s.len(),
        forall|i: int| 0 <= i < s.len() ==> model_pairs(s)[i]
            == (model(#[trigger] s[i].0), model(s[i].1)),
    decreases s.len(),
{
    if s.len() > 0 {
        lemma_model_pairs(s.drop_first());
        assert forall|i: int| 0 <= i < s.len() implies model_pairs(s)[i]
            == (model(#[trigger] s[i].0), model(s[i].1)) by {
            if i > 0 {
                assert(s.drop_first()[i - 1] == s[i]);
            }
        }
    }
}

/// Skipping a prefix commutes with taking models.
pub proof fn lemma_model_seq_skip(s: Seq<Value>, k: int)
    requires
        0 <= k <= s.len(),
    ensures
        model_seq(s.skip(k)) == model_seq(s).skip(k),
{
    lemma_model_seq(s);
    lemma_model_seq(s.skip(k));
    assert forall|i: int| 0 <= i < s.len() - k implies model_seq(s.skip(k))[i] == model_seq(
        s,
    ).skip(k)[i] by {
        assert(s.skip(k)[i] == s[k + i]);
    }
    assert(model_seq(s.skip(k)) =~= model_seq(s).skip(k));
}

} // verus!

verus! {

/// Appending one value to a run appends its model.
pub proof fn lemma_model_seq_push(s: Seq<Value>, v: Value)
    ensures
        model_seq(s.push(v)) == model_seq(s) + seq![model(v)],
{
    lemma_model_seq(s);
    lemma_model_seq(s.push(v));
    assert forall|i: int| 0 <= i < s.len() + 1 implies model_seq(s.push(v))[i] == (model_seq(s)
        + seq![model(v)])[i] by {
        if i < s.len() {
            assert(s.push(v)[i] == s[i]);
            assert(model_seq(s.push(v))[i] == model(s[i]));
        } else {
            assert(s.push(v)[i] == v);
        }
    }
    assert(model_seq(s.push(v)) =~= model_seq(s) + seq![model(v)]);
}

/// Appending one pair to a run of pairs appends the models of its key and
/// value.
pub proof fn lemma_model_pairs_push(s: Seq<(Value, Value)>, kv: (Value, Value))
    ensures
        model_pairs(s.push(kv)) == model_pairs(s) + seq![(model(kv.0), model(kv.1))],
{
    lemma_model_pairs(s);
    lemma_model_pairs(s.push(kv));
    assert forall|i: int| 0 <= i < s.len() + 1 implies model_pairs(s.push(kv))[i] == (
    model_pairs(s) + seq![(model(kv.0), model(kv.1))])[i] by {
        if i < s.len() {
            assert(s.push(kv)[i] == s[i]);
            assert(model_pairs(s.push(kv))[i] == (model(s[i].0), model(s[i].1)));
        } else {
            assert(s.push(kv)[i] == kv);
        }
    }
    assert(model_pairs(s.push(kv)) =~= model_pairs(s) + seq![(model(kv.0), model(kv.1))]);
}

} // verus!
