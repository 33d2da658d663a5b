//! The executable encoder: canonical bytes for any well-formed value.

use vstd::prelude::*;
use vstd::slice::slice_to_vec;
use crate::codes::{
    FC_DESCRIBED, FC_NULL, FC_BOOLEAN, FC_TRUE, FC_FALSE, FC_UBYTE, FC_USHORT, FC_UINT,
    FC_SMALL_UINT, FC_UINT0, FC_ULONG, FC_SMALL_ULONG, FC_ULONG0, FC_BYTE, FC_SHORT,
    FC_INT, FC_SMALL_INT, FC_LONG, FC_SMALL_LONG, FC_FLOAT, FC_DOUBLE, FC_DECIMAL32,
    FC_DECIMAL64, FC_DECIMAL128, FC_CHAR, FC_TIMESTAMP, FC_UUID, FC_VBIN8, FC_VBIN32,
    FC_STR8, FC_STR32, FC_SYM8, FC_SYM32, FC_LIST0, FC_LIST8, FC_LIST32, FC_MAP8,
    FC_MAP32, FC_ARRAY8, FC_ARRAY32,
};
use crate::value::{
    Descriptor, Error, Value, VData, model, model_descriptor, model_seq, model_pairs,
    lemma_model_seq, lemma_model_pairs,
};
use crate::encode::{
    enc, enc_seq, enc_pairs, enc_elem, enc_array_body, enc_descriptor, enc_ulong, enc_sym,
    elem_code, wf, wf_seq, wf_pairs, be2, be4, be8, be16, tc,
    lemma_enc_seq_take, lemma_enc_pairs_take, lemma_wf_seq_forall, lemma_wf_pairs_forall,
};

verus! {

broadcast use vstd::seq::group_seq_axioms;

/// Appends the two network-order bytes of a 16-bit integer.
fn push_be2(out: &mut Vec<u8>, x: u16)
    ensures
        final(out)@ == old(out)@ + be2(x),
{
    out.push((x / 0x100) as u8);
    out.push((x % 0x100) as u8);
    assert(out@ =~= old(out)@ + be2(x));
}

/// Appends the four network-order bytes of a 32-bit integer.
fn push_be4(out: &mut Vec<u8>, x: u32)
    ensures
        final(out)@ == old(out)@ + be4(x),
{
    push_be2(out, (x / 0x10000) as u16);
    push_be2(out, (x % 0x10000) as u16);
    assert(out@ =~= old(out)@ + be4(x));
}

/// Appends the eight network-order bytes of a 64-bit integer.
fn push_be8(out: &mut Vec<u8>, x: u64)
    ensures
        final(out)@ == old(out)@ + be8(x),
{
    push_be4(out, (x / 0x100000000) as u32);
    push_be4(out, (x % 0x100000000) as u32);
    assert(out@ =~= old(out)@ + be8(x));
}

/// Appends the sixteen network-order bytes of a 128-bit integer.
fn push_be16(out: &mut Vec<u8>, x: u128)
    ensures
        final(out)@ == old(out)@ + be16(x),
{
    push_be8(out, (x / 0x10000000000000000) as u64);
    push_be8(out, (x % 0x10000000000000000) as u64);
    assert(out@ =~= old(out)@ + be16(x));
}

/// Appends a copy of the given bytes.
fn push_bytes(out: &mut Vec<u8>, b: &[u8])
    ensures
        final(out)@ == old(out)@ + b@,
{
    let mut copy = slice_to_vec(b);
    out.append(&mut copy);
}

/// The two's complement byte of an 8-bit signed integer.
fn tc1(x: i8) -> (r: u8)
    ensures
        r as int == tc(x as int, 0x100),
{
    if x >= 0 {
        x as u8
    } else {
        0xff - ((-(x as i16 + 1)) as u8)
    }
}

/// The two's complement value of a 16-bit signed integer.
fn tc2(x: i16) -> (r: u16)
    ensures
        r as int == tc(x as int, 0x10000),
{
    if x >= 0 {
        x as u16
    } else {
        0xffff - ((-(x as i32 + 1)) as u16)
    }
}

/// The two's complement value of a 32-bit signed integer.
fn tc4(x: i32) -> (r: u32)
    ensures
        r as int == tc(x as int, 0x100000000),
{
    if x >= 0 {
        x as u32
    } else {
        0xffffffff - ((-(x as i64 + 1)) as u32)
    }
}

/// The two's complement value of a 64-bit signed integer.
fn tc8(x: i64) -> (r: u64)
    ensures
        r as int == tc(x as int, 0x10000000000000000),
{
    if x >= 0 {
        x as u64
    } else {
        0xffffffffffffffff - ((-(x as i128 + 1)) as u64)
    }
}

/// Appends the canonical encoding of a 64-bit unsigned integer, format code
/// included.
fn push_ulong(out: &mut Vec<u8>, x: u64)
    ensures
        final(out)@ == old(out)@ + enc_ulong(x),
{
    if x == 0 {
        out.push(FC_ULONG0);
        assert(out@ =~= old(out)@ + enc_ulong(x));
    } else if x <= 0xff {
        out.push(FC_SMALL_ULONG);
        out.push(x as u8);
        assert(out@ =~= old(out)@ + enc_ulong(x));
    } else {
        out.push(FC_ULONG);
        push_be8(out, x);
        assert(out@ =~= old(out)@ + enc_ulong(x));
    }
}

/// Appends the canonical encoding of a symbol, format code included.
/// Fails when the symbol exceeds the wire format's four-byte size.
fn push_sym(out: &mut Vec<u8>, b: &Vec<u8>) -> (r: Result<(), Error>)
    ensures
        r is Ok <==> b@.len() <= 0xffffffff,
        r is Ok ==> final(out)@ == old(out)@ + enc_sym(b@),
        r is Err ==> final(out)@ == old(out)@,
        r matches Err(e) ==> e == Error::NotEncodable,
{
    if b.len() <= 0xff {
        out.push(FC_SYM8);
        out.push(b.len() as u8);
        push_bytes(out, b.as_slice());
        assert(out@ =~= old(out)@ + enc_sym(b@));
        Ok(())
    } else if b.len() as u64 <= 0xffffffff {
        out.push(FC_SYM32);
        push_be4(out, b.len() as u32);
        push_bytes(out, b.as_slice());
        assert(out@ =~= old(out)@ + enc_sym(b@));
        Ok(())
    } else {
        Err(Error::NotEncodable)
    }
}

/// Appends the canonical encoding of a descriptor. Fails when a symbolic
/// name exceeds the wire format's four-byte size.
fn push_descriptor(out: &mut Vec<u8>, d: &Descriptor) -> (r: Result<(), Error>)
    ensures
        r is Ok <==> (model_descriptor(*d) matches crate::value::VDescriptor::Name(b)
            ==> b.len() <= 0xffffffff),
        r is Ok ==> final(out)@ == old(out)@ + enc_descriptor(model_descriptor(*d)),
        r is Err ==> final(out)@ == old(out)@,
        r matches Err(e) ==> e == Error::NotEncodable,
{
    match d {
        Descriptor::Code(c) => {
            push_ulong(out, *c);
            Ok(())
        },
        Descriptor::Name(b) => push_sym(out, b),
    }
}

/// The format code a value carries as an array element.
fn elem_code_of(v: &Value) -> (r: u8)
    ensures
        r == elem_code(model(*v)),
{
    match v {
        Value::Null => FC_NULL,
        Value::Bool(_) => FC_BOOLEAN,
        Value::UByte(_) => FC_UBYTE,
        Value::UShort(_) => FC_USHORT,
        Value::UInt(_) => FC_UINT,
        Value::ULong(_) => FC_ULONG,
        Value::Byte(_) => FC_BYTE,
        Value::Short(_) => FC_SHORT,
        Value::Int(_) => FC_INT,
        Value::Long(_) => FC_LONG,
        Value::Float(_) => FC_FLOAT,
        Value::Double(_) => FC_DOUBLE,
        Value::Dec32(_) => FC_DECIMAL32,
        Value::Dec64(_) => FC_DECIMAL64,
        Value::Dec128(_) => FC_DECIMAL128,
        Value::Char(_) => FC_CHAR,
        Value::Timestamp(_) => FC_TIMESTAMP,
        Value::Uuid(_) => FC_UUID,
        Value::Binary(_) => FC_VBIN32,
        Value::Str(_) => FC_STR32,
        Value::Symbol(_) => FC_SYM32,
        Value::List(_) => FC_LIST32,
        Value::Mapping(_) => FC_MAP32,
        Value::Array(_) => FC_ARRAY32,
        Value::Described(_, _) => FC_DESCRIBED,
    }
}

/// Encodes the elements of a list, one canonical encoding after another.
/// Fails exactly when some element is not well-formed.
fn encode_list_payload(es: &Vec<Value>) -> (r: Result<Vec<u8>, Error>)
    ensures
        r is Ok <==> wf_seq(model_seq(es@)),
        r matches Ok(b) ==> b@ == enc_seq(model_seq(es@)),
        r matches Err(e) ==> e == Error::NotEncodable,
    decreases es@, 0int,
{
    let ghost ms = model_seq(es@);
    proof {
        lemma_model_seq(es@);
    }
    let mut body: Vec<u8> = Vec::new();
    let mut i: usize = 0;
    while i < es.len()
        invariant
            0 <= i <= es.len(),
            ms == model_seq(es@),
            ms.len() == es@.len(),
            forall|j: int| 0 <= j < es@.len() ==> ms[j] == model(#[trigger] es@[j]),
            body@ == enc_seq(ms.take(i as int)),
            wf_seq(ms.take(i as int)),
        decreases es.len() - i,
    {
        proof {
            lemma_enc_seq_take(ms, i as int);
            assert(decreases_to!(es@ => es@[i as int]));
        }
        match encode_value(&es[i], &mut body) {
            Ok(()) => {},
            Err(e) => {
                proof {
                    lemma_wf_seq_forall(ms);
                }
                return Err(e);
            },
        }
        i = i + 1;
    }
    proof {
        assert(ms.take(es@.len() as int) =~= ms);
    }
    Ok(body)
}

/// Encodes the pairs of a map, each key before its value. Fails exactly
/// when some key or value is not well-formed.
fn encode_pairs_payload(ps: &Vec<(Value, Value)>) -> (r: Result<Vec<u8>, Error>)
    ensures
        r is Ok <==> wf_pairs(model_pairs(ps@)),
        r matches Ok(b) ==> b@ == enc_pairs(model_pairs(ps@)),
        r matches Err(e) ==> e == Error::NotEncodable,
    decreases ps@, 0int,
{
    let ghost ms = model_pairs(ps@);
    proof {
        lemma_model_pairs(ps@);
    }
    let mut body: Vec<u8> = Vec::new();
    let mut i: usize = 0;
    while i < ps.len()
        invariant
            0 <= i <= ps.len(),
            ms == model_pairs(ps@),
            ms.len() == ps@.len(),
            forall|j: int| 0 <= j < ps@.len() ==> ms[j]
                == (model((#[trigger] ps@[j]).0), model(ps@[j].1)),
            body@ == enc_pairs(ms.take(i as int)),
            wf_pairs(ms.take(i as int)),
        decreases ps.len() - i,
    {
        proof {
            lemma_enc_pairs_take(ms, i as int);
            assert(decreases_to!(ps@ => ps@[i as int]));
            assert(decreases_to!(ps@[i as int] => ps@[i as int].0));
            assert(decreases_to!(ps@[i as int] => ps@[i as int].1));
        }
        match encode_value(&ps[i].0, &mut body) {
            Ok(()) => {},
            Err(e) => {
                proof {
                    lemma_wf_pairs_forall(ms);
                }
                return Err(e);
            },
        }
        match encode_value(&ps[i].1, &mut body) {
            Ok(()) => {},
            Err(e) => {
                proof {
                    lemma_wf_pairs_forall(ms);
                }
                return Err(e);
            },
        }
        i = i + 1;
    }
    proof {
        assert(ms.take(ps@.len() as int) =~= ms);
    }
    Ok(body)
}

/// Encodes the elements of an array as bare payloads under one shared
/// format code. Fails exactly when some element is not well-formed or does
/// not carry the shared code.
fn encode_array_payload(es: &Vec<Value>, code: u8) -> (r: Result<Vec<u8>, Error>)
    ensures
        r is Ok <==> wf_seq(model_seq(es@)) && (forall|j: int| 0 <= j < es@.len()
            ==> !((#[trigger] model_seq(es@)[j]) is Described)
                && elem_code(model_seq(es@)[j]) == code),
        r matches Ok(b) ==> b@ == enc_array_body(model_seq(es@)),
        r matches Err(e) ==> e == Error::NotEncodable,
    decreases es@, 0int,
{
    let ghost ms = model_seq(es@);
    proof {
        lemma_model_seq(es@);
    }
    let mut body: Vec<u8> = Vec::new();
    let mut i: usize = 0;
    while i < es.len()
        invariant
            0 <= i <= es.len(),
            ms == model_seq(es@),
            ms.len() == es@.len(),
            forall|j: int| 0 <= j < es@.len() ==> ms[j] == model(#[trigger] es@[j]),
            body@ == enc_array_body(ms.take(i as int)),
            wf_seq(ms.take(i as int)),
            forall|j: int| 0 <= j < i ==> !((#[trigger] ms[j]) is Described)
                && elem_code(ms[j]) == code,
        decreases es.len() - i,
    {
        proof {
            lemma_enc_seq_take(ms, i as int);
            assert(decreases_to!(es@ => es@[i as int]));
        }
        let ci = elem_code_of(&es[i]);
        if ci != code || ci == FC_DESCRIBED {
            proof {
                lemma_wf_seq_forall(ms);
            }
            return Err(Error::NotEncodable);
        }
        match encode_elem(&es[i], &mut body) {
            Ok(()) => {},
            Err(e) => {
                proof {
                    lemma_wf_seq_forall(ms);
                }
                return Err(e);
            },
        }
        i = i + 1;
    }
    proof {
        assert(ms.take(es@.len() as int) =~= ms);
    }
    Ok(body)
}

/// Appends the canonical encoding of a value. Fails, leaving the output
/// untouched, exactly when the value is not well-formed: a size beyond the
/// wire format's four-byte fields, or an array whose elements do not share
/// one format code.
#[verifier::spinoff_prover]
#[verifier::rlimit(100)]
pub fn encode_value(v: &Value, out: &mut Vec<u8>) -> (r: Result<(), Error>)
    ensures
        r is Ok <==> wf(model(*v)),
        r is Ok ==> final(out)@ == old(out)@ + enc(model(*v)),
        r is Err ==> final(out)@ == old(out)@,
        r matches Err(e) ==> e == Error::NotEncodable,
    decreases *v, 1int,
{
    match v {
        Value::Binary(_) | Value::Str(_) => encode_var_value(v, out),
        Value::Symbol(b) => push_sym(out, b),
        Value::List(_) => encode_list_value(v, out),
        Value::Mapping(_) => encode_map_value(v, out),
        Value::Array(_) => encode_array_value(v, out),
        Value::Described(_, _) => encode_described_value(v, out),
        _ => {
            encode_scalar_value(v, out);
            Ok(())
        },
    }
}

/// Appends the canonical encoding of a fixed-width scalar value, which
/// always succeeds.
#[verifier::spinoff_prover]
#[verifier::rlimit(100)]
fn encode_scalar_value(v: &Value, out: &mut Vec<u8>)
    requires
        match v {
            Value::Null | Value::Bool(_) | Value::UByte(_) | Value::UShort(_)
                | Value::UInt(_) | Value::ULong(_) | Value::Byte(_) | Value::Short(_)
                | Value::Int(_) | Value::Long(_) | Value::Float(_) | Value::Double(_)
                | Value::Dec32(_) | Value::Dec64(_) | Value::Dec128(_) | Value::Char(_)
                | Value::Timestamp(_) | Value::Uuid(_) => true,
            _ => false,
        },
    ensures
        wf(model(*v)),
        final(out)@ == old(out)@ + enc(model(*v)),
{
    match v {
        Value::Null => {
            out.push(FC_NULL);
            assert(out@ =~= old(out)@ + enc(model(*v)));
        },
        Value::Bool(b) => {
            if *b {
                out.push(FC_TRUE);
            } else {
                out.push(FC_FALSE);
            }
            assert(out@ =~= old(out)@ + enc(model(*v)));
        },
        Value::UByte(x) => {
            out.push(FC_UBYTE);
            out.push(*x);
            assert(out@ =~= old(out)@ + enc(model(*v)));
        },
        Value::UShort(x) => {
            out.push(FC_USHORT);
            push_be2(out, *x);
            assert(out@ =~= old(out)@ + enc(model(*v)));
        },
        Value::UInt(x) => {
            if *x == 0 {
                out.push(FC_UINT0);
            } else if *x <= 0xff {
                out.push(FC_SMALL_UINT);
                out.push(*x as u8);
            } else {
                out.push(FC_UINT);
                push_be4(out, *x);
            }
            assert(out@ =~= old(out)@ + enc(model(*v)));
        },
        Value::ULong(x) => {
            push_ulong(out, *x);
        },
        Value::Byte(x) => {
            out.push(FC_BYTE);
            out.push(tc1(*x));
            assert(out@ =~= old(out)@ + enc(model(*v)));
        },
        Value::Short(x) => {
            out.push(FC_SHORT);
            push_be2(out, tc2(*x));
            assert(out@ =~= old(out)@ + enc(model(*v)));
        },
        Value::Int(x) => {
            if -0x80 <= *x && *x <= 0x7f {
                out.push(FC_SMALL_INT);
                out.push(tc1(*x as i8));
            } else {
                out.push(FC_INT);
                push_be4(out, tc4(*x));
            }
            assert(out@ =~= old(out)@ + enc(model(*v)));
        },
        Value::Long(x) => {
            if -0x80 <= *x && *x <= 0x7f {
                out.push(FC_SMALL_LONG);
                out.push(tc1(*x as i8));
            } else {
                out.push(FC_LONG);
                push_be8(out, tc8(*x));
            }
            assert(out@ =~= old(out)@ + enc(model(*v)));
        },
        Value::Float(x) => {
            out.push(FC_FLOAT);
            push_be4(out, *x);
            assert(out@ =~= old(out)@ + enc(model(*v)));
        },
        Value::Double(x) => {
            out.push(FC_DOUBLE);
            push_be8(out, *x);
            assert(out@ =~= old(out)@ + enc(model(*v)));
        },
        Value::Dec32(x) => {
            out.push(FC_DECIMAL32);
            push_be4(out, *x);
            assert(out@ =~= old(out)@ + enc(model(*v)));
        },
        Value::Dec64(x) => {
            out.push(FC_DECIMAL64);
            push_be8(out, *x);
            assert(out@ =~= old(out)@ + enc(model(*v)));
        },
        Value::Dec128(x) => {
            out.push(FC_DECIMAL128);
            push_be16(out, *x);
            assert(out@ =~= old(out)@ + enc(model(*v)));
        },
        Value::Char(c) => {
            out.push(FC_CHAR);
            push_be4(out, *c as u32);
            assert(out@ =~= old(out)@ + enc(model(*v)));
        },
        Value::Timestamp(x) => {
            out.push(FC_TIMESTAMP);
            push_be8(out, tc8(*x));
            assert(out@ =~= old(out)@ + enc(model(*v)));
        },
        Value::Uuid(x) => {
            out.push(FC_UUID);
            push_be16(out, *x);
            assert(out@ =~= old(out)@ + enc(model(*v)));
        },
        _ => {},
    }
}

/// Appends the element payload of a value under its own array format code.
/// Fails, leaving the output untouched, exactly when the value is not
/// well-formed or is a described value, which has no array form.
#[verifier::spinoff_prover]
#[verifier::rlimit(100)]
fn encode_elem(v: &Value, out: &mut Vec<u8>) -> (r: Result<(), Error>)
    ensures
        r is Ok <==> wf(model(*v)) && !(model(*v) is Described),
        r is Ok ==> final(out)@ == old(out)@ + enc_elem(model(*v)),
        r is Err ==> final(out)@ == old(out)@,
        r matches Err(e) ==> e == Error::NotEncodable,
    decreases *v, 1int,
{
    match v {
        Value::Binary(_) | Value::Str(_) | Value::Symbol(_) => encode_var_elem(v, out),
        Value::List(_) => encode_list_elem(v, out),
        Value::Mapping(_) => encode_map_elem(v, out),
        Value::Array(_) => encode_array_elem(v, out),
        Value::Described(_, _) => Err(Error::NotEncodable),
        _ => {
            encode_scalar_elem(v, out);
            Ok(())
        },
    }
}

/// Appends the element payload of a fixed-width scalar value, which always
/// succeeds.
#[verifier::spinoff_prover]
#[verifier::rlimit(100)]
fn encode_scalar_elem(v: &Value, out: &mut Vec<u8>)
    requires
        match v {
            Value::Null | Value::Bool(_) | Value::UByte(_) | Value::UShort(_)
                | Value::UInt(_) | Value::ULong(_) | Value::Byte(_) | Value::Short(_)
                | Value::Int(_) | Value::Long(_) | Value::Float(_) | Value::Double(_)
                | Value::Dec32(_) | Value::Dec64(_) | Value::Dec128(_) | Value::Char(_)
                | Value::Timestamp(_) | Value::Uuid(_) => true,
            _ => false,
        },
    ensures
        wf(model(*v)),
        !(model(*v) is Described),
        final(out)@ == old(out)@ + enc_elem(model(*v)),
{
    match v {
        Value::Null => {
            assert(out@ =~= old(out)@ + enc_elem(model(*v)));
        },
        Value::Bool(b) => {
            if *b {
                out.push(1);
            } else {
                out.push(0);
            }
            assert(out@ =~= old(out)@ + enc_elem(model(*v)));
        },
        Value::UByte(x) => {
            out.push(*x);
            assert(out@ =~= old(out)@ + enc_elem(model(*v)));
        },
        Value::UShort(x) => {
            push_be2(out, *x);
        },
        Value::UInt(x) => {
            push_be4(out, *x);
        },
        Value::ULong(x) => {
            push_be8(out, *x);
        },
        Value::Byte(x) => {
            out.push(tc1(*x));
            assert(out@ =~= old(out)@ + enc_elem(model(*v)));
        },
        Value::Short(x) => {
            push_be2(out, tc2(*x));
        },
        Value::Int(x) => {
            push_be4(out, tc4(*x));
        },
        Value::Long(x) => {
            push_be8(out, tc8(*x));
        },
        Value::Float(x) => {
            push_be4(out, *x);
        },
        Value::Double(x) => {
            push_be8(out, *x);
        },
        Value::Dec32(x) => {
            push_be4(out, *x);
        },
        Value::Dec64(x) => {
            push_be8(out, *x);
        },
        Value::Dec128(x) => {
            push_be16(out, *x);
        },
        Value::Char(c) => {
            push_be4(out, *c as u32);
        },
        Value::Timestamp(x) => {
            push_be8(out, tc8(*x));
        },
        Value::Uuid(x) => {
            push_be16(out, *x);
        },
        _ => {},
    }
}

/// Appends the element payload of a binary blob, string or symbol. Fails
/// exactly when the payload exceeds the wire format's four-byte size.
#[verifier::spinoff_prover]
#[verifier::rlimit(100)]
fn encode_var_elem(v: &Value, out: &mut Vec<u8>) -> (r: Result<(), Error>)
    requires
        v is Binary || v is Str || v is Symbol,
    ensures
        r is Ok <==> wf(model(*v)),
        r is Ok ==> final(out)@ == old(out)@ + enc_elem(model(*v)),
        r is Err ==> final(out)@ == old(out)@,
        r matches Err(e) ==> e == Error::NotEncodable,
{
    match v {
        Value::Binary(b) => {
            if b.len() as u64 <= 0xffffffff {
                push_be4(out, b.len() as u32);
                push_bytes(out, b.as_slice());
                assert(out@ =~= old(out)@ + enc_elem(model(*v)));
                Ok(())
            } else {
                Err(Error::NotEncodable)
            }
        },
        Value::Str(s) => {
            let bs = s.as_str().as_bytes();
            if bs.len() as u64 <= 0xffffffff {
                push_be4(out, bs.len() as u32);
                push_bytes(out, bs);
                assert(out@ =~= old(out)@ + enc_elem(model(*v)));
                Ok(())
            } else {
                Err(Error::NotEncodable)
            }
        },
        Value::Symbol(b) => {
            if b.len() as u64 <= 0xffffffff {
                push_be4(out, b.len() as u32);
                push_bytes(out, b.as_slice());
                assert(out@ =~= old(out)@ + enc_elem(model(*v)));
                Ok(())
            } else {
                Err(Error::NotEncodable)
            }
        },
        _ => Err(Error::NotEncodable),
    }
}

/// Appends the canonical encoding of a binary blob or string. Fails exactly
/// when the payload exceeds the wire format's four-byte size.
#[verifier::spinoff_prover]
#[verifier::rlimit(100)]
fn encode_var_value(v: &Value, out: &mut Vec<u8>) -> (r: Result<(), Error>)
    requires
        v is Binary || v is Str,
    ensures
        r is Ok <==> wf(model(*v)),
        r is Ok ==> final(out)@ == old(out)@ + enc(model(*v)),
        r is Err ==> final(out)@ == old(out)@,
        r matches Err(e) ==> e == Error::NotEncodable,
{
    match v {
        Value::Binary(b) => {
            if b.len() <= 0xff {
                out.push(FC_VBIN8);
                out.push(b.len() as u8);
                push_bytes(out, b.as_slice());
                assert(out@ =~= old(out)@ + enc(model(*v)));
                Ok(())
            } else if b.len() as u64 <= 0xffffffff {
                out.push(FC_VBIN32);
                push_be4(out, b.len() as u32);
                push_bytes(out, b.as_slice());
                assert(out@ =~= old(out)@ + enc(model(*v)));
                Ok(())
            } else {
                Err(Error::NotEncodable)
            }
        },
        Value::Str(s) => {
            let bs = s.as_str().as_bytes();
            if bs.len() <= 0xff {
                out.push(FC_STR8);
                out.push(bs.len() as u8);
                push_bytes(out, bs);
                assert(out@ =~= old(out)@ + enc(model(*v)));
                Ok(())
            } else if bs.len() as u64 <= 0xffffffff {
                out.push(FC_STR32);
                push_be4(out, bs.len() as u32);
                push_bytes(out, bs);
                assert(out@ =~= old(out)@ + enc(model(*v)));
                Ok(())
            } else {
                Err(Error::NotEncodable)
            }
        },
        _ => Err(Error::NotEncodable),
    }
}


/// One container case of the encoder, kept apart so that each proof stays
/// small.
#[verifier::spinoff_prover]
#[verifier::rlimit(100)]
fn encode_list_value(v: &Value, out: &mut Vec<u8>) -> (r: Result<(), Error>)
    requires
        v is List,
    ensures
        r is Ok <==> wf(model(*v)),
        r is Ok ==> final(out)@ == old(out)@ + enc(model(*v)),
        r is Err ==> final(out)@ == old(out)@,
        r matches Err(e) ==> e == Error::NotEncodable,
    decreases *v, 0int,
{
    match v {
        Value::List(es) => {
            proof {
                lemma_model_seq(es@);
                assert(decreases_to!(*v => v->List_0));
                assert(decreases_to!(v->List_0 => v->List_0@));
            }
            let body = match encode_list_payload(es) {
                Ok(b) => b,
                Err(e) => {
                    return Err(e);
                },
            };
            if es.len() == 0 {
                out.push(FC_LIST0);
                assert(out@ =~= old(out)@ + enc(model(*v)));
                Ok(())
            } else if body.len() <= 0xfe && es.len() <= 0xff {
                out.push(FC_LIST8);
                out.push((body.len() + 1) as u8);
                out.push(es.len() as u8);
                push_bytes(out, body.as_slice());
                assert(out@ =~= old(out)@ + enc(model(*v)));
                Ok(())
            } else if body.len() as u64 <= 0xfffffffb && es.len() as u64 <= 0xffffffff {
                out.push(FC_LIST32);
                push_be4(out, (body.len() + 4) as u32);
                push_be4(out, es.len() as u32);
                push_bytes(out, body.as_slice());
                assert(out@ =~= old(out)@ + enc(model(*v)));
                Ok(())
            } else {
                Err(Error::NotEncodable)
            }
        },
        _ => Err(Error::NotEncodable),
    }
}

/// One container case of the encoder, kept apart so that each proof stays
/// small.
#[verifier::spinoff_prover]
#[verifier::rlimit(100)]
fn encode_map_value(v: &Value, out: &mut Vec<u8>) -> (r: Result<(), Error>)
    requires
        v is Mapping,
    ensures
        r is Ok <==> wf(model(*v)),
        r is Ok ==> final(out)@ == old(out)@ + enc(model(*v)),
        r is Err ==> final(out)@ == old(out)@,
        r matches Err(e) ==> e == Error::NotEncodable,
    decreases *v, 0int,
{
    match v {
        Value::Mapping(ps) => {
            proof {
                lemma_model_pairs(ps@);
                assert(decreases_to!(*v => v->Mapping_0));
                assert(decreases_to!(v->Mapping_0 => v->Mapping_0@));
            }
            let body = match encode_pairs_payload(ps) {
                Ok(b) => b,
                Err(e) => {
                    return Err(e);
                },
            };
            if body.len() <= 0xfe && ps.len() <= 0x7f {
                out.push(FC_MAP8);
                out.push((body.len() + 1) as u8);
                out.push((2 * ps.len()) as u8);
                push_bytes(out, body.as_slice());
                assert(out@ =~= old(out)@ + enc(model(*v)));
                Ok(())
            } else if body.len() as u64 <= 0xfffffffb && ps.len() as u64 <= 0x7fffffff {
                out.push(FC_MAP32);
                push_be4(out, (body.len() + 4) as u32);
                push_be4(out, (2 * ps.len()) as u32);
                push_bytes(out, body.as_slice());
                assert(out@ =~= old(out)@ + enc(model(*v)));
                Ok(())
            } else {
                Err(Error::NotEncodable)
            }
        },
        _ => Err(Error::NotEncodable),
    }
}

/// One container case of the encoder, kept apart so that each proof stays
/// small.
#[verifier::spinoff_prover]
#[verifier::rlimit(100)]
fn encode_array_value(v: &Value, out: &mut Vec<u8>) -> (r: Result<(), Error>)
    requires
        v is Array,
    ensures
        r is Ok <==> wf(model(*v)),
        r is Ok ==> final(out)@ == old(out)@ + enc(model(*v)),
        r is Err ==> final(out)@ == old(out)@,
        r matches Err(e) ==> e == Error::NotEncodable,
    decreases *v, 0int,
{
    match v {
        Value::Array(es) => {
            proof {
                assert(es@.len() == 0 ==> model_seq(es@) =~= Seq::<VData>::empty());
                assert(wf_seq(Seq::<VData>::empty()));
            }
            if es.len() == 0 {
                out.push(FC_ARRAY8);
                out.push(2);
                out.push(0);
                out.push(FC_NULL);
                assert(out@ =~= old(out)@ + enc(model(*v)));
                return Ok(());
            }
            proof {
                lemma_model_seq(es@);
                assert(decreases_to!(*v => v->Array_0));
                assert(decreases_to!(v->Array_0 => v->Array_0@));
            }
            let code = elem_code_of(&es[0]);
            let body = match encode_array_payload(es, code) {
                Ok(b) => b,
                Err(e) => {
                    return Err(e);
                },
            };
            if body.len() <= 0xfd && es.len() <= 0xff {
                out.push(FC_ARRAY8);
                out.push((body.len() + 2) as u8);
                out.push(es.len() as u8);
                out.push(code);
                push_bytes(out, body.as_slice());
                assert(out@ =~= old(out)@ + enc(model(*v)));
                Ok(())
            } else if body.len() as u64 <= 0xfffffffa && es.len() as u64 <= 0xffffffff {
                out.push(FC_ARRAY32);
                push_be4(out, (body.len() + 5) as u32);
                push_be4(out, es.len() as u32);
                out.push(code);
                push_bytes(out, body.as_slice());
                assert(out@ =~= old(out)@ + enc(model(*v)));
                Ok(())
            } else {
                Err(Error::NotEncodable)
            }
        },
        _ => Err(Error::NotEncodable),
    }
}

/// One container case of the encoder, kept apart so that each proof stays
/// small.
#[verifier::spinoff_prover]
#[verifier::rlimit(100)]
fn encode_described_value(v: &Value, out: &mut Vec<u8>) -> (r: Result<(), Error>)
    requires
        v is Described,
    ensures
        r is Ok <==> wf(model(*v)),
        r is Ok ==> final(out)@ == old(out)@ + enc(model(*v)),
        r is Err ==> final(out)@ == old(out)@,
        r matches Err(e) ==> e == Error::NotEncodable,
    decreases *v, 0int,
{
    match v {
        Value::Described(d, inner) => {
            let mut tmp: Vec<u8> = Vec::new();
            tmp.push(FC_DESCRIBED);
            match push_descriptor(&mut tmp, d) {
                Ok(()) => {},
                Err(e) => {
                    return Err(e);
                },
            }
            proof {
                assert(decreases_to!(*v => v->Described_1));
            }
            match encode_value(&**inner, &mut tmp) {
                Ok(()) => {},
                Err(e) => {
                    return Err(e);
                },
            }
            push_bytes(out, tmp.as_slice());
            assert(out@ =~= old(out)@ + enc(model(*v)));
            Ok(())
        },
        _ => Err(Error::NotEncodable),
    }
}

/// One container case of the array-element encoder, kept apart so that each proof stays
/// small.
#[verifier::spinoff_prover]
#[verifier::rlimit(100)]
fn encode_list_elem(v: &Value, out: &mut Vec<u8>) -> (r: Result<(), Error>)
    requires
        v is List,
    ensures
        r is Ok <==> wf(model(*v)),
        r is Ok ==> final(out)@ == old(out)@ + enc_elem(model(*v)),
        r is Err ==> final(out)@ == old(out)@,
        r matches Err(e) ==> e == Error::NotEncodable,
    decreases *v, 0int,
{
    match v {
        Value::List(es) => {
            proof {
                lemma_model_seq(es@);
                assert(decreases_to!(*v => v->List_0));
                assert(decreases_to!(v->List_0 => v->List_0@));
            }
            let body = match encode_list_payload(es) {
                Ok(b) => b,
                Err(e) => {
                    return Err(e);
                },
            };
            if body.len() as u64 <= 0xfffffffb && es.len() as u64 <= 0xffffffff {
                push_be4(out, (body.len() + 4) as u32);
                push_be4(out, es.len() as u32);
                push_bytes(out, body.as_slice());
                assert(out@ =~= old(out)@ + enc_elem(model(*v)));
                Ok(())
            } else {
                Err(Error::NotEncodable)
            }
        },
        _ => Err(Error::NotEncodable),
    }
}

/// One container case of the array-element encoder, kept apart so that each proof stays
/// small.
#[verifier::spinoff_prover]
#[verifier::rlimit(100)]
fn encode_map_elem(v: &Value, out: &mut Vec<u8>) -> (r: Result<(), Error>)
    requires
        v is Mapping,
    ensures
        r is Ok <==> wf(model(*v)),
        r is Ok ==> final(out)@ == old(out)@ + enc_elem(model(*v)),
        r is Err ==> final(out)@ == old(out)@,
        r matches Err(e) ==> e == Error::NotEncodable,
    decreases *v, 0int,
{
    match v {
        Value::Mapping(ps) => {
            proof {
                lemma_model_pairs(ps@);
                assert(decreases_to!(*v => v->Mapping_0));
                assert(decreases_to!(v->Mapping_0 => v->Mapping_0@));
            }
            let body = match encode_pairs_payload(ps) {
                Ok(b) => b,
                Err(e) => {
                    return Err(e);
                },
            };
            if body.len() as u64 <= 0xfffffffb && ps.len() as u64 <= 0x7fffffff {
                push_be4(out, (body.len() + 4) as u32);
                push_be4(out, (2 * ps.len()) as u32);
                push_bytes(out, body.as_slice());
                assert(out@ =~= old(out)@ + enc_elem(model(*v)));
                Ok(())
            } else {
                Err(Error::NotEncodable)
            }
        },
        _ => Err(Error::NotEncodable),
    }
}

/// One container case of the array-element encoder, kept apart so that each proof stays
/// small.
#[verifier::spinoff_prover]
#[verifier::rlimit(100)]
fn encode_array_elem(v: &Value, out: &mut Vec<u8>) -> (r: Result<(), Error>)
    requires
        v is Array,
    ensures
        r is Ok <==> wf(model(*v)),
        r is Ok ==> final(out)@ == old(out)@ + enc_elem(model(*v)),
        r is Err ==> final(out)@ == old(out)@,
        r matches Err(e) ==> e == Error::NotEncodable,
    decreases *v, 0int,
{
    match v {
        Value::Array(es) => {
            proof {
                assert(es@.len() == 0 ==> model_seq(es@) =~= Seq::<VData>::empty());
                assert(wf_seq(Seq::<VData>::empty()));
            }
            if es.len() == 0 {
                push_be4(out, 5);
                push_be4(out, 0);
                out.push(FC_NULL);
                assert(out@ =~= old(out)@ + enc_elem(model(*v)));
                return Ok(());
            }
            proof {
                lemma_model_seq(es@);
                assert(decreases_to!(*v => v->Array_0));
                assert(decreases_to!(v->Array_0 => v->Array_0@));
            }
            let code = elem_code_of(&es[0]);
            let body = match encode_array_payload(es, code) {
                Ok(b) => b,
                Err(e) => {
                    return Err(e);
                },
            };
            if body.len() as u64 <= 0xfffffffa && es.len() as u64 <= 0xffffffff {
                push_be4(out, (body.len() + 5) as u32);
                push_be4(out, es.len() as u32);
                out.push(code);
                push_bytes(out, body.as_slice());
                assert(out@ =~= old(out)@ + enc_elem(model(*v)));
                Ok(())
            } else {
                Err(Error::NotEncodable)
            }
        },
        _ => Err(Error::NotEncodable),
    }
}

/// Encodes a value to its canonical bytes. Fails exactly when the value is
/// not well-formed for the wire format.
pub fn to_vec(value: &Value) -> (r: Result<Vec<u8>, Error>)
    ensures
        r is Ok <==> wf(model(*value)),
        r matches Ok(b) ==> b@ == enc(model(*value)),
        r matches Err(e) ==> e == Error::NotEncodable,
{
    let mut out: Vec<u8> = Vec::new();
    match encode_value(value, &mut out) {
        Ok(()) => {
            assert(out@ =~= enc(model(*value)));
            Ok(out)
        },
        Err(e) => Err(e),
    }
}

} // verus!
