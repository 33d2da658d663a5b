//! The executable decoder: it realises the decoding relation exactly, value
//! for value and error for error.

use vstd::prelude::*;
use vstd::slice::{slice_subrange, slice_to_vec};
use vstd::utf8::{valid_utf8, decode_utf8, encode_utf8, encode_utf8_decode_utf8};
use crate::codes::{
    FC_DESCRIBED, FC_NULL, FC_BOOLEAN, FC_TRUE, FC_FALSE, FC_UBYTE, FC_USHORT, FC_UINT,
    FC_SMALL_UINT, FC_UINT0, FC_ULONG, FC_SMALL_ULONG, FC_ULONG0, FC_BYTE, FC_SHORT,
    FC_INT, FC_SMALL_INT, FC_LONG, FC_SMALL_LONG, FC_FLOAT, FC_DOUBLE, FC_DECIMAL32,
    FC_DECIMAL64, FC_DECIMAL128, FC_CHAR, FC_TIMESTAMP, FC_UUID, FC_VBIN8, FC_VBIN32,
    FC_STR8, FC_STR32, FC_SYM8, FC_SYM32, FC_LIST0, FC_LIST8, FC_LIST32, FC_MAP8,
    FC_MAP32, FC_ARRAY8, FC_ARRAY32,
};
use crate::value::{
    Descriptor, Error, Value, VData, VDescriptor, model, model_descriptor, model_seq,
    model_pairs, lemma_model_seq, lemma_model_pairs, lemma_model_seq_push,
    lemma_model_pairs_push,
};
use crate::encode::{v2, v4, v8, v16};
use crate::decode::{
    dec, dec_body, dec_elems, dec_elems_coded, dec_descriptor, pairs_of, array_constructor,
    sgn1, sgn2, sgn4, sgn8, valid_scalar,
};
use crate::laws::{flatten_pairs, lemma_flatten_pairs, lemma_minimal, lemma_minimal_body};

verus! {

broadcast use vstd::seq::group_seq_axioms;

/// Relies on String::from_utf8: it succeeds exactly on valid UTF-8 input
/// and the returned string views those same bytes.
#[verifier::external_body]
fn vec_to_string(b: Vec<u8>) -> (r: Option<String>)
    ensures
        r is Some <==> valid_utf8(b@),
        r matches Some(s) ==> encode_utf8(s@) == b@,
{
    String::from_utf8(b).ok()
}

/// Relies on char::from_u32: it succeeds exactly on unicode scalar values,
/// and the returned character casts back to the given code point.
#[verifier::external_body]
fn char_from_u32(x: u32) -> (r: Option<char>)
    ensures
        r is Some <==> valid_scalar(x),
        r matches Some(c) ==> c as u32 == x,
{
    char::from_u32(x)
}

/// The composition of an already-decoded prefix with the decoding of the
/// remaining elements of a run.
pub open spec fn compose_elems(
    prefix: Seq<VData>,
    consumed: int,
    rest: Result<(Seq<VData>, int), Error>,
) -> Result<(Seq<VData>, int), Error> {
    match rest {
        Ok((vs2, c2)) => Ok((prefix + vs2, consumed + c2)),
        Err(e) => Err(e),
    }
}

/// The exec decoding of a prefix mirrors the decoding relation when the
/// results pair up: same value model and count, or the same error.
pub open spec fn mirrors(r: Result<(Value, usize), Error>, d: Result<(VData, int), Error>)
    -> bool {
    match r {
        Ok((v, n)) => d == Ok::<(VData, int), Error>((model(v), n as int)),
        Err(e) => d == Err::<(VData, int), Error>(e),
    }
}

/// Reads one byte.
fn read_u8(s: &[u8], pos: usize) -> (r: u8)
    requires
        pos < s.len(),
    ensures
        r == s@[pos as int],
{
    s[pos]
}

/// Reads a 16-bit network-order integer.
fn read_u16(s: &[u8], pos: usize) -> (r: u16)
    requires
        pos + 2 <= s.len(),
    ensures
        r == v2(s@[pos as int], s@[pos as int + 1]),
{
    (s[pos] as u16) * 0x100 + (s[pos + 1] as u16)
}

/// Reads a 32-bit network-order integer.
fn read_u32(s: &[u8], pos: usize) -> (r: u32)
    requires
        pos + 4 <= s.len(),
    ensures
        r == v4(s@[pos as int], s@[pos as int + 1], s@[pos as int + 2], s@[pos as int + 3]),
{
    (read_u16(s, pos) as u32) * 0x10000 + (read_u16(s, pos + 2) as u32)
}

/// Reads a 64-bit network-order integer.
fn read_u64(s: &[u8], pos: usize) -> (r: u64)
    requires
        pos + 8 <= s.len(),
    ensures
        r == v8(s@.subrange(pos as int, pos as int + 8)),
{
    let x = (read_u32(s, pos) as u64) * 0x100000000 + (read_u32(s, pos + 4) as u64);
    proof {
        let w = s@.subrange(pos as int, pos as int + 8);
        assert(w[0] == s@[pos as int] && w[1] == s@[pos as int + 1] && w[2] == s@[pos as int
            + 2] && w[3] == s@[pos as int + 3] && w[4] == s@[pos as int + 4] && w[5]
            == s@[pos as int + 5] && w[6] == s@[pos as int + 6] && w[7] == s@[pos as int + 7]);
    }
    x
}

/// Reads a 128-bit network-order integer.
fn read_u128(s: &[u8], pos: usize) -> (r: u128)
    requires
        pos + 16 <= s.len(),
    ensures
        r == v16(s@.subrange(pos as int, pos as int + 16)),
{
    let x = (read_u64(s, pos) as u128) * 0x10000000000000000 + (read_u64(s, pos + 8) as u128);
    proof {
        let w = s@.subrange(pos as int, pos as int + 16);
        assert(w.take(8) =~= s@.subrange(pos as int, pos as int + 8));
        assert(w.skip(8) =~= s@.subrange(pos as int + 8, pos as int + 16));
    }
    x
}

/// Decodes a descriptor at the given position. Mirrors the descriptor
/// decoding relation.
fn decode_descriptor(s: &[u8], pos: usize) -> (r: Result<(Descriptor, usize), Error>)
    requires
        pos <= s.len(),
    ensures
        match r {
            Ok((d, n)) => dec_descriptor(s@.skip(pos as int)) == Ok::<(VDescriptor, int), Error>(
                (model_descriptor(d), n as int),
            ) && pos + n <= s.len(),
            Err(e) => dec_descriptor(s@.skip(pos as int)) == Err::<(VDescriptor, int), Error>(e),
        },
{
    let ghost w = s@.skip(pos as int);
    if pos >= s.len() {
        return Err(Error::UnexpectedEof);
    }
    let code = read_u8(s, pos);
    assert(w[0] == code);
    if code == FC_ULONG0 {
        Ok((Descriptor::Code(0), 1))
    } else if code == FC_SMALL_ULONG {
        if s.len() - pos < 2 {
            return Err(Error::UnexpectedEof);
        }
        Ok((Descriptor::Code(read_u8(s, pos + 1) as u64), 2))
    } else if code == FC_ULONG {
        if s.len() - pos < 9 {
            return Err(Error::UnexpectedEof);
        }
        let x = read_u64(s, pos + 1);
        proof {
            assert(w.subrange(1, 9) =~= s@.subrange(pos as int + 1, pos as int + 9));
        }
        Ok((Descriptor::Code(x), 9))
    } else if code == FC_SYM8 {
        if s.len() - pos < 2 {
            return Err(Error::UnexpectedEof);
        }
        let n = read_u8(s, pos + 1) as usize;
        if s.len() - pos - 2 < n {
            return Err(Error::SizeMismatch);
        }
        let b = slice_to_vec(slice_subrange(s, pos + 2, pos + 2 + n));
        proof {
            assert(w.subrange(2, 2 + n as int) =~= s@.subrange(
                pos as int + 2,
                pos as int + 2 + n as int,
            ));
        }
        Ok((Descriptor::Name(b), 2 + n))
    } else if code == FC_SYM32 {
        if s.len() - pos < 5 {
            return Err(Error::UnexpectedEof);
        }
        let n32 = read_u32(s, pos + 1);
        let avail: u64 = (s.len() - pos - 5) as u64;
        if avail < n32 as u64 {
            return Err(Error::SizeMismatch);
        }
        let n = n32 as usize;
        let b = slice_to_vec(slice_subrange(s, pos + 5, pos + 5 + n));
        proof {
            assert(w[1] == s@[pos as int + 1] && w[2] == s@[pos as int + 2] && w[3]
                == s@[pos as int + 3] && w[4] == s@[pos as int + 4]);
            assert(w.subrange(5, 5 + n as int) =~= s@.subrange(
                pos as int + 5,
                pos as int + 5 + n as int,
            ));
        }
        Ok((Descriptor::Name(b), 5 + n))
    } else {
        Err(Error::InvalidFormatCode)
    }
}

/// Decodes one value at the given position. Mirrors the decoding relation:
/// the same value and count on success, the same error on failure.
pub fn decode_at(s: &[u8], pos: usize) -> (r: Result<(Value, usize), Error>)
    requires
        pos <= s.len(),
    ensures
        mirrors(r, dec(s@.skip(pos as int))),
        r matches Ok((v, n)) ==> n >= 1 && pos + n <= s.len(),
    decreases s.len() - pos, 3int,
{
    let ghost w = s@.skip(pos as int);
    proof {
        lemma_minimal(w);
    }
    if pos >= s.len() {
        return Err(Error::UnexpectedEof);
    }
    let code = read_u8(s, pos);
    assert(w[0] == code);
    if code == FC_DESCRIBED {
        proof {
            assert(w.skip(1) =~= s@.skip(pos as int + 1));
        }
        let (d, dn) = match decode_descriptor(s, pos + 1) {
            Ok(x) => x,
            Err(e) => {
                return Err(e);
            },
        };
        proof {
            assert(dn >= 1) by {
                reveal(crate::decode::dec_descriptor);
            }
            assert(w.skip(1 + dn as int) =~= s@.skip(pos as int + 1 + dn as int));
        }
        if dn < 1 {
            return Err(Error::SizeMismatch);
        }
        let (inner, n) = match decode_at(s, pos + 1 + dn) {
            Ok(x) => x,
            Err(e) => {
                return Err(e);
            },
        };
        Ok((Value::Described(d, Box::new(inner)), 1 + dn + n))
    } else {
        proof {
            assert(w.skip(1) =~= s@.skip(pos as int + 1));
        }
        match decode_body(code, s, pos + 1) {
            Ok((v, n)) => Ok((v, 1 + n)),
            Err(e) => Err(e),
        }
    }
}

/// Decodes a run of values, each announcing its own format code. Mirrors
/// the run decoding relation.
fn decode_elems(s: &[u8], pos: usize, n: usize) -> (r: Result<(Vec<Value>, usize), Error>)
    requires
        pos <= s.len(),
    ensures
        match r {
            Ok((vs, c)) => dec_elems(s@.skip(pos as int), n as int) == Ok::<
                (Seq<VData>, int),
                Error,
            >((model_seq(vs@), c as int)) && pos + c <= s.len() && vs@.len() == n,
            Err(e) => dec_elems(s@.skip(pos as int), n as int) == Err::<
                (Seq<VData>, int),
                Error,
            >(e),
        },
    decreases s.len() - pos, 4int, n,
{
    let ghost w0 = s@.skip(pos as int);
    let mut vs: Vec<Value> = Vec::new();
    let mut cur: usize = pos;
    let mut k: usize = 0;
    proof {
        lemma_model_seq(vs@);
        assert(model_seq(vs@) =~= Seq::<VData>::empty());
        assert(model_seq(vs@) + Seq::<VData>::empty() =~= Seq::<VData>::empty());
    }
    while k < n
        invariant
            pos <= cur <= s.len(),
            0 <= k <= n,
            vs@.len() == k,
            dec_elems(w0, n as int) == compose_elems(
                model_seq(vs@),
                cur - pos,
                dec_elems(s@.skip(cur as int), n - k),
            ),
            w0 == s@.skip(pos as int),
        decreases n - k,
    {
        let ghost wc = s@.skip(cur as int);
        let ghost gvs = model_seq(vs@);
        proof {
            lemma_minimal(wc);
        }
        let (v, c) = match decode_at(s, cur) {
            Ok(x) => x,
            Err(e) => {
                return Err(e);
            },
        };
        proof {
            assert(wc.skip(c as int) =~= s@.skip(cur as int + c as int));
            lemma_model_seq_push(vs@, v);
            let rest = dec_elems(s@.skip(cur as int + c as int), n - k - 1);
            assert(dec_elems(wc, n - k) == compose_elems(seq![model(v)], c as int, rest));
            match rest {
                Ok((vs2, c2)) => {
                    assert(gvs + (seq![model(v)] + vs2) =~= model_seq(vs@.push(v)) + vs2);
                },
                Err(_) => {},
            }
        }
        vs.push(v);
        cur = cur + c;
        k = k + 1;
    }
    proof {
        assert(dec_elems(s@.skip(cur as int), 0) == Ok::<(Seq<VData>, int), Error>(
            (Seq::empty(), 0),
        ));
        assert(model_seq(vs@) + Seq::<VData>::empty() =~= model_seq(vs@));
    }
    Ok((vs, cur - pos))
}

/// Decodes a run of array elements that share one format code. Mirrors the
/// coded run decoding relation.
fn decode_elems_coded(code: u8, s: &[u8], pos: usize, n: usize) -> (r: Result<
    (Vec<Value>, usize),
    Error,
>)
    requires
        pos <= s.len(),
    ensures
        match r {
            Ok((vs, c)) => dec_elems_coded(code, s@.skip(pos as int), n as int) == Ok::<
                (Seq<VData>, int),
                Error,
            >((model_seq(vs@), c as int)) && pos + c <= s.len() && vs@.len() == n,
            Err(e) => dec_elems_coded(code, s@.skip(pos as int), n as int) == Err::<
                (Seq<VData>, int),
                Error,
            >(e),
        },
    decreases s.len() - pos, 4int, n,
{
    let ghost w0 = s@.skip(pos as int);
    let mut vs: Vec<Value> = Vec::new();
    let mut cur: usize = pos;
    let mut k: usize = 0;
    proof {
        lemma_model_seq(vs@);
        assert(model_seq(vs@) =~= Seq::<VData>::empty());
        assert(model_seq(vs@) + Seq::<VData>::empty() =~= Seq::<VData>::empty());
    }
    while k < n
        invariant
            pos <= cur <= s.len(),
            0 <= k <= n,
            vs@.len() == k,
            dec_elems_coded(code, w0, n as int) == compose_elems(
                model_seq(vs@),
                cur - pos,
                dec_elems_coded(code, s@.skip(cur as int), n - k),
            ),
            w0 == s@.skip(pos as int),
        decreases n - k,
    {
        let ghost wc = s@.skip(cur as int);
        let ghost gvs = model_seq(vs@);
        proof {
            lemma_minimal_body(code, wc);
        }
        let (v, c) = match decode_body(code, s, cur) {
            Ok(x) => x,
            Err(e) => {
                return Err(e);
            },
        };
        proof {
            assert(wc.skip(c as int) =~= s@.skip(cur as int + c as int));
            lemma_model_seq_push(vs@, v);
            let rest = dec_elems_coded(code, s@.skip(cur as int + c as int), n - k - 1);
            assert(dec_elems_coded(code, wc, n - k) == compose_elems(
                seq![model(v)],
                c as int,
                rest,
            ));
            match rest {
                Ok((vs2, c2)) => {
                    assert(gvs + (seq![model(v)] + vs2) =~= model_seq(vs@.push(v)) + vs2);
                },
                Err(_) => {},
            }
        }
        vs.push(v);
        cur = cur + c;
        k = k + 1;
    }
    proof {
        assert(dec_elems_coded(code, s@.skip(cur as int), 0) == Ok::<(Seq<VData>, int), Error>(
            (Seq::empty(), 0),
        ));
        assert(model_seq(vs@) + Seq::<VData>::empty() =~= model_seq(vs@));
    }
    Ok((vs, cur - pos))
}

/// Decodes a value's body after its format code. Mirrors the body decoding
/// relation.
#[verifier::spinoff_prover]
#[verifier::rlimit(100)]
fn decode_body(code: u8, s: &[u8], pos: usize) -> (r: Result<(Value, usize), Error>)
    requires
        pos <= s.len(),
    ensures
        mirrors(r, dec_body(code, s@.skip(pos as int))),
        r matches Ok((v, n)) ==> pos + n <= s.len(),
    decreases s.len() - pos, 2int,
{
    let ghost w = s@.skip(pos as int);
    let rem = s.len() - pos;
    if code == FC_LIST0 || code == FC_LIST8 || code == FC_LIST32 || code == FC_MAP8
        || code == FC_MAP32 || code == FC_ARRAY8 || code == FC_ARRAY32 {
        decode_container_body(code, s, pos)
    } else if code == FC_VBIN8 || code == FC_VBIN32 || code == FC_STR8 || code == FC_STR32
        || code == FC_SYM8 || code == FC_SYM32 {
        decode_var_body(code, s, pos)
    } else {
        decode_scalar_body(code, s, pos)
    }
}

/// The scalar bodies of the decoder: every fixed-width shape.
#[verifier::spinoff_prover]
#[verifier::rlimit(100)]
fn decode_scalar_body(code: u8, s: &[u8], pos: usize) -> (r: Result<(Value, usize), Error>)
    requires
        pos <= s.len(),
        code != FC_LIST0 && code != FC_LIST8 && code != FC_LIST32 && code != FC_MAP8
            && code != FC_MAP32 && code != FC_ARRAY8 && code != FC_ARRAY32,
        code != FC_VBIN8 && code != FC_VBIN32 && code != FC_STR8 && code != FC_STR32
            && code != FC_SYM8 && code != FC_SYM32,
    ensures
        mirrors(r, dec_body(code, s@.skip(pos as int))),
        r matches Ok((v, n)) ==> pos + n <= s.len(),
{
    let ghost w = s@.skip(pos as int);
    let rem = s.len() - pos;
    if code == FC_NULL {
        Ok((Value::Null, 0))
    } else if code == FC_TRUE {
        Ok((Value::Bool(true), 0))
    } else if code == FC_FALSE {
        Ok((Value::Bool(false), 0))
    } else if code == FC_BOOLEAN {
        if rem < 1 {
            Err(Error::UnexpectedEof)
        } else {
            let b = read_u8(s, pos);
            assert(w[0] == b);
            if b == 0 {
                Ok((Value::Bool(false), 1))
            } else if b == 1 {
                Ok((Value::Bool(true), 1))
            } else {
                Err(Error::InvalidFormatCode)
            }
        }
    } else if code == FC_UBYTE {
        if rem < 1 {
            Err(Error::UnexpectedEof)
        } else {
            let b = read_u8(s, pos);
            assert(w[0] == b);
            Ok((Value::UByte(b), 1))
        }
    } else if code == FC_USHORT {
        if rem < 2 {
            Err(Error::UnexpectedEof)
        } else {
            let x = read_u16(s, pos);
            assert(w[0] == s@[pos as int] && w[1] == s@[pos as int + 1]);
            Ok((Value::UShort(x), 2))
        }
    } else if code == FC_UINT {
        if rem < 4 {
            Err(Error::UnexpectedEof)
        } else {
            let x = read_u32(s, pos);
            assert(w[0] == s@[pos as int] && w[1] == s@[pos as int + 1] && w[2]
                == s@[pos as int + 2] && w[3] == s@[pos as int + 3]);
            Ok((Value::UInt(x), 4))
        }
    } else if code == FC_SMALL_UINT {
        if rem < 1 {
            Err(Error::UnexpectedEof)
        } else {
            let b = read_u8(s, pos);
            assert(w[0] == b);
            Ok((Value::UInt(b as u32), 1))
        }
    } else if code == FC_UINT0 {
        Ok((Value::UInt(0), 0))
    } else if code == FC_ULONG {
        if rem < 8 {
            Err(Error::UnexpectedEof)
        } else {
            let x = read_u64(s, pos);
            proof {
                assert(w.take(8) =~= s@.subrange(pos as int, pos as int + 8));
            }
            Ok((Value::ULong(x), 8))
        }
    } else if code == FC_SMALL_ULONG {
        if rem < 1 {
            Err(Error::UnexpectedEof)
        } else {
            let b = read_u8(s, pos);
            assert(w[0] == b);
            Ok((Value::ULong(b as u64), 1))
        }
    } else if code == FC_ULONG0 {
        Ok((Value::ULong(0), 0))
    } else if code == FC_BYTE {
        if rem < 1 {
            Err(Error::UnexpectedEof)
        } else {
            let b = read_u8(s, pos);
            assert(w[0] == b);
            let x: i8 = if b <= 0x7f {
                b as i8
            } else {
                ((b as i16) - 0x100) as i8
            };
            assert(x as int == sgn1(b));
            Ok((Value::Byte(x), 1))
        }
    } else if code == FC_SHORT {
        if rem < 2 {
            Err(Error::UnexpectedEof)
        } else {
            let u = read_u16(s, pos);
            assert(w[0] == s@[pos as int] && w[1] == s@[pos as int + 1]);
            let x: i16 = if u <= 0x7fff {
                u as i16
            } else {
                ((u as i32) - 0x10000) as i16
            };
            assert(x as int == sgn2(u));
            Ok((Value::Short(x), 2))
        }
    } else if code == FC_INT {
        if rem < 4 {
            Err(Error::UnexpectedEof)
        } else {
            let u = read_u32(s, pos);
            assert(w[0] == s@[pos as int] && w[1] == s@[pos as int + 1] && w[2]
                == s@[pos as int + 2] && w[3] == s@[pos as int + 3]);
            let x: i32 = if u <= 0x7fffffff {
                u as i32
            } else {
                ((u as i64) - 0x100000000) as i32
            };
            assert(x as int == sgn4(u));
            Ok((Value::Int(x), 4))
        }
    } else if code == FC_SMALL_INT {
        if rem < 1 {
            Err(Error::UnexpectedEof)
        } else {
            let b = read_u8(s, pos);
            assert(w[0] == b);
            let x: i8 = if b <= 0x7f {
                b as i8
            } else {
                ((b as i16) - 0x100) as i8
            };
            assert(x as int == sgn1(b));
            Ok((Value::Int(x as i32), 1))
        }
    } else if code == FC_LONG {
        if rem < 8 {
            Err(Error::UnexpectedEof)
        } else {
            let u = read_u64(s, pos);
            proof {
                assert(w.take(8) =~= s@.subrange(pos as int, pos as int + 8));
            }
            let x: i64 = if u <= 0x7fffffffffffffff {
                u as i64
            } else {
                ((u as i128) - 0x10000000000000000) as i64
            };
            assert(x as int == sgn8(u));
            Ok((Value::Long(x), 8))
        }
    } else if code == FC_SMALL_LONG {
        if rem < 1 {
            Err(Error::UnexpectedEof)
        } else {
            let b = read_u8(s, pos);
            assert(w[0] == b);
            let x: i8 = if b <= 0x7f {
                b as i8
            } else {
                ((b as i16) - 0x100) as i8
            };
            assert(x as int == sgn1(b));
            Ok((Value::Long(x as i64), 1))
        }
    } else if code == FC_FLOAT {
        if rem < 4 {
            Err(Error::UnexpectedEof)
        } else {
            let x = read_u32(s, pos);
            assert(w[0] == s@[pos as int] && w[1] == s@[pos as int + 1] && w[2]
                == s@[pos as int + 2] && w[3] == s@[pos as int + 3]);
            Ok((Value::Float(x), 4))
        }
    } else if code == FC_DOUBLE {
        if rem < 8 {
            Err(Error::UnexpectedEof)
        } else {
            let x = read_u64(s, pos);
            proof {
                assert(w.take(8) =~= s@.subrange(pos as int, pos as int + 8));
            }
            Ok((Value::Double(x), 8))
        }
    } else if code == FC_DECIMAL32 {
        if rem < 4 {
            Err(Error::UnexpectedEof)
        } else {
            let x = read_u32(s, pos);
            assert(w[0] == s@[pos as int] && w[1] == s@[pos as int + 1] && w[2]
                == s@[pos as int + 2] && w[3] == s@[pos as int + 3]);
            Ok((Value::Dec32(x), 4))
        }
    } else if code == FC_DECIMAL64 {
        if rem < 8 {
            Err(Error::UnexpectedEof)
        } else {
            let x = read_u64(s, pos);
            proof {
                assert(w.take(8) =~= s@.subrange(pos as int, pos as int + 8));
            }
            Ok((Value::Dec64(x), 8))
        }
    } else if code == FC_DECIMAL128 {
        if rem < 16 {
            Err(Error::UnexpectedEof)
        } else {
            let x = read_u128(s, pos);
            proof {
                assert(w.take(16) =~= s@.subrange(pos as int, pos as int + 16));
            }
            Ok((Value::Dec128(x), 16))
        }
    } else if code == FC_CHAR {
        if rem < 4 {
            Err(Error::UnexpectedEof)
        } else {
            let x = read_u32(s, pos);
            assert(w[0] == s@[pos as int] && w[1] == s@[pos as int + 1] && w[2]
                == s@[pos as int + 2] && w[3] == s@[pos as int + 3]);
            match char_from_u32(x) {
                Some(c) => {
                    proof {
                        vstd::utf8::char_u32_cast(c, x);
                    }
                    Ok((Value::Char(c), 4))
                },
                None => Err(Error::InvalidFormatCode),
            }
        }
    } else if code == FC_TIMESTAMP {
        if rem < 8 {
            Err(Error::UnexpectedEof)
        } else {
            let u = read_u64(s, pos);
            proof {
                assert(w.take(8) =~= s@.subrange(pos as int, pos as int + 8));
            }
            let x: i64 = if u <= 0x7fffffffffffffff {
                u as i64
            } else {
                ((u as i128) - 0x10000000000000000) as i64
            };
            assert(x as int == sgn8(u));
            Ok((Value::Timestamp(x), 8))
        }
    } else if code == FC_UUID {
        if rem < 16 {
            Err(Error::UnexpectedEof)
        } else {
            let x = read_u128(s, pos);
            proof {
                assert(w.take(16) =~= s@.subrange(pos as int, pos as int + 16));
            }
            Ok((Value::Uuid(x), 16))
        }
    } else {
        Err(Error::InvalidFormatCode)
    }
}

/// The variable-width bodies of the decoder: binary, string and symbol.
#[verifier::spinoff_prover]
#[verifier::rlimit(100)]
fn decode_var_body(code: u8, s: &[u8], pos: usize) -> (r: Result<(Value, usize), Error>)
    requires
        pos <= s.len(),
        code == FC_VBIN8 || code == FC_VBIN32 || code == FC_STR8 || code == FC_STR32
            || code == FC_SYM8 || code == FC_SYM32,
    ensures
        mirrors(r, dec_body(code, s@.skip(pos as int))),
        r matches Ok((v, n)) ==> pos + n <= s.len(),
{
    let ghost w = s@.skip(pos as int);
    let rem = s.len() - pos;
    let small = code == FC_VBIN8 || code == FC_STR8 || code == FC_SYM8;
    let hdr: usize = if small {
        1
    } else {
        4
    };
    if rem < hdr {
        return Err(Error::UnexpectedEof);
    }
    let n: usize = if small {
        read_u8(s, pos) as usize
    } else {
        let n32 = read_u32(s, pos);
        assert(w[0] == s@[pos as int] && w[1] == s@[pos as int + 1] && w[2] == s@[pos as int
            + 2] && w[3] == s@[pos as int + 3]);
        let avail: u64 = (rem - 4) as u64;
        if avail < n32 as u64 {
            return Err(Error::SizeMismatch);
        }
        n32 as usize
    };
    assert(small ==> w[0] == s@[pos as int]);
    if rem - hdr < n {
        return Err(Error::SizeMismatch);
    }
    let ghost b = w.subrange(hdr as int, hdr as int + n as int);
    proof {
        assert(b =~= s@.subrange(pos as int + hdr as int, pos as int + hdr as int + n as int));
    }
    let payload = slice_to_vec(slice_subrange(s, pos + hdr, pos + hdr + n));
    if code == FC_VBIN8 || code == FC_VBIN32 {
        Ok((Value::Binary(payload), hdr + n))
    } else if code == FC_SYM8 || code == FC_SYM32 {
        Ok((Value::Symbol(payload), hdr + n))
    } else {
        match vec_to_string(payload) {
            Some(st) => {
                proof {
                    encode_utf8_decode_utf8(st@);
                }
                Ok((Value::Str(st), hdr + n))
            },
            None => Err(Error::Utf8),
        }
    }
}

/// The container bodies of the decoder: lists, maps and arrays.
#[verifier::spinoff_prover]
#[verifier::rlimit(100)]
fn decode_container_body(code: u8, s: &[u8], pos: usize) -> (r: Result<(Value, usize), Error>)
    requires
        pos <= s.len(),
        code == FC_LIST0 || code == FC_LIST8 || code == FC_LIST32 || code == FC_MAP8
            || code == FC_MAP32 || code == FC_ARRAY8 || code == FC_ARRAY32,
    ensures
        mirrors(r, dec_body(code, s@.skip(pos as int))),
        r matches Ok((v, n)) ==> pos + n <= s.len(),
    decreases s.len() - pos, 1int,
{
    let ghost w = s@.skip(pos as int);
    let rem = s.len() - pos;
    if code == FC_LIST0 {
        proof {
            lemma_model_seq(Seq::empty());
            assert(model_seq(Seq::<Value>::empty()) =~= Seq::<VData>::empty());
        }
        let vs: Vec<Value> = Vec::new();
        assert(model_seq(vs@) =~= Seq::<VData>::empty());
        return Ok((Value::List(vs), 0));
    }
    let hdr: usize = if code == FC_LIST8 || code == FC_MAP8 {
        2
    } else if code == FC_ARRAY8 {
        3
    } else if code == FC_ARRAY32 {
        9
    } else {
        8
    };
    if rem < hdr {
        return Err(Error::UnexpectedEof);
    }
    let small = code == FC_LIST8 || code == FC_MAP8 || code == FC_ARRAY8;
    let size: u64 = if small {
        read_u8(s, pos) as u64
    } else {
        read_u32(s, pos) as u64
    };
    let count: u64 = if small {
        read_u8(s, pos + 1) as u64
    } else {
        read_u32(s, pos + 4) as u64
    };
    proof {
        if small {
            assert(w[0] == s@[pos as int] && w[1] == s@[pos as int + 1]);
        } else {
            assert(w[0] == s@[pos as int] && w[1] == s@[pos as int + 1] && w[2]
                == s@[pos as int + 2] && w[3] == s@[pos as int + 3]);
            assert(w[4] == s@[pos as int + 4] && w[5] == s@[pos as int + 5] && w[6]
                == s@[pos as int + 6] && w[7] == s@[pos as int + 7]);
        }
        if code == FC_ARRAY8 {
            assert(w[2] == s@[pos as int + 2]);
        }
        if code == FC_ARRAY32 {
            assert(w[8] == s@[pos as int + 8]);
        }
    }
    let used: u64 = if code == FC_LIST8 || code == FC_MAP8 {
        1
    } else if code == FC_ARRAY8 {
        2
    } else if code == FC_ARRAY32 {
        5
    } else {
        4
    };
    let avail: u64 = (rem - hdr) as u64;
    if size < used || avail < size - used {
        return Err(Error::SizeMismatch);
    }
    if (code == FC_MAP8 || code == FC_MAP32) && count % 2 != 0 {
        return Err(Error::SizeMismatch);
    }
    proof {
        assert(w.skip(hdr as int) =~= s@.skip(pos as int + hdr as int));
    }
    if code == FC_LIST8 || code == FC_LIST32 {
        let (vs, c) = match decode_elems(s, pos + hdr, count as usize) {
            Ok(x) => x,
            Err(e) => {
                return Err(e);
            },
        };
        if c as u64 == size - used {
            Ok((Value::List(vs), hdr + c))
        } else {
            Err(Error::SizeMismatch)
        }
    } else if code == FC_MAP8 || code == FC_MAP32 {
        let (vs, c) = match decode_elems(s, pos + hdr, count as usize) {
            Ok(x) => x,
            Err(e) => {
                return Err(e);
            },
        };
        if c as u64 == size - used {
            let (ps, gvs) = pair_up(vs);
            proof {
                lemma_flatten_pairs(model_pairs(ps@));
            }
            Ok((Value::Mapping(ps), hdr + c))
        } else {
            Err(Error::SizeMismatch)
        }
    } else {
        let ec = if code == FC_ARRAY8 {
            read_u8(s, pos + 2)
        } else {
            read_u8(s, pos + 8)
        };
        if !is_array_constructor(ec) {
            return Err(Error::InvalidFormatCode);
        }
        let (vs, c) = match decode_elems_coded(ec, s, pos + hdr, count as usize) {
            Ok(x) => x,
            Err(e) => {
                return Err(e);
            },
        };
        if c as u64 == size - used {
            Ok((Value::Array(vs), hdr + c))
        } else {
            Err(Error::SizeMismatch)
        }
    }
}

/// Whether a byte is one of the full-width array constructors.
fn is_array_constructor(code: u8) -> (r: bool)
    ensures
        r == array_constructor(code),
{
    code == FC_NULL || code == FC_BOOLEAN || code == FC_UBYTE || code == FC_USHORT
        || code == FC_UINT || code == FC_ULONG || code == FC_BYTE || code == FC_SHORT
        || code == FC_INT || code == FC_LONG || code == FC_FLOAT || code == FC_DOUBLE
        || code == FC_DECIMAL32 || code == FC_DECIMAL64 || code == FC_DECIMAL128
        || code == FC_CHAR || code == FC_TIMESTAMP || code == FC_UUID || code == FC_VBIN32
        || code == FC_STR32 || code == FC_SYM32 || code == FC_LIST32 || code == FC_MAP32
        || code == FC_ARRAY32
}

/// Pairs up an even run of values into consecutive key-value pairs.
fn pair_up(vs: Vec<Value>) -> (r: (Vec<(Value, Value)>, Ghost<Seq<VData>>))
    requires
        vs@.len() % 2 == 0,
    ensures
        model_pairs(r.0@) == pairs_of(model_seq(vs@)),
        r.0@.len() * 2 == vs@.len(),
{
    let ghost orig = model_seq(vs@);
    proof {
        lemma_model_seq(vs@);
    }
    let n = vs.len() / 2;
    let mut ps: Vec<(Value, Value)> = Vec::new();
    let mut rest = vs;
    let mut k: usize = 0;
    proof {
        lemma_model_pairs(ps@);
        assert(model_pairs(ps@) =~= Seq::<(VData, VData)>::empty());
        assert(orig.skip(0) =~= orig);
    }
    while k < n
        invariant
            0 <= k <= n,
            n == orig.len() / 2,
            orig.len() % 2 == 0,
            rest@.len() + 2 * k == orig.len(),
            ps@.len() == k,
            model_seq(rest@) == orig.skip(2 * k as int),
            forall|i: int| 0 <= i < k ==> model_pairs(ps@)[i] == (orig[2 * i], orig[2 * i + 1]),
        decreases n - k,
    {
        proof {
            lemma_model_seq(rest@);
            lemma_model_pairs(ps@);
        }
        let key = rest.remove(0);
        proof {
            lemma_model_seq(rest@);
            assert(model_seq(rest@) =~= orig.skip(2 * k as int).drop_first());
            assert(orig.skip(2 * k as int).drop_first() =~= orig.skip(2 * k as int + 1));
        }
        let val = rest.remove(0);
        proof {
            lemma_model_seq(rest@);
            assert(model_seq(rest@) =~= orig.skip(2 * k as int + 1).drop_first());
            assert(orig.skip(2 * k as int + 1).drop_first() =~= orig.skip(2 * k as int + 2));
            assert(model(key) == orig.skip(2 * k as int)[0]);
            assert(orig.skip(2 * k as int)[0] == orig[2 * k as int]);
            assert(model(val) == orig.skip(2 * k as int + 1)[0]);
            assert(orig.skip(2 * k as int + 1)[0] == orig[2 * k as int + 1]);
        }
        let ghost old_ps = ps@;
        proof {
            lemma_model_pairs_push(ps@, (key, val));
        }
        ps.push((key, val));
        proof {
            lemma_model_pairs(ps@);
            lemma_model_pairs(old_ps);
            assert forall|i: int| 0 <= i < k + 1 implies model_pairs(ps@)[i] == (
                orig[2 * i],
                orig[2 * i + 1],
            ) by {
                if i < k {
                    assert(ps@[i] == old_ps[i]);
                }
            }
        }
        k = k + 1;
    }
    proof {
        lemma_model_pairs(ps@);
        assert(model_pairs(ps@) =~= pairs_of(orig));
    }
    (ps, Ghost(orig))
}

/// Decodes one value from the head of a byte slice. Mirrors the decoding
/// relation: the value of the shortest valid prefix, or the error that the
/// malformed input raises.
pub fn from_slice(bytes: &[u8]) -> (r: Result<Value, Error>)
    ensures
        r matches Ok(v) ==> (dec(bytes@) matches Ok((dv, n)) && dv == model(v)),
        r matches Err(e) ==> dec(bytes@) == Err::<(VData, int), Error>(e),
{
    proof {
        assert(bytes@.skip(0) =~= bytes@);
    }
    match decode_at(bytes, 0) {
        Ok((v, _n)) => Ok(v),
        Err(e) => Err(e),
    }
}

} // verus!
