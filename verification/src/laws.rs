//! The two laws of the type codec: decoding inverts canonical encoding, and
//! the canonical encoding is the shortest among all valid encodings.

use vstd::prelude::*;
use vstd::utf8::{
    encode_utf8, decode_utf8, valid_utf8, encode_utf8_valid_utf8, encode_utf8_decode_utf8,
    decode_utf8_encode_utf8, char_is_scalar, char_u32_cast,
};
use crate::value::{Error, VData, VDescriptor};
use crate::encode::{
    enc, enc_seq, enc_pairs, enc_elem, enc_array_body, enc_descriptor, enc_ulong, enc_sym,
    elem_code, wf, wf_seq, wf_pairs, homogeneous, be2, be4, be8, be16, v2, v4, v8, v16, tc,
    lemma_be2_inverse, lemma_be4_inverse, lemma_be8_inverse, lemma_be16_inverse,
};
use crate::decode::{
    dec, dec_body, dec_elems, dec_elems_coded, dec_descriptor, pairs_of, array_constructor,
    sgn1, sgn2, sgn4, sgn8, valid_scalar,
};

verus! {

/// The flattening of a sequence of pairs into the run of its keys and
/// values, in order.
pub open spec fn flatten_pairs(ps: Seq<(VData, VData)>) -> Seq<VData>
    decreases ps.len(),
{
    if ps.len() == 0 {
        Seq::empty()
    } else {
        seq![ps[0].0, ps[0].1] + flatten_pairs(ps.drop_first())
    }
}

/// Flattening a sequence of pairs doubles its length, and pairing the result
/// back up restores the pairs.
pub proof fn lemma_flatten_pairs(ps: Seq<(VData, VData)>)
    ensures
        flatten_pairs(ps).len() == 2 * ps.len(),
        pairs_of(flatten_pairs(ps)) == ps,
        forall|i: int| 0 <= i < ps.len() ==> flatten_pairs(ps)[2 * i] == (#[trigger] ps[i]).0
            && flatten_pairs(ps)[2 * i + 1] == ps[i].1,
    decreases ps.len(),
{
    if ps.len() > 0 {
        lemma_flatten_pairs(ps.drop_first());
        let f = flatten_pairs(ps);
        assert forall|i: int| 0 <= i < ps.len() implies f[2 * i] == (#[trigger] ps[i]).0
            && f[2 * i + 1] == ps[i].1 by {
            if i > 0 {
                assert(ps.drop_first()[i - 1] == ps[i]);
                assert(f[2 * i] == flatten_pairs(ps.drop_first())[2 * (i - 1)]);
                assert(f[2 * i + 1] == flatten_pairs(ps.drop_first())[2 * (i - 1) + 1]);
            }
        }
        assert(pairs_of(f) =~= ps);
    } else {
        assert(pairs_of(flatten_pairs(ps)) =~= ps);
    }
}

/// Pairing an even run of values and flattening the pairs restores the run.
pub proof fn lemma_pairs_flatten(vs: Seq<VData>)
    requires
        vs.len() % 2 == 0,
    ensures
        flatten_pairs(pairs_of(vs)) == vs,
{
    lemma_flatten_pairs(pairs_of(vs));
    let f = flatten_pairs(pairs_of(vs));
    assert forall|j: int| 0 <= j < vs.len() implies f[j] == vs[j] by {
        let i = j / 2;
        assert(pairs_of(vs)[i] == (vs[2 * i], vs[2 * i + 1]));
        if j % 2 == 0 {
            assert(f[2 * i] == pairs_of(vs)[i].0);
        } else {
            assert(f[2 * i + 1] == pairs_of(vs)[i].1);
        }
    }
    assert(f =~= vs);
}

/// The encoding of pairs is the encoding of their flattening, and their
/// well-formedness agrees as well.
pub proof fn lemma_enc_pairs_flatten(ps: Seq<(VData, VData)>)
    ensures
        enc_pairs(ps) == enc_seq(flatten_pairs(ps)),
        wf_pairs(ps) == wf_seq(flatten_pairs(ps)),
    decreases ps.len(),
{
    if ps.len() > 0 {
        lemma_enc_pairs_flatten(ps.drop_first());
        let f = flatten_pairs(ps);
        assert(f.drop_first().drop_first() =~= flatten_pairs(ps.drop_first()));
        assert(f[0] == ps[0].0 && f[1] == ps[0].1);
        assert(f.drop_first()[0] == ps[0].1);
        assert(enc_seq(f) == enc(f[0]) + enc_seq(f.drop_first()));
        assert(enc_seq(f.drop_first()) == enc(ps[0].1) + enc_seq(f.drop_first().drop_first()));
        assert(enc_pairs(ps) =~= enc_seq(f));
        assert(wf_seq(f) == (wf(f[0]) && wf_seq(f.drop_first())));
        assert(wf_seq(f.drop_first()) == (wf(ps[0].1) && wf_seq(f.drop_first().drop_first())));
    }
}

/// The canonical encoding of a well-formed value is never empty.
pub proof fn lemma_enc_nonempty(v: VData)
    requires
        wf(v),
    ensures
        enc(v).len() >= 1,
{
}

/// A descriptor's canonical encoding decodes back to the descriptor, with
/// the bytes that follow untouched.
pub proof fn lemma_rt_descriptor(d: VDescriptor, t: Seq<u8>)
    requires
        d matches VDescriptor::Name(b) ==> b.len() <= 0xffffffff,
    ensures
        enc_descriptor(d).len() >= 1,
        dec_descriptor(enc_descriptor(d) + t) == Ok::<(VDescriptor, int), Error>(
            (d, enc_descriptor(d).len() as int),
        ),
{
    let e = enc_descriptor(d);
    let s = e + t;
    match d {
        VDescriptor::Code(x) => {
            if x == 0 {
            } else if x <= 0xff {
            } else {
                lemma_be8_inverse(x);
                assert(s.subrange(1, 9) =~= be8(x));
            }
        },
        VDescriptor::Name(b) => {
            if b.len() <= 0xff {
                assert(s.subrange(2, 2 + b.len() as int) =~= b);
            } else {
                lemma_be4_inverse(b.len() as u32);
                assert(s[1] == be4(b.len() as u32)[0] && s[2] == be4(b.len() as u32)[1]
                    && s[3] == be4(b.len() as u32)[2] && s[4] == be4(b.len() as u32)[3]);
                assert(s.subrange(5, 5 + b.len() as int) =~= b);
            }
        },
    }
}

/// The format code of a value that may stand in an array is one of the
/// array constructors.
pub proof fn lemma_elem_code_constructor(v: VData)
    requires
        !(v is Described),
    ensures
        array_constructor(elem_code(v)),
{
}

/// Round trip of the unsigned scalar values.
#[verifier::spinoff_prover]
#[verifier::rlimit(100)]
proof fn lemma_rt_unsigned(v: VData, t: Seq<u8>)
    requires
        match v {
            VData::Null | VData::Bool(_) | VData::UByte(_) | VData::UShort(_)
                | VData::UInt(_) | VData::ULong(_) => true,
            _ => false,
        },
    ensures
        dec(enc(v) + t) == Ok::<(VData, int), Error>((v, enc(v).len() as int)),
{
    let e = enc(v);
    let s = e + t;
    match v {
        VData::Null => {
            assert(e =~= seq![crate::codes::FC_NULL]);
            assert(s[0] == crate::codes::FC_NULL);
            assert(dec_body(s[0], s.skip(1)) == Ok::<(VData, int), Error>((VData::Null, 0int)));
        },
        VData::Bool(b) => {
            if b {
                assert(e =~= seq![crate::codes::FC_TRUE]);
                assert(s[0] == crate::codes::FC_TRUE);
                assert(dec_body(s[0], s.skip(1)) == Ok::<(VData, int), Error>(
                    (VData::Bool(true), 0int),
                ));
            } else {
                assert(e =~= seq![crate::codes::FC_FALSE]);
                assert(s[0] == crate::codes::FC_FALSE);
                assert(dec_body(s[0], s.skip(1)) == Ok::<(VData, int), Error>(
                    (VData::Bool(false), 0int),
                ));
            }
        },
        VData::UByte(x) => {
            assert(s[0] == crate::codes::FC_UBYTE);
            assert(s.skip(1) =~= seq![x] + t);
            assert(dec_body(s[0], s.skip(1)) == Ok::<(VData, int), Error>((VData::UByte(x), 1int)));
        },
        VData::UShort(x) => {
            lemma_be2_inverse(x);
            assert(s[0] == crate::codes::FC_USHORT);
            assert(s.skip(1) =~= be2(x) + t);
            assert(dec_body(s[0], s.skip(1)) == Ok::<(VData, int), Error>(
                (VData::UShort(x), 2int),
            ));
        },
        VData::UInt(x) => {
            if x == 0 {
                assert(e =~= seq![crate::codes::FC_UINT0]);
                assert(s[0] == crate::codes::FC_UINT0);
                assert(dec_body(s[0], s.skip(1)) == Ok::<(VData, int), Error>(
                    (VData::UInt(0), 0int),
                ));
            } else if x <= 0xff {
                assert(s[0] == crate::codes::FC_SMALL_UINT);
                assert(s.skip(1) =~= seq![x as u8] + t);
                assert(dec_body(s[0], s.skip(1)) == Ok::<(VData, int), Error>(
                    (VData::UInt(x), 1int),
                ));
            } else {
                lemma_be4_inverse(x);
                assert(s[0] == crate::codes::FC_UINT);
                assert(s.skip(1) =~= be4(x) + t);
                assert(dec_body(s[0], s.skip(1)) == Ok::<(VData, int), Error>(
                    (VData::UInt(x), 4int),
                ));
            }
        },
        VData::ULong(x) => {
            if x == 0 {
                assert(e =~= seq![crate::codes::FC_ULONG0]);
                assert(s[0] == crate::codes::FC_ULONG0);
                assert(dec_body(s[0], s.skip(1)) == Ok::<(VData, int), Error>(
                    (VData::ULong(0), 0int),
                ));
            } else if x <= 0xff {
                assert(s[0] == crate::codes::FC_SMALL_ULONG);
                assert(s.skip(1) =~= seq![x as u8] + t);
                assert(dec_body(s[0], s.skip(1)) == Ok::<(VData, int), Error>(
                    (VData::ULong(x), 1int),
                ));
            } else {
                lemma_be8_inverse(x);
                assert(s[0] == crate::codes::FC_ULONG);
                assert(s.skip(1) =~= be8(x) + t);
                assert((be8(x) + t).take(8) =~= be8(x));
                assert(dec_body(s[0], s.skip(1)) == Ok::<(VData, int), Error>(
                    (VData::ULong(x), 8int),
                ));
            }
        },
        _ => {},
    }
}

/// Round trip of the signed scalar values.
#[verifier::spinoff_prover]
#[verifier::rlimit(100)]
proof fn lemma_rt_signed(v: VData, t: Seq<u8>)
    requires
        match v {
            VData::Byte(_) | VData::Short(_) | VData::Int(_) | VData::Long(_) => true,
            _ => false,
        },
    ensures
        dec(enc(v) + t) == Ok::<(VData, int), Error>((v, enc(v).len() as int)),
{
    let e = enc(v);
    let s = e + t;
    match v {
        VData::Byte(x) => {
            assert(s[0] == crate::codes::FC_BYTE);
            assert(s.skip(1) =~= seq![tc(x as int, 0x100) as u8] + t);
            assert(dec_body(s[0], s.skip(1)) == Ok::<(VData, int), Error>((VData::Byte(x), 1int)));
        },
        VData::Short(x) => {
            let u = tc(x as int, 0x10000) as u16;
            lemma_be2_inverse(u);
            assert(s[0] == crate::codes::FC_SHORT);
            assert(s.skip(1) =~= be2(u) + t);
            assert(dec_body(s[0], s.skip(1)) == Ok::<(VData, int), Error>(
                (VData::Short(x), 2int),
            ));
        },
        VData::Int(x) => {
            if -0x80 <= x && x <= 0x7f {
                assert(s[0] == crate::codes::FC_SMALL_INT);
                assert(s.skip(1) =~= seq![tc(x as int, 0x100) as u8] + t);
                assert(dec_body(s[0], s.skip(1)) == Ok::<(VData, int), Error>(
                    (VData::Int(x), 1int),
                ));
            } else {
                let u = tc(x as int, 0x100000000) as u32;
                lemma_be4_inverse(u);
                assert(s[0] == crate::codes::FC_INT);
                assert(s.skip(1) =~= be4(u) + t);
                assert(dec_body(s[0], s.skip(1)) == Ok::<(VData, int), Error>(
                    (VData::Int(x), 4int),
                ));
            }
        },
        VData::Long(x) => {
            if -0x80 <= x && x <= 0x7f {
                assert(s[0] == crate::codes::FC_SMALL_LONG);
                assert(s.skip(1) =~= seq![tc(x as int, 0x100) as u8] + t);
                assert(dec_body(s[0], s.skip(1)) == Ok::<(VData, int), Error>(
                    (VData::Long(x), 1int),
                ));
            } else {
                let u = tc(x as int, 0x10000000000000000) as u64;
                lemma_be8_inverse(u);
                assert(s[0] == crate::codes::FC_LONG);
                assert(s.skip(1) =~= be8(u) + t);
                assert((be8(u) + t).take(8) =~= be8(u));
                assert(dec_body(s[0], s.skip(1)) == Ok::<(VData, int), Error>(
                    (VData::Long(x), 8int),
                ));
            }
        },
        _ => {},
    }
}

/// Round trip of the remaining fixed-width scalar values.
#[verifier::spinoff_prover]
#[verifier::rlimit(100)]
proof fn lemma_rt_opaque(v: VData, t: Seq<u8>)
    requires
        match v {
            VData::Float(_) | VData::Double(_) | VData::Dec32(_) | VData::Dec64(_)
                | VData::Dec128(_) | VData::Char(_) | VData::Timestamp(_) | VData::Uuid(_) => true,
            _ => false,
        },
    ensures
        dec(enc(v) + t) == Ok::<(VData, int), Error>((v, enc(v).len() as int)),
{
    let e = enc(v);
    let s = e + t;
    match v {
        VData::Float(x) => {
            lemma_be4_inverse(x);
            assert(s[0] == crate::codes::FC_FLOAT);
            assert(s.skip(1) =~= be4(x) + t);
            assert(dec_body(s[0], s.skip(1)) == Ok::<(VData, int), Error>(
                (VData::Float(x), 4int),
            ));
        },
        VData::Double(x) => {
            lemma_be8_inverse(x);
            assert(s[0] == crate::codes::FC_DOUBLE);
            assert(s.skip(1) =~= be8(x) + t);
            assert((be8(x) + t).take(8) =~= be8(x));
            assert(dec_body(s[0], s.skip(1)) == Ok::<(VData, int), Error>(
                (VData::Double(x), 8int),
            ));
        },
        VData::Dec32(x) => {
            lemma_be4_inverse(x);
            assert(s[0] == crate::codes::FC_DECIMAL32);
            assert(s.skip(1) =~= be4(x) + t);
            assert(dec_body(s[0], s.skip(1)) == Ok::<(VData, int), Error>(
                (VData::Dec32(x), 4int),
            ));
        },
        VData::Dec64(x) => {
            lemma_be8_inverse(x);
            assert(s[0] == crate::codes::FC_DECIMAL64);
            assert(s.skip(1) =~= be8(x) + t);
            assert((be8(x) + t).take(8) =~= be8(x));
            assert(dec_body(s[0], s.skip(1)) == Ok::<(VData, int), Error>(
                (VData::Dec64(x), 8int),
            ));
        },
        VData::Dec128(x) => {
            lemma_be16_inverse(x);
            assert(s[0] == crate::codes::FC_DECIMAL128);
            assert(s.skip(1) =~= be16(x) + t);
            assert((be16(x) + t).take(16) =~= be16(x));
            assert(dec_body(s[0], s.skip(1)) == Ok::<(VData, int), Error>(
                (VData::Dec128(x), 16int),
            ));
        },
        VData::Char(c) => {
            char_is_scalar(c);
            char_u32_cast(c, c as u32);
            lemma_be4_inverse(c as u32);
            assert(s[0] == crate::codes::FC_CHAR);
            assert(s.skip(1) =~= be4(c as u32) + t);
            assert(dec_body(s[0], s.skip(1)) == Ok::<(VData, int), Error>(
                (VData::Char(c), 4int),
            ));
        },
        VData::Timestamp(x) => {
            let u = tc(x as int, 0x10000000000000000) as u64;
            lemma_be8_inverse(u);
            assert(s[0] == crate::codes::FC_TIMESTAMP);
            assert(s.skip(1) =~= be8(u) + t);
            assert((be8(u) + t).take(8) =~= be8(u));
            assert(dec_body(s[0], s.skip(1)) == Ok::<(VData, int), Error>(
                (VData::Timestamp(x), 8int),
            ));
        },
        VData::Uuid(x) => {
            lemma_be16_inverse(x);
            assert(s[0] == crate::codes::FC_UUID);
            assert(s.skip(1) =~= be16(x) + t);
            assert((be16(x) + t).take(16) =~= be16(x));
            assert(dec_body(s[0], s.skip(1)) == Ok::<(VData, int), Error>(
                (VData::Uuid(x), 16int),
            ));
        },
        _ => {},
    }
}

/// Round trip of the fixed-width scalar values.
proof fn lemma_rt_fixed(v: VData, t: Seq<u8>)
    requires
        match v {
            VData::Null | VData::Bool(_) | VData::UByte(_) | VData::UShort(_)
                | VData::UInt(_) | VData::ULong(_) | VData::Byte(_) | VData::Short(_)
                | VData::Int(_) | VData::Long(_) | VData::Float(_) | VData::Double(_)
                | VData::Dec32(_) | VData::Dec64(_) | VData::Dec128(_) | VData::Char(_)
                | VData::Timestamp(_) | VData::Uuid(_) => true,
            _ => false,
        },
    ensures
        dec(enc(v) + t) == Ok::<(VData, int), Error>((v, enc(v).len() as int)),
{
    match v {
        VData::Null | VData::Bool(_) | VData::UByte(_) | VData::UShort(_) | VData::UInt(_)
            | VData::ULong(_) => {
            lemma_rt_unsigned(v, t);
        },
        VData::Byte(_) | VData::Short(_) | VData::Int(_) | VData::Long(_) => {
            lemma_rt_signed(v, t);
        },
        _ => {
            lemma_rt_opaque(v, t);
        },
    }
}

/// Round trip of the variable-width values: binary, string and symbol.
#[verifier::spinoff_prover]
#[verifier::rlimit(100)]
proof fn lemma_rt_var(v: VData, t: Seq<u8>)
    requires
        wf(v),
        v is Binary || v is Str || v is Symbol,
    ensures
        dec(enc(v) + t) == Ok::<(VData, int), Error>((v, enc(v).len() as int)),
{
    let e = enc(v);
    let s = e + t;
    let b = match v {
        VData::Binary(b) => b,
        VData::Str(cs) => encode_utf8(cs),
        VData::Symbol(b) => b,
        _ => Seq::empty(),
    };
    let code8 = match v {
        VData::Binary(_) => crate::codes::FC_VBIN8,
        VData::Str(_) => crate::codes::FC_STR8,
        _ => crate::codes::FC_SYM8,
    };
    let code32 = match v {
        VData::Binary(_) => crate::codes::FC_VBIN32,
        VData::Str(_) => crate::codes::FC_STR32,
        _ => crate::codes::FC_SYM32,
    };
    match v {
        VData::Str(cs) => {
            encode_utf8_valid_utf8(cs);
            encode_utf8_decode_utf8(cs);
        },
        _ => {},
    }
    if b.len() <= 0xff {
        assert(s[0] == code8);
        let body = seq![b.len() as u8] + b + t;
        assert(s.skip(1) =~= body);
        assert(body[0] == b.len() as u8);
        assert(body.subrange(1, 1 + b.len() as int) =~= b);
        assert(dec_body(code8, body) == Ok::<(VData, int), Error>((v, 1 + b.len() as int)));
    } else {
        lemma_be4_inverse(b.len() as u32);
        assert(s[0] == code32);
        let body = be4(b.len() as u32) + b + t;
        assert(s.skip(1) =~= body);
        assert(body[0] == be4(b.len() as u32)[0] && body[1] == be4(b.len() as u32)[1]
            && body[2] == be4(b.len() as u32)[2] && body[3] == be4(b.len() as u32)[3]);
        assert(body.subrange(4, 4 + b.len() as int) =~= b);
        assert(dec_body(code32, body) == Ok::<(VData, int), Error>((v, 4 + b.len() as int)));
    }
}

/// Decoding inverts the canonical encoding of any well-formed value.
pub proof fn lemma_encode_decode(v: VData)
    requires
        wf(v),
    ensures
        dec(enc(v)) == Ok::<(VData, int), Error>((v, enc(v).len() as int)),
{
    lemma_round_trip(v, Seq::empty());
    assert(enc(v) + Seq::<u8>::empty() =~= enc(v));
}

/// Decoding inverts the canonical encoding of any well-formed value, with
/// the bytes that follow untouched.
pub proof fn lemma_round_trip(v: VData, t: Seq<u8>)
    requires
        wf(v),
    ensures
        dec(enc(v) + t) == Ok::<(VData, int), Error>((v, enc(v).len() as int)),
    decreases v, 2int,
{
    match v {
        VData::Binary(_) | VData::Str(_) | VData::Symbol(_) => {
            lemma_rt_var(v, t);
        },
        VData::List(_) => {
            lemma_rt_list(v, t);
        },
        VData::Mapping(_) => {
            lemma_rt_map(v, t);
        },
        VData::Array(_) => {
            lemma_rt_arr(v, t);
        },
        VData::Described(d, inner) => {
            let e = enc(v);
            let s = e + t;
            let ed = enc_descriptor(d);
            let ei = enc(*inner);
            lemma_rt_descriptor(d, ei + t);
            lemma_round_trip(*inner, t);
            assert(s.skip(1) =~= ed + (ei + t));
            assert(s.skip(1 + ed.len() as int) =~= ei + t);
        },
        _ => {
            lemma_rt_fixed(v, t);
        },
    }
}

/// Round trip of a list value.
proof fn lemma_rt_list(v: VData, t: Seq<u8>)
    requires
        wf(v),
        v is List,
    ensures
        dec(enc(v) + t) == Ok::<(VData, int), Error>((v, enc(v).len() as int)),
    decreases v, 1int,
{
    match v {
        VData::List(es) => {
            if es.len() == 0 || (enc_seq(es).len() <= 0xfe && es.len() <= 0xff) {
                lemma_rt_list_small(v, t);
            } else {
                lemma_rt_list_large(v, t);
            }
        },
        _ => {},
    }
}

/// Round trip of a list that takes the compact or one-byte-size form.
#[verifier::spinoff_prover]
#[verifier::rlimit(100)]
proof fn lemma_rt_list_small(v: VData, t: Seq<u8>)
    requires
        wf(v),
        v matches VData::List(es) && (es.len() == 0 || (enc_seq(es).len() <= 0xfe
            && es.len() <= 0xff)),
    ensures
        dec(enc(v) + t) == Ok::<(VData, int), Error>((v, enc(v).len() as int)),
    decreases v, 0int,
{
    let s = enc(v) + t;
    match v {
        VData::List(es) => {
            let body = enc_seq(es);
            let n = es.len() as int;
            if es.len() == 0 {
                assert(enc(v) =~= seq![crate::codes::FC_LIST0]);
                assert(s[0] == crate::codes::FC_LIST0);
                assert(es =~= Seq::<VData>::empty());
                assert(dec_body(crate::codes::FC_LIST0, s.skip(1)) == Ok::<
                    (VData, int),
                    Error,
                >((VData::List(es), 0int)));
            } else {
                lemma_rt_seq(es, t);
                assert(s[0] == crate::codes::FC_LIST8);
                let rest = seq![(body.len() + 1) as u8, es.len() as u8] + body + t;
                assert(s.skip(1) =~= rest);
                assert(rest[0] == (body.len() + 1) as u8 && rest[1] == es.len() as u8);
                assert(rest.skip(2) =~= body + t);
                assert(dec_elems(rest.skip(2), n) == Ok::<(Seq<VData>, int), Error>(
                    (es, body.len() as int),
                ));
                assert(dec_body(crate::codes::FC_LIST8, rest) == Ok::<(VData, int), Error>(
                    (VData::List(es), 2 + body.len() as int),
                ));
            }
        },
        _ => {},
    }
}

/// Round trip of a list that takes the four-byte-size form.
#[verifier::spinoff_prover]
#[verifier::rlimit(100)]
proof fn lemma_rt_list_large(v: VData, t: Seq<u8>)
    requires
        wf(v),
        v matches VData::List(es) && es.len() > 0 && !(enc_seq(es).len() <= 0xfe
            && es.len() <= 0xff),
    ensures
        dec(enc(v) + t) == Ok::<(VData, int), Error>((v, enc(v).len() as int)),
    decreases v, 0int,
{
    let s = enc(v) + t;
    match v {
        VData::List(es) => {
            let body = enc_seq(es);
            let n = es.len() as int;
            lemma_rt_seq(es, t);
            lemma_be4_inverse((body.len() + 4) as u32);
            lemma_be4_inverse(es.len() as u32);
            let sz = be4((body.len() + 4) as u32);
            let ct = be4(es.len() as u32);
            let rest = sz + ct + body + t;
            assert(s[0] == crate::codes::FC_LIST32);
            assert(s.skip(1) =~= rest);
            assert(rest[0] == sz[0] && rest[1] == sz[1] && rest[2] == sz[2]
                && rest[3] == sz[3]);
            assert(rest[4] == ct[0] && rest[5] == ct[1] && rest[6] == ct[2]
                && rest[7] == ct[3]);
            assert(v4(rest[0], rest[1], rest[2], rest[3]) == (body.len() + 4) as u32);
            assert(v4(rest[4], rest[5], rest[6], rest[7]) == es.len() as u32);
            assert(rest.skip(8) =~= body + t);
            assert(dec_elems(rest.skip(8), n) == Ok::<(Seq<VData>, int), Error>(
                (es, body.len() as int),
            ));
            assert(dec_body(crate::codes::FC_LIST32, rest) == Ok::<(VData, int), Error>(
                (VData::List(es), 8 + body.len() as int),
            ));
        },
        _ => {},
    }
}

/// Round trip of a map value.
#[verifier::spinoff_prover]
#[verifier::rlimit(100)]
proof fn lemma_rt_map(v: VData, t: Seq<u8>)
    requires
        wf(v),
        v is Mapping,
    ensures
        dec(enc(v) + t) == Ok::<(VData, int), Error>((v, enc(v).len() as int)),
    decreases v, 1int,
{
    let s = enc(v) + t;
    match v {
        VData::Mapping(ps) => {
            let body = enc_pairs(ps);
            let n = 2 * ps.len() as int;
            lemma_flatten_pairs(ps);
            lemma_rt_pairs(ps, t);
            if body.len() <= 0xfe && 2 * ps.len() <= 0xff {
                assert(s[0] == crate::codes::FC_MAP8);
                let rest = seq![(body.len() + 1) as u8, (2 * ps.len()) as u8] + body + t;
                assert(s.skip(1) =~= rest);
                assert(rest[0] == (body.len() + 1) as u8 && rest[1] == (2 * ps.len()) as u8);
                assert(rest.skip(2) =~= body + t);
                assert(dec_elems(rest.skip(2), n) == Ok::<(Seq<VData>, int), Error>(
                    (flatten_pairs(ps), body.len() as int),
                ));
                assert(dec_body(crate::codes::FC_MAP8, rest) == Ok::<(VData, int), Error>(
                    (VData::Mapping(ps), 2 + body.len() as int),
                ));
            } else {
                lemma_be4_inverse((body.len() + 4) as u32);
                lemma_be4_inverse((2 * ps.len()) as u32);
                let sz = be4((body.len() + 4) as u32);
                let ct = be4((2 * ps.len()) as u32);
                let rest = sz + ct + body + t;
                assert(s[0] == crate::codes::FC_MAP32);
                assert(s.skip(1) =~= rest);
                assert(rest[0] == sz[0] && rest[1] == sz[1] && rest[2] == sz[2]
                    && rest[3] == sz[3]);
                assert(rest[4] == ct[0] && rest[5] == ct[1] && rest[6] == ct[2]
                    && rest[7] == ct[3]);
                assert(v4(rest[0], rest[1], rest[2], rest[3]) == (body.len() + 4) as u32);
                assert(v4(rest[4], rest[5], rest[6], rest[7]) == (2 * ps.len()) as u32);
                assert(rest.skip(8) =~= body + t);
                assert(dec_elems(rest.skip(8), n) == Ok::<(Seq<VData>, int), Error>(
                    (flatten_pairs(ps), body.len() as int),
                ));
                assert(dec_body(crate::codes::FC_MAP32, rest) == Ok::<(VData, int), Error>(
                    (VData::Mapping(ps), 8 + body.len() as int),
                ));
            }
        },
        _ => {},
    }
}

/// Round trip of an array value.
#[verifier::spinoff_prover]
#[verifier::rlimit(100)]
proof fn lemma_rt_arr(v: VData, t: Seq<u8>)
    requires
        wf(v),
        v is Array,
    ensures
        dec(enc(v) + t) == Ok::<(VData, int), Error>((v, enc(v).len() as int)),
    decreases v, 1int,
{
    let s = enc(v) + t;
    match v {
        VData::Array(es) => {
            let n = es.len() as int;
            if es.len() == 0 {
                assert(s[0] == crate::codes::FC_ARRAY8);
                let rest = seq![2u8, 0u8, crate::codes::FC_NULL] + t;
                assert(s.skip(1) =~= rest);
                assert(rest[0] == 2u8 && rest[1] == 0u8 && rest[2] == crate::codes::FC_NULL);
                assert(es =~= Seq::<VData>::empty());
                assert(dec_elems_coded(crate::codes::FC_NULL, rest.skip(3), 0) == Ok::<
                    (Seq<VData>, int),
                    Error,
                >((es, 0int)));
                assert(dec_body(crate::codes::FC_ARRAY8, rest) == Ok::<(VData, int), Error>(
                    (VData::Array(es), 3int),
                ));
            } else {
                let body = enc_array_body(es);
                let code = elem_code(es[0]);
                assert(!(es[0] is Described) && elem_code(es[0]) == code);
                lemma_elem_code_constructor(es[0]);
                lemma_rt_array(es, code, t);
                if body.len() <= 0xfd && es.len() <= 0xff {
                    assert(s[0] == crate::codes::FC_ARRAY8);
                    let rest = seq![(body.len() + 2) as u8, es.len() as u8, code] + body + t;
                    assert(s.skip(1) =~= rest);
                    assert(rest[0] == (body.len() + 2) as u8 && rest[1] == es.len() as u8
                        && rest[2] == code);
                    assert(rest.skip(3) =~= body + t);
                    assert(dec_elems_coded(code, rest.skip(3), n) == Ok::<
                        (Seq<VData>, int),
                        Error,
                    >((es, body.len() as int)));
                    assert(dec_body(crate::codes::FC_ARRAY8, rest) == Ok::<
                        (VData, int),
                        Error,
                    >((VData::Array(es), 3 + body.len() as int)));
                } else {
                    lemma_be4_inverse((body.len() + 5) as u32);
                    lemma_be4_inverse(es.len() as u32);
                    let sz = be4((body.len() + 5) as u32);
                    let ct = be4(es.len() as u32);
                    let rest = sz + ct + seq![code] + body + t;
                    assert(s[0] == crate::codes::FC_ARRAY32);
                    assert(s.skip(1) =~= rest);
                    assert(rest[0] == sz[0] && rest[1] == sz[1] && rest[2] == sz[2]
                        && rest[3] == sz[3]);
                    assert(rest[4] == ct[0] && rest[5] == ct[1] && rest[6] == ct[2]
                        && rest[7] == ct[3]);
                    assert(v4(rest[0], rest[1], rest[2], rest[3]) == (body.len() + 5) as u32);
                    assert(v4(rest[4], rest[5], rest[6], rest[7]) == es.len() as u32);
                    assert(rest[8] == code);
                    assert(rest.skip(9) =~= body + t);
                    assert(dec_elems_coded(code, rest.skip(9), n) == Ok::<
                        (Seq<VData>, int),
                        Error,
                    >((es, body.len() as int)));
                    assert(dec_body(crate::codes::FC_ARRAY32, rest) == Ok::<
                        (VData, int),
                        Error,
                    >((VData::Array(es), 9 + body.len() as int)));
                }
            }
        },
        _ => {},
    }
}

/// Decoding inverts the canonical encoding of a run of well-formed values.
#[verifier::spinoff_prover]
#[verifier::rlimit(100)]
pub proof fn lemma_rt_seq(es: Seq<VData>, t: Seq<u8>)
    requires
        wf_seq(es),
    ensures
        dec_elems(enc_seq(es) + t, es.len() as int) == Ok::<(Seq<VData>, int), Error>(
            (es, enc_seq(es).len() as int),
        ),
    decreases es, 0int,
{
    if es.len() == 0 {
        assert(enc_seq(es) + t =~= t);
        assert(dec_elems(t, 0) == Ok::<(Seq<VData>, int), Error>((Seq::empty(), 0)));
        assert(es =~= Seq::<VData>::empty());
    } else {
        let e0 = enc(es[0]);
        let rest = enc_seq(es.drop_first());
        lemma_round_trip(es[0], rest + t);
        lemma_enc_nonempty(es[0]);
        lemma_rt_seq(es.drop_first(), t);
        let s = enc_seq(es) + t;
        assert(s =~= e0 + (rest + t));
        assert(s.skip(e0.len() as int) =~= rest + t);
        assert(seq![es[0]] + es.drop_first() =~= es);
    }
}

/// Decoding inverts the canonical encoding of a run of well-formed
/// key-value pairs, two values per pair.
#[verifier::spinoff_prover]
#[verifier::rlimit(100)]
pub proof fn lemma_rt_pairs(ps: Seq<(VData, VData)>, t: Seq<u8>)
    requires
        wf_pairs(ps),
    ensures
        dec_elems(enc_pairs(ps) + t, 2 * ps.len() as int) == Ok::<(Seq<VData>, int), Error>(
            (flatten_pairs(ps), enc_pairs(ps).len() as int),
        ),
    decreases ps, 0int,
{
    if ps.len() == 0 {
        assert(enc_pairs(ps) + t =~= t);
        assert(dec_elems(t, 0) == Ok::<(Seq<VData>, int), Error>((Seq::empty(), 0)));
    } else {
        let ek = enc(ps[0].0);
        let ev = enc(ps[0].1);
        let rest = enc_pairs(ps.drop_first());
        lemma_round_trip(ps[0].0, ev + rest + t);
        lemma_round_trip(ps[0].1, rest + t);
        lemma_enc_nonempty(ps[0].0);
        lemma_enc_nonempty(ps[0].1);
        lemma_rt_pairs(ps.drop_first(), t);
        let s = enc_pairs(ps) + t;
        assert(s =~= ek + (ev + rest + t));
        assert(s.skip(ek.len() as int) =~= ev + (rest + t));
        assert(s.skip(ek.len() as int).skip(ev.len() as int) =~= rest + t);
        assert(dec(s) == Ok::<(VData, int), Error>((ps[0].0, ek.len() as int)));
        assert(dec(s.skip(ek.len() as int)) == Ok::<(VData, int), Error>(
            (ps[0].1, ev.len() as int),
        ));
        assert(dec_elems(s.skip(ek.len() as int).skip(ev.len() as int),
            2 * ps.drop_first().len() as int) == Ok::<(Seq<VData>, int), Error>(
            (flatten_pairs(ps.drop_first()), rest.len() as int),
        ));
        assert(2 * ps.len() as int - 2 == 2 * ps.drop_first().len() as int);
        assert(dec_elems(s.skip(ek.len() as int), 2 * ps.len() as int - 1) == Ok::<
            (Seq<VData>, int),
            Error,
        >((seq![ps[0].1] + flatten_pairs(ps.drop_first()), ev.len() + rest.len() as int)));
        assert(seq![ps[0].0] + (seq![ps[0].1] + flatten_pairs(ps.drop_first()))
            =~= flatten_pairs(ps));
    }
}

/// Decoding inverts the canonical body of an array of well-formed values
/// that share one format code.
#[verifier::spinoff_prover]
#[verifier::rlimit(100)]
pub proof fn lemma_rt_array(es: Seq<VData>, code: u8, t: Seq<u8>)
    requires
        wf_seq(es),
        forall|i: int| 0 <= i < es.len() ==> !((#[trigger] es[i]) is Described)
            && elem_code(es[i]) == code,
    ensures
        dec_elems_coded(code, enc_array_body(es) + t, es.len() as int) == Ok::<
            (Seq<VData>, int),
            Error,
        >((es, enc_array_body(es).len() as int)),
    decreases es, 0int,
{
    if es.len() == 0 {
        assert(enc_array_body(es) + t =~= t);
        assert(es =~= Seq::<VData>::empty());
    } else {
        let e0 = enc_elem(es[0]);
        let rest = enc_array_body(es.drop_first());
        lemma_rt_elem(es[0], rest + t);
        lemma_rt_array(es.drop_first(), code, t);
        let s = enc_array_body(es) + t;
        assert(s =~= e0 + (rest + t));
        assert(s.skip(e0.len() as int) =~= rest + t);
        assert(seq![es[0]] + es.drop_first() =~= es);
    }
}

/// Element round trip of the fixed-width scalar values.
#[verifier::spinoff_prover]
proof fn lemma_rt_elem_fixed(v: VData, t: Seq<u8>)
    requires
        match v {
            VData::Null | VData::Bool(_) | VData::UByte(_) | VData::UShort(_)
                | VData::UInt(_) | VData::ULong(_) | VData::Byte(_) | VData::Short(_)
                | VData::Int(_) | VData::Long(_) | VData::Float(_) | VData::Double(_)
                | VData::Dec32(_) | VData::Dec64(_) | VData::Dec128(_) | VData::Char(_)
                | VData::Timestamp(_) | VData::Uuid(_) => true,
            _ => false,
        },
    ensures
        dec_body(elem_code(v), enc_elem(v) + t) == Ok::<(VData, int), Error>(
            (v, enc_elem(v).len() as int),
        ),
{
    let e = enc_elem(v);
    let s = e + t;
    match v {
        VData::UShort(x) => {
            lemma_be2_inverse(x);
        },
        VData::UInt(x) => {
            lemma_be4_inverse(x);
        },
        VData::ULong(x) => {
            lemma_be8_inverse(x);
            assert(s.take(8) =~= be8(x));
        },
        VData::Short(x) => {
            lemma_be2_inverse(tc(x as int, 0x10000) as u16);
        },
        VData::Int(x) => {
            lemma_be4_inverse(tc(x as int, 0x100000000) as u32);
        },
        VData::Long(x) => {
            let u = tc(x as int, 0x10000000000000000) as u64;
            lemma_be8_inverse(u);
            assert(s.take(8) =~= be8(u));
        },
        VData::Float(x) => {
            lemma_be4_inverse(x);
        },
        VData::Double(x) => {
            lemma_be8_inverse(x);
            assert(s.take(8) =~= be8(x));
        },
        VData::Dec32(x) => {
            lemma_be4_inverse(x);
        },
        VData::Dec64(x) => {
            lemma_be8_inverse(x);
            assert(s.take(8) =~= be8(x));
        },
        VData::Dec128(x) => {
            lemma_be16_inverse(x);
            assert(s.take(16) =~= be16(x));
        },
        VData::Char(c) => {
            char_is_scalar(c);
            char_u32_cast(c, c as u32);
            lemma_be4_inverse(c as u32);
        },
        VData::Timestamp(x) => {
            let u = tc(x as int, 0x10000000000000000) as u64;
            lemma_be8_inverse(u);
            assert(s.take(8) =~= be8(u));
        },
        VData::Uuid(x) => {
            lemma_be16_inverse(x);
            assert(s.take(16) =~= be16(x));
        },
        _ => {},
    }
}

/// Element round trip of the variable-width values.
#[verifier::spinoff_prover]
proof fn lemma_rt_elem_var(v: VData, t: Seq<u8>)
    requires
        wf(v),
        v is Binary || v is Str || v is Symbol,
    ensures
        dec_body(elem_code(v), enc_elem(v) + t) == Ok::<(VData, int), Error>(
            (v, enc_elem(v).len() as int),
        ),
{
    let e = enc_elem(v);
    let s = e + t;
    let b = match v {
        VData::Binary(b) => b,
        VData::Str(cs) => encode_utf8(cs),
        VData::Symbol(b) => b,
        _ => Seq::empty(),
    };
    match v {
        VData::Str(cs) => {
            encode_utf8_valid_utf8(cs);
            encode_utf8_decode_utf8(cs);
        },
        _ => {},
    }
    lemma_be4_inverse(b.len() as u32);
    assert(s[0] == be4(b.len() as u32)[0] && s[1] == be4(b.len() as u32)[1]
        && s[2] == be4(b.len() as u32)[2] && s[3] == be4(b.len() as u32)[3]);
    assert(s.subrange(4, 4 + b.len() as int) =~= b);
}

/// Decoding a body under a value's own array format code inverts the
/// element encoding of the value.
#[verifier::rlimit(100)]
pub proof fn lemma_rt_elem(v: VData, t: Seq<u8>)
    requires
        wf(v),
        !(v is Described),
    ensures
        dec_body(elem_code(v), enc_elem(v) + t) == Ok::<(VData, int), Error>(
            (v, enc_elem(v).len() as int),
        ),
    decreases v, 1int,
{
    let e = enc_elem(v);
    let s = e + t;
    match v {
        VData::Binary(_) | VData::Str(_) | VData::Symbol(_) => {
            lemma_rt_elem_var(v, t);
        },
        VData::List(es) => {
            let body = enc_seq(es);
            lemma_rt_seq(es, t);
            lemma_be4_inverse((body.len() + 4) as u32);
            lemma_be4_inverse(es.len() as u32);
            let sz = be4((body.len() + 4) as u32);
            let ct = be4(es.len() as u32);
            assert(s =~= sz + ct + body + t);
            assert(s[0] == sz[0] && s[1] == sz[1] && s[2] == sz[2] && s[3] == sz[3]);
            assert(s[4] == ct[0] && s[5] == ct[1] && s[6] == ct[2] && s[7] == ct[3]);
            assert(s.skip(8) =~= body + t);
        },
        VData::Mapping(ps) => {
            let body = enc_pairs(ps);
            lemma_flatten_pairs(ps);
            lemma_rt_pairs(ps, t);
            lemma_be4_inverse((body.len() + 4) as u32);
            lemma_be4_inverse((2 * ps.len()) as u32);
            let sz = be4((body.len() + 4) as u32);
            let ct = be4((2 * ps.len()) as u32);
            assert(s =~= sz + ct + body + t);
            assert(s[0] == sz[0] && s[1] == sz[1] && s[2] == sz[2] && s[3] == sz[3]);
            assert(s[4] == ct[0] && s[5] == ct[1] && s[6] == ct[2] && s[7] == ct[3]);
            assert(s.skip(8) =~= body + t);
        },
        VData::Array(es) => {
            if es.len() == 0 {
                lemma_be4_inverse(5);
                lemma_be4_inverse(0);
                let sz = be4(5);
                let ct = be4(0);
                assert(s =~= sz + ct + seq![crate::codes::FC_NULL] + t);
                assert(s[0] == sz[0] && s[1] == sz[1] && s[2] == sz[2] && s[3] == sz[3]);
                assert(s[4] == ct[0] && s[5] == ct[1] && s[6] == ct[2] && s[7] == ct[3]);
                assert(s[8] == crate::codes::FC_NULL);
                assert(es =~= Seq::<VData>::empty());
            } else {
                let body = enc_array_body(es);
                let code = elem_code(es[0]);
                assert(!(es[0] is Described) && elem_code(es[0]) == code);
                lemma_elem_code_constructor(es[0]);
                lemma_rt_array(es, code, t);
                lemma_be4_inverse((body.len() + 5) as u32);
                lemma_be4_inverse(es.len() as u32);
                let sz = be4((body.len() + 5) as u32);
                let ct = be4(es.len() as u32);
                assert(s =~= sz + ct + seq![code] + body + t);
                assert(s[0] == sz[0] && s[1] == sz[1] && s[2] == sz[2] && s[3] == sz[3]);
                assert(s[4] == ct[0] && s[5] == ct[1] && s[6] == ct[2] && s[7] == ct[3]);
                assert(s[8] == code);
                assert(s.skip(9) =~= body + t);
            }
        },
        _ => {
            lemma_rt_elem_fixed(v, t);
        },
    }
}

} // verus!


verus! {

/// A decoded descriptor re-encodes within the bytes it was read from, and
/// its name fits the wire format.
pub proof fn lemma_min_descriptor(s: Seq<u8>)
    ensures
        dec_descriptor(s) matches Ok((d, c)) ==> 1 <= c <= s.len()
            && enc_descriptor(d).len() <= c
            && (d matches VDescriptor::Name(b) ==> b.len() <= 0xffffffff),
{
}

/// A decoded value is well-formed and its canonical encoding is no longer
/// than the bytes it was decoded from: the canonical encoder picks the
/// smallest width among all valid encodings.
pub proof fn lemma_minimal(s: Seq<u8>)
    ensures
        dec(s) matches Ok((v, c)) ==> wf(v) && 1 <= c <= s.len() && enc(v).len() <= c,
    decreases s.len(), 3int, 0int,
{
    if s.len() == 0 {
    } else if s[0] == crate::codes::FC_DESCRIBED {
        lemma_min_descriptor(s.skip(1));
        match dec_descriptor(s.skip(1)) {
            Err(_) => {},
            Ok((d, dc)) => {
                if dc >= 1 {
                    lemma_minimal(s.skip(1 + dc));
                }
            },
        }
    } else {
        lemma_minimal_body(s[0], s.skip(1));
    }
}

/// The body form of the minimality law: after a format code, a decoded body
/// re-encodes canonically within one byte more than it consumed; under an
/// array constructor it also re-encodes as an element within what it
/// consumed.
pub proof fn lemma_minimal_body(code: u8, s: Seq<u8>)
    ensures
        dec_body(code, s) matches Ok((v, c)) ==> wf(v) && 0 <= c <= s.len()
            && enc(v).len() <= 1 + c
            && (array_constructor(code) ==> !(v is Described) && elem_code(v) == code
                && enc_elem(v).len() <= c),
    decreases s.len(), 2int, 0int,
{
    if code == crate::codes::FC_LIST8 || code == crate::codes::FC_LIST32 {
        lemma_min_body_list(code, s);
    } else if code == crate::codes::FC_MAP8 || code == crate::codes::FC_MAP32 {
        lemma_min_body_map(code, s);
    } else if code == crate::codes::FC_ARRAY8 || code == crate::codes::FC_ARRAY32 {
        lemma_min_body_array(code, s);
    } else {
        lemma_min_body_scalar(code, s);
    }
}

/// Minimality of every decoded body that is not a list, map or array.
proof fn lemma_min_body_scalar(code: u8, s: Seq<u8>)
    requires
        code != crate::codes::FC_LIST8,
        code != crate::codes::FC_LIST32,
        code != crate::codes::FC_MAP8,
        code != crate::codes::FC_MAP32,
        code != crate::codes::FC_ARRAY8,
        code != crate::codes::FC_ARRAY32,
    ensures
        dec_body(code, s) matches Ok((v, c)) ==> wf(v) && 0 <= c <= s.len()
            && enc(v).len() <= 1 + c
            && (array_constructor(code) ==> !(v is Described) && elem_code(v) == code
                && enc_elem(v).len() <= c),
{
    if code == crate::codes::FC_VBIN8 || code == crate::codes::FC_VBIN32
        || code == crate::codes::FC_STR8 || code == crate::codes::FC_STR32
        || code == crate::codes::FC_SYM8 || code == crate::codes::FC_SYM32 {
        lemma_min_body_var(code, s);
    } else {
        lemma_min_body_plain(code, s);
    }
}

/// Minimality of a decoded binary, string or symbol body.
#[verifier::spinoff_prover]
#[verifier::rlimit(100)]
proof fn lemma_min_body_var(code: u8, s: Seq<u8>)
    requires
        code == crate::codes::FC_VBIN8 || code == crate::codes::FC_VBIN32
            || code == crate::codes::FC_STR8 || code == crate::codes::FC_STR32
            || code == crate::codes::FC_SYM8 || code == crate::codes::FC_SYM32,
    ensures
        dec_body(code, s) matches Ok((v, c)) ==> wf(v) && 0 <= c <= s.len()
            && enc(v).len() <= 1 + c
            && (array_constructor(code) ==> !(v is Described) && elem_code(v) == code
                && enc_elem(v).len() <= c),
{
    if code == crate::codes::FC_STR8 {
        if s.len() >= 1 && s.len() - 1 >= s[0] as int {
            let b = s.subrange(1, 1 + s[0] as int);
            if valid_utf8(b) {
                decode_utf8_encode_utf8(b);
            }
        }
    } else if code == crate::codes::FC_STR32 {
        if s.len() >= 4 {
            let n = v4(s[0], s[1], s[2], s[3]) as int;
            if s.len() - 4 >= n {
                let b = s.subrange(4, 4 + n);
                if valid_utf8(b) {
                    decode_utf8_encode_utf8(b);
                }
            }
        }
    }
}

/// Minimality of a decoded fixed-width scalar or empty-list body.
#[verifier::spinoff_prover]
#[verifier::rlimit(100)]
proof fn lemma_min_body_plain(code: u8, s: Seq<u8>)
    requires
        code != crate::codes::FC_LIST8,
        code != crate::codes::FC_LIST32,
        code != crate::codes::FC_MAP8,
        code != crate::codes::FC_MAP32,
        code != crate::codes::FC_ARRAY8,
        code != crate::codes::FC_ARRAY32,
        code != crate::codes::FC_VBIN8,
        code != crate::codes::FC_VBIN32,
        code != crate::codes::FC_STR8,
        code != crate::codes::FC_STR32,
        code != crate::codes::FC_SYM8,
        code != crate::codes::FC_SYM32,
    ensures
        dec_body(code, s) matches Ok((v, c)) ==> wf(v) && 0 <= c <= s.len()
            && enc(v).len() <= 1 + c
            && (array_constructor(code) ==> !(v is Described) && elem_code(v) == code
                && enc_elem(v).len() <= c),
{
    if code == crate::codes::FC_LIST0 {
        assert(dec_body(code, s) == Ok::<(VData, int), Error>(
            (VData::List(Seq::empty()), 0int),
        ));
        assert(wf_seq(Seq::<VData>::empty()));
        assert(enc_seq(Seq::<VData>::empty()) == Seq::<u8>::empty());
    } else if code == crate::codes::FC_CHAR {
        if s.len() >= 4 {
            let x = v4(s[0], s[1], s[2], s[3]);
            if valid_scalar(x) {
                char_u32_cast(x as char, x);
                char_is_scalar(x as char);
            }
        }
    }
}

/// Minimality of a decoded list body.
#[verifier::spinoff_prover]
#[verifier::rlimit(100)]
proof fn lemma_min_body_list(code: u8, s: Seq<u8>)
    requires
        code == crate::codes::FC_LIST8 || code == crate::codes::FC_LIST32,
    ensures
        dec_body(code, s) matches Ok((v, c)) ==> wf(v) && 0 <= c <= s.len()
            && enc(v).len() <= 1 + c
            && (array_constructor(code) ==> !(v is Described) && elem_code(v) == code
                && enc_elem(v).len() <= c),
    decreases s.len(), 1int, 0int,
{
    if code == crate::codes::FC_LIST8 {
        if s.len() >= 2 {
            lemma_minimal_elems(s.skip(2), s[1] as int);
        }
    } else {
        if s.len() >= 8 {
            let count = v4(s[4], s[5], s[6], s[7]) as int;
            lemma_minimal_elems(s.skip(8), count);
        }
    }
}

/// Minimality of a decoded map body.
#[verifier::spinoff_prover]
#[verifier::rlimit(100)]
proof fn lemma_min_body_map(code: u8, s: Seq<u8>)
    requires
        code == crate::codes::FC_MAP8 || code == crate::codes::FC_MAP32,
    ensures
        dec_body(code, s) matches Ok((v, c)) ==> wf(v) && 0 <= c <= s.len()
            && enc(v).len() <= 1 + c
            && (array_constructor(code) ==> !(v is Described) && elem_code(v) == code
                && enc_elem(v).len() <= c),
    decreases s.len(), 1int, 0int,
{
    if code == crate::codes::FC_MAP8 {
        if s.len() >= 2 {
            lemma_minimal_elems(s.skip(2), s[1] as int);
            match dec_elems(s.skip(2), s[1] as int) {
                Err(_) => {},
                Ok((vs, c)) => {
                    if s[1] as int % 2 == 0 {
                        lemma_pairs_flatten(vs);
                        lemma_enc_pairs_flatten(pairs_of(vs));
                    }
                },
            }
        }
    } else {
        if s.len() >= 8 {
            let count = v4(s[4], s[5], s[6], s[7]) as int;
            lemma_minimal_elems(s.skip(8), count);
            match dec_elems(s.skip(8), count) {
                Err(_) => {},
                Ok((vs, c)) => {
                    if count % 2 == 0 {
                        lemma_pairs_flatten(vs);
                        lemma_enc_pairs_flatten(pairs_of(vs));
                    }
                },
            }
        }
    }
}

/// Minimality of a decoded array body.
#[verifier::spinoff_prover]
#[verifier::rlimit(100)]
proof fn lemma_min_body_array(code: u8, s: Seq<u8>)
    requires
        code == crate::codes::FC_ARRAY8 || code == crate::codes::FC_ARRAY32,
    ensures
        dec_body(code, s) matches Ok((v, c)) ==> wf(v) && 0 <= c <= s.len()
            && enc(v).len() <= 1 + c
            && (array_constructor(code) ==> !(v is Described) && elem_code(v) == code
                && enc_elem(v).len() <= c),
    decreases s.len(), 1int, 0int,
{
    if code == crate::codes::FC_ARRAY8 {
        if s.len() >= 3 {
            lemma_minimal_coded(s[2], s.skip(3), s[1] as int);
        }
    } else {
        if s.len() >= 9 {
            let count = v4(s[4], s[5], s[6], s[7]) as int;
            lemma_minimal_coded(s[8], s.skip(9), count);
        }
    }
}

/// A decoded run of values is well-formed elementwise, has the announced
/// count, and re-encodes canonically within the bytes it consumed.
pub proof fn lemma_minimal_elems(s: Seq<u8>, n: int)
    ensures
        dec_elems(s, n) matches Ok((vs, c)) ==> wf_seq(vs) && vs.len() == (if n <= 0 {
            0int
        } else {
            n
        }) && 0 <= c <= s.len() && enc_seq(vs).len() <= c,
    decreases s.len(), 3int, n,
{
    if n <= 0 {
    } else {
        lemma_minimal(s);
        match dec(s) {
            Err(_) => {},
            Ok((v, c)) => {
                if 1 <= c <= s.len() {
                    lemma_minimal_elems(s.skip(c), n - 1);
                    match dec_elems(s.skip(c), n - 1) {
                        Err(_) => {},
                        Ok((vs, c2)) => {
                            assert((seq![v] + vs).drop_first() =~= vs);
                        },
                    }
                }
            },
        }
    }
}

/// A decoded run of array elements under one constructor is well-formed,
/// uniform in that constructor, and re-encodes within the bytes consumed.
pub proof fn lemma_minimal_coded(code: u8, s: Seq<u8>, n: int)
    ensures
        dec_elems_coded(code, s, n) matches Ok((vs, c)) ==> wf_seq(vs) && vs.len() == (
        if n <= 0 {
            0int
        } else {
            n
        }) && 0 <= c <= s.len() && (array_constructor(code)
            ==> enc_array_body(vs).len() <= c
                && forall|i: int| 0 <= i < vs.len() ==> !((#[trigger] vs[i]) is Described)
                    && elem_code(vs[i]) == code),
    decreases s.len(), 3int, n,
{
    if n <= 0 {
    } else {
        lemma_minimal_body(code, s);
        match dec_body(code, s) {
            Err(_) => {},
            Ok((v, c)) => {
                if 0 <= c <= s.len() {
                    lemma_minimal_coded(code, s.skip(c), n - 1);
                    match dec_elems_coded(code, s.skip(c), n - 1) {
                        Err(_) => {},
                        Ok((vs, c2)) => {
                            assert((seq![v] + vs).drop_first() =~= vs);
                            assert(forall|i: int| 1 <= i < (seq![v] + vs).len()
                                ==> (#[trigger] (seq![v] + vs)[i]) == vs[i - 1]);
                        },
                    }
                }
            },
        }
    }
}

} // verus!
