//! The canonical encoding of values: the writer always emits the smallest
//! width that fits.

use vstd::prelude::*;
use vstd::utf8::encode_utf8;
use crate::codes::{
    FC_DESCRIBED, FC_NULL, FC_BOOLEAN, FC_TRUE, FC_FALSE, FC_UBYTE, FC_USHORT, FC_UINT,
    FC_SMALL_UINT, FC_UINT0, FC_ULONG, FC_SMALL_ULONG, FC_ULONG0, FC_BYTE, FC_SHORT,
    FC_INT, FC_SMALL_INT, FC_LONG, FC_SMALL_LONG, FC_FLOAT, FC_DOUBLE, FC_DECIMAL32,
    FC_DECIMAL64, FC_DECIMAL128, FC_CHAR, FC_TIMESTAMP, FC_UUID, FC_VBIN8, FC_VBIN32,
    FC_STR8, FC_STR32, FC_SYM8, FC_SYM32, FC_LIST0, FC_LIST8, FC_LIST32, FC_MAP8,
    FC_MAP32, FC_ARRAY8, FC_ARRAY32,
};
use crate::value::{VData, VDescriptor};

verus! {

/// Two's complement of a signed quantity in a modulus, as a non-negative
/// integer.
pub open spec fn tc(x: int, m: int) -> int {
    if x >= 0 {
        x
    } else {
        x + m
    }
}

/// The two network-order bytes of a 16-bit integer.
pub open spec fn be2(x: u16) -> Seq<u8> {
    seq![((x as int) / 0x100) as u8, ((x as int) % 0x100) as u8]
}

/// The four network-order bytes of a 32-bit integer.
pub open spec fn be4(x: u32) -> Seq<u8> {
    be2(((x as int) / 0x10000) as u16) + be2(((x as int) % 0x10000) as u16)
}

/// The eight network-order bytes of a 64-bit integer.
pub open spec fn be8(x: u64) -> Seq<u8> {
    be4(((x as int) / 0x100000000) as u32) + be4(((x as int) % 0x100000000) as u32)
}

/// The sixteen network-order bytes of a 128-bit integer.
pub open spec fn be16(x: u128) -> Seq<u8> {
    be8(((x as int) / 0x10000000000000000) as u64)
        + be8(((x as int) % 0x10000000000000000) as u64)
}

/// The integer read from two network-order bytes.
pub open spec fn v2(b0: u8, b1: u8) -> u16 {
    ((b0 as int) * 0x100 + (b1 as int)) as u16
}

/// The integer read from four network-order bytes.
pub open spec fn v4(b0: u8, b1: u8, b2: u8, b3: u8) -> u32 {
    ((v2(b0, b1) as int) * 0x10000 + (v2(b2, b3) as int)) as u32
}

/// The integer read from eight network-order bytes.
pub open spec fn v8(s: Seq<u8>) -> u64
    recommends
        s.len() == 8,
{
    ((v4(s[0], s[1], s[2], s[3]) as int) * 0x100000000
        + (v4(s[4], s[5], s[6], s[7]) as int)) as u64
}

/// The integer read from sixteen network-order bytes.
pub open spec fn v16(s: Seq<u8>) -> u128
    recommends
        s.len() == 16,
{
    ((v8(s.take(8)) as int) * 0x10000000000000000 + (v8(s.skip(8)) as int)) as u128
}

/// Reading back the bytes of a 16-bit integer yields the integer.
pub proof fn lemma_be2_inverse(x: u16)
    ensures
        be2(x).len() == 2,
        v2(be2(x)[0], be2(x)[1]) == x,
{
}

/// Any two bytes are the encoding of the integer read from them.
pub proof fn lemma_v2_inverse(b0: u8, b1: u8)
    ensures
        be2(v2(b0, b1)) == seq![b0, b1],
{
    assert(be2(v2(b0, b1)) =~= seq![b0, b1]);
}

/// Reading back the bytes of a 32-bit integer yields the integer.
pub proof fn lemma_be4_inverse(x: u32)
    ensures
        be4(x).len() == 4,
        v4(be4(x)[0], be4(x)[1], be4(x)[2], be4(x)[3]) == x,
{
    let hi = ((x as int) / 0x10000) as u16;
    let lo = ((x as int) % 0x10000) as u16;
    lemma_be2_inverse(hi);
    lemma_be2_inverse(lo);
}

/// Any four bytes are the encoding of the integer read from them.
pub proof fn lemma_v4_inverse(b0: u8, b1: u8, b2: u8, b3: u8)
    ensures
        be4(v4(b0, b1, b2, b3)) == seq![b0, b1, b2, b3],
{
    let x = v4(b0, b1, b2, b3);
    assert((x as int) / 0x10000 == v2(b0, b1) && (x as int) % 0x10000 == v2(b2, b3));
    lemma_v2_inverse(b0, b1);
    lemma_v2_inverse(b2, b3);
    assert(be4(x) =~= seq![b0, b1, b2, b3]);
}

/// Reading back the bytes of a 64-bit integer yields the integer.
pub proof fn lemma_be8_inverse(x: u64)
    ensures
        be8(x).len() == 8,
        v8(be8(x)) == x,
{
    let hi = ((x as int) / 0x100000000) as u32;
    let lo = ((x as int) % 0x100000000) as u32;
    lemma_be4_inverse(hi);
    lemma_be4_inverse(lo);
}

/// Any eight bytes are the encoding of the integer read from them.
pub proof fn lemma_v8_inverse(s: Seq<u8>)
    requires
        s.len() == 8,
    ensures
        be8(v8(s)) == s,
{
    let x = v8(s);
    assert((x as int) / 0x100000000 == v4(s[0], s[1], s[2], s[3])
        && (x as int) % 0x100000000 == v4(s[4], s[5], s[6], s[7]));
    lemma_v4_inverse(s[0], s[1], s[2], s[3]);
    lemma_v4_inverse(s[4], s[5], s[6], s[7]);
    assert(be8(x) =~= s);
}

/// Reading back the bytes of a 128-bit integer yields the integer.
pub proof fn lemma_be16_inverse(x: u128)
    ensures
        be16(x).len() == 16,
        v16(be16(x)) == x,
{
    let hi = ((x as int) / 0x10000000000000000) as u64;
    let lo = ((x as int) % 0x10000000000000000) as u64;
    lemma_be8_inverse(hi);
    lemma_be8_inverse(lo);
    assert(be16(x).take(8) =~= be8(hi));
    assert(be16(x).skip(8) =~= be8(lo));
}

/// Any sixteen bytes are the encoding of the integer read from them.
pub proof fn lemma_v16_inverse(s: Seq<u8>)
    requires
        s.len() == 16,
    ensures
        be16(v16(s)) == s,
{
    let x = v16(s);
    assert((x as int) / 0x10000000000000000 == v8(s.take(8))
        && (x as int) % 0x10000000000000000 == v8(s.skip(8)));
    lemma_v8_inverse(s.take(8));
    lemma_v8_inverse(s.skip(8));
    assert(be16(x) =~= s);
}

/// The format code that announces a value when it stands as an array
/// element, where every width is spelled out in full. A described value
/// cannot stand in an array and is mapped to the described-type constructor,
/// which well-formedness excludes.
pub open spec fn elem_code(v: VData) -> u8 {
    match v {
        VData::Null => FC_NULL,
        VData::Bool(_) => FC_BOOLEAN,
        VData::UByte(_) => FC_UBYTE,
        VData::UShort(_) => FC_USHORT,
        VData::UInt(_) => FC_UINT,
        VData::ULong(_) => FC_ULONG,
        VData::Byte(_) => FC_BYTE,
        VData::Short(_) => FC_SHORT,
        VData::Int(_) => FC_INT,
        VData::Long(_) => FC_LONG,
        VData::Float(_) => FC_FLOAT,
        VData::Double(_) => FC_DOUBLE,
        VData::Dec32(_) => FC_DECIMAL32,
        VData::Dec64(_) => FC_DECIMAL64,
        VData::Dec128(_) => FC_DECIMAL128,
        VData::Char(_) => FC_CHAR,
        VData::Timestamp(_) => FC_TIMESTAMP,
        VData::Uuid(_) => FC_UUID,
        VData::Binary(_) => FC_VBIN32,
        VData::Str(_) => FC_STR32,
        VData::Symbol(_) => FC_SYM32,
        VData::List(_) => FC_LIST32,
        VData::Mapping(_) => FC_MAP32,
        VData::Array(_) => FC_ARRAY32,
        VData::Described(_, _) => FC_DESCRIBED,
    }
}

/// The canonical encoding of a 64-bit unsigned integer, including its format
/// code: zero and one-byte values take their compact forms.
pub open spec fn enc_ulong(x: u64) -> Seq<u8> {
    if x == 0 {
        seq![FC_ULONG0]
    } else if x <= 0xff {
        seq![FC_SMALL_ULONG, x as u8]
    } else {
        seq![FC_ULONG] + be8(x)
    }
}

/// The canonical encoding of a symbol, including its format code.
pub open spec fn enc_sym(b: Seq<u8>) -> Seq<u8> {
    if b.len() <= 0xff {
        seq![FC_SYM8, b.len() as u8] + b
    } else if b.len() <= 0xffffffff {
        seq![FC_SYM32] + be4(b.len() as u32) + b
    } else {
        Seq::empty()
    }
}

/// The canonical encoding of a descriptor.
pub open spec fn enc_descriptor(d: VDescriptor) -> Seq<u8> {
    match d {
        VDescriptor::Code(c) => enc_ulong(c),
        VDescriptor::Name(b) => enc_sym(b),
    }
}

/// The canonical encoding of a value: the smallest width that fits, the
/// compact forms for zero integers and the empty list, and full containers.
/// A value that cannot be encoded within the wire format's 32-bit sizes
/// encodes to the empty sequence; well-formedness excludes such values.
pub open spec fn enc(v: VData) -> Seq<u8>
    decreases v, 1int,
{
    match v {
        VData::Null => seq![FC_NULL],
        VData::Bool(b) => if b {
            seq![FC_TRUE]
        } else {
            seq![FC_FALSE]
        },
        VData::UByte(x) => seq![FC_UBYTE, x],
        VData::UShort(x) => seq![FC_USHORT] + be2(x),
        VData::UInt(x) => if x == 0 {
            seq![FC_UINT0]
        } else if x <= 0xff {
            seq![FC_SMALL_UINT, x as u8]
        } else {
            seq![FC_UINT] + be4(x)
        },
        VData::ULong(x) => enc_ulong(x),
        VData::Byte(x) => seq![FC_BYTE, tc(x as int, 0x100) as u8],
        VData::Short(x) => seq![FC_SHORT] + be2(tc(x as int, 0x10000) as u16),
        VData::Int(x) => if -0x80 <= x && x <= 0x7f {
            seq![FC_SMALL_INT, tc(x as int, 0x100) as u8]
        } else {
            seq![FC_INT] + be4(tc(x as int, 0x100000000) as u32)
        },
        VData::Long(x) => if -0x80 <= x && x <= 0x7f {
            seq![FC_SMALL_LONG, tc(x as int, 0x100) as u8]
        } else {
            seq![FC_LONG] + be8(tc(x as int, 0x10000000000000000) as u64)
        },
        VData::Float(x) => seq![FC_FLOAT] + be4(x),
        VData::Double(x) => seq![FC_DOUBLE] + be8(x),
        VData::Dec32(x) => seq![FC_DECIMAL32] + be4(x),
        VData::Dec64(x) => seq![FC_DECIMAL64] + be8(x),
        VData::Dec128(x) => seq![FC_DECIMAL128] + be16(x),
        VData::Char(c) => seq![FC_CHAR] + be4(c as u32),
        VData::Timestamp(t) => seq![FC_TIMESTAMP] + be8(
            tc(t as int, 0x10000000000000000) as u64,
        ),
        VData::Uuid(u) => seq![FC_UUID] + be16(u),
        VData::Binary(b) => if b.len() <= 0xff {
            seq![FC_VBIN8, b.len() as u8] + b
        } else if b.len() <= 0xffffffff {
            seq![FC_VBIN32] + be4(b.len() as u32) + b
        } else {
            Seq::empty()
        },
        VData::Str(s) => {
            let b = encode_utf8(s);
            if b.len() <= 0xff {
                seq![FC_STR8, b.len() as u8] + b
            } else if b.len() <= 0xffffffff {
                seq![FC_STR32] + be4(b.len() as u32) + b
            } else {
                Seq::empty()
            }
        },
        VData::Symbol(b) => enc_sym(b),
        VData::List(es) => {
            let body = enc_seq(es);
            if es.len() == 0 {
                seq![FC_LIST0]
            } else if body.len() <= 0xfe && es.len() <= 0xff {
                seq![FC_LIST8, (body.len() + 1) as u8, es.len() as u8] + body
            } else if body.len() + 4 <= 0xffffffff && es.len() <= 0xffffffff {
                seq![FC_LIST32] + be4((body.len() + 4) as u32) + be4(es.len() as u32) + body
            } else {
                Seq::empty()
            }
        },
        VData::Mapping(ps) => {
            let body = enc_pairs(ps);
            if body.len() <= 0xfe && 2 * ps.len() <= 0xff {
                seq![FC_MAP8, (body.len() + 1) as u8, (2 * ps.len()) as u8] + body
            } else if body.len() + 4 <= 0xffffffff && 2 * ps.len() <= 0xffffffff {
                seq![FC_MAP32] + be4((body.len() + 4) as u32) + be4((2 * ps.len()) as u32)
                    + body
            } else {
                Seq::empty()
            }
        },
        VData::Array(es) => {
            if es.len() == 0 {
                seq![FC_ARRAY8, 2, 0, FC_NULL]
            } else {
                let body = enc_array_body(es);
                let code = elem_code(es[0]);
                if body.len() <= 0xfd && es.len() <= 0xff {
                    seq![FC_ARRAY8, (body.len() + 2) as u8, es.len() as u8, code] + body
                } else if body.len() + 5 <= 0xffffffff && es.len() <= 0xffffffff {
                    seq![FC_ARRAY32] + be4((body.len() + 5) as u32) + be4(es.len() as u32)
                        + seq![code] + body
                } else {
                    Seq::empty()
                }
            }
        },
        VData::Described(d, inner) => seq![FC_DESCRIBED] + enc_descriptor(d) + enc(*inner),
    }
}

/// The concatenation of the canonical encodings of a sequence of values.
pub open spec fn enc_seq(es: Seq<VData>) -> Seq<u8>
    decreases es, 0int,
{
    if es.len() == 0 {
        Seq::empty()
    } else {
        enc(es[0]) + enc_seq(es.drop_first())
    }
}

/// The concatenation of the canonical encodings of a sequence of key-value
/// pairs, key before value.
pub open spec fn enc_pairs(ps: Seq<(VData, VData)>) -> Seq<u8>
    decreases ps, 0int,
{
    if ps.len() == 0 {
        Seq::empty()
    } else {
        enc(ps[0].0) + enc(ps[0].1) + enc_pairs(ps.drop_first())
    }
}

/// The payload of a value standing as an array element: the body alone, in
/// the full width that its shared format code announces.
pub open spec fn enc_elem(v: VData) -> Seq<u8>
    decreases v, 1int,
{
    match v {
        VData::Null => Seq::empty(),
        VData::Bool(b) => if b {
            seq![1u8]
        } else {
            seq![0u8]
        },
        VData::UByte(x) => seq![x],
        VData::UShort(x) => be2(x),
        VData::UInt(x) => be4(x),
        VData::ULong(x) => be8(x),
        VData::Byte(x) => seq![tc(x as int, 0x100) as u8],
        VData::Short(x) => be2(tc(x as int, 0x10000) as u16),
        VData::Int(x) => be4(tc(x as int, 0x100000000) as u32),
        VData::Long(x) => be8(tc(x as int, 0x10000000000000000) as u64),
        VData::Float(x) => be4(x),
        VData::Double(x) => be8(x),
        VData::Dec32(x) => be4(x),
        VData::Dec64(x) => be8(x),
        VData::Dec128(x) => be16(x),
        VData::Char(c) => be4(c as u32),
        VData::Timestamp(t) => be8(tc(t as int, 0x10000000000000000) as u64),
        VData::Uuid(u) => be16(u),
        VData::Binary(b) => if b.len() <= 0xffffffff {
            be4(b.len() as u32) + b
        } else {
            Seq::empty()
        },
        VData::Str(s) => {
            let b = encode_utf8(s);
            if b.len() <= 0xffffffff {
                be4(b.len() as u32) + b
            } else {
                Seq::empty()
            }
        },
        VData::Symbol(b) => if b.len() <= 0xffffffff {
            be4(b.len() as u32) + b
        } else {
            Seq::empty()
        },
        VData::List(es) => {
            let body = enc_seq(es);
            if body.len() + 4 <= 0xffffffff && es.len() <= 0xffffffff {
                be4((body.len() + 4) as u32) + be4(es.len() as u32) + body
            } else {
                Seq::empty()
            }
        },
        VData::Mapping(ps) => {
            let body = enc_pairs(ps);
            if body.len() + 4 <= 0xffffffff && 2 * ps.len() <= 0xffffffff {
                be4((body.len() + 4) as u32) + be4((2 * ps.len()) as u32) + body
            } else {
                Seq::empty()
            }
        },
        VData::Array(es) => {
            if es.len() == 0 {
                be4(5) + be4(0) + seq![FC_NULL]
            } else {
                let body = enc_array_body(es);
                if body.len() + 5 <= 0xffffffff && es.len() <= 0xffffffff {
                    be4((body.len() + 5) as u32) + be4(es.len() as u32)
                        + seq![elem_code(es[0])] + body
                } else {
                    Seq::empty()
                }
            }
        },
        VData::Described(_, _) => Seq::empty(),
    }
}

/// The concatenation of the element payloads of an array body.
pub open spec fn enc_array_body(es: Seq<VData>) -> Seq<u8>
    decreases es, 0int,
{
    if es.len() == 0 {
        Seq::empty()
    } else {
        enc_elem(es[0]) + enc_array_body(es.drop_first())
    }
}

/// Whether every element of an array shares the first element's format code.
/// Described values have no array form at all.
pub open spec fn homogeneous(es: Seq<VData>) -> bool {
    forall|i: int| 0 <= i < es.len() ==> !((#[trigger] es[i]) is Described)
        && elem_code(es[i]) == elem_code(es[0])
}

/// Well-formedness of a value: every size fits the wire format's 32-bit
/// fields and every array is homogeneous. Exactly these values encode and
/// round-trip.
pub open spec fn wf(v: VData) -> bool
    decreases v, 1int,
{
    match v {
        VData::Binary(b) => b.len() <= 0xffffffff,
        VData::Str(s) => encode_utf8(s).len() <= 0xffffffff,
        VData::Symbol(b) => b.len() <= 0xffffffff,
        VData::List(es) => wf_seq(es) && es.len() <= 0xffffffff
            && enc_seq(es).len() + 4 <= 0xffffffff,
        VData::Mapping(ps) => wf_pairs(ps) && 2 * ps.len() <= 0xffffffff
            && enc_pairs(ps).len() + 4 <= 0xffffffff,
        VData::Array(es) => wf_seq(es) && homogeneous(es) && es.len() <= 0xffffffff
            && enc_array_body(es).len() + 5 <= 0xffffffff,
        VData::Described(d, inner) => wf(*inner) && (d matches VDescriptor::Name(b)
            ==> b.len() <= 0xffffffff),
        _ => true,
    }
}

/// Well-formedness of every element of a sequence.
pub open spec fn wf_seq(es: Seq<VData>) -> bool
    decreases es, 0int,
{
    if es.len() == 0 {
        true
    } else {
        wf(es[0]) && wf_seq(es.drop_first())
    }
}

/// Well-formedness of every key and value of a sequence of pairs.
pub open spec fn wf_pairs(ps: Seq<(VData, VData)>) -> bool
    decreases ps, 0int,
{
    if ps.len() == 0 {
        true
    } else {
        wf(ps[0].0) && wf(ps[0].1) && wf_pairs(ps.drop_first())
    }
}

} // verus!

verus! {

/// Extending a prefix of a run by one value appends that value's encoding,
/// and its well-formedness is the conjunction.
pub proof fn lemma_enc_seq_take(s: Seq<VData>, i: int)
    requires
        0 <= i < s.len(),
    ensures
        enc_seq(s.take(i + 1)) == enc_seq(s.take(i)) + enc(s[i]),
        wf_seq(s.take(i + 1)) == (wf_seq(s.take(i)) && wf(s[i])),
        enc_array_body(s.take(i + 1)) == enc_array_body(s.take(i)) + enc_elem(s[i]),
    decreases i,
{
    if i == 0 {
        assert(s.take(0) =~= Seq::<VData>::empty());
        assert(s.take(1) =~= seq![s[0]]);
        assert(s.take(1).drop_first() =~= Seq::<VData>::empty());
        assert(enc_seq(Seq::<VData>::empty()) == Seq::<u8>::empty());
        assert(enc_array_body(Seq::<VData>::empty()) == Seq::<u8>::empty());
        assert(wf_seq(Seq::<VData>::empty()));
        assert(enc_seq(s.take(1)) =~= enc(s[0]));
        assert(enc_seq(s.take(0)) + enc(s[0]) =~= enc(s[0]));
        assert(enc_array_body(s.take(1)) =~= enc_elem(s[0]));
        assert(enc_array_body(s.take(0)) + enc_elem(s[0]) =~= enc_elem(s[0]));
    } else {
        lemma_enc_seq_take(s.drop_first(), i - 1);
        assert(s.take(i + 1).drop_first() =~= s.drop_first().take(i));
        assert(s.take(i).drop_first() =~= s.drop_first().take(i - 1));
        assert(s.take(i + 1)[0] == s[0] && s.take(i)[0] == s[0]);
        assert(s.drop_first()[i - 1] == s[i]);
        assert(enc_seq(s.take(i + 1)) =~= enc_seq(s.take(i)) + enc(s[i]));
        assert(enc_array_body(s.take(i + 1)) =~= enc_array_body(s.take(i)) + enc_elem(s[i]));
    }
}

/// The pair version: extending a prefix of a run of pairs by one pair
/// appends the encodings of its key and value.
pub proof fn lemma_enc_pairs_take(s: Seq<(VData, VData)>, i: int)
    requires
        0 <= i < s.len(),
    ensures
        enc_pairs(s.take(i + 1)) == enc_pairs(s.take(i)) + enc(s[i].0) + enc(s[i].1),
        wf_pairs(s.take(i + 1)) == (wf_pairs(s.take(i)) && wf(s[i].0) && wf(s[i].1)),
    decreases i,
{
    if i == 0 {
        assert(s.take(0) =~= Seq::<(VData, VData)>::empty());
        assert(s.take(1) =~= seq![s[0]]);
        assert(s.take(1).drop_first() =~= Seq::<(VData, VData)>::empty());
        assert(enc_pairs(s.take(1)) =~= enc(s[0].0) + enc(s[0].1));
        assert(enc_pairs(s.take(0)) + enc(s[0].0) + enc(s[0].1) =~= enc(s[0].0) + enc(s[0].1));
    } else {
        lemma_enc_pairs_take(s.drop_first(), i - 1);
        assert(s.take(i + 1).drop_first() =~= s.drop_first().take(i));
        assert(s.take(i).drop_first() =~= s.drop_first().take(i - 1));
        assert(s.take(i + 1)[0] == s[0] && s.take(i)[0] == s[0]);
        assert(s.drop_first()[i - 1] == s[i]);
        assert(enc_pairs(s.take(i + 1)) =~= enc_pairs(s.take(i)) + enc(s[i].0) + enc(s[i].1));
    }
}

/// A run of values is well-formed exactly when each of its values is.
pub proof fn lemma_wf_seq_forall(s: Seq<VData>)
    ensures
        wf_seq(s) <==> (forall|i: int| 0 <= i < s.len() ==> wf(#[trigger] s[i])),
    decreases s.len(),
{
    if s.len() > 0 {
        lemma_wf_seq_forall(s.drop_first());
        if wf(s[0]) && wf_seq(s.drop_first()) {
            assert forall|i: int| 0 <= i < s.len() implies wf(#[trigger] s[i]) by {
                if i > 0 {
                    assert(s.drop_first()[i - 1] == s[i]);
                }
            }
        }
        if forall|i: int| 0 <= i < s.len() ==> wf(#[trigger] s[i]) {
            assert forall|i: int| 0 <= i < s.drop_first().len()
                implies wf(#[trigger] s.drop_first()[i]) by {
                assert(s.drop_first()[i] == s[i + 1]);
            }
        }
    }
}

/// A run of pairs is well-formed exactly when each key and value is.
pub proof fn lemma_wf_pairs_forall(s: Seq<(VData, VData)>)
    ensures
        wf_pairs(s) <==> (forall|i: int| 0 <= i < s.len() ==> wf((#[trigger] s[i]).0)
            && wf(s[i].1)),
    decreases s.len(),
{
    if s.len() > 0 {
        lemma_wf_pairs_forall(s.drop_first());
        if wf(s[0].0) && wf(s[0].1) && wf_pairs(s.drop_first()) {
            assert forall|i: int| 0 <= i < s.len() implies wf((#[trigger] s[i]).0)
                && wf(s[i].1) by {
                if i > 0 {
                    assert(s.drop_first()[i - 1] == s[i]);
                }
            }
        }
        if forall|i: int| 0 <= i < s.len() ==> wf((#[trigger] s[i]).0) && wf(s[i].1) {
            assert forall|i: int| 0 <= i < s.drop_first().len()
                implies wf((#[trigger] s.drop_first()[i]).0) && wf(s.drop_first()[i].1) by {
                assert(s.drop_first()[i] == s[i + 1]);
            }
        }
    }
}

} // verus!
