//! The decoding relation of the type codec: which byte sequences are valid
//! encodings, what value each one denotes, and the error that each malformed
//! input raises.

use vstd::prelude::*;
use vstd::utf8::{valid_utf8, decode_utf8};
use crate::codes::{
    FC_DESCRIBED, FC_NULL, FC_BOOLEAN, FC_TRUE, FC_FALSE, FC_UBYTE, FC_USHORT, FC_UINT,
    FC_SMALL_UINT, FC_UINT0, FC_ULONG, FC_SMALL_ULONG, FC_ULONG0, FC_BYTE, FC_SHORT,
    FC_INT, FC_SMALL_INT, FC_LONG, FC_SMALL_LONG, FC_FLOAT, FC_DOUBLE, FC_DECIMAL32,
    FC_DECIMAL64, FC_DECIMAL128, FC_CHAR, FC_TIMESTAMP, FC_UUID, FC_VBIN8, FC_VBIN32,
    FC_STR8, FC_STR32, FC_SYM8, FC_SYM32, FC_LIST0, FC_LIST8, FC_LIST32, FC_MAP8,
    FC_MAP32, FC_ARRAY8, FC_ARRAY32,
};
use crate::encode::{v2, v4, v8, v16};
use crate::value::{Error, VData, VDescriptor};

verus! {

/// The signed reading of a byte, as an integer.
pub open spec fn sgn1(b: u8) -> int {
    if b <= 0x7f {
        b as int
    } else {
        b as int - 0x100
    }
}

/// The signed reading of a 16-bit quantity, as an integer.
pub open spec fn sgn2(x: u16) -> int {
    if x <= 0x7fff {
        x as int
    } else {
        x as int - 0x10000
    }
}

/// The signed reading of a 32-bit quantity, as an integer.
pub open spec fn sgn4(x: u32) -> int {
    if x <= 0x7fffffff {
        x as int
    } else {
        x as int - 0x100000000
    }
}

/// The signed reading of a 64-bit quantity, as an integer.
pub open spec fn sgn8(x: u64) -> int {
    if x <= 0x7fffffffffffffff {
        x as int
    } else {
        x as int - 0x10000000000000000
    }
}

/// Whether a code point is a unicode scalar value, and so a valid character.
pub open spec fn valid_scalar(x: u32) -> bool {
    x < 0xd800 || (0xe000 <= x && x <= 0x10ffff)
}

/// Whether a byte is a format code that may constitute an array: the codes
/// that spell every width in full, one per value shape.
pub open spec fn array_constructor(code: u8) -> bool {
    code == FC_NULL || code == FC_BOOLEAN || code == FC_UBYTE || code == FC_USHORT
        || code == FC_UINT || code == FC_ULONG || code == FC_BYTE || code == FC_SHORT
        || code == FC_INT || code == FC_LONG || code == FC_FLOAT || code == FC_DOUBLE
        || code == FC_DECIMAL32 || code == FC_DECIMAL64 || code == FC_DECIMAL128
        || code == FC_CHAR || code == FC_TIMESTAMP || code == FC_UUID || code == FC_VBIN32
        || code == FC_STR32 || code == FC_SYM32 || code == FC_LIST32 || code == FC_MAP32
        || code == FC_ARRAY32
}

/// The pairing of an even-length sequence into consecutive key-value pairs.
pub open spec fn pairs_of(s: Seq<VData>) -> Seq<(VData, VData)> {
    Seq::new(s.len() / 2, |i: int| (s[2 * i], s[2 * i + 1]))
}

/// The decoding of a descriptor: a 64-bit unsigned code or a symbolic name.
/// Returns the descriptor and the bytes consumed.
pub open spec fn dec_descriptor(s: Seq<u8>) -> Result<(VDescriptor, int), Error> {
    if s.len() == 0 {
        Err(Error::UnexpectedEof)
    } else if s[0] == FC_ULONG0 {
        Ok((VDescriptor::Code(0), 1))
    } else if s[0] == FC_SMALL_ULONG {
        if s.len() < 2 {
            Err(Error::UnexpectedEof)
        } else {
            Ok((VDescriptor::Code(s[1] as u64), 2))
        }
    } else if s[0] == FC_ULONG {
        if s.len() < 9 {
            Err(Error::UnexpectedEof)
        } else {
            Ok((VDescriptor::Code(v8(s.subrange(1, 9))), 9))
        }
    } else if s[0] == FC_SYM8 {
        if s.len() < 2 {
            Err(Error::UnexpectedEof)
        } else if s.len() - 2 < s[1] as int {
            Err(Error::SizeMismatch)
        } else {
            Ok((VDescriptor::Name(s.subrange(2, 2 + s[1] as int)), 2 + s[1] as int))
        }
    } else if s[0] == FC_SYM32 {
        if s.len() < 5 {
            Err(Error::UnexpectedEof)
        } else {
            let n = v4(s[1], s[2], s[3], s[4]) as int;
            if s.len() - 5 < n {
                Err(Error::SizeMismatch)
            } else {
                Ok((VDescriptor::Name(s.subrange(5, 5 + n)), 5 + n))
            }
        }
    } else {
        Err(Error::InvalidFormatCode)
    }
}

/// The decoding of one value from the head of the input. Returns the value
/// and the bytes consumed, or the error that the malformed input raises.
pub open spec fn dec(s: Seq<u8>) -> Result<(VData, int), Error>
    decreases s.len(), 0int, 0int,
{
    if s.len() == 0 {
        Err(Error::UnexpectedEof)
    } else if s[0] == FC_DESCRIBED {
        match dec_descriptor(s.skip(1)) {
            Err(e) => Err(e),
            Ok((d, dc)) => {
                if dc < 1 {
                    Err(Error::SizeMismatch)
                } else {
                    match dec(s.skip(1 + dc)) {
                        Err(e) => Err(e),
                        Ok((v, c)) => Ok((VData::Described(d, Box::new(v)), 1 + dc + c)),
                    }
                }
            },
        }
    } else {
        match dec_body(s[0], s.skip(1)) {
            Err(e) => Err(e),
            Ok((v, c)) => Ok((v, 1 + c)),
        }
    }
}

/// The decoding of a value's body, after its format code has been read.
/// Returns the value and the body bytes consumed.
pub open spec fn dec_body(code: u8, s: Seq<u8>) -> Result<(VData, int), Error>
    decreases s.len(), 1int, 0int,
{
    if code == FC_NULL {
        Ok((VData::Null, 0))
    } else if code == FC_TRUE {
        Ok((VData::Bool(true), 0))
    } else if code == FC_FALSE {
        Ok((VData::Bool(false), 0))
    } else if code == FC_BOOLEAN {
        if s.len() < 1 {
            Err(Error::UnexpectedEof)
        } else if s[0] == 0 {
            Ok((VData::Bool(false), 1))
        } else if s[0] == 1 {
            Ok((VData::Bool(true), 1))
        } else {
            Err(Error::InvalidFormatCode)
        }
    } else if code == FC_UBYTE {
        if s.len() < 1 {
            Err(Error::UnexpectedEof)
        } else {
            Ok((VData::UByte(s[0]), 1))
        }
    } else if code == FC_USHORT {
        if s.len() < 2 {
            Err(Error::UnexpectedEof)
        } else {
            Ok((VData::UShort(v2(s[0], s[1])), 2))
        }
    } else if code == FC_UINT {
        if s.len() < 4 {
            Err(Error::UnexpectedEof)
        } else {
            Ok((VData::UInt(v4(s[0], s[1], s[2], s[3])), 4))
        }
    } else if code == FC_SMALL_UINT {
        if s.len() < 1 {
            Err(Error::UnexpectedEof)
        } else {
            Ok((VData::UInt(s[0] as u32), 1))
        }
    } else if code == FC_UINT0 {
        Ok((VData::UInt(0), 0))
    } else if code == FC_ULONG {
        if s.len() < 8 {
            Err(Error::UnexpectedEof)
        } else {
            Ok((VData::ULong(v8(s.take(8))), 8))
        }
    } else if code == FC_SMALL_ULONG {
        if s.len() < 1 {
            Err(Error::UnexpectedEof)
        } else {
            Ok((VData::ULong(s[0] as u64), 1))
        }
    } else if code == FC_ULONG0 {
        Ok((VData::ULong(0), 0))
    } else if code == FC_BYTE {
        if s.len() < 1 {
            Err(Error::UnexpectedEof)
        } else {
            Ok((VData::Byte(sgn1(s[0]) as i8), 1))
        }
    } else if code == FC_SHORT {
        if s.len() < 2 {
            Err(Error::UnexpectedEof)
        } else {
            Ok((VData::Short(sgn2(v2(s[0], s[1])) as i16), 2))
        }
    } else if code == FC_INT {
        if s.len() < 4 {
            Err(Error::UnexpectedEof)
        } else {
            Ok((VData::Int(sgn4(v4(s[0], s[1], s[2], s[3])) as i32), 4))
        }
    } else if code == FC_SMALL_INT {
        if s.len() < 1 {
            Err(Error::UnexpectedEof)
        } else {
            Ok((VData::Int(sgn1(s[0]) as i32), 1))
        }
    } else if code == FC_LONG {
        if s.len() < 8 {
            Err(Error::UnexpectedEof)
        } else {
            Ok((VData::Long(sgn8(v8(s.take(8))) as i64), 8))
        }
    } else if code == FC_SMALL_LONG {
        if s.len() < 1 {
            Err(Error::UnexpectedEof)
        } else {
            Ok((VData::Long(sgn1(s[0]) as i64), 1))
        }
    } else if code == FC_FLOAT {
        if s.len() < 4 {
            Err(Error::UnexpectedEof)
        } else {
            Ok((VData::Float(v4(s[0], s[1], s[2], s[3])), 4))
        }
    } else if code == FC_DOUBLE {
        if s.len() < 8 {
            Err(Error::UnexpectedEof)
        } else {
            Ok((VData::Double(v8(s.take(8))), 8))
        }
    } else if code == FC_DECIMAL32 {
        if s.len() < 4 {
            Err(Error::UnexpectedEof)
        } else {
            Ok((VData::Dec32(v4(s[0], s[1], s[2], s[3])), 4))
        }
    } else if code == FC_DECIMAL64 {
        if s.len() < 8 {
            Err(Error::UnexpectedEof)
        } else {
            Ok((VData::Dec64(v8(s.take(8))), 8))
        }
    } else if code == FC_DECIMAL128 {
        if s.len() < 16 {
            Err(Error::UnexpectedEof)
        } else {
            Ok((VData::Dec128(v16(s.take(16))), 16))
        }
    } else if code == FC_CHAR {
        if s.len() < 4 {
            Err(Error::UnexpectedEof)
        } else {
            let x = v4(s[0], s[1], s[2], s[3]);
            if valid_scalar(x) {
                Ok((VData::Char(x as char), 4))
            } else {
                Err(Error::InvalidFormatCode)
            }
        }
    } else if code == FC_TIMESTAMP {
        if s.len() < 8 {
            Err(Error::UnexpectedEof)
        } else {
            Ok((VData::Timestamp(sgn8(v8(s.take(8))) as i64), 8))
        }
    } else if code == FC_UUID {
        if s.len() < 16 {
            Err(Error::UnexpectedEof)
        } else {
            Ok((VData::Uuid(v16(s.take(16))), 16))
        }
    } else if code == FC_VBIN8 {
        if s.len() < 1 {
            Err(Error::UnexpectedEof)
        } else if s.len() - 1 < s[0] as int {
            Err(Error::SizeMismatch)
        } else {
            Ok((VData::Binary(s.subrange(1, 1 + s[0] as int)), 1 + s[0] as int))
        }
    } else if code == FC_VBIN32 {
        if s.len() < 4 {
            Err(Error::UnexpectedEof)
        } else {
            let n = v4(s[0], s[1], s[2], s[3]) as int;
            if s.len() - 4 < n {
                Err(Error::SizeMismatch)
            } else {
                Ok((VData::Binary(s.subrange(4, 4 + n)), 4 + n))
            }
        }
    } else if code == FC_STR8 {
        if s.len() < 1 {
            Err(Error::UnexpectedEof)
        } else if s.len() - 1 < s[0] as int {
            Err(Error::SizeMismatch)
        } else {
            let b = s.subrange(1, 1 + s[0] as int);
            if valid_utf8(b) {
                Ok((VData::Str(decode_utf8(b)), 1 + s[0] as int))
            } else {
                Err(Error::Utf8)
            }
        }
    } else if code == FC_STR32 {
        if s.len() < 4 {
            Err(Error::UnexpectedEof)
        } else {
            let n = v4(s[0], s[1], s[2], s[3]) as int;
            if s.len() - 4 < n {
                Err(Error::SizeMismatch)
            } else {
                let b = s.subrange(4, 4 + n);
                if valid_utf8(b) {
                    Ok((VData::Str(decode_utf8(b)), 4 + n))
                } else {
                    Err(Error::Utf8)
                }
            }
        }
    } else if code == FC_SYM8 {
        if s.len() < 1 {
            Err(Error::UnexpectedEof)
        } else if s.len() - 1 < s[0] as int {
            Err(Error::SizeMismatch)
        } else {
            Ok((VData::Symbol(s.subrange(1, 1 + s[0] as int)), 1 + s[0] as int))
        }
    } else if code == FC_SYM32 {
        if s.len() < 4 {
            Err(Error::UnexpectedEof)
        } else {
            let n = v4(s[0], s[1], s[2], s[3]) as int;
            if s.len() - 4 < n {
                Err(Error::SizeMismatch)
            } else {
                Ok((VData::Symbol(s.subrange(4, 4 + n)), 4 + n))
            }
        }
    } else if code == FC_LIST0 {
        Ok((VData::List(Seq::empty()), 0))
    } else if code == FC_LIST8 {
        if s.len() < 2 {
            Err(Error::UnexpectedEof)
        } else {
            let size = s[0] as int;
            let count = s[1] as int;
            if size < 1 || s.len() - 2 < size - 1 {
                Err(Error::SizeMismatch)
            } else {
                match dec_elems(s.skip(2), count) {
                    Err(e) => Err(e),
                    Ok((vs, c)) => if c == size - 1 {
                        Ok((VData::List(vs), 2 + c))
                    } else {
                        Err(Error::SizeMismatch)
                    },
                }
            }
        }
    } else if code == FC_LIST32 {
        if s.len() < 8 {
            Err(Error::UnexpectedEof)
        } else {
            let size = v4(s[0], s[1], s[2], s[3]) as int;
            let count = v4(s[4], s[5], s[6], s[7]) as int;
            if size < 4 || s.len() - 8 < size - 4 {
                Err(Error::SizeMismatch)
            } else {
                match dec_elems(s.skip(8), count) {
                    Err(e) => Err(e),
                    Ok((vs, c)) => if c == size - 4 {
                        Ok((VData::List(vs), 8 + c))
                    } else {
                        Err(Error::SizeMismatch)
                    },
                }
            }
        }
    } else if code == FC_MAP8 {
        if s.len() < 2 {
            Err(Error::UnexpectedEof)
        } else {
            let size = s[0] as int;
            let count = s[1] as int;
            if size < 1 || s.len() - 2 < size - 1 || count % 2 != 0 {
                Err(Error::SizeMismatch)
            } else {
                match dec_elems(s.skip(2), count) {
                    Err(e) => Err(e),
                    Ok((vs, c)) => if c == size - 1 {
                        Ok((VData::Mapping(pairs_of(vs)), 2 + c))
                    } else {
                        Err(Error::SizeMismatch)
                    },
                }
            }
        }
    } else if code == FC_MAP32 {
        if s.len() < 8 {
            Err(Error::UnexpectedEof)
        } else {
            let size = v4(s[0], s[1], s[2], s[3]) as int;
            let count = v4(s[4], s[5], s[6], s[7]) as int;
            if size < 4 || s.len() - 8 < size - 4 || count % 2 != 0 {
                Err(Error::SizeMismatch)
            } else {
                match dec_elems(s.skip(8), count) {
                    Err(e) => Err(e),
                    Ok((vs, c)) => if c == size - 4 {
                        Ok((VData::Mapping(pairs_of(vs)), 8 + c))
                    } else {
                        Err(Error::SizeMismatch)
                    },
                }
            }
        }
    } else if code == FC_ARRAY8 {
        if s.len() < 3 {
            Err(Error::UnexpectedEof)
        } else {
            let size = s[0] as int;
            let count = s[1] as int;
            let ec = s[2];
            if size < 2 || s.len() - 3 < size - 2 {
                Err(Error::SizeMismatch)
            } else if !array_constructor(ec) {
                Err(Error::InvalidFormatCode)
            } else {
                match dec_elems_coded(ec, s.skip(3), count) {
                    Err(e) => Err(e),
                    Ok((vs, c)) => if c == size - 2 {
                        Ok((VData::Array(vs), 3 + c))
                    } else {
                        Err(Error::SizeMismatch)
                    },
                }
            }
        }
    } else if code == FC_ARRAY32 {
        if s.len() < 9 {
            Err(Error::UnexpectedEof)
        } else {
            let size = v4(s[0], s[1], s[2], s[3]) as int;
            let count = v4(s[4], s[5], s[6], s[7]) as int;
            let ec = s[8];
            if size < 5 || s.len() - 9 < size - 5 {
                Err(Error::SizeMismatch)
            } else if !array_constructor(ec) {
                Err(Error::InvalidFormatCode)
            } else {
                match dec_elems_coded(ec, s.skip(9), count) {
                    Err(e) => Err(e),
                    Ok((vs, c)) => if c == size - 5 {
                        Ok((VData::Array(vs), 9 + c))
                    } else {
                        Err(Error::SizeMismatch)
                    },
                }
            }
        }
    } else {
        Err(Error::InvalidFormatCode)
    }
}

/// The decoding of a run of values, each announcing its own format code.
/// Returns the values and the bytes consumed.
pub open spec fn dec_elems(s: Seq<u8>, n: int) -> Result<(Seq<VData>, int), Error>
    decreases s.len(), 2int, n,
{
    if n <= 0 {
        Ok((Seq::empty(), 0))
    } else {
        match dec(s) {
            Err(e) => Err(e),
            Ok((v, c)) => {
                if c < 1 || c > s.len() {
                    Err(Error::SizeMismatch)
                } else {
                    match dec_elems(s.skip(c), n - 1) {
                        Err(e) => Err(e),
                        Ok((vs, c2)) => Ok((seq![v] + vs, c + c2)),
                    }
                }
            },
        }
    }
}

/// The decoding of a run of array elements that share one format code.
/// Returns the values and the bytes consumed.
pub open spec fn dec_elems_coded(code: u8, s: Seq<u8>, n: int) -> Result<
    (Seq<VData>, int),
    Error,
>
    decreases s.len(), 2int, n,
{
    if n <= 0 {
        Ok((Seq::empty(), 0))
    } else {
        match dec_body(code, s) {
            Err(e) => Err(e),
            Ok((v, c)) => {
                if c < 0 || c > s.len() {
                    Err(Error::SizeMismatch)
                } else {
                    match dec_elems_coded(code, s.skip(c), n - 1) {
                        Err(e) => Err(e),
                        Ok((vs, c2)) => Ok((seq![v] + vs, c + c2)),
                    }
                }
            },
        }
    }
}

} // verus!
