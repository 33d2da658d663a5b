//! Format codes of the AMQP 1.0 type encoding, and their width categories.

use vstd::prelude::*;

verus! {

/// Constructor byte of a described type.
pub const FC_DESCRIBED: u8 = 0x00;

/// Format code of the null value.
pub const FC_NULL: u8 = 0x40;

/// Format code of a boolean carried in one payload byte.
pub const FC_BOOLEAN: u8 = 0x56;

/// Format code of the boolean true value with no payload.
pub const FC_TRUE: u8 = 0x41;

/// Format code of the boolean false value with no payload.
pub const FC_FALSE: u8 = 0x42;

/// Format code of an 8-bit unsigned integer.
pub const FC_UBYTE: u8 = 0x50;

/// Format code of a 16-bit unsigned integer.
pub const FC_USHORT: u8 = 0x60;

/// Format code of a 32-bit unsigned integer in four payload bytes.
pub const FC_UINT: u8 = 0x70;

/// Format code of a 32-bit unsigned integer in one payload byte.
pub const FC_SMALL_UINT: u8 = 0x52;

/// Format code of the 32-bit unsigned integer zero with no payload.
pub const FC_UINT0: u8 = 0x43;

/// Format code of a 64-bit unsigned integer in eight payload bytes.
pub const FC_ULONG: u8 = 0x80;

/// Format code of a 64-bit unsigned integer in one payload byte.
pub const FC_SMALL_ULONG: u8 = 0x53;

/// Format code of the 64-bit unsigned integer zero with no payload.
pub const FC_ULONG0: u8 = 0x44;

/// Format code of an 8-bit signed integer.
pub const FC_BYTE: u8 = 0x51;

/// Format code of a 16-bit signed integer.
pub const FC_SHORT: u8 = 0x61;

/// Format code of a 32-bit signed integer in four payload bytes.
pub const FC_INT: u8 = 0x71;

/// Format code of a 32-bit signed integer in one payload byte.
pub const FC_SMALL_INT: u8 = 0x54;

/// Format code of a 64-bit signed integer in eight payload bytes.
pub const FC_LONG: u8 = 0x81;

/// Format code of a 64-bit signed integer in one payload byte.
pub const FC_SMALL_LONG: u8 = 0x55;

/// Format code of a 32-bit IEEE-754 floating point number.
pub const FC_FLOAT: u8 = 0x72;

/// Format code of a 64-bit IEEE-754 floating point number.
pub const FC_DOUBLE: u8 = 0x82;

/// Format code of a 32-bit decimal number.
pub const FC_DECIMAL32: u8 = 0x74;

/// Format code of a 64-bit decimal number.
pub const FC_DECIMAL64: u8 = 0x84;

/// Format code of a 128-bit decimal number.
pub const FC_DECIMAL128: u8 = 0x94;

/// Format code of a UTF-32 character.
pub const FC_CHAR: u8 = 0x73;

/// Format code of a 64-bit millisecond timestamp.
pub const FC_TIMESTAMP: u8 = 0x83;

/// Format code of a 128-bit universally unique identifier.
pub const FC_UUID: u8 = 0x98;

/// Format code of a binary blob with a one-byte size.
pub const FC_VBIN8: u8 = 0xa0;

/// Format code of a binary blob with a four-byte size.
pub const FC_VBIN32: u8 = 0xb0;

/// Format code of a UTF-8 string with a one-byte size.
pub const FC_STR8: u8 = 0xa1;

/// Format code of a UTF-8 string with a four-byte size.
pub const FC_STR32: u8 = 0xb1;

/// Format code of a symbol with a one-byte size.
pub const FC_SYM8: u8 = 0xa3;

/// Format code of a symbol with a four-byte size.
pub const FC_SYM32: u8 = 0xb3;

/// Format code of the empty list with no payload.
pub const FC_LIST0: u8 = 0x45;

/// Format code of a list with one-byte size and count.
pub const FC_LIST8: u8 = 0xc0;

/// Format code of a list with four-byte size and count.
pub const FC_LIST32: u8 = 0xd0;

/// Format code of a map with one-byte size and count.
pub const FC_MAP8: u8 = 0xc1;

/// Format code of a map with four-byte size and count.
pub const FC_MAP32: u8 = 0xd1;

/// Format code of an array with one-byte size and count.
pub const FC_ARRAY8: u8 = 0xe0;

/// Format code of an array with four-byte size and count.
pub const FC_ARRAY32: u8 = 0xf0;

/// The format codes of the AMQP type encoding, one variant per code byte.
#[derive(Clone, Copy, PartialEq, Eq, Structural, Debug)]
pub enum EncodingCodes {
    DescribedType,
    Null,
    Boolean,
    BooleanTrue,
    BooleanFalse,
    UByte,
    UShort,
    UInt,
    SmallUInt,
    UInt0,
    ULong,
    SmallULong,
    ULong0,
    Byte,
    Short,
    Int,
    SmallInt,
    Long,
    SmallLong,
    Float,
    Double,
    Decimal32,
    Decimal64,
    Decimal128,
    Char,
    Timestamp,
    Uuid,
    VBin8,
    VBin32,
    Str8,
    Str32,
    Sym8,
    Sym32,
    List0,
    List8,
    List32,
    Map8,
    Map32,
    Array8,
    Array32,
}

impl EncodingCodes {
    /// The byte that stands for this format code on the wire.
    pub fn code_byte(&self) -> (b: u8)
        ensures
            b == self.spec_code_byte(),
    {
        match self {
            EncodingCodes::DescribedType => FC_DESCRIBED,
            EncodingCodes::Null => FC_NULL,
            EncodingCodes::Boolean => FC_BOOLEAN,
            EncodingCodes::BooleanTrue => FC_TRUE,
            EncodingCodes::BooleanFalse => FC_FALSE,
            EncodingCodes::UByte => FC_UBYTE,
            EncodingCodes::UShort => FC_USHORT,
            EncodingCodes::UInt => FC_UINT,
            EncodingCodes::SmallUInt => FC_SMALL_UINT,
            EncodingCodes::UInt0 => FC_UINT0,
            EncodingCodes::ULong => FC_ULONG,
            EncodingCodes::SmallULong => FC_SMALL_ULONG,
            EncodingCodes::ULong0 => FC_ULONG0,
            EncodingCodes::Byte => FC_BYTE,
            EncodingCodes::Short => FC_SHORT,
            EncodingCodes::Int => FC_INT,
            EncodingCodes::SmallInt => FC_SMALL_INT,
            EncodingCodes::Long => FC_LONG,
            EncodingCodes::SmallLong => FC_SMALL_LONG,
            EncodingCodes::Float => FC_FLOAT,
            EncodingCodes::Double => FC_DOUBLE,
            EncodingCodes::Decimal32 => FC_DECIMAL32,
            EncodingCodes::Decimal64 => FC_DECIMAL64,
            EncodingCodes::Decimal128 => FC_DECIMAL128,
            EncodingCodes::Char => FC_CHAR,
            EncodingCodes::Timestamp => FC_TIMESTAMP,
            EncodingCodes::Uuid => FC_UUID,
            EncodingCodes::VBin8 => FC_VBIN8,
            EncodingCodes::VBin32 => FC_VBIN32,
            EncodingCodes::Str8 => FC_STR8,
            EncodingCodes::Str32 => FC_STR32,
            EncodingCodes::Sym8 => FC_SYM8,
            EncodingCodes::Sym32 => FC_SYM32,
            EncodingCodes::List0 => FC_LIST0,
            EncodingCodes::List8 => FC_LIST8,
            EncodingCodes::List32 => FC_LIST32,
            EncodingCodes::Map8 => FC_MAP8,
            EncodingCodes::Map32 => FC_MAP32,
            EncodingCodes::Array8 => FC_ARRAY8,
            EncodingCodes::Array32 => FC_ARRAY32,
        }
    }

    /// The wire byte of each format code, as a specification.
    pub open spec fn spec_code_byte(self) -> u8 {
        match self {
            EncodingCodes::DescribedType => FC_DESCRIBED,
            EncodingCodes::Null => FC_NULL,
            EncodingCodes::Boolean => FC_BOOLEAN,
            EncodingCodes::BooleanTrue => FC_TRUE,
            EncodingCodes::BooleanFalse => FC_FALSE,
            EncodingCodes::UByte => FC_UBYTE,
            EncodingCodes::UShort => FC_USHORT,
            EncodingCodes::UInt => FC_UINT,
            EncodingCodes::SmallUInt => FC_SMALL_UINT,
            EncodingCodes::UInt0 => FC_UINT0,
            EncodingCodes::ULong => FC_ULONG,
            EncodingCodes::SmallULong => FC_SMALL_ULONG,
            EncodingCodes::ULong0 => FC_ULONG0,
            EncodingCodes::Byte => FC_BYTE,
            EncodingCodes::Short => FC_SHORT,
            EncodingCodes::Int => FC_INT,
            EncodingCodes::SmallInt => FC_SMALL_INT,
            EncodingCodes::Long => FC_LONG,
            EncodingCodes::SmallLong => FC_SMALL_LONG,
            EncodingCodes::Float => FC_FLOAT,
            EncodingCodes::Double => FC_DOUBLE,
            EncodingCodes::Decimal32 => FC_DECIMAL32,
            EncodingCodes::Decimal64 => FC_DECIMAL64,
            EncodingCodes::Decimal128 => FC_DECIMAL128,
            EncodingCodes::Char => FC_CHAR,
            EncodingCodes::Timestamp => FC_TIMESTAMP,
            EncodingCodes::Uuid => FC_UUID,
            EncodingCodes::VBin8 => FC_VBIN8,
            EncodingCodes::VBin32 => FC_VBIN32,
            EncodingCodes::Str8 => FC_STR8,
            EncodingCodes::Str32 => FC_STR32,
            EncodingCodes::Sym8 => FC_SYM8,
            EncodingCodes::Sym32 => FC_SYM32,
            EncodingCodes::List0 => FC_LIST0,
            EncodingCodes::List8 => FC_LIST8,
            EncodingCodes::List32 => FC_LIST32,
            EncodingCodes::Map8 => FC_MAP8,
            EncodingCodes::Map32 => FC_MAP32,
            EncodingCodes::Array8 => FC_ARRAY8,
            EncodingCodes::Array32 => FC_ARRAY32,
        }
    }
}

/// Fixed payload widths of the scalar format codes, in bytes.
#[derive(Clone, Copy, PartialEq, Eq, Structural, Debug)]
pub enum FixedWidth {
    Zero,
    One,
    Two,
    Four,
    Eight,
    Sixteen,
}

impl FixedWidth {
    /// The number of payload bytes this width stands for.
    pub fn width(&self) -> (w: u8)
        ensures
            w == self.spec_width(),
    {
        match self {
            FixedWidth::Zero => 0,
            FixedWidth::One => 1,
            FixedWidth::Two => 2,
            FixedWidth::Four => 4,
            FixedWidth::Eight => 8,
            FixedWidth::Sixteen => 16,
        }
    }

    /// The number of payload bytes, as a specification.
    pub open spec fn spec_width(self) -> u8 {
        match self {
            FixedWidth::Zero => 0,
            FixedWidth::One => 1,
            FixedWidth::Two => 2,
            FixedWidth::Four => 4,
            FixedWidth::Eight => 8,
            FixedWidth::Sixteen => 16,
        }
    }
}

/// Widths of the size prefix of the variable and compound format codes.
#[derive(Clone, Copy, PartialEq, Eq, Structural, Debug)]
pub enum EncodedWidth {
    Zero,
    One,
    Four,
}

impl EncodedWidth {
    /// The number of size-prefix bytes this width stands for.
    pub fn width(&self) -> (w: u8)
        ensures
            w == self.spec_width(),
    {
        match self {
            EncodedWidth::Zero => 0,
            EncodedWidth::One => 1,
            EncodedWidth::Four => 4,
        }
    }

    /// The number of size-prefix bytes, as a specification.
    pub open spec fn spec_width(self) -> u8 {
        match self {
            EncodedWidth::Zero => 0,
            EncodedWidth::One => 1,
            EncodedWidth::Four => 4,
        }
    }
}

/// Whether a format code is fixed-width or carries an encoded size.
#[derive(Clone, Copy, PartialEq, Eq, Structural, Debug)]
pub enum Category {
    Fixed(FixedWidth),
    Encoded(EncodedWidth),
}

/// The width category of each format code. The described-type constructor
/// has no category of its own.
pub open spec fn spec_category_of(code: EncodingCodes) -> Option<Category> {
    match code {
        EncodingCodes::DescribedType => Option::None,
        EncodingCodes::Null => Option::Some(Category::Fixed(FixedWidth::Zero)),
        EncodingCodes::Boolean => Option::Some(Category::Fixed(FixedWidth::One)),
        EncodingCodes::BooleanTrue => Option::Some(Category::Fixed(FixedWidth::Zero)),
        EncodingCodes::BooleanFalse => Option::Some(Category::Fixed(FixedWidth::Zero)),
        EncodingCodes::UByte => Option::Some(Category::Fixed(FixedWidth::One)),
        EncodingCodes::UShort => Option::Some(Category::Fixed(FixedWidth::Two)),
        EncodingCodes::UInt => Option::Some(Category::Fixed(FixedWidth::Four)),
        EncodingCodes::SmallUInt => Option::Some(Category::Fixed(FixedWidth::One)),
        EncodingCodes::UInt0 => Option::Some(Category::Fixed(FixedWidth::Zero)),
        EncodingCodes::ULong => Option::Some(Category::Fixed(FixedWidth::Eight)),
        EncodingCodes::SmallULong => Option::Some(Category::Fixed(FixedWidth::One)),
        EncodingCodes::ULong0 => Option::Some(Category::Fixed(FixedWidth::Zero)),
        EncodingCodes::Byte => Option::Some(Category::Fixed(FixedWidth::One)),
        EncodingCodes::Short => Option::Some(Category::Fixed(FixedWidth::Two)),
        EncodingCodes::Int => Option::Some(Category::Fixed(FixedWidth::Four)),
        EncodingCodes::SmallInt => Option::Some(Category::Fixed(FixedWidth::One)),
        EncodingCodes::Long => Option::Some(Category::Fixed(FixedWidth::Eight)),
        EncodingCodes::SmallLong => Option::Some(Category::Fixed(FixedWidth::One)),
        EncodingCodes::Float => Option::Some(Category::Fixed(FixedWidth::Four)),
        EncodingCodes::Double => Option::Some(Category::Fixed(FixedWidth::Eight)),
        EncodingCodes::Decimal32 => Option::Some(Category::Fixed(FixedWidth::Four)),
        EncodingCodes::Decimal64 => Option::Some(Category::Fixed(FixedWidth::Eight)),
        EncodingCodes::Decimal128 => Option::Some(Category::Fixed(FixedWidth::Sixteen)),
        EncodingCodes::Char => Option::Some(Category::Fixed(FixedWidth::Four)),
        EncodingCodes::Timestamp => Option::Some(Category::Fixed(FixedWidth::Eight)),
        EncodingCodes::Uuid => Option::Some(Category::Fixed(FixedWidth::Sixteen)),
        EncodingCodes::VBin8 => Option::Some(Category::Encoded(EncodedWidth::One)),
        EncodingCodes::VBin32 => Option::Some(Category::Encoded(EncodedWidth::Four)),
        EncodingCodes::Str8 => Option::Some(Category::Encoded(EncodedWidth::One)),
        EncodingCodes::Str32 => Option::Some(Category::Encoded(EncodedWidth::Four)),
        EncodingCodes::Sym8 => Option::Some(Category::Encoded(EncodedWidth::One)),
        EncodingCodes::Sym32 => Option::Some(Category::Encoded(EncodedWidth::Four)),
        EncodingCodes::List0 => Option::Some(Category::Encoded(EncodedWidth::Zero)),
        EncodingCodes::List8 => Option::Some(Category::Encoded(EncodedWidth::One)),
        EncodingCodes::List32 => Option::Some(Category::Encoded(EncodedWidth::Four)),
        EncodingCodes::Map8 => Option::Some(Category::Encoded(EncodedWidth::One)),
        EncodingCodes::Map32 => Option::Some(Category::Encoded(EncodedWidth::Four)),
        EncodingCodes::Array8 => Option::Some(Category::Encoded(EncodedWidth::One)),
        EncodingCodes::Array32 => Option::Some(Category::Encoded(EncodedWidth::Four)),
    }
}

impl Category {
    /// The width category of a format code. A described-type constructor has
    /// none and is reported as an error.
    pub fn try_from(value: EncodingCodes) -> (r: Result<Category, crate::value::Error>)
        ensures
            r matches Ok(c) ==> spec_category_of(value) == Option::Some(c),
            r is Err <==> value is DescribedType,
            r matches Err(e) ==> e is IsDescribedType,
    {
        match value {
            EncodingCodes::DescribedType => Err(crate::value::Error::IsDescribedType),
            EncodingCodes::Null => Ok(Category::Fixed(FixedWidth::Zero)),
            EncodingCodes::Boolean => Ok(Category::Fixed(FixedWidth::One)),
            EncodingCodes::BooleanTrue => Ok(Category::Fixed(FixedWidth::Zero)),
            EncodingCodes::BooleanFalse => Ok(Category::Fixed(FixedWidth::Zero)),
            EncodingCodes::UByte => Ok(Category::Fixed(FixedWidth::One)),
            EncodingCodes::UShort => Ok(Category::Fixed(FixedWidth::Two)),
            EncodingCodes::UInt => Ok(Category::Fixed(FixedWidth::Four)),
            EncodingCodes::SmallUInt => Ok(Category::Fixed(FixedWidth::One)),
            EncodingCodes::UInt0 => Ok(Category::Fixed(FixedWidth::Zero)),
            EncodingCodes::ULong => Ok(Category::Fixed(FixedWidth::Eight)),
            EncodingCodes::SmallULong => Ok(Category::Fixed(FixedWidth::One)),
            EncodingCodes::ULong0 => Ok(Category::Fixed(FixedWidth::Zero)),
            EncodingCodes::Byte => Ok(Category::Fixed(FixedWidth::One)),
            EncodingCodes::Short => Ok(Category::Fixed(FixedWidth::Two)),
            EncodingCodes::Int => Ok(Category::Fixed(FixedWidth::Four)),
            EncodingCodes::SmallInt => Ok(Category::Fixed(FixedWidth::One)),
            EncodingCodes::Long => Ok(Category::Fixed(FixedWidth::Eight)),
            EncodingCodes::SmallLong => Ok(Category::Fixed(FixedWidth::One)),
            EncodingCodes::Float => Ok(Category::Fixed(FixedWidth::Four)),
            EncodingCodes::Double => Ok(Category::Fixed(FixedWidth::Eight)),
            EncodingCodes::Decimal32 => Ok(Category::Fixed(FixedWidth::Four)),
            EncodingCodes::Decimal64 => Ok(Category::Fixed(FixedWidth::Eight)),
            EncodingCodes::Decimal128 => Ok(Category::Fixed(FixedWidth::Sixteen)),
            EncodingCodes::Char => Ok(Category::Fixed(FixedWidth::Four)),
            EncodingCodes::Timestamp => Ok(Category::Fixed(FixedWidth::Eight)),
            EncodingCodes::Uuid => Ok(Category::Fixed(FixedWidth::Sixteen)),
            EncodingCodes::VBin8 => Ok(Category::Encoded(EncodedWidth::One)),
            EncodingCodes::VBin32 => Ok(Category::Encoded(EncodedWidth::Four)),
            EncodingCodes::Str8 => Ok(Category::Encoded(EncodedWidth::One)),
            EncodingCodes::Str32 => Ok(Category::Encoded(EncodedWidth::Four)),
            EncodingCodes::Sym8 => Ok(Category::Encoded(EncodedWidth::One)),
            EncodingCodes::Sym32 => Ok(Category::Encoded(EncodedWidth::Four)),
            EncodingCodes::List0 => Ok(Category::Encoded(EncodedWidth::Zero)),
            EncodingCodes::List8 => Ok(Category::Encoded(EncodedWidth::One)),
            EncodingCodes::List32 => Ok(Category::Encoded(EncodedWidth::Four)),
            EncodingCodes::Map8 => Ok(Category::Encoded(EncodedWidth::One)),
            EncodingCodes::Map32 => Ok(Category::Encoded(EncodedWidth::Four)),
            EncodingCodes::Array8 => Ok(Category::Encoded(EncodedWidth::One)),
            EncodingCodes::Array32 => Ok(Category::Encoded(EncodedWidth::Four)),
        }
    }
}

} // verus!
