//! Tests of the type codec: described values, composite round trips, the
//! slice reader, and the canonical widths.

use amqp_core::value::{Descriptor, Error, Value};
use amqp_core::ser::to_vec;
use amqp_core::de::from_slice;
use amqp_core::reader::SliceReader;

#[test]
fn test_serialize_described_value() {
    let descriptor = Descriptor::Code(0x11);
    let value = Box::new(Value::List(vec![Value::Int(1), Value::Int(2)]));
    let described = Value::Described(descriptor, value);
    let buf = to_vec(&described).unwrap();
    println!("{:x?}", buf);
}

#[test]
fn test_deserialzie_described_value() {
    let descriptor = Descriptor::Code(0x11);
    let value = Box::new(Value::List(vec![Value::Int(1), Value::Int(2)]));
    let described = Value::Described(descriptor, value);
    let buf = to_vec(&described).unwrap();
    println!("{:?}", &buf);
    let recovered = from_slice(&buf).unwrap();
    println!("{:?}", recovered);
    let descriptor = Descriptor::Code(0x11);
    let value = Box::new(Value::List(vec![Value::Int(1), Value::Int(2)]));
    assert_eq!(recovered, Value::Described(descriptor, value));
}

#[test]
fn test_expanded_list_macro() {
    let foo = Value::Described(
        Descriptor::Name(b"Foo".to_vec()),
        Box::new(Value::List(vec![Value::ULong(0), Value::Null, Value::Int(0)])),
    );
    let serialized = to_vec(&foo).unwrap();
    println!("{:?}", &serialized);
    let deserialized = from_slice(&serialized).unwrap();
    println!("{:?}", &deserialized);
    assert_eq!(foo, deserialized);
}

#[test]
fn test_expanded_map_macro() {
    let test = Value::Described(
        Descriptor::Name(b"Test".to_vec()),
        Box::new(Value::Mapping(vec![
            (Value::Symbol(b"a".to_vec()), Value::Int(1)),
            (Value::Symbol(b"b".to_vec()), Value::Bool(true)),
        ])),
    );
    let serialized = to_vec(&test).unwrap();
    println!("{:?}", &serialized);
    let deserialized = from_slice(&serialized).unwrap();
    println!("{:?}", &deserialized);
    assert_eq!(test, deserialized);
}

const SHORT_BUFFER: &[u8] = &[0, 1, 2];
const LONG_BUFFER: &[u8] = &[
    0, 1, 2, 3, 4, 5, 6, 7, 8, 9, 10, 11, 12, 13, 14, 15, 16, 17, 18, 19, 20,
];

#[test]
fn test_peek() {
    let slice = SHORT_BUFFER;
    let mut reader = SliceReader::new(slice);

    let peek0 = reader.peek().expect("Should not return error");
    let peek1 = reader.peek().expect("Should not return error");
    let peek2 = reader.peek().expect("Should not return error");

    assert_eq!(peek0, slice[0]);
    assert_eq!(peek1, slice[0]);
    assert_eq!(peek2, slice[0]);
}

#[test]
fn test_next() {
    let slice = SHORT_BUFFER;
    let mut reader = SliceReader::new(slice);

    for i in 0..slice.len() {
        let peek = reader.peek().expect("Should not return error");
        let next = reader.next().expect("Should not return error");

        assert_eq!(peek, slice[i]);
        assert_eq!(next, slice[i]);
    }

    let peek_none = reader.peek();
    let next_none = reader.next();

    assert!(peek_none.is_none());
    assert!(next_none.is_none());
}

#[test]
fn test_read_const_bytes_without_peek() {
    let slice = LONG_BUFFER;
    let mut reader = SliceReader::new(slice);

    const N: usize = 10;
    let bytes = reader
        .read_const_bytes::<N>()
        .expect("Should not return error");
    assert_eq!(bytes.len(), N);
    assert_eq!(&bytes[..], &slice[..N]);

    let bytes = reader
        .read_const_bytes::<N>()
        .expect("Should not return error");
    assert_eq!(bytes.len(), N);
    assert_eq!(&bytes[..], &slice[(N)..(2 * N)]);

    let bytes = reader.read_const_bytes::<N>();
    assert!(bytes.is_none());
}

#[test]
fn test_incomplete_read_const_bytes_without_peek() {
    let slice = SHORT_BUFFER;
    let mut reader = SliceReader::new(slice);

    const N: usize = 10;
    let bytes = reader.read_const_bytes::<N>();
    assert!(bytes.is_none());

    for i in 0..slice.len() {
        let peek = reader.peek().expect("Should not return error");
        let next = reader.next().expect("Should not return error");

        assert_eq!(peek, slice[i]);
        assert_eq!(next, slice[i]);
    }

    let peek_none = reader.peek();
    let next_none = reader.next();

    assert!(peek_none.is_none());
    assert!(next_none.is_none());
}

#[test]
fn test_read_const_bytes_after_peek() {
    let slice = LONG_BUFFER;
    let mut reader = SliceReader::new(slice);

    let peek0 = reader.peek().expect("Should not return error");
    assert_eq!(peek0, slice[0]);

    const N: usize = 10;
    let bytes = reader
        .read_const_bytes::<N>()
        .expect("Should not return error");
    assert_eq!(bytes.len(), N);
    assert_eq!(&bytes[..], &slice[..N]);

    let bytes = reader
        .read_const_bytes::<N>()
        .expect("Should not return error");
    assert_eq!(bytes.len(), N);
    assert_eq!(&bytes[..], &slice[(N)..(2 * N)]);

    let bytes = reader.read_const_bytes::<N>();
    assert!(bytes.is_none());
}

#[test]
fn test_incomplete_read_const_bytes_after_peek() {
    let slice = SHORT_BUFFER;
    let mut reader = SliceReader::new(slice);

    let peek0 = reader.peek().expect("Should not return error");
    assert_eq!(peek0, slice[0]);

    const N: usize = 10;
    let bytes = reader.read_const_bytes::<N>();
    assert!(bytes.is_none());

    for i in 0..slice.len() {
        let peek = reader.peek().expect("Should not return error");
        let next = reader.next().expect("Should not return error");

        assert_eq!(peek, slice[i]);
        assert_eq!(next, slice[i]);
    }

    let peek_err = reader.peek();
    let next_err = reader.next();

    assert!(peek_err.is_none());
    assert!(next_err.is_none());
}

#[test]
fn round_trip_scalars() {
    let values = vec![
        Value::Null,
        Value::Bool(true),
        Value::Bool(false),
        Value::UByte(0x7e),
        Value::UShort(0x1234),
        Value::UInt(0),
        Value::UInt(200),
        Value::UInt(0x12345678),
        Value::ULong(0),
        Value::ULong(255),
        Value::ULong(0x123456789abcdef0),
        Value::Byte(-5),
        Value::Short(-1000),
        Value::Int(-7),
        Value::Int(0x7fffffff),
        Value::Long(-3),
        Value::Long(0x1122334455667788),
        Value::Float(0x3f800000),
        Value::Double(0x3ff0000000000000),
        Value::Dec32(0xdeadbeef),
        Value::Dec64(0xdeadbeefdeadbeef),
        Value::Dec128(0xdeadbeefdeadbeefdeadbeefdeadbeef),
        Value::Char('A'),
        Value::Char('\u{1F600}'),
        Value::Timestamp(-1),
        Value::Timestamp(1700000000000),
        Value::Uuid(0x0123456789abcdef0123456789abcdef),
        Value::Binary(vec![1, 2, 3]),
        Value::Str(String::from("hello")),
        Value::Str(String::from("héllo \u{1F600}")),
        Value::Symbol(b"amqp:error:list".to_vec()),
    ];
    for v in values {
        let bytes = to_vec(&v).unwrap();
        let back = from_slice(&bytes).unwrap();
        assert_eq!(back, v);
    }
}

#[test]
fn round_trip_containers() {
    let v = Value::List(vec![
        Value::Int(1),
        Value::Str(String::from("x")),
        Value::List(vec![Value::Bool(true)]),
        Value::Mapping(vec![(Value::Symbol(b"k".to_vec()), Value::UInt(7))]),
        Value::Array(vec![Value::UInt(1), Value::UInt(2), Value::UInt(3)]),
    ]);
    let bytes = to_vec(&v).unwrap();
    let back = from_slice(&bytes).unwrap();
    assert_eq!(back, v);

    let empty_list = Value::List(vec![]);
    let bytes = to_vec(&empty_list).unwrap();
    assert_eq!(bytes, vec![0x45]);
    assert_eq!(from_slice(&bytes).unwrap(), Value::List(vec![]));

    let empty_array = Value::Array(vec![]);
    let bytes = to_vec(&empty_array).unwrap();
    assert_eq!(bytes, vec![0xe0, 2, 0, 0x40]);
    assert_eq!(from_slice(&bytes).unwrap(), Value::Array(vec![]));
}

#[test]
fn canonical_smallest_widths() {
    assert_eq!(to_vec(&Value::UInt(0)).unwrap(), vec![0x43]);
    assert_eq!(to_vec(&Value::UInt(255)).unwrap(), vec![0x52, 255]);
    assert_eq!(
        to_vec(&Value::UInt(256)).unwrap(),
        vec![0x70, 0x00, 0x00, 0x01, 0x00]
    );
    assert_eq!(to_vec(&Value::ULong(0)).unwrap(), vec![0x44]);
    assert_eq!(to_vec(&Value::ULong(9)).unwrap(), vec![0x53, 9]);
    assert_eq!(to_vec(&Value::Int(-1)).unwrap(), vec![0x54, 0xff]);
    assert_eq!(to_vec(&Value::Long(127)).unwrap(), vec![0x55, 127]);
    assert_eq!(to_vec(&Value::Bool(true)).unwrap(), vec![0x41]);
    assert_eq!(to_vec(&Value::Bool(false)).unwrap(), vec![0x42]);
    assert_eq!(
        to_vec(&Value::Str(String::from("ab"))).unwrap(),
        vec![0xa1, 2, b'a', b'b']
    );
}

#[test]
fn wider_encodings_decode_to_same_value() {
    // A one-byte value spelled in the four-byte width decodes to the same
    // value that re-encodes in the smallest width.
    let wide = vec![0x70, 0x00, 0x00, 0x00, 0x09];
    let v = from_slice(&wide).unwrap();
    assert_eq!(v, Value::UInt(9));
    assert_eq!(to_vec(&v).unwrap(), vec![0x52, 9]);

    let wide_long = vec![0x80, 0, 0, 0, 0, 0, 0, 0, 0];
    let v = from_slice(&wide_long).unwrap();
    assert_eq!(v, Value::ULong(0));
    assert_eq!(to_vec(&v).unwrap(), vec![0x44]);
}

#[test]
fn decode_errors() {
    assert_eq!(from_slice(&[]).unwrap_err(), Error::UnexpectedEof);
    assert_eq!(from_slice(&[0x06]).unwrap_err(), Error::InvalidFormatCode);
    assert_eq!(from_slice(&[0x70, 1, 2]).unwrap_err(), Error::UnexpectedEof);
    // A declared size that exceeds the bytes that follow.
    assert_eq!(from_slice(&[0xa0, 5, 1, 2]).unwrap_err(), Error::SizeMismatch);
    // A string payload that is not valid UTF-8.
    assert_eq!(from_slice(&[0xa1, 1, 0xff]).unwrap_err(), Error::Utf8);
    // A list whose elements overrun the declared size.
    assert_eq!(
        from_slice(&[0xc0, 2, 1, 0x52, 9]).unwrap_err(),
        Error::SizeMismatch
    );
    // An array constructor that is not a full-width format code.
    assert_eq!(
        from_slice(&[0xe0, 3, 1, 0x52, 9]).unwrap_err(),
        Error::InvalidFormatCode
    );
}

#[test]
fn oversize_values_are_refused() {
    // An array whose elements do not share one format code cannot encode.
    let mixed = Value::Array(vec![Value::UInt(1), Value::Bool(true)]);
    assert_eq!(to_vec(&mixed).unwrap_err(), Error::NotEncodable);
}

#[test]
fn reader_reads_values_in_sequence() {
    let mut bytes = to_vec(&Value::UInt(9)).unwrap();
    bytes.extend_from_slice(&to_vec(&Value::Str(String::from("x"))).unwrap());
    let mut reader = SliceReader::new(&bytes);
    assert_eq!(reader.read_value().unwrap(), Value::UInt(9));
    assert_eq!(reader.read_value().unwrap(), Value::Str(String::from("x")));
    assert_eq!(reader.read_value().unwrap_err(), Error::UnexpectedEof);
}
