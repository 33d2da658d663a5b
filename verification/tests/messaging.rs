//! Tests of the message model and its section encoding.

use amqp_core::messaging::{
    Annotations, AmqpSequence, AmqpValue, ApplicationProperties, BodySection, Builder, Data,
    DeliveryAnnotations, Footer, Header, Message, MessageAnnotations, Priority, Properties,
    body_section_from_value, header_from_value, message_from_values, message_to_values,
};
use amqp_core::ser::to_vec;
use amqp_core::de::decode_at;
use amqp_core::value::Value;

fn encode_sections(m: Message) -> Vec<u8> {
    let mut out = Vec::new();
    for v in message_to_values(m) {
        out.extend_from_slice(&to_vec(&v).unwrap());
    }
    out
}

fn decode_all(bytes: &[u8]) -> Vec<Value> {
    let mut out = Vec::new();
    let mut pos = 0;
    while pos < bytes.len() {
        let (v, n) = decode_at(bytes, pos).unwrap();
        out.push(v);
        pos += n;
    }
    out
}

#[test]
fn test_serialize_deserialize_header() {
    let header = Header {
        durable: true,
        priority: Priority(0),
        ttl: None,
        first_acquirer: false,
        delivery_count: 0,
    };
    let serialized = to_vec(&header.to_value()).unwrap();
    println!("{:x?}", &serialized);
}

#[test]
fn test_display_data() {
    let b = Data(vec![1u8, 2]);
    println!("{}", b.0.len());
}

#[test]
fn test_display_amqp_sequence() {
    let seq = AmqpSequence(vec![
        Value::Int(0),
        Value::Int(1),
        Value::Int(2),
        Value::Int(3),
    ]);
    println!("{:?}", seq);
}

#[test]
fn test_serialize_message() {
    let message = Message {
        header: Some(Header {
            durable: true,
            priority: Priority(4),
            ttl: None,
            first_acquirer: false,
            delivery_count: 0,
        }),
        delivery_annotations: None,
        message_annotations: None,
        properties: None,
        application_properties: None,
        body_section: BodySection::Value(AmqpValue(Value::Bool(true))),
        footer: None,
    };
    let serialized = encode_sections(message);
    println!("{:x?}", serialized);
}

fn sample_message() -> Message {
    Message {
        header: Some(Header {
            durable: true,
            priority: Priority(4),
            ttl: None,
            first_acquirer: false,
            delivery_count: 0,
        }),
        delivery_annotations: Some(DeliveryAnnotations(Annotations(Vec::new()))),
        message_annotations: Some(MessageAnnotations(Annotations(Vec::new()))),
        properties: None,
        application_properties: None,
        body_section: BodySection::Value(AmqpValue(Value::Bool(true))),
        footer: None,
    }
}

#[test]
fn test_serialize_deserialize_message() {
    let serialized = encode_sections(sample_message());
    println!("{:x?}", serialized);
    let deserialized = message_from_values(decode_all(&serialized)).unwrap();
    println!("{:?}", deserialized);
    assert_eq!(deserialized, sample_message());
}

#[test]
fn test_serialize_deserialize_body() {
    let data = b"amqp".to_vec();
    let data = Data(data);
    let body = BodySection::Data(data);
    let serialized = to_vec(&body.to_value()).unwrap();
    println!("{:x?}", serialized);
    let mut values = decode_all(&serialized);
    let field = body_section_from_value(values.remove(0)).unwrap();
    println!("{:?}", field);

    let body = BodySection::Sequence(AmqpSequence(vec![Value::Bool(true)]));
    let serialized = to_vec(&body.to_value()).unwrap();
    println!("{:x?}", serialized);
    let mut values = decode_all(&serialized);
    let field = body_section_from_value(values.remove(0)).unwrap();
    println!("{:?}", field);

    let body = BodySection::Value(AmqpValue(Value::Bool(true)));
    let serialized = to_vec(&body.to_value()).unwrap();
    println!("{:x?}", serialized);
    let mut values = decode_all(&serialized);
    let field = body_section_from_value(values.remove(0)).unwrap();
    println!("{:?}", field);
}

#[test]
fn sections_are_counted_with_the_body() {
    let message = Message {
        header: None,
        delivery_annotations: None,
        message_annotations: None,
        properties: None,
        application_properties: None,
        body_section: BodySection::Data(Data(vec![1])),
        footer: None,
    };
    assert_eq!(message.sections(), 1);
    assert_eq!(message.last_section_code(), 0x77);

    let message = Builder::new()
        .header(Some(Header {
            durable: false,
            priority: Priority(4),
            ttl: None,
            first_acquirer: false,
            delivery_count: 0,
        }))
        .body_section(BodySection::Value(AmqpValue(Value::Null)))
        .build();
    assert_eq!(message.sections(), 2);
}

#[test]
fn body_sections_round_trip() {
    let body = BodySection::Data(Data(b"amqp".to_vec()));
    let bytes = to_vec(&body.to_value()).unwrap();
    let mut back = decode_all(&bytes);
    assert_eq!(back.len(), 1);
    assert_eq!(
        body_section_from_value(back.remove(0)).unwrap(),
        BodySection::Data(Data(b"amqp".to_vec()))
    );

    let body = BodySection::Sequence(AmqpSequence(vec![Value::Bool(true)]));
    let bytes = to_vec(&body.to_value()).unwrap();
    let mut back = decode_all(&bytes);
    assert_eq!(
        body_section_from_value(back.remove(0)).unwrap(),
        BodySection::Sequence(AmqpSequence(vec![Value::Bool(true)]))
    );

    let body = BodySection::Value(AmqpValue(Value::Bool(true)));
    let bytes = to_vec(&body.to_value()).unwrap();
    let mut back = decode_all(&bytes);
    assert_eq!(
        body_section_from_value(back.remove(0)).unwrap(),
        BodySection::Value(AmqpValue(Value::Bool(true)))
    );

    // A body value under an unknown descriptor is refused.
    assert!(body_section_from_value(Value::Bool(true)).is_err());
}

fn full_properties() -> Properties {
    Properties {
        message_id: Some(7),
        user_id: Some(vec![1, 2]),
        to: Some(String::from("q")),
        subject: Some(String::from("s")),
        reply_to: None,
        correlation_id: Some(9),
        content_type: Some(b"text/plain".to_vec()),
        content_encoding: None,
        absolute_expiry_time: Some(1_700_000_000_000),
        creation_time: None,
        group_id: None,
        group_sequence: Some(3),
        reply_to_group_id: None,
    }
}

#[test]
fn every_present_section_is_emitted_and_recovered() {
    let message = Message {
        header: Some(Header {
            durable: false,
            priority: Priority(4),
            ttl: Some(amqp_core::definitions::Milliseconds(30_000)),
            first_acquirer: true,
            delivery_count: 2,
        }),
        delivery_annotations: Some(
            DeliveryAnnotations::builder()
                .insert(b"k".to_vec(), Value::Int(1))
                .build(),
        ),
        message_annotations: Some(MessageAnnotations(Annotations(Vec::new()))),
        properties: Some(full_properties()),
        application_properties: Some(ApplicationProperties(vec![(
            String::from("count"),
            Value::UInt(5),
        )])),
        body_section: BodySection::Data(Data(vec![0xca, 0xfe])),
        footer: Some(Footer(Annotations(vec![(b"f".to_vec(), Value::Bool(true))]))),
    };
    let values = message_to_values(message);
    // All seven sections are present, in wire order.
    assert_eq!(values.len(), 7);
    let mut bytes = Vec::new();
    for v in &values {
        bytes.extend_from_slice(&to_vec(v).unwrap());
    }
    let recovered = message_from_values(decode_all(&bytes)).unwrap();
    assert_eq!(recovered.properties, Some(full_properties()));
    assert_eq!(recovered.body_section, BodySection::Data(Data(vec![0xca, 0xfe])));
    assert_eq!(recovered.sections(), 7);
    assert_eq!(recovered.last_section_code(), 0x78);
}

#[test]
fn header_section_round_trips() {
    let header = Header {
        durable: true,
        priority: Priority(9),
        ttl: None,
        first_acquirer: false,
        delivery_count: 4,
    };
    let recovered = header_from_value(header.to_value()).unwrap();
    assert_eq!(recovered, header);
    // A list of the wrong length is refused.
    assert!(header_from_value(Value::Described(
        amqp_core::value::Descriptor::Code(0x70),
        Box::new(Value::List(vec![Value::Bool(true)])),
    ))
    .is_err());
}

#[test]
fn section_runs_out_of_order_are_refused() {
    // A run without a body section is not a message.
    let header_only = vec![sample_message().header.unwrap().to_value()];
    assert!(message_from_values(header_only).is_err());
    // Trailing values after the footer are refused.
    let mut vs = message_to_values(sample_message());
    vs.push(Value::Null);
    assert!(message_from_values(vs).is_err());
}

#[test]
fn annotations_build_in_order() {
    let da = DeliveryAnnotations::builder()
        .insert(b"one".to_vec(), Value::Int(1))
        .insert(b"two".to_vec(), Value::Int(2))
        .build();
    assert_eq!(da.0 .0.len(), 2);
    assert_eq!(da.0 .0[0].0, b"one".to_vec());
    assert_eq!(da.0 .0[1].0, b"two".to_vec());
}
