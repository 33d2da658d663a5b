//! The message model: sections, the polymorphic body, and the builder.

use vstd::prelude::*;
use vstd::slice::slice_to_vec;
use crate::value::{
    Descriptor, Error, Value, VData, VDescriptor, model, model_seq, model_pairs,
};
use crate::definitions::Milliseconds;

verus! {

broadcast use vstd::seq::group_seq_axioms;

/// The descriptor code of the header section.
pub const CODE_HEADER: u64 = 0x70;

/// The descriptor code of the delivery-annotations section.
pub const CODE_DELIVERY_ANNOTATIONS: u64 = 0x71;

/// The descriptor code of the message-annotations section.
pub const CODE_MESSAGE_ANNOTATIONS: u64 = 0x72;

/// The descriptor code of the properties section.
pub const CODE_PROPERTIES: u64 = 0x73;

/// The descriptor code of the application-properties section.
pub const CODE_APPLICATION_PROPERTIES: u64 = 0x74;

/// The descriptor code of the data body section.
pub const CODE_DATA: u64 = 0x75;

/// The descriptor code of the sequence body section.
pub const CODE_AMQP_SEQUENCE: u64 = 0x76;

/// The descriptor code of the value body section.
pub const CODE_AMQP_VALUE: u64 = 0x77;

/// The descriptor code of the footer section.
pub const CODE_FOOTER: u64 = 0x78;

/// The relative priority of a message.
#[derive(Clone, Copy, PartialEq, Eq, Structural, Debug)]
pub struct Priority(pub u8);

impl Default for Priority {
    /// The default priority of a message.
    fn default() -> (r: Self)
        ensures
            r.0 == 4,
    {
        Self(4)
    }
}

/// The transport header of a message.
#[derive(Clone, PartialEq, Eq, Structural, Debug)]
pub struct Header {
    /// Whether the message must survive a broker restart.
    pub durable: bool,
    /// The relative priority.
    pub priority: Priority,
    /// The time the message stays deliverable.
    pub ttl: Option<Milliseconds>,
    /// Whether this recipient is the first to acquire the message.
    pub first_acquirer: bool,
    /// How many prior unsuccessful delivery attempts were made.
    pub delivery_count: u32,
}

/// A map of annotations keyed by symbols, preserving insertion order.
#[derive(PartialEq, Eq, Debug)]
pub struct Annotations(pub Vec<(Vec<u8>, Value)>);

/// Delivery-specific annotations at the head of the message.
#[derive(PartialEq, Eq, Debug)]
pub struct DeliveryAnnotations(pub Annotations);

/// Annotations about the message, propagated across delivery steps.
#[derive(PartialEq, Eq, Debug)]
pub struct MessageAnnotations(pub Annotations);

/// Application-defined properties keyed by strings.
#[derive(PartialEq, Eq, Debug)]
pub struct ApplicationProperties(pub Vec<(String, Value)>);

/// Transport footers of a message.
#[derive(PartialEq, Eq, Debug)]
pub struct Footer(pub Annotations);

/// The immutable properties of a message.
#[derive(PartialEq, Eq, Debug)]
pub struct Properties {
    /// The application message identifier.
    pub message_id: Option<u64>,
    /// The identity of the producing user.
    pub user_id: Option<Vec<u8>>,
    /// The destination node.
    pub to: Option<String>,
    /// A summary of the message's purpose.
    pub subject: Option<String>,
    /// The node to send replies to.
    pub reply_to: Option<String>,
    /// The client-specific correlation identifier.
    pub correlation_id: Option<u64>,
    /// The RFC-2046 MIME type of the data sections.
    pub content_type: Option<Vec<u8>>,
    /// The content encodings applied on top of the content type.
    pub content_encoding: Option<Vec<u8>>,
    /// When the message expires, in milliseconds since the epoch.
    pub absolute_expiry_time: Option<i64>,
    /// When the message was created, in milliseconds since the epoch.
    pub creation_time: Option<i64>,
    /// The group the message belongs to.
    pub group_id: Option<String>,
    /// The position of the message within its group.
    pub group_sequence: Option<u32>,
    /// The group to send replies to.
    pub reply_to_group_id: Option<String>,
}

/// One opaque binary body section.
#[derive(PartialEq, Eq, Debug)]
pub struct Data(pub Vec<u8>);

/// One body section holding a run of values.
#[derive(PartialEq, Eq, Debug)]
pub struct AmqpSequence(pub Vec<Value>);

/// One body section holding a single value.
#[derive(PartialEq, Eq, Debug)]
pub struct AmqpValue(pub Value);

/// The body of a message: a binary section, a sequence section, or one
/// value.
#[derive(PartialEq, Eq, Debug)]
pub enum BodySection {
    /// An opaque binary body.
    Data(Data),
    /// A run of values.
    Sequence(AmqpSequence),
    /// A single value.
    Value(AmqpValue),
}

/// A message: its optional sections around the one mandatory body section.
#[derive(PartialEq, Eq, Debug)]
pub struct Message {
    /// The transport header.
    pub header: Option<Header>,
    /// Delivery-specific annotations.
    pub delivery_annotations: Option<DeliveryAnnotations>,
    /// Annotations about the message.
    pub message_annotations: Option<MessageAnnotations>,
    /// The immutable properties.
    pub properties: Option<Properties>,
    /// Application-defined properties.
    pub application_properties: Option<ApplicationProperties>,
    /// The body.
    pub body_section: BodySection,
    /// The transport footers.
    pub footer: Option<Footer>,
}

impl Message {
    /// Counts the sections the message holds: the mandatory body and every
    /// present optional section.
    pub fn sections(&self) -> (count: u32)
        ensures
            count == 1 + (if self.header is Some { 1int } else { 0 }) + (
            if self.delivery_annotations is Some { 1int } else { 0 }) + (
            if self.message_annotations is Some { 1int } else { 0 }) + (
            if self.properties is Some { 1int } else { 0 }) + (
            if self.application_properties is Some { 1int } else { 0 }) + (
            if self.footer is Some { 1int } else { 0 }),
    {
        let mut count: u32 = 1;
        if self.header.is_some() {
            count += 1;
        }
        if self.delivery_annotations.is_some() {
            count += 1;
        }
        if self.message_annotations.is_some() {
            count += 1;
        }
        if self.properties.is_some() {
            count += 1;
        }
        if self.application_properties.is_some() {
            count += 1;
        }
        if self.footer.is_some() {
            count += 1;
        }
        count
    }

    /// The descriptor code of the last section on the wire: the footer when
    /// one is present, else the value-body code that ends every complete
    /// message.
    pub fn last_section_code(&self) -> (code: u8)
        ensures
            code == if self.footer is Some { 0x78u8 } else { 0x77u8 },
    {
        if self.footer.is_some() {
            0x78
        } else {
            0x77
        }
    }

    /// Wraps a body section into a message with no other sections.
    pub fn from_body(body_section: BodySection) -> (r: Message)
        ensures
            r.header is None,
            r.delivery_annotations is None,
            r.message_annotations is None,
            r.properties is None,
            r.application_properties is None,
            r.body_section == body_section,
            r.footer is None,
    {
        Message {
            header: None,
            delivery_annotations: None,
            message_annotations: None,
            properties: None,
            application_properties: None,
            body_section,
            footer: None,
        }
    }
}

/// A marker for a builder that has no body section yet.
#[derive(PartialEq, Eq, Structural, Debug)]
pub struct EmptyBody {}

impl Default for EmptyBody {
    /// The empty body marker.
    fn default() -> (r: Self)
        ensures
            r == (EmptyBody {  }),
    {
        EmptyBody {  }
    }
}

/// A builder for messages; the type parameter tracks whether a body section
/// has been supplied.
pub struct Builder<T> {
    /// The transport header.
    pub header: Option<Header>,
    /// Delivery-specific annotations.
    pub delivery_annotations: Option<DeliveryAnnotations>,
    /// Annotations about the message.
    pub message_annotations: Option<MessageAnnotations>,
    /// The immutable properties.
    pub properties: Option<Properties>,
    /// Application-defined properties.
    pub application_properties: Option<ApplicationProperties>,
    /// The body, or the marker of its absence.
    pub body_section: T,
    /// The transport footers.
    pub footer: Option<Footer>,
}

impl Builder<EmptyBody> {
    /// Starts a builder with no sections.
    pub fn new() -> (r: Self)
        ensures
            r.header is None,
            r.delivery_annotations is None,
            r.message_annotations is None,
            r.properties is None,
            r.application_properties is None,
            r.footer is None,
    {
        Builder {
            header: None,
            delivery_annotations: None,
            message_annotations: None,
            properties: None,
            application_properties: None,
            body_section: EmptyBody {  },
            footer: None,
        }
    }
}

impl<T> Builder<T> {
    /// Supplies the body section, making the builder complete.
    pub fn body_section(self, body_section: BodySection) -> (r: Builder<BodySection>)
        ensures
            r.header == self.header,
            r.delivery_annotations == self.delivery_annotations,
            r.message_annotations == self.message_annotations,
            r.properties == self.properties,
            r.application_properties == self.application_properties,
            r.body_section == body_section,
            r.footer == self.footer,
    {
        Builder {
            header: self.header,
            delivery_annotations: self.delivery_annotations,
            message_annotations: self.message_annotations,
            properties: self.properties,
            application_properties: self.application_properties,
            body_section,
            footer: self.footer,
        }
    }

    /// Sets the transport header.
    pub fn header(self, header: Option<Header>) -> (r: Self)
        ensures
            r.header == header,
            r.delivery_annotations == self.delivery_annotations,
            r.message_annotations == self.message_annotations,
            r.properties == self.properties,
            r.application_properties == self.application_properties,
            r.body_section == self.body_section,
            r.footer == self.footer,
    {
        Builder { header, ..self }
    }

    /// Sets the delivery annotations.
    pub fn delivery_annotations(self, delivery_annotations: Option<DeliveryAnnotations>)
        -> (r: Self)
        ensures
            r.delivery_annotations == delivery_annotations,
            r.header == self.header,
            r.message_annotations == self.message_annotations,
            r.properties == self.properties,
            r.application_properties == self.application_properties,
            r.body_section == self.body_section,
            r.footer == self.footer,
    {
        Builder { delivery_annotations, ..self }
    }

    /// Sets the message annotations.
    pub fn message_annotations(self, message_annotations: Option<MessageAnnotations>)
        -> (r: Self)
        ensures
            r.message_annotations == message_annotations,
            r.header == self.header,
            r.delivery_annotations == self.delivery_annotations,
            r.properties == self.properties,
            r.application_properties == self.application_properties,
            r.body_section == self.body_section,
            r.footer == self.footer,
    {
        Builder { message_annotations, ..self }
    }

    /// Sets the immutable properties.
    pub fn properties(self, properties: Option<Properties>) -> (r: Self)
        ensures
            r.properties == properties,
            r.header == self.header,
            r.delivery_annotations == self.delivery_annotations,
            r.message_annotations == self.message_annotations,
            r.application_properties == self.application_properties,
            r.body_section == self.body_section,
            r.footer == self.footer,
    {
        Builder { properties, ..self }
    }

    /// Sets the application properties.
    pub fn application_properties(self, application_properties: Option<ApplicationProperties>)
        -> (r: Self)
        ensures
            r.application_properties == application_properties,
            r.header == self.header,
            r.delivery_annotations == self.delivery_annotations,
            r.message_annotations == self.message_annotations,
            r.properties == self.properties,
            r.body_section == self.body_section,
            r.footer == self.footer,
    {
        Builder { application_properties, ..self }
    }

    /// Sets the transport footers.
    pub fn footer(self, footer: Option<Footer>) -> (r: Self)
        ensures
            r.footer == footer,
            r.header == self.header,
            r.delivery_annotations == self.delivery_annotations,
            r.message_annotations == self.message_annotations,
            r.properties == self.properties,
            r.application_properties == self.application_properties,
            r.body_section == self.body_section,
    {
        Builder { footer, ..self }
    }
}

impl Builder<BodySection> {
    /// Finishes the builder into a message.
    pub fn build(self) -> (r: Message)
        ensures
            r.header == self.header,
            r.delivery_annotations == self.delivery_annotations,
            r.message_annotations == self.message_annotations,
            r.properties == self.properties,
            r.application_properties == self.application_properties,
            r.body_section == self.body_section,
            r.footer == self.footer,
    {
        Message {
            header: self.header,
            delivery_annotations: self.delivery_annotations,
            message_annotations: self.message_annotations,
            properties: self.properties,
            application_properties: self.application_properties,
            body_section: self.body_section,
            footer: self.footer,
        }
    }
}

/// A builder that collects key-value entries for an annotations-like
/// section; the type parameter names the section being built.
pub struct MapBuilder<T> {
    /// The entries collected so far, in insertion order.
    pub entries: Vec<(Vec<u8>, Value)>,
    /// Marks the section that the builder finishes into; never holds a
    /// value.
    pub target: Option<T>,
}

impl<T> MapBuilder<T> {
    /// Starts an empty builder.
    pub fn new() -> (r: Self)
        ensures
            r.entries@.len() == 0,
    {
        MapBuilder { entries: Vec::new(), target: None }
    }

    /// Appends one entry.
    pub fn insert(self, key: Vec<u8>, value: Value) -> (r: Self)
        ensures
            r.entries@ == self.entries@.push((key, value)),
    {
        let mut entries = self.entries;
        entries.push((key, value));
        MapBuilder { entries, target: None }
    }
}

impl MapBuilder<DeliveryAnnotations> {
    /// Finishes into a delivery-annotations section.
    pub fn build(self) -> (r: DeliveryAnnotations)
        ensures
            r.0.0@ == self.entries@,
    {
        DeliveryAnnotations(Annotations(self.entries))
    }
}

impl MapBuilder<MessageAnnotations> {
    /// Finishes into a message-annotations section.
    pub fn build(self) -> (r: MessageAnnotations)
        ensures
            r.0.0@ == self.entries@,
    {
        MessageAnnotations(Annotations(self.entries))
    }
}

impl MapBuilder<Footer> {
    /// Finishes into a footer section.
    pub fn build(self) -> (r: Footer)
        ensures
            r.0.0@ == self.entries@,
    {
        Footer(Annotations(self.entries))
    }
}

impl DeliveryAnnotations {
    /// Starts a builder for a delivery-annotations section.
    pub fn builder() -> (r: MapBuilder<DeliveryAnnotations>)
        ensures
            r.entries@.len() == 0,
    {
        MapBuilder::new()
    }
}

impl MessageAnnotations {
    /// Starts a builder for a message-annotations section.
    pub fn builder() -> (r: MapBuilder<MessageAnnotations>)
        ensures
            r.entries@.len() == 0,
    {
        MapBuilder::new()
    }
}

impl Footer {
    /// Starts a builder for a footer section.
    pub fn builder() -> (r: MapBuilder<Footer>)
        ensures
            r.entries@.len() == 0,
    {
        MapBuilder::new()
    }
}

impl ApplicationProperties {
    /// Starts an empty application-properties section to be filled by
    /// pushing entries.
    pub fn builder() -> (r: ApplicationProperties)
        ensures
            r.0@.len() == 0,
    {
        ApplicationProperties(Vec::new())
    }
}

impl Header {
    /// The header as a described list of its five fields, every field
    /// spelled out.
    pub fn to_value(&self) -> (r: Value)
        ensures
            model(r) == spec_header_value(*self),
    {
        let mut fields: Vec<Value> = Vec::new();
        fields.push(Value::Bool(self.durable));
        fields.push(Value::UByte(self.priority.0));
        match &self.ttl {
            Some(ms) => fields.push(Value::UInt(ms.0)),
            None => fields.push(Value::Null),
        }
        fields.push(Value::Bool(self.first_acquirer));
        fields.push(Value::UInt(self.delivery_count));
        let r = Value::Described(
            Descriptor::Code(CODE_HEADER),
            Box::new(Value::List(fields)),
        );
        proof {
            match &r {
                Value::Described(_, inner) => {
                    match &**inner {
                        Value::List(fs) => {
                            crate::value::lemma_model_seq(fs@);
                            assert(fs@.len() == 5);
                            assert(model_seq(fs@)[0] == model(fs@[0]));
                            assert(model_seq(fs@)[1] == model(fs@[1]));
                            assert(model_seq(fs@)[2] == model(fs@[2]));
                            assert(model_seq(fs@)[3] == model(fs@[3]));
                            assert(model_seq(fs@)[4] == model(fs@[4]));
                            assert(model_seq(fs@) =~= spec_header_fields(*self));
                        },
                        _ => {},
                    }
                },
                _ => {},
            }
            reveal_with_fuel(crate::value::model, 3);
            assert(model(r) =~~= spec_header_value(*self));
        }
        r
    }
}

/// The five field models of a header.
pub open spec fn spec_header_fields(h: Header) -> Seq<VData> {
    seq![
        VData::Bool(h.durable),
        VData::UByte(h.priority.0),
        match h.ttl {
            Some(ms) => VData::UInt(ms.0),
            None => VData::Null,
        },
        VData::Bool(h.first_acquirer),
        VData::UInt(h.delivery_count),
    ]
}

/// The model of a header section as a described list.
pub open spec fn spec_header_value(h: Header) -> VData {
    VData::Described(
        VDescriptor::Code(CODE_HEADER),
        Box::new(VData::List(spec_header_fields(h))),
    )
}

/// The model of an annotations map section under a descriptor code.
pub open spec fn spec_annotations_value(code: u64, a: Annotations) -> VData {
    VData::Described(
        VDescriptor::Code(code),
        Box::new(VData::Mapping(model_sym_pairs(a.0@))),
    )
}

/// The models of symbol-keyed entries, elementwise.
pub open spec fn model_sym_pairs(s: Seq<(Vec<u8>, Value)>) -> Seq<(VData, VData)> {
    Seq::new(s.len(), |i: int| (VData::Symbol(s[i].0@), model(s[i].1)))
}

impl Annotations {
    /// The annotations as a map value keyed by symbols.
    pub fn into_map_value(self) -> (r: Value)
        ensures
            model(r) == VData::Mapping(model_sym_pairs(self.0@)),
    {
        let ghost orig = self.0@;
        let mut rest = self.0;
        let total = rest.len();
        let mut pairs: Vec<(Value, Value)> = Vec::new();
        let mut i: usize = 0;
        proof {
            assert(rest@ =~= orig.skip(0));
        }
        while rest.len() > 0
            invariant
                0 <= i <= total,
                total == orig.len(),
                i + rest@.len() == orig.len(),
                rest@ == orig.skip(i as int),
                pairs@.len() == i,
                forall|j: int| 0 <= j < i ==> model((#[trigger] pairs@[j]).0) == VData::Symbol(
                    orig[j].0@,
                ) && model(pairs@[j].1) == model(orig[j].1),
            decreases rest@.len(),
        {
            let (k, v) = rest.remove(0);
            proof {
                assert(orig.skip(i as int)[0] == orig[i as int]);
                assert(rest@ =~= orig.skip(i as int).skip(1));
                assert(orig.skip(i as int).skip(1) =~= orig.skip(i as int + 1));
            }
            pairs.push((Value::Symbol(k), v));
            i = i + 1;
        }
        let r = Value::Mapping(pairs);
        proof {
            match &r {
                Value::Mapping(ps) => {
                    crate::value::lemma_model_pairs(ps@);
                    assert forall|j: int| 0 <= j < ps@.len() implies model_pairs(ps@)[j]
                        == model_sym_pairs(orig)[j] by {
                        assert(model_pairs(ps@)[j] == (model(ps@[j].0), model(ps@[j].1)));
                        assert(model_sym_pairs(orig)[j] == (
                            VData::Symbol(orig[j].0@),
                            model(orig[j].1),
                        ));
                    }
                    assert(model_pairs(ps@) =~= model_sym_pairs(orig));
                },
                _ => {},
            }
            reveal_with_fuel(crate::value::model, 3);
            assert(model(r) =~~= VData::Mapping(model_sym_pairs(orig)));
        }
        r
    }
}

/// The thirteen field models of a properties section, absent fields as
/// null.
pub open spec fn spec_properties_fields(p: Properties) -> Seq<VData> {
    seq![
        match p.message_id {
            Some(x) => VData::ULong(x),
            None => VData::Null,
        },
        match p.user_id {
            Some(b) => VData::Binary(b@),
            None => VData::Null,
        },
        match p.to {
            Some(s) => VData::Str(s@),
            None => VData::Null,
        },
        match p.subject {
            Some(s) => VData::Str(s@),
            None => VData::Null,
        },
        match p.reply_to {
            Some(s) => VData::Str(s@),
            None => VData::Null,
        },
        match p.correlation_id {
            Some(x) => VData::ULong(x),
            None => VData::Null,
        },
        match p.content_type {
            Some(b) => VData::Symbol(b@),
            None => VData::Null,
        },
        match p.content_encoding {
            Some(b) => VData::Symbol(b@),
            None => VData::Null,
        },
        match p.absolute_expiry_time {
            Some(t) => VData::Timestamp(t),
            None => VData::Null,
        },
        match p.creation_time {
            Some(t) => VData::Timestamp(t),
            None => VData::Null,
        },
        match p.group_id {
            Some(s) => VData::Str(s@),
            None => VData::Null,
        },
        match p.group_sequence {
            Some(x) => VData::UInt(x),
            None => VData::Null,
        },
        match p.reply_to_group_id {
            Some(s) => VData::Str(s@),
            None => VData::Null,
        },
    ]
}

/// The model of a properties section as a described list.
pub open spec fn spec_properties_value(p: Properties) -> VData {
    VData::Described(
        VDescriptor::Code(CODE_PROPERTIES),
        Box::new(VData::List(spec_properties_fields(p))),
    )
}

/// The models of string-keyed entries, elementwise.
pub open spec fn model_str_pairs(s: Seq<(String, Value)>) -> Seq<(VData, VData)> {
    Seq::new(s.len(), |i: int| (VData::Str(s[i].0@), model(s[i].1)))
}

/// The model of an application-properties section as a described map keyed
/// by strings.
pub open spec fn spec_app_properties_value(a: ApplicationProperties) -> VData {
    VData::Described(
        VDescriptor::Code(CODE_APPLICATION_PROPERTIES),
        Box::new(VData::Mapping(model_str_pairs(a.0@))),
    )
}

/// Copies the bytes of a vector.
pub(crate) fn copy_bytes(b: &Vec<u8>) -> (r: Vec<u8>)
    ensures
        r@ == b@,
{
    slice_to_vec(b.as_slice())
}

/// A 64-bit unsigned field value, or null when absent.
fn opt_ulong_value(x: &Option<u64>) -> (r: Value)
    ensures
        model(r) == match *x {
            Some(v) => VData::ULong(v),
            None => VData::Null,
        },
{
    match x {
        Some(v) => Value::ULong(*v),
        None => Value::Null,
    }
}

/// A 32-bit unsigned field value, or null when absent.
fn opt_uint_value(x: &Option<u32>) -> (r: Value)
    ensures
        model(r) == match *x {
            Some(v) => VData::UInt(v),
            None => VData::Null,
        },
{
    match x {
        Some(v) => Value::UInt(*v),
        None => Value::Null,
    }
}

/// A timestamp field value, or null when absent.
fn opt_timestamp_value(x: &Option<i64>) -> (r: Value)
    ensures
        model(r) == match *x {
            Some(v) => VData::Timestamp(v),
            None => VData::Null,
        },
{
    match x {
        Some(v) => Value::Timestamp(*v),
        None => Value::Null,
    }
}

/// A string field value, or null when absent.
fn opt_str_value(x: &Option<String>) -> (r: Value)
    ensures
        model(r) == match x {
            Some(s) => VData::Str(s@),
            None => VData::Null,
        },
{
    match x {
        Some(s) => Value::Str(s.clone()),
        None => Value::Null,
    }
}

/// A binary field value, or null when absent.
fn opt_binary_value(x: &Option<Vec<u8>>) -> (r: Value)
    ensures
        model(r) == match x {
            Some(b) => VData::Binary(b@),
            None => VData::Null,
        },
{
    match x {
        Some(b) => Value::Binary(copy_bytes(b)),
        None => Value::Null,
    }
}

/// A symbol field value, or null when absent.
fn opt_symbol_value(x: &Option<Vec<u8>>) -> (r: Value)
    ensures
        model(r) == match x {
            Some(b) => VData::Symbol(b@),
            None => VData::Null,
        },
{
    match x {
        Some(b) => Value::Symbol(copy_bytes(b)),
        None => Value::Null,
    }
}

impl Properties {
    /// The thirteen field values of the properties, in declared order.
    #[verifier::spinoff_prover]
    #[verifier::rlimit(100)]
    fn field_values(&self) -> (r: Vec<Value>)
        ensures
            model_seq(r@) == spec_properties_fields(*self),
    {
        let mut fields: Vec<Value> = Vec::new();
        fields.push(opt_ulong_value(&self.message_id));
        fields.push(opt_binary_value(&self.user_id));
        fields.push(opt_str_value(&self.to));
        fields.push(opt_str_value(&self.subject));
        fields.push(opt_str_value(&self.reply_to));
        fields.push(opt_ulong_value(&self.correlation_id));
        fields.push(opt_symbol_value(&self.content_type));
        fields.push(opt_symbol_value(&self.content_encoding));
        fields.push(opt_timestamp_value(&self.absolute_expiry_time));
        fields.push(opt_timestamp_value(&self.creation_time));
        fields.push(opt_str_value(&self.group_id));
        fields.push(opt_uint_value(&self.group_sequence));
        fields.push(opt_str_value(&self.reply_to_group_id));
        proof {
            crate::value::lemma_model_seq(fields@);
            assert(fields@.len() == 13);
            assert forall|i: int| 0 <= i < 13 implies model_seq(fields@)[i]
                == spec_properties_fields(*self)[i] by {
                assert(model_seq(fields@)[i] == model(fields@[i]));
            }
            assert(model_seq(fields@) =~= spec_properties_fields(*self));
        }
        fields
    }

    /// The properties as a described list of the thirteen fields, absent
    /// fields spelled as null.
    pub fn to_value(&self) -> (r: Value)
        ensures
            model(r) == spec_properties_value(*self),
    {
        let fields = self.field_values();
        let r = Value::Described(
            Descriptor::Code(CODE_PROPERTIES),
            Box::new(Value::List(fields)),
        );
        proof {
            reveal_with_fuel(crate::value::model, 3);
            assert(model(r) =~~= spec_properties_value(*self));
        }
        r
    }
}

impl ApplicationProperties {
    /// The application properties as a map value keyed by strings.
    pub fn into_map_value(self) -> (r: Value)
        ensures
            model(r) == VData::Mapping(model_str_pairs(self.0@)),
    {
        let ghost orig = self.0@;
        let mut rest = self.0;
        let total = rest.len();
        let mut pairs: Vec<(Value, Value)> = Vec::new();
        let mut i: usize = 0;
        proof {
            assert(rest@ =~= orig.skip(0));
        }
        while rest.len() > 0
            invariant
                0 <= i <= total,
                total == orig.len(),
                i + rest@.len() == orig.len(),
                rest@ == orig.skip(i as int),
                pairs@.len() == i,
                forall|j: int| 0 <= j < i ==> model((#[trigger] pairs@[j]).0) == VData::Str(
                    orig[j].0@,
                ) && model(pairs@[j].1) == model(orig[j].1),
            decreases rest@.len(),
        {
            let (k, v) = rest.remove(0);
            proof {
                assert(orig.skip(i as int)[0] == orig[i as int]);
                assert(rest@ =~= orig.skip(i as int).skip(1));
                assert(orig.skip(i as int).skip(1) =~= orig.skip(i as int + 1));
            }
            pairs.push((Value::Str(k), v));
            i = i + 1;
        }
        let r = Value::Mapping(pairs);
        proof {
            match &r {
                Value::Mapping(ps) => {
                    crate::value::lemma_model_pairs(ps@);
                    assert forall|j: int| 0 <= j < ps@.len() implies model_pairs(ps@)[j]
                        == model_str_pairs(orig)[j] by {
                        assert(model_pairs(ps@)[j] == (model(ps@[j].0), model(ps@[j].1)));
                        assert(model_str_pairs(orig)[j] == (
                            VData::Str(orig[j].0@),
                            model(orig[j].1),
                        ));
                    }
                    assert(model_pairs(ps@) =~= model_str_pairs(orig));
                },
                _ => {},
            }
            reveal_with_fuel(crate::value::model, 3);
            assert(model(r) =~~= VData::Mapping(model_str_pairs(orig)));
        }
        r
    }
}

/// The section values of a message in wire order: each present section as a
/// described value, the body in the middle, the footer last.
pub open spec fn spec_message_sections(m: Message) -> Seq<VData> {
    let hdr: Seq<VData> = match m.header {
        Some(h) => seq![spec_header_value(h)],
        None => Seq::empty(),
    };
    let da: Seq<VData> = match m.delivery_annotations {
        Some(a) => seq![spec_annotations_value(CODE_DELIVERY_ANNOTATIONS, a.0)],
        None => Seq::empty(),
    };
    let ma: Seq<VData> = match m.message_annotations {
        Some(a) => seq![spec_annotations_value(CODE_MESSAGE_ANNOTATIONS, a.0)],
        None => Seq::empty(),
    };
    let pr: Seq<VData> = match m.properties {
        Some(p) => seq![spec_properties_value(p)],
        None => Seq::empty(),
    };
    let ap: Seq<VData> = match m.application_properties {
        Some(a) => seq![spec_app_properties_value(a)],
        None => Seq::empty(),
    };
    let body: Seq<VData> = seq![spec_body_value(m.body_section)];
    let ft: Seq<VData> = match m.footer {
        Some(a) => seq![spec_annotations_value(CODE_FOOTER, a.0)],
        None => Seq::empty(),
    };
    hdr + da + ma + pr + ap + body + ft
}

/// The model of a body section as a described value.
pub open spec fn spec_body_value(b: BodySection) -> VData {
    match b {
        BodySection::Data(d) => VData::Described(
            VDescriptor::Code(CODE_DATA),
            Box::new(VData::Binary(d.0@)),
        ),
        BodySection::Sequence(sq) => VData::Described(
            VDescriptor::Code(CODE_AMQP_SEQUENCE),
            Box::new(VData::List(model_seq(sq.0@))),
        ),
        BodySection::Value(av) => VData::Described(
            VDescriptor::Code(CODE_AMQP_VALUE),
            Box::new(model(av.0)),
        ),
    }
}

impl BodySection {
    /// The body section as a described value.
    pub fn to_value(self) -> (r: Value)
        ensures
            model(r) == spec_body_value(self),
    {
        let ghost this = self;
        let r = match self {
            BodySection::Data(d) => Value::Described(
                Descriptor::Code(CODE_DATA),
                Box::new(Value::Binary(d.0)),
            ),
            BodySection::Sequence(sq) => Value::Described(
                Descriptor::Code(CODE_AMQP_SEQUENCE),
                Box::new(Value::List(sq.0)),
            ),
            BodySection::Value(av) => Value::Described(
                Descriptor::Code(CODE_AMQP_VALUE),
                Box::new(av.0),
            ),
        };
        proof {
            reveal_with_fuel(crate::value::model, 3);
            assert(model(r) =~~= spec_body_value(this));
        }
        r
    }
}

/// Encodes the sections of a message, in wire order, into the values that
/// the codec then writes: every present section, the mandatory body among
/// them, in the order header, delivery-annotations, message-annotations,
/// properties, application-properties, body, footer.
pub fn message_to_values(m: Message) -> (r: Vec<Value>)
    ensures
        model_seq(r@) == spec_message_sections(m),
{
    let mut out: Vec<Value> = Vec::new();
    let Message {
        header,
        delivery_annotations,
        message_annotations,
        properties,
        application_properties,
        body_section,
        footer,
    } = m;
    let ghost hdr_s: Seq<VData> = match &header {
        Some(h) => seq![spec_header_value(*h)],
        None => Seq::empty(),
    };
    let ghost da_s: Seq<VData> = match &delivery_annotations {
        Some(a) => seq![spec_annotations_value(CODE_DELIVERY_ANNOTATIONS, a.0)],
        None => Seq::empty(),
    };
    let ghost ma_s: Seq<VData> = match &message_annotations {
        Some(a) => seq![spec_annotations_value(CODE_MESSAGE_ANNOTATIONS, a.0)],
        None => Seq::empty(),
    };
    let ghost pr_s: Seq<VData> = match &properties {
        Some(p) => seq![spec_properties_value(*p)],
        None => Seq::empty(),
    };
    let ghost ap_s: Seq<VData> = match &application_properties {
        Some(a) => seq![spec_app_properties_value(*a)],
        None => Seq::empty(),
    };
    let ghost body_s: Seq<VData> = seq![spec_body_value(body_section)];
    let ghost ft_s: Seq<VData> = match &footer {
        Some(a) => seq![spec_annotations_value(CODE_FOOTER, a.0)],
        None => Seq::empty(),
    };
    match &header {
        Some(h) => {
            let v = h.to_value();
            let ghost pv = v;
            out.push(v);
            proof {
                crate::value::lemma_model_seq_push(Seq::empty(), pv);
                crate::value::lemma_model_seq(out@);
                assert(model_seq(out@) =~= hdr_s);
            }
        },
        None => {
            proof {
                crate::value::lemma_model_seq(out@);
                assert(model_seq(out@) =~= hdr_s);
            }
        },
    }
    match delivery_annotations {
        Some(a) => {
            let ghost before = out@;
            let v = Value::Described(
                Descriptor::Code(CODE_DELIVERY_ANNOTATIONS),
                Box::new(a.0.into_map_value()),
            );
            let ghost pv = v;
            out.push(v);
            proof {
                crate::value::lemma_model_seq_push(before, pv);
                reveal_with_fuel(crate::value::model, 3);
                assert(model_seq(out@) =~= hdr_s + da_s);
            }
        },
        None => {
            proof {
                assert(model_seq(out@) =~= hdr_s + da_s);
            }
        },
    }
    match message_annotations {
        Some(a) => {
            let ghost before = out@;
            let v = Value::Described(
                Descriptor::Code(CODE_MESSAGE_ANNOTATIONS),
                Box::new(a.0.into_map_value()),
            );
            let ghost pv = v;
            out.push(v);
            proof {
                crate::value::lemma_model_seq_push(before, pv);
                reveal_with_fuel(crate::value::model, 3);
                assert(model_seq(out@) =~= hdr_s + da_s + ma_s);
            }
        },
        None => {
            proof {
                assert(model_seq(out@) =~= hdr_s + da_s + ma_s);
            }
        },
    }
    match &properties {
        Some(p) => {
            let ghost before = out@;
            let v = p.to_value();
            let ghost pv = v;
            out.push(v);
            proof {
                crate::value::lemma_model_seq_push(before, pv);
                assert(model_seq(out@) =~= hdr_s + da_s + ma_s + pr_s);
            }
        },
        None => {
            proof {
                assert(model_seq(out@) =~= hdr_s + da_s + ma_s + pr_s);
            }
        },
    }
    match application_properties {
        Some(a) => {
            let ghost before = out@;
            let v = Value::Described(
                Descriptor::Code(CODE_APPLICATION_PROPERTIES),
                Box::new(a.into_map_value()),
            );
            let ghost pv = v;
            out.push(v);
            proof {
                crate::value::lemma_model_seq_push(before, pv);
                reveal_with_fuel(crate::value::model, 3);
                assert(model_seq(out@) =~= hdr_s + da_s + ma_s + pr_s + ap_s);
            }
        },
        None => {
            proof {
                assert(model_seq(out@) =~= hdr_s + da_s + ma_s + pr_s + ap_s);
            }
        },
    }
    let ghost before_body = out@;
    let bv = body_section.to_value();
    let ghost pbv = bv;
    out.push(bv);
    proof {
        crate::value::lemma_model_seq_push(before_body, pbv);
        assert(model_seq(out@) =~= hdr_s + da_s + ma_s + pr_s + ap_s + body_s);
    }
    match footer {
        Some(a) => {
            let ghost before = out@;
            let v = Value::Described(
                Descriptor::Code(CODE_FOOTER),
                Box::new(a.0.into_map_value()),
            );
            let ghost pv = v;
            out.push(v);
            proof {
                crate::value::lemma_model_seq_push(before, pv);
                reveal_with_fuel(crate::value::model, 3);
                assert(model_seq(out@) =~= hdr_s + da_s + ma_s + pr_s + ap_s + body_s
                    + ft_s);
            }
        },
        None => {
            proof {
                assert(model_seq(out@) =~= hdr_s + da_s + ma_s + pr_s + ap_s + body_s
                    + ft_s);
            }
        },
    }
    proof {
        assert(spec_message_sections(m) == hdr_s + da_s + ma_s + pr_s + ap_s + body_s
            + ft_s);
    }
    out
}

} // verus!

verus! {

/// The descriptor code a section value carries, when it is a described
/// value with a numeric descriptor.
pub open spec fn spec_section_code(m: VData) -> Option<u64> {
    match m {
        VData::Described(d, _) => match d {
            VDescriptor::Code(c) => Some(c),
            VDescriptor::Name(_) => None,
        },
        _ => None,
    }
}

/// Reads the descriptor code of a section value without consuming it.
fn peek_section_code(v: &Value) -> (r: Option<u64>)
    ensures
        r == spec_section_code(model(*v)),
{
    match v {
        Value::Described(Descriptor::Code(c), _) => Some(*c),
        _ => None,
    }
}

/// Whether a value is the canonical shape of a header section: a described
/// list of the five header fields.
pub open spec fn spec_is_header_value(m: VData) -> bool {
    m matches VData::Described(d, inner) && d == VDescriptor::Code(CODE_HEADER) && (
    (*inner) matches VData::List(fs) && fs.len() == 5 && (fs[0] is Bool) && (fs[1] is UByte)
        && ((fs[2] is Null) || (fs[2] is UInt)) && (fs[3] is Bool) && (fs[4] is UInt))
}

/// Recovers a header from its section value. Succeeds exactly on the
/// canonical shape, and the recovered header's section value is the input.
#[verifier::spinoff_prover]
#[verifier::rlimit(100)]
pub fn header_from_value(v: Value) -> (r: Result<Header, Error>)
    ensures
        r is Ok <==> spec_is_header_value(model(v)),
        r matches Ok(h) ==> spec_header_value(h) == model(v),
        r matches Err(e) ==> e == Error::DescriptorMismatch,
{
    let ghost mv = model(v);
    proof {
        reveal_with_fuel(crate::value::model, 3);
    }
    match v {
        Value::Described(Descriptor::Code(c), inner) => {
            if c != CODE_HEADER {
                return Err(Error::DescriptorMismatch);
            }
            match *inner {
                Value::List(fields) => {
                    proof {
                        crate::value::lemma_model_seq(fields@);
                    }
                    if fields.len() != 5 {
                        return Err(Error::DescriptorMismatch);
                    }
                    let durable = match &fields[0] {
                        Value::Bool(b) => *b,
                        _ => {
                            return Err(Error::DescriptorMismatch);
                        },
                    };
                    let priority = match &fields[1] {
                        Value::UByte(x) => Priority(*x),
                        _ => {
                            return Err(Error::DescriptorMismatch);
                        },
                    };
                    let ttl = match &fields[2] {
                        Value::Null => None,
                        Value::UInt(x) => Some(Milliseconds(*x)),
                        _ => {
                            return Err(Error::DescriptorMismatch);
                        },
                    };
                    let first_acquirer = match &fields[3] {
                        Value::Bool(b) => *b,
                        _ => {
                            return Err(Error::DescriptorMismatch);
                        },
                    };
                    let delivery_count = match &fields[4] {
                        Value::UInt(x) => *x,
                        _ => {
                            return Err(Error::DescriptorMismatch);
                        },
                    };
                    let h = Header { durable, priority, ttl, first_acquirer, delivery_count };
                    proof {
                        assert(spec_header_fields(h) =~= model_seq(fields@));
                        assert(spec_header_value(h) =~~= mv);
                    }
                    Ok(h)
                },
                _ => Err(Error::DescriptorMismatch),
            }
        },
        _ => Err(Error::DescriptorMismatch),
    }
}

/// Whether a value is the canonical shape of an annotations section under
/// the given descriptor code: a described map whose keys are all symbols.
pub open spec fn spec_is_annotations_value(code: u64, m: VData) -> bool {
    m matches VData::Described(d, inner) && d == VDescriptor::Code(code) && ((*inner)
        matches VData::Mapping(ps) && forall|i: int| 0 <= i < ps.len()
        ==> (#[trigger] ps[i]).0 is Symbol)
}

/// Recovers an annotations map from its section value under the given
/// descriptor code. Succeeds exactly on the canonical shape, and the
/// recovered annotations' section value is the input.
#[verifier::spinoff_prover]
#[verifier::rlimit(100)]
pub fn annotations_from_value(code: u64, v: Value) -> (r: Result<Annotations, Error>)
    ensures
        r is Ok <==> spec_is_annotations_value(code, model(v)),
        r matches Ok(a) ==> spec_annotations_value(code, a) == model(v),
        r matches Err(e) ==> e == Error::DescriptorMismatch,
{
    let ghost mv = model(v);
    proof {
        reveal_with_fuel(crate::value::model, 3);
    }
    match v {
        Value::Described(Descriptor::Code(c), inner) => {
            if c != code {
                return Err(Error::DescriptorMismatch);
            }
            match *inner {
                Value::Mapping(ps) => {
                    let ghost orig = ps@;
                    proof {
                        crate::value::lemma_model_pairs(orig);
                    }
                    let mut rest = ps;
                    let total = rest.len();
                    let mut out: Vec<(Vec<u8>, Value)> = Vec::new();
                    let mut i: usize = 0;
                    proof {
                        reveal_with_fuel(crate::value::model, 3);
                        assert(rest@ =~= orig.skip(0));
                        assert(mv == VData::Described(
                            VDescriptor::Code(code),
                            Box::new(VData::Mapping(model_pairs(orig))),
                        ));
                    }
                    while rest.len() > 0
                        invariant
                            0 <= i <= total,
                            total == orig.len(),
                            i + rest@.len() == orig.len(),
                            rest@ == orig.skip(i as int),
                            out@.len() == i,
                            mv == model(v),
                            mv == VData::Described(
                                VDescriptor::Code(code),
                                Box::new(VData::Mapping(model_pairs(orig))),
                            ),
                            forall|j: int| 0 <= j < i ==> (#[trigger] model_pairs(orig)[j]).0
                                == VData::Symbol(out@[j].0@) && model_pairs(orig)[j].1
                                == model(out@[j].1),
                        decreases rest@.len(),
                    {
                        let (k, val) = rest.remove(0);
                        proof {
                            assert(orig.skip(i as int)[0] == orig[i as int]);
                            assert(rest@ =~= orig.skip(i as int).skip(1));
                            assert(orig.skip(i as int).skip(1) =~= orig.skip(i as int + 1));
                            crate::value::lemma_model_pairs(orig);
                        }
                        match k {
                            Value::Symbol(kb) => {
                                out.push((kb, val));
                            },
                            _ => {
                                proof {
                                    reveal_with_fuel(crate::value::model, 3);
                                    assert(mv == VData::Described(
                                        VDescriptor::Code(code),
                                        Box::new(VData::Mapping(model_pairs(orig))),
                                    ));
                                    assert(model_pairs(orig)[i as int].0 == model(k));
                                    assert(!(model(k) is Symbol));
                                    assert(!(model_pairs(orig)[i as int].0 is Symbol));
                                    assert(!spec_is_annotations_value(code, mv));
                                }
                                return Err(Error::DescriptorMismatch);
                            },
                        }
                        i = i + 1;
                    }
                    let a = Annotations(out);
                    proof {
                        reveal_with_fuel(crate::value::model, 3);
                        assert forall|j: int| 0 <= j < orig.len() implies model_sym_pairs(
                            a.0@,
                        )[j] == model_pairs(orig)[j] by {
                            assert(model_sym_pairs(a.0@)[j] == (
                                VData::Symbol(a.0@[j].0@),
                                model(a.0@[j].1),
                            ));
                        }
                        assert(model_sym_pairs(a.0@) =~= model_pairs(orig));
                        assert(spec_annotations_value(code, a) =~~= mv);
                        assert forall|j: int| 0 <= j < orig.len() implies (
                        #[trigger] model_pairs(orig)[j]).0 is Symbol by {}
                    }
                    Ok(a)
                },
                _ => Err(Error::DescriptorMismatch),
            }
        },
        _ => Err(Error::DescriptorMismatch),
    }
}

/// Whether a value is the canonical shape of a body section: one of the
/// three body descriptors around the matching payload shape.
pub open spec fn spec_is_body_value(m: VData) -> bool {
    m matches VData::Described(d, inner) && ((d == VDescriptor::Code(CODE_DATA) && (*inner)
        is Binary) || (d == VDescriptor::Code(CODE_AMQP_SEQUENCE) && (*inner) is List) || d
        == VDescriptor::Code(CODE_AMQP_VALUE))
}

/// Recovers a body section from its section value. Succeeds exactly on the
/// three body shapes, and the recovered body's section value is the input.
#[verifier::spinoff_prover]
#[verifier::rlimit(100)]
pub fn body_section_from_value(v: Value) -> (r: Result<BodySection, Error>)
    ensures
        r is Ok <==> spec_is_body_value(model(v)),
        r matches Ok(b) ==> spec_body_value(b) == model(v),
        r matches Err(e) ==> e == Error::DescriptorMismatch,
{
    let ghost mv = model(v);
    proof {
        reveal_with_fuel(crate::value::model, 3);
    }
    match v {
        Value::Described(Descriptor::Code(c), inner) => {
            if c == CODE_DATA {
                match *inner {
                    Value::Binary(b) => {
                        let r = BodySection::Data(Data(b));
                        proof {
                            assert(spec_body_value(r) =~~= mv);
                        }
                        Ok(r)
                    },
                    _ => Err(Error::DescriptorMismatch),
                }
            } else if c == CODE_AMQP_SEQUENCE {
                match *inner {
                    Value::List(es) => {
                        let r = BodySection::Sequence(AmqpSequence(es));
                        proof {
                            assert(spec_body_value(r) =~~= mv);
                        }
                        Ok(r)
                    },
                    _ => Err(Error::DescriptorMismatch),
                }
            } else if c == CODE_AMQP_VALUE {
                let r = BodySection::Value(AmqpValue(*inner));
                proof {
                    assert(spec_body_value(r) =~~= mv);
                }
                Ok(r)
            } else {
                Err(Error::DescriptorMismatch)
            }
        },
        _ => Err(Error::DescriptorMismatch),
    }
}

} // verus!

verus! {

/// A 64-bit unsigned field read back, with null for an absent field.
fn opt_ulong_from(f: &Value) -> (r: Result<Option<u64>, Error>)
    ensures
        r is Ok <==> (model(*f) is Null || model(*f) is ULong),
        r matches Ok(x) ==> (match x {
            Some(v) => VData::ULong(v),
            None => VData::Null,
        }) == model(*f),
        r matches Err(e) ==> e == Error::DescriptorMismatch,
{
    match f {
        Value::Null => Ok(None),
        Value::ULong(x) => Ok(Some(*x)),
        _ => Err(Error::DescriptorMismatch),
    }
}

/// A 32-bit unsigned field read back, with null for an absent field.
fn opt_uint_from(f: &Value) -> (r: Result<Option<u32>, Error>)
    ensures
        r is Ok <==> (model(*f) is Null || model(*f) is UInt),
        r matches Ok(x) ==> (match x {
            Some(v) => VData::UInt(v),
            None => VData::Null,
        }) == model(*f),
        r matches Err(e) ==> e == Error::DescriptorMismatch,
{
    match f {
        Value::Null => Ok(None),
        Value::UInt(x) => Ok(Some(*x)),
        _ => Err(Error::DescriptorMismatch),
    }
}

/// A timestamp field read back, with null for an absent field.
fn opt_timestamp_from(f: &Value) -> (r: Result<Option<i64>, Error>)
    ensures
        r is Ok <==> (model(*f) is Null || model(*f) is Timestamp),
        r matches Ok(x) ==> (match x {
            Some(v) => VData::Timestamp(v),
            None => VData::Null,
        }) == model(*f),
        r matches Err(e) ==> e == Error::DescriptorMismatch,
{
    match f {
        Value::Null => Ok(None),
        Value::Timestamp(x) => Ok(Some(*x)),
        _ => Err(Error::DescriptorMismatch),
    }
}

/// A string field read back, with null for an absent field.
fn opt_str_from(f: &Value) -> (r: Result<Option<String>, Error>)
    ensures
        r is Ok <==> (model(*f) is Null || model(*f) is Str),
        r matches Ok(x) ==> (match x {
            Some(s) => VData::Str(s@),
            None => VData::Null,
        }) == model(*f),
        r matches Err(e) ==> e == Error::DescriptorMismatch,
{
    match f {
        Value::Null => Ok(None),
        Value::Str(s) => Ok(Some(s.clone())),
        _ => Err(Error::DescriptorMismatch),
    }
}

/// A binary field read back, with null for an absent field.
fn opt_binary_from(f: &Value) -> (r: Result<Option<Vec<u8>>, Error>)
    ensures
        r is Ok <==> (model(*f) is Null || model(*f) is Binary),
        r matches Ok(x) ==> (match x {
            Some(b) => VData::Binary(b@),
            None => VData::Null,
        }) == model(*f),
        r matches Err(e) ==> e == Error::DescriptorMismatch,
{
    match f {
        Value::Null => Ok(None),
        Value::Binary(b) => Ok(Some(copy_bytes(b))),
        _ => Err(Error::DescriptorMismatch),
    }
}

/// A symbol field read back, with null for an absent field.
fn opt_symbol_from(f: &Value) -> (r: Result<Option<Vec<u8>>, Error>)
    ensures
        r is Ok <==> (model(*f) is Null || model(*f) is Symbol),
        r matches Ok(x) ==> (match x {
            Some(b) => VData::Symbol(b@),
            None => VData::Null,
        }) == model(*f),
        r matches Err(e) ==> e == Error::DescriptorMismatch,
{
    match f {
        Value::Null => Ok(None),
        Value::Symbol(b) => Ok(Some(copy_bytes(b))),
        _ => Err(Error::DescriptorMismatch),
    }
}

/// Whether a value is the canonical shape of a properties section: a
/// described list of the thirteen fields, each its own shape or null.
pub open spec fn spec_is_properties_value(m: VData) -> bool {
    m matches VData::Described(d, inner) && d == VDescriptor::Code(CODE_PROPERTIES) && (
    (*inner) matches VData::List(fs) && fs.len() == 13 && (fs[0] is Null || fs[0] is ULong)
        && (fs[1] is Null || fs[1] is Binary) && (fs[2] is Null || fs[2] is Str) && (
    fs[3] is Null || fs[3] is Str) && (fs[4] is Null || fs[4] is Str) && (fs[5] is Null
        || fs[5] is ULong) && (fs[6] is Null || fs[6] is Symbol) && (fs[7] is Null
        || fs[7] is Symbol) && (fs[8] is Null || fs[8] is Timestamp) && (fs[9] is Null
        || fs[9] is Timestamp) && (fs[10] is Null || fs[10] is Str) && (fs[11] is Null
        || fs[11] is UInt) && (fs[12] is Null || fs[12] is Str))
}

/// Recovers a properties section from its section value. Succeeds exactly
/// on the canonical shape, and the recovered properties' section value is
/// the input.
#[verifier::spinoff_prover]
#[verifier::rlimit(100)]
pub fn properties_from_value(v: Value) -> (r: Result<Properties, Error>)
    ensures
        r is Ok <==> spec_is_properties_value(model(v)),
        r matches Ok(p) ==> spec_properties_value(p) == model(v),
        r matches Err(e) ==> e == Error::DescriptorMismatch,
{
    let ghost mv = model(v);
    proof {
        reveal_with_fuel(crate::value::model, 3);
    }
    match v {
        Value::Described(Descriptor::Code(c), inner) => {
            if c != CODE_PROPERTIES {
                return Err(Error::DescriptorMismatch);
            }
            match *inner {
                Value::List(fields) => {
                    proof {
                        crate::value::lemma_model_seq(fields@);
                    }
                    if fields.len() != 13 {
                        return Err(Error::DescriptorMismatch);
                    }
                    let message_id = match opt_ulong_from(&fields[0]) {
                        Ok(x) => x,
                        Err(e) => {
                            return Err(e);
                        },
                    };
                    let user_id = match opt_binary_from(&fields[1]) {
                        Ok(x) => x,
                        Err(e) => {
                            return Err(e);
                        },
                    };
                    let to = match opt_str_from(&fields[2]) {
                        Ok(x) => x,
                        Err(e) => {
                            return Err(e);
                        },
                    };
                    let subject = match opt_str_from(&fields[3]) {
                        Ok(x) => x,
                        Err(e) => {
                            return Err(e);
                        },
                    };
                    let reply_to = match opt_str_from(&fields[4]) {
                        Ok(x) => x,
                        Err(e) => {
                            return Err(e);
                        },
                    };
                    let correlation_id = match opt_ulong_from(&fields[5]) {
                        Ok(x) => x,
                        Err(e) => {
                            return Err(e);
                        },
                    };
                    let content_type = match opt_symbol_from(&fields[6]) {
                        Ok(x) => x,
                        Err(e) => {
                            return Err(e);
                        },
                    };
                    let content_encoding = match opt_symbol_from(&fields[7]) {
                        Ok(x) => x,
                        Err(e) => {
                            return Err(e);
                        },
                    };
                    let absolute_expiry_time = match opt_timestamp_from(&fields[8]) {
                        Ok(x) => x,
                        Err(e) => {
                            return Err(e);
                        },
                    };
                    let creation_time = match opt_timestamp_from(&fields[9]) {
                        Ok(x) => x,
                        Err(e) => {
                            return Err(e);
                        },
                    };
                    let group_id = match opt_str_from(&fields[10]) {
                        Ok(x) => x,
                        Err(e) => {
                            return Err(e);
                        },
                    };
                    let group_sequence = match opt_uint_from(&fields[11]) {
                        Ok(x) => x,
                        Err(e) => {
                            return Err(e);
                        },
                    };
                    let reply_to_group_id = match opt_str_from(&fields[12]) {
                        Ok(x) => x,
                        Err(e) => {
                            return Err(e);
                        },
                    };
                    let p = Properties {
                        message_id,
                        user_id,
                        to,
                        subject,
                        reply_to,
                        correlation_id,
                        content_type,
                        content_encoding,
                        absolute_expiry_time,
                        creation_time,
                        group_id,
                        group_sequence,
                        reply_to_group_id,
                    };
                    proof {
                        assert(spec_properties_fields(p) =~= model_seq(fields@));
                        assert(spec_properties_value(p) =~~= mv);
                    }
                    Ok(p)
                },
                _ => Err(Error::DescriptorMismatch),
            }
        },
        _ => Err(Error::DescriptorMismatch),
    }
}

/// Whether a value is the canonical shape of an application-properties
/// section: a described map whose keys are all strings.
pub open spec fn spec_is_app_properties_value(m: VData) -> bool {
    m matches VData::Described(d, inner) && d == VDescriptor::Code(
        CODE_APPLICATION_PROPERTIES,
    ) && ((*inner) matches VData::Mapping(ps) && forall|i: int| 0 <= i < ps.len()
        ==> (#[trigger] ps[i]).0 is Str)
}

/// Recovers an application-properties section from its section value.
/// Succeeds exactly on the canonical shape, and the recovered section's
/// value is the input.
#[verifier::spinoff_prover]
#[verifier::rlimit(100)]
pub fn app_properties_from_value(v: Value) -> (r: Result<ApplicationProperties, Error>)
    ensures
        r is Ok <==> spec_is_app_properties_value(model(v)),
        r matches Ok(a) ==> spec_app_properties_value(a) == model(v),
        r matches Err(e) ==> e == Error::DescriptorMismatch,
{
    let ghost mv = model(v);
    proof {
        reveal_with_fuel(crate::value::model, 3);
    }
    match v {
        Value::Described(Descriptor::Code(c), inner) => {
            if c != CODE_APPLICATION_PROPERTIES {
                return Err(Error::DescriptorMismatch);
            }
            match *inner {
                Value::Mapping(ps) => {
                    let ghost orig = ps@;
                    proof {
                        crate::value::lemma_model_pairs(orig);
                    }
                    let mut rest = ps;
                    let total = rest.len();
                    let mut out: Vec<(String, Value)> = Vec::new();
                    let mut i: usize = 0;
                    proof {
                        reveal_with_fuel(crate::value::model, 3);
                        assert(rest@ =~= orig.skip(0));
                        assert(mv == VData::Described(
                            VDescriptor::Code(CODE_APPLICATION_PROPERTIES),
                            Box::new(VData::Mapping(model_pairs(orig))),
                        ));
                    }
                    while rest.len() > 0
                        invariant
                            0 <= i <= total,
                            total == orig.len(),
                            i + rest@.len() == orig.len(),
                            rest@ == orig.skip(i as int),
                            out@.len() == i,
                            mv == model(v),
                            mv == VData::Described(
                                VDescriptor::Code(CODE_APPLICATION_PROPERTIES),
                                Box::new(VData::Mapping(model_pairs(orig))),
                            ),
                            forall|j: int| 0 <= j < i ==> (#[trigger] model_pairs(orig)[j]).0
                                == VData::Str(out@[j].0@) && model_pairs(orig)[j].1 == model(
                                out@[j].1,
                            ),
                        decreases rest@.len(),
                    {
                        let (k, val) = rest.remove(0);
                        proof {
                            assert(orig.skip(i as int)[0] == orig[i as int]);
                            assert(rest@ =~= orig.skip(i as int).skip(1));
                            assert(orig.skip(i as int).skip(1) =~= orig.skip(i as int + 1));
                            crate::value::lemma_model_pairs(orig);
                        }
                        match k {
                            Value::Str(ks) => {
                                out.push((ks, val));
                            },
                            _ => {
                                proof {
                                    reveal_with_fuel(crate::value::model, 3);
                                    assert(model_pairs(orig)[i as int].0 == model(k));
                                    assert(!(model(k) is Str));
                                    assert(!spec_is_app_properties_value(mv));
                                }
                                return Err(Error::DescriptorMismatch);
                            },
                        }
                        i = i + 1;
                    }
                    let a = ApplicationProperties(out);
                    proof {
                        reveal_with_fuel(crate::value::model, 3);
                        assert forall|j: int| 0 <= j < orig.len() implies model_str_pairs(
                            a.0@,
                        )[j] == model_pairs(orig)[j] by {
                            assert(model_str_pairs(a.0@)[j] == (
                                VData::Str(a.0@[j].0@),
                                model(a.0@[j].1),
                            ));
                        }
                        assert(model_str_pairs(a.0@) =~= model_pairs(orig));
                        assert(spec_app_properties_value(a) =~~= mv);
                        assert forall|j: int| 0 <= j < orig.len() implies (
                        #[trigger] model_pairs(orig)[j]).0 is Str by {}
                    }
                    Ok(a)
                },
                _ => Err(Error::DescriptorMismatch),
            }
        },
        _ => Err(Error::DescriptorMismatch),
    }
}

} // verus!


verus! {

/// The position after the optional header of a section run.
pub open spec fn spec_p1(ms: Seq<VData>) -> int {
    if 0 < ms.len() && spec_section_code(ms[0]) == Some(CODE_HEADER) {
        1int
    } else {
        0int
    }
}

/// The position after the optional delivery annotations.
pub open spec fn spec_p2(ms: Seq<VData>) -> int {
    let p = spec_p1(ms);
    if p < ms.len() && spec_section_code(ms[p]) == Some(CODE_DELIVERY_ANNOTATIONS) {
        p + 1
    } else {
        p
    }
}

/// The position after the optional message annotations.
pub open spec fn spec_p3(ms: Seq<VData>) -> int {
    let p = spec_p2(ms);
    if p < ms.len() && spec_section_code(ms[p]) == Some(CODE_MESSAGE_ANNOTATIONS) {
        p + 1
    } else {
        p
    }
}

/// The position after the optional properties.
pub open spec fn spec_p4(ms: Seq<VData>) -> int {
    let p = spec_p3(ms);
    if p < ms.len() && spec_section_code(ms[p]) == Some(CODE_PROPERTIES) {
        p + 1
    } else {
        p
    }
}

/// The position of the body: after the optional application properties.
pub open spec fn spec_p5(ms: Seq<VData>) -> int {
    let p = spec_p4(ms);
    if p < ms.len() && spec_section_code(ms[p]) == Some(CODE_APPLICATION_PROPERTIES) {
        p + 1
    } else {
        p
    }
}

/// The position after the optional footer that follows the body.
pub open spec fn spec_p7(ms: Seq<VData>) -> int {
    let p = spec_p5(ms);
    if p + 1 < ms.len() && spec_section_code(ms[p + 1]) == Some(CODE_FOOTER) {
        p + 2
    } else {
        p + 1
    }
}

/// Whether the sections before the body are each in canonical shape at
/// their place.
pub open spec fn spec_leading_ok(ms: Seq<VData>) -> bool {
    &&& (spec_p1(ms) == 1 ==> spec_is_header_value(ms[0]))
    &&& (spec_p2(ms) == spec_p1(ms) + 1 ==> spec_is_annotations_value(
        CODE_DELIVERY_ANNOTATIONS,
        ms[spec_p1(ms)],
    ))
    &&& (spec_p3(ms) == spec_p2(ms) + 1 ==> spec_is_annotations_value(
        CODE_MESSAGE_ANNOTATIONS,
        ms[spec_p2(ms)],
    ))
    &&& (spec_p4(ms) == spec_p3(ms) + 1 ==> spec_is_properties_value(ms[spec_p3(ms)]))
    &&& (spec_p5(ms) == spec_p4(ms) + 1 ==> spec_is_app_properties_value(ms[spec_p4(ms)]))
}

/// Whether a run of section values is a message in wire order: at most one
/// of each optional section, each at its place and in its canonical shape,
/// exactly one body section, and nothing after the footer.
pub open spec fn spec_parses_sections(ms: Seq<VData>) -> bool {
    &&& spec_leading_ok(ms)
    &&& spec_p5(ms) < ms.len()
    &&& spec_is_body_value(ms[spec_p5(ms)])
    &&& (spec_p7(ms) == spec_p5(ms) + 2 ==> spec_is_annotations_value(
        CODE_FOOTER,
        ms[spec_p5(ms) + 1],
    ))
    &&& spec_p7(ms) == ms.len()
}

/// Whether a value's descriptor code is the given one.
fn code_is(v: &Value, c: u64) -> (r: bool)
    ensures
        r == (spec_section_code(model(*v)) == Some(c)),
{
    match v {
        Value::Described(Descriptor::Code(x), _) => *x == c,
        _ => false,
    }
}

/// The sections a message may open with, before its body.
pub struct LeadingSections {
    /// The transport header.
    pub header: Option<Header>,
    /// Delivery-specific annotations.
    pub delivery_annotations: Option<DeliveryAnnotations>,
    /// Annotations about the message.
    pub message_annotations: Option<MessageAnnotations>,
    /// The immutable properties.
    pub properties: Option<Properties>,
    /// Application-defined properties.
    pub application_properties: Option<ApplicationProperties>,
}

/// The section values of the leading sections, in wire order.
pub open spec fn spec_leading_sections(l: LeadingSections) -> Seq<VData> {
    let hdr: Seq<VData> = match l.header {
        Some(h) => seq![spec_header_value(h)],
        None => Seq::empty(),
    };
    let da: Seq<VData> = match l.delivery_annotations {
        Some(a) => seq![spec_annotations_value(CODE_DELIVERY_ANNOTATIONS, a.0)],
        None => Seq::empty(),
    };
    let ma: Seq<VData> = match l.message_annotations {
        Some(a) => seq![spec_annotations_value(CODE_MESSAGE_ANNOTATIONS, a.0)],
        None => Seq::empty(),
    };
    let pr: Seq<VData> = match l.properties {
        Some(p) => seq![spec_properties_value(p)],
        None => Seq::empty(),
    };
    let ap: Seq<VData> = match l.application_properties {
        Some(a) => seq![spec_app_properties_value(a)],
        None => Seq::empty(),
    };
    hdr + da + ma + pr + ap
}

/// Recovers the sections before the body, consuming them from the front of
/// the run. Succeeds exactly when each section standing there is in its
/// canonical shape; the recovered sections' values are exactly the
/// consumed prefix.
#[verifier::spinoff_prover]
#[verifier::rlimit(100)]
fn leading_from_values(rest: &mut Vec<Value>) -> (r: Result<LeadingSections, Error>)
    ensures
        r is Ok <==> spec_leading_ok(model_seq(old(rest)@)),
        r matches Ok(l) ==> {
            let ms = model_seq(old(rest)@);
            &&& spec_leading_sections(l) == ms.take(spec_p5(ms))
            &&& final(rest)@ == old(rest)@.skip(spec_p5(ms))
            &&& model_seq(final(rest)@) == ms.skip(spec_p5(ms))
        },
        r matches Err(e) ==> e == Error::DescriptorMismatch,
{
    let ghost ms = model_seq(old(rest)@);
    let ghost vs0 = old(rest)@;
    proof {
        crate::value::lemma_model_seq(vs0);
        assert(rest@ =~= vs0.skip(0));
        crate::value::lemma_model_seq_skip(vs0, 0);
    }
    let mut k: usize = 0;
    let header: Option<Header>;
    if rest.len() > 0 && code_is(&rest[0], CODE_HEADER) {
        let v0 = rest.remove(0);
        proof {
            assert(rest@ =~= vs0.skip(1));
        }
        match header_from_value(v0) {
            Ok(h) => {
                header = Some(h);
            },
            Err(e) => {
                return Err(e);
            },
        }
        k = 1;
    } else {
        header = None;
    }
    let ghost hdr_s: Seq<VData> = match &header {
        Some(h) => seq![spec_header_value(*h)],
        None => Seq::empty(),
    };
    proof {
        assert(k as int == spec_p1(ms));
        assert(hdr_s =~= ms.take(spec_p1(ms)));
        crate::value::lemma_model_seq_skip(vs0, k as int);
    }
    let delivery_annotations: Option<DeliveryAnnotations>;
    if rest.len() > 0 && code_is(&rest[0], CODE_DELIVERY_ANNOTATIONS) {
        proof {
            assert(rest@[0] == vs0[k as int]);
        }
        let v0 = rest.remove(0);
        proof {
            assert(rest@ =~= vs0.skip(k as int + 1));
        }
        match annotations_from_value(CODE_DELIVERY_ANNOTATIONS, v0) {
            Ok(a) => {
                delivery_annotations = Some(DeliveryAnnotations(a));
            },
            Err(e) => {
                return Err(e);
            },
        }
        k = k + 1;
    } else {
        delivery_annotations = None;
    }
    let ghost da_s: Seq<VData> = match &delivery_annotations {
        Some(a) => seq![spec_annotations_value(CODE_DELIVERY_ANNOTATIONS, a.0)],
        None => Seq::empty(),
    };
    proof {
        assert(k as int == spec_p2(ms));
        assert(hdr_s + da_s =~= ms.take(spec_p2(ms)));
        crate::value::lemma_model_seq_skip(vs0, k as int);
    }
    let message_annotations: Option<MessageAnnotations>;
    if rest.len() > 0 && code_is(&rest[0], CODE_MESSAGE_ANNOTATIONS) {
        proof {
            assert(rest@[0] == vs0[k as int]);
        }
        let v0 = rest.remove(0);
        proof {
            assert(rest@ =~= vs0.skip(k as int + 1));
        }
        match annotations_from_value(CODE_MESSAGE_ANNOTATIONS, v0) {
            Ok(a) => {
                message_annotations = Some(MessageAnnotations(a));
            },
            Err(e) => {
                return Err(e);
            },
        }
        k = k + 1;
    } else {
        message_annotations = None;
    }
    let ghost ma_s: Seq<VData> = match &message_annotations {
        Some(a) => seq![spec_annotations_value(CODE_MESSAGE_ANNOTATIONS, a.0)],
        None => Seq::empty(),
    };
    proof {
        assert(k as int == spec_p3(ms));
        assert(hdr_s + da_s + ma_s =~= ms.take(spec_p3(ms)));
        crate::value::lemma_model_seq_skip(vs0, k as int);
    }
    let (properties, application_properties) = match props_from_values(
        rest,
        Ghost(ms),
        Ghost(vs0),
    ) {
        Ok(pa) => pa,
        Err(e) => {
            return Err(e);
        },
    };
    let ghost pr_s: Seq<VData> = match &properties {
        Some(p) => seq![spec_properties_value(*p)],
        None => Seq::empty(),
    };
    let ghost ap_s: Seq<VData> = match &application_properties {
        Some(a) => seq![spec_app_properties_value(*a)],
        None => Seq::empty(),
    };
    let l = LeadingSections {
        header,
        delivery_annotations,
        message_annotations,
        properties,
        application_properties,
    };
    proof {
        assert(hdr_s + da_s + ma_s + pr_s + ap_s =~= ms.take(spec_p5(ms)));
        assert(spec_leading_sections(l) == hdr_s + da_s + ma_s + pr_s + ap_s);
        crate::value::lemma_model_seq_skip(vs0, spec_p5(ms));
        assert(model_seq(rest@) == ms.skip(spec_p5(ms)));
    }
    Ok(l)
}

/// Recovers the properties and application-properties sections, consuming
/// them from the front of the run that remains after the annotations.
#[verifier::spinoff_prover]
#[verifier::rlimit(100)]
fn props_from_values(rest: &mut Vec<Value>, Ghost(ms): Ghost<Seq<VData>>,
    Ghost(vs0): Ghost<Seq<Value>>) -> (r: Result<
    (Option<Properties>, Option<ApplicationProperties>),
    Error,
>)
    requires
        ms == model_seq(vs0),
        old(rest)@ == vs0.skip(spec_p3(ms)),
    ensures
        r is Ok <==> ((spec_p4(ms) == spec_p3(ms) + 1 ==> spec_is_properties_value(
            ms[spec_p3(ms)],
        )) && (spec_p5(ms) == spec_p4(ms) + 1 ==> spec_is_app_properties_value(
            ms[spec_p4(ms)],
        ))),
        r matches Ok(pa) ==> {
            let pr_s: Seq<VData> = match pa.0 {
                Some(p) => seq![spec_properties_value(p)],
                None => Seq::empty(),
            };
            let ap_s: Seq<VData> = match pa.1 {
                Some(a) => seq![spec_app_properties_value(a)],
                None => Seq::empty(),
            };
            &&& (pa.0 is Some <==> spec_p4(ms) == spec_p3(ms) + 1)
            &&& (pa.1 is Some <==> spec_p5(ms) == spec_p4(ms) + 1)
            &&& pr_s + ap_s == ms.subrange(spec_p3(ms), spec_p5(ms))
            &&& final(rest)@ == vs0.skip(spec_p5(ms))
        },
        r matches Err(e) ==> e == Error::DescriptorMismatch,
{
    let ghost k0 = spec_p3(ms);
    proof {
        crate::value::lemma_model_seq(vs0);
        assert(0 <= k0 <= vs0.len());
    }
    let properties: Option<Properties>;
    let mut taken: usize = 0;
    if rest.len() > 0 && code_is(&rest[0], CODE_PROPERTIES) {
        proof {
            assert(rest@[0] == vs0[k0]);
        }
        let v0 = rest.remove(0);
        proof {
            assert(rest@ =~= vs0.skip(k0 + 1));
        }
        match properties_from_value(v0) {
            Ok(p) => {
                properties = Some(p);
            },
            Err(e) => {
                return Err(e);
            },
        }
        taken = 1;
    } else {
        properties = None;
    }
    let ghost pr_s: Seq<VData> = match &properties {
        Some(p) => seq![spec_properties_value(*p)],
        None => Seq::empty(),
    };
    proof {
        assert(k0 + taken == spec_p4(ms));
        assert(pr_s =~= ms.subrange(spec_p3(ms), spec_p4(ms)));
        assert(rest@ =~= vs0.skip(spec_p4(ms)));
    }
    let application_properties: Option<ApplicationProperties>;
    if rest.len() > 0 && code_is(&rest[0], CODE_APPLICATION_PROPERTIES) {
        proof {
            assert(rest@[0] == vs0[spec_p4(ms)]);
        }
        let v0 = rest.remove(0);
        proof {
            assert(rest@ =~= vs0.skip(spec_p4(ms) + 1));
        }
        match app_properties_from_value(v0) {
            Ok(a) => {
                application_properties = Some(a);
            },
            Err(e) => {
                return Err(e);
            },
        }
    } else {
        application_properties = None;
    }
    let ghost ap_s: Seq<VData> = match &application_properties {
        Some(a) => seq![spec_app_properties_value(*a)],
        None => Seq::empty(),
    };
    proof {
        assert(pr_s + ap_s =~= ms.subrange(spec_p3(ms), spec_p5(ms)));
        assert(rest@ =~= vs0.skip(spec_p5(ms)));
    }
    Ok((properties, application_properties))
}

/// Recovers a message from a run of section values. Succeeds exactly when
/// the run is a message in wire order, each section in the canonical shape
/// the section encoder emits; the recovered message's section values are
/// exactly the input.
#[verifier::spinoff_prover]
#[verifier::rlimit(100)]
pub fn message_from_values(vs: Vec<Value>) -> (r: Result<Message, Error>)
    ensures
        r is Ok <==> spec_parses_sections(model_seq(vs@)),
        r matches Ok(m) ==> spec_message_sections(m) == model_seq(vs@),
        r matches Err(e) ==> e == Error::DescriptorMismatch,
{
    let ghost ms = model_seq(vs@);
    let ghost vs0 = vs@;
    proof {
        crate::value::lemma_model_seq(vs0);
    }
    let mut rest = vs;
    let l = match leading_from_values(&mut rest) {
        Ok(l) => l,
        Err(e) => {
            return Err(e);
        },
    };
    let ghost lead_s = spec_leading_sections(l);
    if rest.len() == 0 {
        proof {
            assert(ms.skip(spec_p5(ms)).len() == 0);
        }
        return Err(Error::DescriptorMismatch);
    }
    proof {
        crate::value::lemma_model_seq(rest@);
        assert(model_seq(rest@)[0] == ms.skip(spec_p5(ms))[0]);
        assert(model(rest@[0]) == ms[spec_p5(ms)]);
    }
    let v0 = rest.remove(0);
    let ghost after_body = rest@;
    let body_section = match body_section_from_value(v0) {
        Ok(b) => b,
        Err(e) => {
            return Err(e);
        },
    };
    let ghost body_s: Seq<VData> = seq![spec_body_value(body_section)];
    proof {
        assert(after_body =~= vs0.skip(spec_p5(ms) + 1));
        crate::value::lemma_model_seq_skip(vs0, spec_p5(ms) + 1);
        assert(model_seq(after_body) == ms.skip(spec_p5(ms) + 1));
    }
    let footer: Option<Footer>;
    if rest.len() > 0 && code_is(&rest[0], CODE_FOOTER) {
        proof {
            assert(model(rest@[0]) == ms[spec_p5(ms) + 1]);
        }
        let v0 = rest.remove(0);
        proof {
            assert(rest@ =~= after_body.skip(1));
            crate::value::lemma_model_seq_skip(after_body, 1);
        }
        match annotations_from_value(CODE_FOOTER, v0) {
            Ok(a) => {
                footer = Some(Footer(a));
            },
            Err(e) => {
                return Err(e);
            },
        }
    } else {
        footer = None;
    }
    let ghost ft_s: Seq<VData> = match &footer {
        Some(a) => seq![spec_annotations_value(CODE_FOOTER, a.0)],
        None => Seq::empty(),
    };
    if rest.len() > 0 {
        proof {
            if footer is Some {
                assert(model_seq(rest@).len() == ms.len() - (spec_p5(ms) + 2));
            }
        }
        return Err(Error::DescriptorMismatch);
    }
    let m = Message {
        header: l.header,
        delivery_annotations: l.delivery_annotations,
        message_annotations: l.message_annotations,
        properties: l.properties,
        application_properties: l.application_properties,
        body_section,
        footer,
    };
    proof {
        assert(spec_message_sections(m) == lead_s + body_s + ft_s);
        assert(lead_s + body_s + ft_s =~= ms.take(spec_p7(ms)));
        assert(ms.take(spec_p7(ms)) =~= ms);
    }
    Ok(m)
}

} // verus!
