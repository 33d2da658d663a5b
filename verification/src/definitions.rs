//! Core definitions of the protocol: roles, settle modes, numeric aliases,
//! error conditions and the error record.

use vstd::prelude::*;
use crate::value::Value;

verus! {

/// The protocol's major version.
pub const MAJOR: u8 = 1;

/// The protocol's minor version.
pub const MINOR: u8 = 0;

/// The protocol's revision.
pub const REVISION: u8 = 0;

/// The smallest max-frame-size a peer may announce, and the default.
pub const MIN_MAX_FRAME_SIZE: u32 = 512;

/// The standard port.
pub const PORT: u16 = 5672;

/// The standard port for TLS connections.
pub const SECURE_PORT: u16 = 5671;

/// The role of a link endpoint: sender or receiver, encoded as a boolean
/// where false stands for the sender.
#[derive(Clone, Copy, PartialEq, Eq, Structural, Debug)]
pub struct Role(pub bool);

impl Role {
    /// The sender role.
    pub fn sender() -> (r: Self)
        ensures
            r.0 == false,
    {
        Self(false)
    }

    /// The receiver role.
    pub fn receiver() -> (r: Self)
        ensures
            r.0 == true,
    {
        Self(true)
    }

    /// Whether this is the sender role.
    pub fn is_sender(&self) -> (r: bool)
        ensures
            r == !self.0,
    {
        self.0 == false
    }

    /// Whether this is the receiver role.
    pub fn is_receiver(&self) -> (r: bool)
        ensures
            r == self.0,
    {
        self.0 == true
    }
}

/// How the sender settles deliveries: 0 unsettled, 1 settled, 2 mixed.
#[derive(Clone, Copy, PartialEq, Eq, Structural, Debug)]
pub struct SenderSettleMode(pub u8);

/// How the receiver settles deliveries: 0 first, 1 second.
#[derive(Clone, Copy, PartialEq, Eq, Structural, Debug)]
pub struct ReceivervSettleMode(pub u8);

/// The handle that names a link within a session.
#[derive(Clone, Copy, PartialEq, Eq, Structural, Debug)]
pub struct Handle(pub u32);

/// A duration in seconds.
#[derive(Clone, Copy, PartialEq, Eq, Structural, Debug)]
pub struct Seconds(pub u32);

/// A duration in milliseconds.
#[derive(Clone, Copy, PartialEq, Eq, Structural, Debug)]
pub struct Milliseconds(pub u32);

/// The tag that identifies a delivery on a link.
#[derive(Clone, PartialEq, Eq, PartialOrd, Ord, Debug)]
pub struct DeliveryTag(pub Vec<u8>);

/// A sequence number in RFC-1982 serial arithmetic.
#[derive(Clone, Copy, PartialEq, Eq, Structural, Debug)]
pub struct SequenceNo(pub u32);

/// The delivery number carried by Transfer and Disposition.
#[derive(Clone, Copy, PartialEq, Eq, Structural, Debug)]
pub struct DeliveryNumber(pub SequenceNo);

/// The transfer number of session flow control.
#[derive(Clone, Copy, PartialEq, Eq, Structural, Debug)]
pub struct TransferNumber(pub SequenceNo);

/// The message-format field of a Transfer.
#[derive(Clone, Copy, PartialEq, Eq, Structural, Debug)]
pub struct MessageFormat(pub u32);

/// An IETF language tag, held as the bytes of its symbol.
#[derive(Clone, PartialEq, Eq, Debug)]
pub struct IetfLanguageTag(pub Vec<u8>);

/// A map from symbolic keys to values, preserving insertion order.
#[derive(PartialEq, Eq, Debug)]
pub struct Fields(pub Vec<(Vec<u8>, Value)>);

/// The shared error conditions.
#[derive(Clone, Copy, PartialEq, Eq, Structural, Debug)]
pub enum AmqpError {
    /// An internal error occurred.
    InternalError,
    /// A peer addressed an entity that does not exist.
    NotFound,
    /// A peer is not authorised to access an entity.
    UnauthorizedAccess,
    /// Malformed bytes arrived.
    DecodeError,
    /// A resource limit was exceeded: a window, credit, or the idle timeout.
    ResourceLimitExceeded,
    /// The peer tried something the other side does not allow.
    NotAllowed,
    /// A field in a performative contradicts an invariant.
    InvalidField,
    /// A recognised but unsupported feature was requested.
    NotImplemented,
    /// A resource is locked by another operation.
    ResourceLocked,
    /// A precondition of the operation did not hold.
    PreconditionFailed,
    /// The addressed resource was deleted.
    ResourceDeleted,
    /// A frame arrived that the current state cannot accept.
    IllegalState,
    /// The negotiated frame size is too small for a frame that must pass.
    FrameSizeTooSmall,
}

/// The connection-level error conditions.
#[derive(Clone, Copy, PartialEq, Eq, Structural, Debug)]
pub enum ConnectionError {
    /// The connection was forced closed.
    ConnectionForced,
    /// A valid frame header could not be formed.
    FramingError,
    /// The peer should reconnect elsewhere.
    Redirect,
}

/// The session-level error conditions.
#[derive(Clone, Copy, PartialEq, Eq, Structural, Debug)]
pub enum SessionError {
    /// A transfer violated the session window.
    WindowViolation,
    /// An input handle named a link that is not attached.
    ErrantLink,
    /// An attach named a handle that is already in use.
    HandleInUse,
    /// A performative named a handle with no attached link.
    UnattachedHandle,
}

/// The link-level error conditions.
#[derive(Clone, Copy, PartialEq, Eq, Structural, Debug)]
pub enum LinkError {
    /// The link was detached by force.
    DetachForced,
    /// More transfers arrived than credit allows.
    TransferLimitExceeded,
    /// A message exceeded the link's maximum size.
    MessageSizeExceeded,
    /// The link should reattach elsewhere.
    Redirect,
    /// The link was taken over by another session.
    Stolen,
}

/// The condition of an error record: one of the standard conditions, or a
/// custom symbol.
#[derive(Clone, PartialEq, Eq, Debug)]
pub enum ErrorCondition {
    /// A shared condition.
    Amqp(AmqpError),
    /// A connection-level condition.
    Connection(ConnectionError),
    /// A session-level condition.
    Session(SessionError),
    /// A link-level condition.
    Link(LinkError),
    /// A custom condition named by a symbol.
    Custom(Vec<u8>),
}

/// The error record carried by Close, End, Detach, Rejected and
/// Disposition: a condition with an optional description and info map.
#[derive(PartialEq, Eq, Debug)]
pub struct Error {
    /// The condition that classifies the error.
    pub condition: ErrorCondition,
    /// A description for diagnostics.
    pub description: Option<String>,
    /// Supplementary information.
    pub info: Option<Fields>,
}

impl Error {
    /// Builds an error record from its three fields.
    pub fn new(condition: ErrorCondition, description: Option<String>, info: Option<Fields>)
        -> (r: Self)
        ensures
            r.condition == condition,
            r.description == description,
            r.info == info,
    {
        Self { condition, description, info }
    }
}

} // verus!
