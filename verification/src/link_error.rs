//! Errors of the link endpoint.

use vstd::prelude::*;
use vstd::string::StringExecFns;
use crate::definitions::{self, AmqpError, ErrorCondition, SessionError};
use crate::outcome::{Modified, Rejected, Released};

verus! {

/// The error associated with detaching a link.
#[derive(PartialEq, Eq, Debug)]
pub struct DetachError {
    /// Whether the remote peer decided to close the link.
    pub is_closed_by_remote: bool,
    /// The error that came with the detachment, if any.
    pub error: Option<definitions::Error>,
}

impl DetachError {
    /// Builds a detach error from its two fields.
    pub fn new(is_closed_by_remote: bool, error: Option<definitions::Error>) -> (r: Self)
        ensures
            r.is_closed_by_remote == is_closed_by_remote,
            r.error == error,
    {
        Self { is_closed_by_remote, error }
    }

    /// Whether the remote peer decided to close.
    pub fn is_closed_by_remote(&self) -> (r: bool)
        ensures
            r == self.is_closed_by_remote,
    {
        self.is_closed_by_remote
    }

    /// The error condition, when an error came with the detachment.
    pub fn error_condition(&self) -> (r: Option<&ErrorCondition>)
        ensures
            r is Some <==> self.error is Some,
            r matches Some(c) ==> self.error matches Some(e) && *c == e.condition,
    {
        match &self.error {
            Some(e) => Some(&e.condition),
            None => None,
        }
    }

    /// Converts into the inner error.
    pub fn into_error(self) -> (r: Option<definitions::Error>)
        ensures
            r == self.error,
    {
        self.error
    }
}

/// The errors of sending a message.
#[derive(PartialEq, Eq, Debug)]
pub enum SendError {
    /// A local error.
    Local(definitions::Error),
    /// The remote peer detached the link with an error.
    Detached(DetachError),
    /// The receiver rejected the message.
    Rejected(Rejected),
    /// The receiver released the message.
    Released(Released),
    /// The receiver modified the message.
    Modified(Modified),
}

impl SendError {
    /// A local error that names a recognised but unsupported feature.
    pub fn not_implemented(description: Option<String>) -> (r: Self)
        ensures
            r matches SendError::Local(e) && e.condition == ErrorCondition::Amqp(
                AmqpError::NotImplemented,
            ) && e.description == description && e.info is None,
    {
        Self::Local(definitions::Error::new(
            ErrorCondition::Amqp(AmqpError::NotImplemented),
            description,
            None,
        ))
    }

    /// A local error for an operation the other side does not allow.
    pub fn not_allowed(description: Option<String>) -> (r: Self)
        ensures
            r matches SendError::Local(e) && e.condition == ErrorCondition::Amqp(
                AmqpError::NotAllowed,
            ) && e.description == description && e.info is None,
    {
        Self::Local(definitions::Error::new(
            ErrorCondition::Amqp(AmqpError::NotAllowed),
            description,
            None,
        ))
    }

    /// A local error for a transfer that named a transaction other than the
    /// live one.
    pub fn mismatched_transaction_id(description: Option<String>) -> (r: Self)
        ensures
            r matches SendError::Local(e) && e.condition == ErrorCondition::Amqp(
                AmqpError::NotImplemented,
            ) && e.description == description && e.info is None,
    {
        Self::Local(definitions::Error::new(
            ErrorCondition::Amqp(AmqpError::NotImplemented),
            description,
            None,
        ))
    }

    /// A local error for a settlement that arrived without an outcome.
    pub fn expecting_outcome() -> (r: Self)
        ensures
            r matches SendError::Local(e) && e.condition == ErrorCondition::Amqp(
                AmqpError::NotImplemented,
            ) && e.description is None && e.info is None,
    {
        Self::Local(definitions::Error::new(
            ErrorCondition::Amqp(AmqpError::NotImplemented),
            None,
            None,
        ))
    }
}

/// The detach error raised when a remote detach frame was expected and did
/// not arrive.
pub fn detach_error_expecting_frame() -> (r: DetachError)
    ensures
        r.is_closed_by_remote == false,
        r.error matches Some(e) && e.condition == ErrorCondition::Amqp(AmqpError::IllegalState)
            && (e.description matches Some(d) && d@ == "Expecting remote detach frame"@)
            && e.info is None,
{
    let error = definitions::Error::new(
        ErrorCondition::Amqp(AmqpError::IllegalState),
        Some(String::from_str("Expecting remote detach frame")),
        None,
    );
    DetachError { is_closed_by_remote: false, error: Some(error) }
}

/// The errors of normal operations on a link.
#[derive(PartialEq, Eq, Structural, Debug)]
pub enum Error {
    /// The link is detached and cannot be used.
    NotAttached,
    /// The owning session has dropped.
    SessionIsDropped,
    /// The first transfer of a delivery carried no delivery-id.
    DeliveryIdIsNone,
    /// A transfer carried no delivery-tag.
    DeliveryTagIsNone,
    /// The message bytes could not be decoded.
    MessageDecodeError,
    /// The negotiated receiver settle mode is first, so second is illegal in
    /// a transfer.
    IllegalRcvSettleModeInTransfer,
}

/// The errors of attaching a link.
#[derive(PartialEq, Eq, Debug)]
pub enum AttachError {
    /// The session is in a state that admits no attach.
    IllegalSessionState,
    /// A link with the same name is already attached.
    DuplicatedLinkName,
    /// The source field of the incoming attach is null.
    SourceIsNone,
    /// The target field of the incoming attach is null.
    TargetIsNone,
    /// A local error.
    Local(definitions::Error),
}

impl AttachError {
    /// A local error for a frame out of order with the link state.
    pub fn illegal_state(description: Option<String>) -> (r: Self)
        ensures
            r matches AttachError::Local(e) && e.condition == ErrorCondition::Amqp(
                AmqpError::IllegalState,
            ) && e.description == description && e.info is None,
    {
        Self::Local(definitions::Error::new(
            ErrorCondition::Amqp(AmqpError::IllegalState),
            description,
            None,
        ))
    }

    /// A local error for a recognised but unsupported feature.
    pub fn not_implemented(description: Option<String>) -> (r: Self)
        ensures
            r matches AttachError::Local(e) && e.condition == ErrorCondition::Amqp(
                AmqpError::NotImplemented,
            ) && e.description == description && e.info is None,
    {
        Self::Local(definitions::Error::new(
            ErrorCondition::Amqp(AmqpError::NotImplemented),
            description,
            None,
        ))
    }

    /// A local error for an operation the policy does not allow.
    pub fn not_allowed(description: Option<String>) -> (r: Self)
        ensures
            r matches AttachError::Local(e) && e.condition == ErrorCondition::Amqp(
                AmqpError::NotAllowed,
            ) && e.description == description && e.info is None,
    {
        Self::Local(definitions::Error::new(
            ErrorCondition::Amqp(AmqpError::NotAllowed),
            description,
            None,
        ))
    }
}

/// The errors of a sender that tries to consume link credit without
/// waiting.
#[derive(PartialEq, Eq, Structural, Debug)]
pub enum SenderTryConsumeError {
    /// The flow state is locked by another task.
    TryLockError,
    /// The credit that remains does not cover the request.
    InsufficientCredit,
}

/// The error of attaching the receiver; the kinds live in
/// [`ReceiverAttachErrorKind`].
#[derive(PartialEq, Eq, Structural, Debug)]
pub struct ReceiverAttachError {}

/// The error kinds of attaching a link as receiver.
#[derive(PartialEq, Eq, Structural, Debug)]
pub enum ReceiverAttachErrorKind {
    /// The owning session has dropped.
    SessionIsDropped,
    /// A link with the same name is already attached.
    DuplicatedLinkName,
    /// The link is in a state that admits no attach.
    IllegalState,
    /// A frame other than attach arrived while attaching.
    NonAttachFrameReceived,
    /// The link should have been detached at once, but no detach arrived.
    ExpectImmediateDetach,
    /// The source field of the incoming attach is null.
    IncomingSourceIsNone,
    /// The target field of the incoming attach is null.
    IncomingTargetIsNone,
    /// The incoming attach names a transaction coordinator target.
    CoordinatorIsNotImplemented,
    /// The initial-delivery-count is null although the remote is a sender.
    InitialDeliveryCountIsNone,
    /// The address is set although the dynamic flag asks this peer to
    /// create the node.
    AddressIsSomeWhenDynamicIsTrue,
    /// Dynamic node properties are set although the dynamic flag is not.
    DynamicNodePropertiesIsSomeWhenDynamicIsFalse,
}

impl ReceiverAttachErrorKind {
    /// The error record that rejects the attach, or nothing for the kinds
    /// that are answered with a null terminus instead of an error.
    pub fn to_error(&self) -> (r: Option<definitions::Error>)
        ensures
            r is None <==> (self is IncomingSourceIsNone || self is IncomingTargetIsNone),
            r matches Some(e) ==> e.condition == spec_receiver_kind_condition(*self)
                && e.info is None,
    {
        let condition: ErrorCondition = match self {
            ReceiverAttachErrorKind::SessionIsDropped => ErrorCondition::Amqp(
                AmqpError::IllegalState,
            ),
            ReceiverAttachErrorKind::DuplicatedLinkName => ErrorCondition::Session(
                SessionError::HandleInUse,
            ),
            ReceiverAttachErrorKind::IllegalState => ErrorCondition::Amqp(
                AmqpError::IllegalState,
            ),
            ReceiverAttachErrorKind::NonAttachFrameReceived => ErrorCondition::Amqp(
                AmqpError::NotAllowed,
            ),
            ReceiverAttachErrorKind::ExpectImmediateDetach => ErrorCondition::Amqp(
                AmqpError::NotAllowed,
            ),
            ReceiverAttachErrorKind::IncomingSourceIsNone => {
                return None;
            },
            ReceiverAttachErrorKind::IncomingTargetIsNone => {
                return None;
            },
            ReceiverAttachErrorKind::CoordinatorIsNotImplemented => ErrorCondition::Amqp(
                AmqpError::NotImplemented,
            ),
            ReceiverAttachErrorKind::InitialDeliveryCountIsNone => ErrorCondition::Amqp(
                AmqpError::InvalidField,
            ),
            ReceiverAttachErrorKind::AddressIsSomeWhenDynamicIsTrue => ErrorCondition::Amqp(
                AmqpError::InvalidField,
            ),
            ReceiverAttachErrorKind::DynamicNodePropertiesIsSomeWhenDynamicIsFalse =>
                ErrorCondition::Amqp(AmqpError::InvalidField),
        };
        Some(definitions::Error::new(condition, None, None))
    }
}

/// The condition each receiver attach error kind maps to; the two kinds
/// that are answered without an error map to an internal placeholder that
/// never leaves the crate.
pub open spec fn spec_receiver_kind_condition(k: ReceiverAttachErrorKind) -> ErrorCondition {
    match k {
        ReceiverAttachErrorKind::SessionIsDropped => ErrorCondition::Amqp(
            AmqpError::IllegalState,
        ),
        ReceiverAttachErrorKind::DuplicatedLinkName => ErrorCondition::Session(
            SessionError::HandleInUse,
        ),
        ReceiverAttachErrorKind::IllegalState => ErrorCondition::Amqp(AmqpError::IllegalState),
        ReceiverAttachErrorKind::NonAttachFrameReceived => ErrorCondition::Amqp(
            AmqpError::NotAllowed,
        ),
        ReceiverAttachErrorKind::ExpectImmediateDetach => ErrorCondition::Amqp(
            AmqpError::NotAllowed,
        ),
        ReceiverAttachErrorKind::CoordinatorIsNotImplemented => ErrorCondition::Amqp(
            AmqpError::NotImplemented,
        ),
        _ => ErrorCondition::Amqp(AmqpError::InvalidField),
    }
}

/// The error kinds of attaching a link as sender.
#[derive(PartialEq, Eq, Structural, Debug)]
pub enum SenderAttachErrorKind {
    /// The owning session has dropped.
    SessionIsDropped,
    /// A link with the same name is already attached.
    DuplicatedLinkName,
    /// The link is in a state that admits no attach.
    IllegalState,
    /// A frame other than attach arrived while attaching.
    NonAttachFrameReceived,
    /// The link should have been detached at once, but no detach arrived.
    ExpectImmediateDetach,
    /// The source field of the incoming attach is null.
    IncomingSourceIsNone,
    /// The target field of the incoming attach is null.
    IncomingTargetIsNone,
    /// The incoming attach names a transaction coordinator target.
    CoordinatorIsNotImplemented,
    /// The address is unset although the dynamic flag says the node was
    /// created.
    AddressIsNoneWhenDynamicIsTrue,
    /// Dynamic node properties are set although the dynamic flag is not.
    DynamicNodePropertiesIsSomeWhenDynamicIsFalse,
    /// The desired transaction capabilities are not supported.
    DesireTxnCapabilitiesNotSupported,
    /// The sender settle mode the remote desires is not supported.
    SndSettleModeNotSupported,
    /// The receiver settle mode the remote desires is not supported.
    RcvSettleModeNotSupported,
}

impl SenderAttachErrorKind {
    /// The error record that rejects the attach, or nothing for the kinds
    /// that are answered with a null terminus or a fallback instead.
    pub fn to_error(&self) -> (r: Option<definitions::Error>)
        ensures
            r is None <==> (self is IncomingSourceIsNone || self is IncomingTargetIsNone
                || self is DesireTxnCapabilitiesNotSupported
                || self is SndSettleModeNotSupported || self is RcvSettleModeNotSupported),
            r matches Some(e) ==> e.info is None,
    {
        let condition: ErrorCondition = match self {
            SenderAttachErrorKind::SessionIsDropped => ErrorCondition::Amqp(
                AmqpError::IllegalState,
            ),
            SenderAttachErrorKind::DuplicatedLinkName => ErrorCondition::Session(
                SessionError::HandleInUse,
            ),
            SenderAttachErrorKind::IllegalState => ErrorCondition::Amqp(
                AmqpError::IllegalState,
            ),
            SenderAttachErrorKind::NonAttachFrameReceived => ErrorCondition::Amqp(
                AmqpError::NotAllowed,
            ),
            SenderAttachErrorKind::ExpectImmediateDetach => ErrorCondition::Amqp(
                AmqpError::NotAllowed,
            ),
            SenderAttachErrorKind::CoordinatorIsNotImplemented => ErrorCondition::Amqp(
                AmqpError::NotImplemented,
            ),
            SenderAttachErrorKind::DynamicNodePropertiesIsSomeWhenDynamicIsFalse =>
                ErrorCondition::Amqp(AmqpError::InvalidField),
            SenderAttachErrorKind::AddressIsNoneWhenDynamicIsTrue => ErrorCondition::Amqp(
                AmqpError::InvalidField,
            ),
            _ => {
                return None;
            },
        };
        Some(definitions::Error::new(condition, None, None))
    }
}

} // verus!
