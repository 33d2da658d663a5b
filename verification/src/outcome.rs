//! The terminal delivery outcomes.

use vstd::prelude::*;
use crate::definitions::{Error, Fields};

verus! {

/// The delivery reached the receiver and was accepted.
#[derive(PartialEq, Eq, Structural, Debug)]
pub struct Accepted {}

/// The delivery was rejected, with the reason.
#[derive(PartialEq, Eq, Debug)]
pub struct Rejected {
    /// Why the delivery was rejected.
    pub error: Option<Error>,
}

/// The delivery was not and will not be acted upon.
#[derive(PartialEq, Eq, Structural, Debug)]
pub struct Released {}

/// The delivery was modified but not acted upon.
#[derive(PartialEq, Eq, Debug)]
pub struct Modified {
    /// Whether the delivery should be treated as failed.
    pub delivery_failed: Option<bool>,
    /// Whether redelivery to this node should not be attempted.
    pub undeliverable_here: Option<bool>,
    /// Annotations to merge into the message's annotations.
    pub message_annotations: Option<Fields>,
}

/// A terminal outcome of a delivery.
#[derive(PartialEq, Eq, Debug)]
pub enum Outcome {
    /// The delivery was accepted.
    Accepted(Accepted),
    /// The delivery was rejected.
    Rejected(Rejected),
    /// The delivery was released.
    Released(Released),
    /// The delivery was modified.
    Modified(Modified),
}

} // verus!
