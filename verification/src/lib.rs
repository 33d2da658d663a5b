//! Verified core of an AMQP 1.0 protocol runtime.
//!
//! The crate covers the three layers of the protocol core:
//! the self-describing type codec (encoding and decoding of the AMQP
//! primitive value model), the frame codec (protocol header and frame
//! layout), and the connection/session/link endpoint state machines with
//! their flow-control rules.

use vstd::prelude::*;

pub mod acceptor;
pub mod cbs;
pub mod codes;
pub mod connection;
pub mod de;
pub mod decode;
pub mod definitions;
pub mod encode;
pub mod frame;
pub mod laws;
pub mod link;
pub mod link_error;
pub mod outcome;
pub mod performative;
pub mod sasl;
pub mod transaction;
pub mod messaging;
pub mod reader;
pub mod ser;
pub mod session;
pub mod value;

verus! {

} // verus!
