//! The performatives: the control records exchanged between peers.

use vstd::prelude::*;
use crate::definitions::{
    Error, Fields, Handle, Milliseconds, ReceivervSettleMode, Role, SenderSettleMode,
    SequenceNo,
};
use crate::value::Value;

verus! {

/// The descriptor code of the open performative.
pub const CODE_OPEN: u64 = 0x10;

/// The descriptor code of the begin performative.
pub const CODE_BEGIN: u64 = 0x11;

/// The descriptor code of the attach performative.
pub const CODE_ATTACH: u64 = 0x12;

/// The descriptor code of the flow performative.
pub const CODE_FLOW: u64 = 0x13;

/// The descriptor code of the transfer performative.
pub const CODE_TRANSFER: u64 = 0x14;

/// The descriptor code of the disposition performative.
pub const CODE_DISPOSITION: u64 = 0x15;

/// The descriptor code of the detach performative.
pub const CODE_DETACH: u64 = 0x16;

/// The descriptor code of the end performative.
pub const CODE_END: u64 = 0x17;

/// The descriptor code of the close performative.
pub const CODE_CLOSE: u64 = 0x18;

/// The descriptor code of the error record.
pub const CODE_ERROR: u64 = 0x1d;

/// One terminus of a link: the node a link reads from or writes to.
#[derive(PartialEq, Eq, Debug)]
pub struct Terminus {
    /// The address of the node, absent for a dynamic request.
    pub address: Option<String>,
    /// Whether the peer must create the node and fill in the address.
    pub dynamic: bool,
    /// Properties of a dynamically created node; only a dynamic terminus
    /// may carry them.
    pub dynamic_node_properties: Option<Fields>,
    /// The capabilities the node supports.
    pub capabilities: Option<Vec<Vec<u8>>>,
}

/// Opens a connection: the first performative on every connection.
#[derive(PartialEq, Eq, Debug)]
pub struct Open {
    /// The mandatory container id of this peer.
    pub container_id: String,
    /// The host name this peer addressed.
    pub hostname: Option<String>,
    /// The largest frame this peer accepts.
    pub max_frame_size: u32,
    /// The highest channel number this peer allows.
    pub channel_max: u16,
    /// The idle timeout of this peer, in milliseconds.
    pub idle_time_out: Option<Milliseconds>,
    /// Connection properties.
    pub properties: Option<Fields>,
}

/// Begins a session on a channel.
#[derive(PartialEq, Eq, Debug)]
pub struct Begin {
    /// The outgoing channel of the peer this begin answers, when it does.
    pub remote_channel: Option<u16>,
    /// The transfer-id of the first outgoing transfer.
    pub next_outgoing_id: u32,
    /// How many transfers the peer may receive.
    pub incoming_window: u32,
    /// How many transfers the peer may send.
    pub outgoing_window: u32,
    /// The highest handle number the peer may use.
    pub handle_max: u32,
}

/// Attaches a link to a session.
#[derive(PartialEq, Eq, Debug)]
pub struct Attach {
    /// The name that identifies the link.
    pub name: String,
    /// The handle the sender of this attach assigned to the link.
    pub handle: Handle,
    /// The role of the sender of this attach.
    pub role: Role,
    /// How the sender settles deliveries.
    pub snd_settle_mode: SenderSettleMode,
    /// How the receiver settles deliveries.
    pub rcv_settle_mode: ReceivervSettleMode,
    /// The source terminus.
    pub source: Option<Terminus>,
    /// The target terminus.
    pub target: Option<Terminus>,
    /// The sender's delivery count at attach; mandatory for a sender and
    /// ignored for a receiver.
    pub initial_delivery_count: Option<SequenceNo>,
    /// The largest message the link endpoint accepts.
    pub max_message_size: Option<u64>,
}

/// Updates flow control state.
#[derive(PartialEq, Eq, Structural, Debug)]
pub struct Flow {
    /// The sender's next incoming transfer-id.
    pub next_incoming_id: Option<u32>,
    /// How many transfers the sender may receive.
    pub incoming_window: u32,
    /// The sender's next outgoing transfer-id.
    pub next_outgoing_id: u32,
    /// How many transfers the sender may send.
    pub outgoing_window: u32,
    /// The link this flow speaks of, when it speaks of one.
    pub handle: Option<Handle>,
    /// The sender's delivery count on that link.
    pub delivery_count: Option<u32>,
    /// The credit granted on that link.
    pub link_credit: Option<u32>,
    /// How many messages wait for credit on that link.
    pub available: Option<u32>,
    /// Whether the sender must use up all credit at once.
    pub drain: bool,
    /// Whether the receiver of this flow must answer with its own.
    pub echo: bool,
}

/// Carries one frame of a delivery.
#[derive(PartialEq, Eq, Debug)]
pub struct Transfer {
    /// The link the delivery travels on.
    pub handle: Handle,
    /// The delivery-id, carried by the first frame of the delivery.
    pub delivery_id: Option<u32>,
    /// The tag that names the delivery on its link.
    pub delivery_tag: Option<Vec<u8>>,
    /// The format of the message.
    pub message_format: Option<u32>,
    /// Whether the sender regards the delivery settled.
    pub settled: Option<bool>,
    /// Whether more frames of this delivery follow.
    pub more: bool,
    /// A receiver settle mode override for this delivery.
    pub rcv_settle_mode: Option<ReceivervSettleMode>,
}

/// Settles or updates the state of a contiguous range of deliveries.
#[derive(PartialEq, Eq, Debug)]
pub struct Disposition {
    /// The role of the peer issuing the disposition.
    pub role: Role,
    /// The first delivery-id of the range, inclusive.
    pub first: u32,
    /// The last delivery-id of the range, inclusive; a single delivery
    /// when absent.
    pub last: Option<u32>,
    /// Whether the deliveries are settled.
    pub settled: bool,
}

impl Disposition {
    /// Whether a delivery-id falls in this disposition's inclusive range.
    pub fn covers(&self, delivery_id: u32) -> (r: bool)
        ensures
            r == (self.first <= delivery_id && delivery_id <= (match self.last {
                Some(l) => l,
                None => self.first,
            })),
    {
        let last = match self.last {
            Some(l) => l,
            None => self.first,
        };
        self.first <= delivery_id && delivery_id <= last
    }
}

/// Detaches a link from its session.
#[derive(PartialEq, Eq, Debug)]
pub struct Detach {
    /// The link being detached.
    pub handle: Handle,
    /// Whether the link is destroyed rather than suspended.
    pub closed: bool,
    /// The error that caused the detachment, if one did.
    pub error: Option<Error>,
}

/// Ends a session.
#[derive(PartialEq, Eq, Debug)]
pub struct End {
    /// The error that caused the end, if one did.
    pub error: Option<Error>,
}

/// Closes a connection.
#[derive(PartialEq, Eq, Debug)]
pub struct Close {
    /// The error that caused the close, if one did.
    pub error: Option<Error>,
}

/// A performative, tagged by its descriptor code.
#[derive(PartialEq, Eq, Debug)]
pub enum Performative {
    /// Opens a connection.
    Open(Open),
    /// Begins a session.
    Begin(Begin),
    /// Attaches a link.
    Attach(Attach),
    /// Updates flow control.
    Flow(Flow),
    /// Carries one frame of a delivery.
    Transfer(Transfer),
    /// Settles a range of deliveries.
    Disposition(Disposition),
    /// Detaches a link.
    Detach(Detach),
    /// Ends a session.
    End(End),
    /// Closes a connection.
    Close(Close),
}

/// In a shutdown state only the closing performatives may still be
/// emitted: whether this performative may leave while the endpoint's
/// close, end or detach is already on the wire.
pub fn allowed_in_shutdown(p: &Performative) -> (r: bool)
    ensures
        r == (p is Close || p is End || p is Detach),
{
    match p {
        Performative::Close(_) => true,
        Performative::End(_) => true,
        Performative::Detach(_) => true,
        _ => false,
    }
}

} // verus!
