//! The connection endpoint: handshake states, channel multiplexing, and
//! the idle-timeout heartbeat decision.

use vstd::prelude::*;
use crate::definitions::{AmqpError, MIN_MAX_FRAME_SIZE};

verus! {

broadcast use vstd::seq::group_seq_axioms;

/// The channel number a peer assigns to a session it begins.
#[derive(Clone, Copy, PartialEq, Eq, Structural, Debug, PartialOrd, Ord)]
pub struct IncomingChannelId(pub u16);

/// The channel number this peer assigns to a session it begins.
#[derive(Clone, Copy, PartialEq, Eq, Structural, Debug, PartialOrd, Ord)]
pub struct OutgoingChannelId(pub u16);

impl From<u16> for OutgoingChannelId {
    /// Wraps a raw channel number.
    fn from(val: u16) -> (r: Self) {
        Self(val)
    }
}

impl vstd::std_specs::convert::FromSpecImpl<u16> for OutgoingChannelId {
    open spec fn obeys_from_spec() -> bool {
        true
    }

    open spec fn from_spec(val: u16) -> Self {
        OutgoingChannelId(val)
    }
}

/// The lifecycle states of a connection endpoint.
#[derive(Clone, Copy, PartialEq, Eq, Structural, Debug)]
pub enum ConnectionState {
    /// Nothing has been exchanged.
    Start,
    /// The remote protocol header arrived first.
    HeaderReceived,
    /// The local protocol header is sent.
    HeaderSent,
    /// Both protocol headers were exchanged.
    HeaderExchange,
    /// The local open was sent on the heels of the header.
    OpenPipe,
    /// Open and close were sent pipelined.
    OpenClosePipe,
    /// The remote open arrived first.
    OpenReceived,
    /// The local open is sent, the remote one is pending.
    OpenSent,
    /// A close was sent while the open is still pending.
    ClosePipe,
    /// Both opens were exchanged.
    Opened,
    /// The remote close arrived first.
    CloseReceived,
    /// The local close is sent, the remote one is pending.
    CloseSent,
    /// The connection is being discarded after an error.
    Discarding,
    /// The connection is finished.
    End,
}

/// The table of outgoing channels: a live session holds its slot, and the
/// channel of a session is its index, so the outgoing channels of any two
/// sessions within a connection are disjoint.
pub struct ChannelTable {
    /// One slot per outgoing channel; a live session marks its slot.
    pub slots: Vec<bool>,
    /// The highest channel number the remote allows.
    pub channel_max: u16,
}

impl ChannelTable {
    /// Whether an outgoing channel belongs to a live session.
    pub open spec fn live(&self, ch: int) -> bool {
        0 <= ch < self.slots@.len() && self.slots@[ch]
    }

    /// An empty table under a channel-max limit.
    pub fn new(channel_max: u16) -> (r: Self)
        ensures
            r.slots@.len() == 0,
            r.channel_max == channel_max,
    {
        ChannelTable { slots: Vec::new(), channel_max }
    }

    /// Allocates the lowest free outgoing channel for a new session:
    /// first-fit with reuse of ended channels. The returned channel was
    /// not live before, so the outgoing channels of live sessions stay
    /// pairwise disjoint. Fails exactly when every channel up to
    /// channel-max is live.
    pub fn allocate(&mut self) -> (r: Result<u16, AmqpError>)
        ensures
            r matches Ok(ch) ==> !old(self).live(ch as int) && final(self).live(ch as int)
                && ch <= old(self).channel_max
                && (forall|j: int| 0 <= j < final(self).slots@.len() && j != ch
                    ==> final(self).slots@[j] == old(self).slots@.index(j))
                && (final(self).slots@.len() == old(self).slots@.len()
                    || (final(self).slots@.len() == old(self).slots@.len() + 1
                        && ch == old(self).slots@.len()))
                && final(self).channel_max == old(self).channel_max,
            r is Err ==> final(self).slots@ == old(self).slots@ && (forall|ch: int| 0 <= ch
                <= old(self).channel_max ==> old(self).live(ch)),
            r matches Err(e) ==> e == AmqpError::ResourceLimitExceeded,
    {
        let mut i: usize = 0;
        while i < self.slots.len() && i <= self.channel_max as usize
            invariant
                0 <= i <= self.slots@.len(),
                i <= self.channel_max + 1,
                self.slots@ == old(self).slots@,
                self.channel_max == old(self).channel_max,
                forall|h: int| 0 <= h < i ==> (#[trigger] self.slots@[h]),
            decreases self.slots@.len() - i,
        {
            if !self.slots[i] {
                self.slots.set(i, true);
                return Ok(i as u16);
            }
            i = i + 1;
        }
        if i > self.channel_max as usize {
            return Err(AmqpError::ResourceLimitExceeded);
        }
        let ch = self.slots.len();
        self.slots.push(true);
        Ok(ch as u16)
    }

    /// Releases an outgoing channel when its session ends, making it
    /// reusable; any other slot is untouched.
    pub fn release(&mut self, ch: u16)
        ensures
            !final(self).live(ch as int),
            final(self).slots@.len() == old(self).slots@.len(),
            forall|j: int| 0 <= j < final(self).slots@.len() && j != ch
                ==> final(self).slots@[j] == old(self).slots@.index(j),
    {
        if (ch as usize) < self.slots.len() {
            self.slots.set(ch as usize, false);
        }
    }
}

/// The outgoing channels of any two live sessions are disjoint: an
/// allocation makes live exactly the channel it returns beyond those live
/// before, and a channel is the index of its slot, so no two live sessions
/// can share one.
pub proof fn lemma_channels_disjoint(told: ChannelTable, tnew: ChannelTable, ch: int)
    requires
        !told.live(ch),
        tnew.live(ch),
        tnew.slots@.len() == told.slots@.len() || (tnew.slots@.len() == told.slots@.len() + 1
            && ch == told.slots@.len()),
        forall|j: int| 0 <= j < tnew.slots@.len() && j != ch ==> tnew.slots@[j]
            == told.slots@.index(j),
    ensures
        forall|j: int| #[trigger] tnew.live(j) <==> (told.live(j) || j == ch),
{
    assert forall|j: int| #[trigger] tnew.live(j) <==> (told.live(j) || j == ch) by {
        if j != ch {
            if tnew.live(j) {
                assert(j < told.slots@.len());
            }
            if told.live(j) {
                assert(tnew.slots@[j] == told.slots@.index(j));
            }
        }
    }
}

/// The negotiated limits of an open connection.
#[derive(Clone, Copy, PartialEq, Eq, Structural, Debug)]
pub struct ConnectionLimits {
    /// The largest frame the remote accepts.
    pub remote_max_frame_size: u32,
    /// The highest channel number the remote allows.
    pub remote_channel_max: u16,
    /// The remote's idle timeout in milliseconds, when one was announced.
    pub remote_idle_timeout: Option<u32>,
}

/// Decides whether the heartbeat must fire: an empty frame is owed
/// whenever half the negotiated idle timeout has elapsed without a frame
/// being sent.
pub fn heartbeat_due(remote_idle_timeout: Option<u32>, elapsed_since_send_ms: u32)
    -> (r: bool)
    ensures
        r == (remote_idle_timeout matches Some(t) && elapsed_since_send_ms >= t / 2),
{
    match remote_idle_timeout {
        Some(t) => elapsed_since_send_ms >= t / 2,
        None => false,
    }
}

/// Decides whether the connection has starved: it fails with a resource
/// limit error when no frame arrived within the local idle timeout.
pub fn idle_timed_out(local_idle_timeout: Option<u32>, elapsed_since_receive_ms: u32)
    -> (r: Option<AmqpError>)
    ensures
        r is Some <==> (local_idle_timeout matches Some(t) && elapsed_since_receive_ms > t),
        r matches Some(e) ==> e == AmqpError::ResourceLimitExceeded,
{
    match local_idle_timeout {
        Some(t) => if elapsed_since_receive_ms > t {
            Some(AmqpError::ResourceLimitExceeded)
        } else {
            None
        },
        None => None,
    }
}

/// Clamps a peer's announced max-frame-size to the protocol's floor: any
/// announcement below the minimum is rejected in favour of the minimum.
pub fn effective_max_frame_size(announced: u32) -> (r: u32)
    ensures
        r == if announced < MIN_MAX_FRAME_SIZE { MIN_MAX_FRAME_SIZE } else { announced },
        r >= MIN_MAX_FRAME_SIZE,
{
    if announced < MIN_MAX_FRAME_SIZE {
        MIN_MAX_FRAME_SIZE
    } else {
        announced
    }
}

} // verus!
