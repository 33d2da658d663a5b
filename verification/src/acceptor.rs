//! The acceptor for incoming links: the attach negotiation decisions,
//! separated from the channels and tasks that carry them out.

use vstd::prelude::*;
use crate::definitions::{ReceivervSettleMode, SenderSettleMode, SequenceNo};
use crate::link::LinkFlowState;
use crate::link_error::{AttachError, SenderAttachErrorKind};
use crate::session::HandleTable;
use crate::performative::{Attach, Terminus};

verus! {

/// Which sender settle modes an acceptor supports.
#[derive(Clone, Copy, PartialEq, Eq, Structural, Debug)]
pub enum SupportedSenderSettleModes {
    /// Only unsettled.
    Unsettled,
    /// Only settled.
    Settled,
    /// Only mixed.
    Mixed,
    /// Unsettled and settled.
    UnsettledAndSettled,
    /// Unsettled and mixed.
    UnsettledAndMixed,
    /// Settled and mixed.
    SettledAndMixed,
    /// All three modes.
    All,
}

impl SupportedSenderSettleModes {
    /// Whether a desired sender settle mode is among the supported ones.
    pub fn supports(&self, mode: &SenderSettleMode) -> (r: bool)
        ensures
            r == spec_snd_supports(*self, *mode),
    {
        match self {
            SupportedSenderSettleModes::Unsettled => mode.0 == 0,
            SupportedSenderSettleModes::Settled => mode.0 == 1,
            SupportedSenderSettleModes::Mixed => mode.0 == 2,
            SupportedSenderSettleModes::UnsettledAndSettled => mode.0 == 0 || mode.0 == 1,
            SupportedSenderSettleModes::UnsettledAndMixed => mode.0 == 0 || mode.0 == 2,
            SupportedSenderSettleModes::SettledAndMixed => mode.0 == 1 || mode.0 == 2,
            SupportedSenderSettleModes::All => true,
        }
    }
}

/// Which desired sender settle modes each support set admits.
pub open spec fn spec_snd_supports(s: SupportedSenderSettleModes, m: SenderSettleMode)
    -> bool {
    match s {
        SupportedSenderSettleModes::Unsettled => m.0 == 0,
        SupportedSenderSettleModes::Settled => m.0 == 1,
        SupportedSenderSettleModes::Mixed => m.0 == 2,
        SupportedSenderSettleModes::UnsettledAndSettled => m.0 == 0 || m.0 == 1,
        SupportedSenderSettleModes::UnsettledAndMixed => m.0 == 0 || m.0 == 2,
        SupportedSenderSettleModes::SettledAndMixed => m.0 == 1 || m.0 == 2,
        SupportedSenderSettleModes::All => true,
    }
}

/// Which receiver settle modes an acceptor supports.
#[derive(Clone, Copy, PartialEq, Eq, Structural, Debug)]
pub enum SupportedReceiverSettleModes {
    /// Only first.
    First,
    /// Only second.
    Second,
    /// First and second.
    Both,
}

impl SupportedReceiverSettleModes {
    /// Whether a desired receiver settle mode is among the supported ones.
    pub fn supports(&self, mode: &ReceivervSettleMode) -> (r: bool)
        ensures
            r == spec_rcv_supports(*self, *mode),
    {
        match self {
            SupportedReceiverSettleModes::First => mode.0 == 0,
            SupportedReceiverSettleModes::Second => mode.0 == 1,
            SupportedReceiverSettleModes::Both => mode.0 == 0 || mode.0 == 1,
        }
    }
}

/// Which desired receiver settle modes each support set admits.
pub open spec fn spec_rcv_supports(s: SupportedReceiverSettleModes, m: ReceivervSettleMode)
    -> bool {
    match s {
        SupportedReceiverSettleModes::First => m.0 == 0,
        SupportedReceiverSettleModes::Second => m.0 == 1,
        SupportedReceiverSettleModes::Both => m.0 == 0 || m.0 == 1,
    }
}

/// The policy fields every link acceptor shares.
#[derive(PartialEq, Eq, Structural, Debug)]
pub struct SharedLinkAcceptorFields {
    /// The largest message the acceptor announces it accepts.
    pub max_message_size: Option<u64>,
    /// How many frames the acceptor buffers per link.
    pub buffer_size: usize,
    /// The sender settle modes the acceptor supports.
    pub supported_snd_settle_modes: SupportedSenderSettleModes,
    /// The mode used when the remote desires an unsupported sender settle
    /// mode.
    pub fallback_snd_settle_mode: SenderSettleMode,
    /// The receiver settle modes the acceptor supports.
    pub supported_rcv_settle_modes: SupportedReceiverSettleModes,
    /// The mode used when the remote desires an unsupported receiver
    /// settle mode.
    pub fallback_rcv_settle_mode: ReceivervSettleMode,
}

impl Default for SharedLinkAcceptorFields {
    /// The default policy: every mode supported, fallbacks at the
    /// protocol defaults, and a buffer of the largest 16-bit size.
    fn default() -> (r: Self)
        ensures
            r.max_message_size is None,
            r.buffer_size == 0xffff,
            r.supported_snd_settle_modes == SupportedSenderSettleModes::All,
            r.fallback_snd_settle_mode == (SenderSettleMode(2u8)),
            r.supported_rcv_settle_modes == SupportedReceiverSettleModes::Both,
            r.fallback_rcv_settle_mode == (ReceivervSettleMode(0u8)),
    {
        SharedLinkAcceptorFields {
            max_message_size: None,
            buffer_size: 0xffff,
            supported_snd_settle_modes: SupportedSenderSettleModes::All,
            fallback_snd_settle_mode: SenderSettleMode(2),
            supported_rcv_settle_modes: SupportedReceiverSettleModes::Both,
            fallback_rcv_settle_mode: ReceivervSettleMode(0),
        }
    }
}

/// Refuses a request for a dynamically created source node.
pub fn reject_dynamic_source(_source: Terminus) -> (r: Option<Terminus>)
    ensures
        r is None,
{
    None
}

/// The byte views of a capability list, elementwise.
pub open spec fn cap_views(c: Seq<Vec<u8>>) -> Seq<Seq<u8>> {
    c.map_values(|x: Vec<u8>| x@)
}

/// The byte views of an optional capability list.
pub open spec fn opt_cap_views(c: Option<Vec<Vec<u8>>>) -> Option<Seq<Seq<u8>>> {
    match c {
        Some(cs) => Some(cap_views(cs@)),
        None => None,
    }
}

/// Copies an optional capability list.
fn copy_capabilities(c: &Option<Vec<Vec<u8>>>) -> (r: Option<Vec<Vec<u8>>>)
    ensures
        opt_cap_views(r) == opt_cap_views(*c),
{
    match c {
        None => None,
        Some(cs) => {
            let mut out: Vec<Vec<u8>> = Vec::new();
            let mut i: usize = 0;
            while i < cs.len()
                invariant
                    0 <= i <= cs@.len(),
                    out@.len() == i,
                    forall|j: int| 0 <= j < i ==> (#[trigger] out@[j])@ == cs@[j]@,
                decreases cs@.len() - i,
            {
                out.push(crate::messaging::copy_bytes(&cs[i]));
                i = i + 1;
            }
            proof {
                assert(cap_views(out@) =~= cap_views(cs@));
            }
            Some(out)
        },
    }
}

/// The acceptor for a link where this peer becomes the sender, answering a
/// remote receiver's attach.
#[derive(PartialEq, Eq, Debug)]
pub struct LocalSenderLinkAcceptor {
    /// The delivery count this sender announces at attach.
    pub initial_delivery_count: SequenceNo,
    /// The capabilities the answered source announces, overriding whatever
    /// the remote proposed.
    pub source_capabilities: Option<Vec<Vec<u8>>>,
}

impl Default for LocalSenderLinkAcceptor {
    /// The default sender acceptor: the delivery count starts at zero and
    /// no source capabilities are announced.
    fn default() -> (r: Self)
        ensures
            r.initial_delivery_count == (SequenceNo(0u32)),
            r.source_capabilities is None,
    {
        LocalSenderLinkAcceptor {
            initial_delivery_count: SequenceNo(0),
            source_capabilities: None,
        }
    }
}

/// What the sender side decides on an incoming attach: the settle modes
/// the reply will carry, the source it answers with, and the fresh flow
/// state of the link.
#[derive(PartialEq, Eq, Debug)]
pub struct SenderAttachDecision {
    /// The sender settle mode of the reply: the desired one when it is
    /// supported, else the fallback.
    pub snd_settle_mode: SenderSettleMode,
    /// The receiver settle mode of the reply, chosen the same way.
    pub rcv_settle_mode: ReceivervSettleMode,
    /// Whether the desired modes were supported as they stood.
    pub modes_supported: bool,
    /// The source the reply answers with: the sender is authoritative over
    /// it, so the remote's non-dynamic source is echoed with this
    /// acceptor's capabilities in place of the proposed ones.
    pub source: Terminus,
    /// The flow state the new sender link starts from.
    pub flow_state: LinkFlowState,
}

impl LocalSenderLinkAcceptor {
    /// Decides the reply to an incoming attach from a remote receiver: the
    /// sender holds the authoritative source, so a present non-dynamic
    /// source is echoed with this acceptor's capabilities in its stead, a
    /// request for a dynamically created source is refused as the default
    /// policy does, and unsupported desired settle modes fall back to the
    /// policy's modes. The decision is pure; sending the reply attach is
    /// the caller's work.
    #[verifier::spinoff_prover]
    #[verifier::rlimit(100)]
    pub fn accept_incoming_attach(&self, shared: &SharedLinkAcceptorFields,
        remote_attach: Attach) -> (r: Result<SenderAttachDecision, SenderAttachErrorKind>)
        ensures
            r is Err <==> !(remote_attach.role.0 == true) || remote_attach.source is None
                || (remote_attach.source matches Some(s) && s.dynamic),
            r matches Err(e) ==> (e == SenderAttachErrorKind::NonAttachFrameReceived
                || e == SenderAttachErrorKind::IncomingSourceIsNone
                || e == SenderAttachErrorKind::AddressIsNoneWhenDynamicIsTrue)
                && (!(remote_attach.role.0 == true)
                    ==> e == SenderAttachErrorKind::NonAttachFrameReceived)
                && (remote_attach.role.0 == true && remote_attach.source is None
                    ==> e == SenderAttachErrorKind::IncomingSourceIsNone)
                && (remote_attach.role.0 == true && (remote_attach.source matches Some(s)
                    && s.dynamic) ==> e
                    == SenderAttachErrorKind::AddressIsNoneWhenDynamicIsTrue),
            r matches Ok(d) ==> {
                &&& d.snd_settle_mode == if spec_snd_supports(
                    shared.supported_snd_settle_modes,
                    remote_attach.snd_settle_mode,
                ) {
                    remote_attach.snd_settle_mode
                } else {
                    shared.fallback_snd_settle_mode
                }
                &&& d.rcv_settle_mode == if spec_rcv_supports(
                    shared.supported_rcv_settle_modes,
                    remote_attach.rcv_settle_mode,
                ) {
                    remote_attach.rcv_settle_mode
                } else {
                    shared.fallback_rcv_settle_mode
                }
                &&& d.modes_supported == (spec_snd_supports(
                    shared.supported_snd_settle_modes,
                    remote_attach.snd_settle_mode,
                ) && spec_rcv_supports(
                    shared.supported_rcv_settle_modes,
                    remote_attach.rcv_settle_mode,
                ))
                &&& (remote_attach.source matches Some(s) ==> d.source.address == s.address
                    && d.source.dynamic == false && d.source.dynamic_node_properties
                    == s.dynamic_node_properties)
                &&& opt_cap_views(d.source.capabilities) == opt_cap_views(
                    self.source_capabilities,
                )
                &&& d.flow_state.wf()
                &&& d.flow_state.initial_delivery_count == self.initial_delivery_count.0
                &&& d.flow_state.delivery_count == self.initial_delivery_count.0
                &&& d.flow_state.link_credit == 0
                &&& d.flow_state.available == 0
                &&& d.flow_state.drain == false
            },
    {
        if !remote_attach.role.is_receiver() {
            return Err(SenderAttachErrorKind::NonAttachFrameReceived);
        }
        let source = match remote_attach.source {
            None => {
                return Err(SenderAttachErrorKind::IncomingSourceIsNone);
            },
            Some(s) => {
                if s.dynamic {
                    return Err(SenderAttachErrorKind::AddressIsNoneWhenDynamicIsTrue);
                }
                Terminus {
                    address: s.address,
                    dynamic: false,
                    dynamic_node_properties: s.dynamic_node_properties,
                    capabilities: copy_capabilities(&self.source_capabilities),
                }
            },
        };
        let snd_ok = shared.supported_snd_settle_modes.supports(
            &remote_attach.snd_settle_mode,
        );
        let rcv_ok = shared.supported_rcv_settle_modes.supports(
            &remote_attach.rcv_settle_mode,
        );
        let snd_settle_mode = if snd_ok {
            SenderSettleMode(remote_attach.snd_settle_mode.0)
        } else {
            SenderSettleMode(shared.fallback_snd_settle_mode.0)
        };
        let rcv_settle_mode = if rcv_ok {
            ReceivervSettleMode(remote_attach.rcv_settle_mode.0)
        } else {
            ReceivervSettleMode(shared.fallback_rcv_settle_mode.0)
        };
        let flow_state = LinkFlowState::new_sender(self.initial_delivery_count.0);
        Ok(SenderAttachDecision {
            snd_settle_mode,
            rcv_settle_mode,
            modes_supported: snd_ok && rcv_ok,
            source,
            flow_state,
        })
    }
}

/// A link endpoint handed out by the acceptor: the role the local peer
/// took.
#[derive(PartialEq, Eq, Debug)]
pub enum LinkEndpoint {
    /// The local peer became the sender.
    Sender(SenderAttachDecision),
    /// The local peer became the receiver.
    Receiver(ReceiverAttachDecision),
}

/// What the receiver side decides on an incoming attach from a remote
/// sender.
#[derive(PartialEq, Eq, Structural, Debug)]
pub struct ReceiverAttachDecision {
    /// The sender settle mode of the reply.
    pub snd_settle_mode: SenderSettleMode,
    /// The receiver settle mode of the reply.
    pub rcv_settle_mode: ReceivervSettleMode,
    /// The delivery count taken from the remote sender's announcement.
    pub initial_delivery_count: u32,
}

/// The acceptor for incoming links of either role.
#[derive(PartialEq, Eq, Debug)]
pub struct LinkAcceptor {
    /// The shared policy.
    pub shared: SharedLinkAcceptorFields,
    /// The acceptor for links where this peer sends.
    pub local_sender_acceptor: LocalSenderLinkAcceptor,
}

impl Default for LinkAcceptor {
    /// The default acceptor: every settle mode supported, the fallbacks at
    /// the protocol defaults, no source capabilities, and the sender's
    /// delivery count starting at zero.
    fn default() -> (r: Self)
        ensures
            r.shared.max_message_size is None,
            r.shared.buffer_size == 0xffff,
            r.shared.supported_snd_settle_modes == SupportedSenderSettleModes::All,
            r.shared.fallback_snd_settle_mode == (SenderSettleMode(2u8)),
            r.shared.supported_rcv_settle_modes == SupportedReceiverSettleModes::Both,
            r.shared.fallback_rcv_settle_mode == (ReceivervSettleMode(0u8)),
            r.local_sender_acceptor.initial_delivery_count == (SequenceNo(0u32)),
            r.local_sender_acceptor.source_capabilities is None,
    {
        LinkAcceptor {
            shared: SharedLinkAcceptorFields::default(),
            local_sender_acceptor: LocalSenderLinkAcceptor::default(),
        }
    }
}

impl LinkAcceptor {
    /// Creates an acceptor with the default policy.
    pub fn new() -> (r: Self)
        ensures
            r.shared.max_message_size is None,
            r.shared.buffer_size == 0xffff,
            r.shared.supported_snd_settle_modes == SupportedSenderSettleModes::All,
            r.shared.fallback_snd_settle_mode == (SenderSettleMode(2u8)),
            r.shared.supported_rcv_settle_modes == SupportedReceiverSettleModes::Both,
            r.shared.fallback_rcv_settle_mode == (ReceivervSettleMode(0u8)),
            r.local_sender_acceptor.initial_delivery_count == (SequenceNo(0u32)),
            r.local_sender_acceptor.source_capabilities is None,
    {
        Self::default()
    }

    /// Creates a builder for an acceptor, which starts from the default
    /// policy.
    pub fn builder() -> (r: LinkAcceptor)
        ensures
            r.shared.max_message_size is None,
            r.shared.buffer_size == 0xffff,
            r.shared.supported_snd_settle_modes == SupportedSenderSettleModes::All,
            r.shared.fallback_snd_settle_mode == (SenderSettleMode(2u8)),
            r.shared.supported_rcv_settle_modes == SupportedReceiverSettleModes::Both,
            r.shared.fallback_rcv_settle_mode == (ReceivervSettleMode(0u8)),
            r.local_sender_acceptor.initial_delivery_count == (SequenceNo(0u32)),
            r.local_sender_acceptor.source_capabilities is None,
    {
        Self::default()
    }

    /// Turns the acceptor back into a builder for further configuration.
    pub fn into_builder(self) -> (r: LinkAcceptor)
        ensures
            r == self,
    {
        self
    }

    /// Decides the reply to an incoming attach: the remote's role picks
    /// the local one, and the sender of each terminus stays authoritative
    /// over it. The decision is pure; the session bookkeeping and the
    /// reply frame are the caller's work.
    pub fn accept_incoming_attach(&self, remote_attach: Attach) -> (r: Result<
        LinkEndpoint,
        SenderAttachErrorKind,
    >)
        ensures
            remote_attach.role.0 == true ==> (r matches Ok(ep) ==> ep is Sender),
            remote_attach.role.0 == true && (remote_attach.source matches Some(s)
                && !s.dynamic) ==> r is Ok,
            remote_attach.role.0 == false ==> (r matches Ok(ep) ==> ep is Receiver),
            remote_attach.role.0 == false && remote_attach.target is None ==> (r matches Err(
                e,
            ) && e == SenderAttachErrorKind::IncomingTargetIsNone),
            remote_attach.role.0 == false && remote_attach.initial_delivery_count is None
                && remote_attach.target is Some ==> (r matches Err(e)
                && e == SenderAttachErrorKind::IllegalState),
            r matches Err(e) ==> e != SenderAttachErrorKind::DuplicatedLinkName,
    {
        if remote_attach.role.is_receiver() {
            match self.local_sender_acceptor.accept_incoming_attach(&self.shared,
                remote_attach) {
                Ok(d) => Ok(LinkEndpoint::Sender(d)),
                Err(e) => Err(e),
            }
        } else {
            if remote_attach.target.is_none() {
                return Err(SenderAttachErrorKind::IncomingTargetIsNone);
            }
            let idc = match &remote_attach.initial_delivery_count {
                Some(c) => c.0,
                None => {
                    return Err(SenderAttachErrorKind::IllegalState);
                },
            };
            let snd_ok = self.shared.supported_snd_settle_modes.supports(
                &remote_attach.snd_settle_mode,
            );
            let rcv_ok = self.shared.supported_rcv_settle_modes.supports(
                &remote_attach.rcv_settle_mode,
            );
            let snd_settle_mode = if snd_ok {
                SenderSettleMode(remote_attach.snd_settle_mode.0)
            } else {
                SenderSettleMode(self.shared.fallback_snd_settle_mode.0)
            };
            let rcv_settle_mode = if rcv_ok {
                ReceivervSettleMode(remote_attach.rcv_settle_mode.0)
            } else {
                ReceivervSettleMode(self.shared.fallback_rcv_settle_mode.0)
            };
            Ok(LinkEndpoint::Receiver(ReceiverAttachDecision {
                snd_settle_mode,
                rcv_settle_mode,
                initial_delivery_count: idc,
            }))
        }
    }

    /// Decides the reply to an incoming attach and allocates the link's
    /// output handle in the session's table under the link's name. The
    /// handle returned was live for no link before, so no two live links
    /// of the direction share a handle; a duplicate link name is refused.
    pub fn accept_and_allocate(&self, table: &mut HandleTable, remote_attach: Attach)
        -> (r: Result<(u32, LinkEndpoint), SenderAttachErrorKind>)
        ensures
            r matches Ok(pair) ==> {
                &&& !old(table).live(pair.0 as int)
                &&& final(table).live(pair.0 as int)
                &&& (final(table).slots@[pair.0 as int] matches Some(n) && n@
                    == remote_attach.name@)
                &&& (remote_attach.role.0 == true ==> pair.1 is Sender)
                &&& (remote_attach.role.0 == false ==> pair.1 is Receiver)
            },
            r matches Err(e) ==> final(table).slots@ == old(table).slots@
                && (e == SenderAttachErrorKind::DuplicatedLinkName ==> exists|h: int|
                    old(table).live(h) && ((#[trigger] old(table).slots@[h]) matches Some(n)
                        && n@ == remote_attach.name@)),
    {
        let name = remote_attach.name.clone();
        let ep = match self.accept_incoming_attach(remote_attach) {
            Ok(ep) => ep,
            Err(e) => {
                proof {
                    assert(e != SenderAttachErrorKind::DuplicatedLinkName);
                }
                return Err(e);
            },
        };
        match table.allocate(name) {
            Ok(h) => Ok((h, ep)),
            Err(AttachError::DuplicatedLinkName) => Err(
                SenderAttachErrorKind::DuplicatedLinkName,
            ),
            Err(_) => Err(SenderAttachErrorKind::IllegalState),
        }
    }
}

} // verus!
