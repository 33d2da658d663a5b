//! Tests of the frame codec and the endpoint state machines.

use amqp_core::acceptor::{
    LinkAcceptor, LinkEndpoint, LocalSenderLinkAcceptor, SharedLinkAcceptorFields,
};
use amqp_core::connection::{
    ChannelTable, ConnectionState, effective_max_frame_size, heartbeat_due, idle_timed_out,
};
use amqp_core::definitions::{
    AmqpError, Handle, ReceivervSettleMode, Role, SenderSettleMode, SequenceNo,
    MIN_MAX_FRAME_SIZE,
};
use amqp_core::frame::{
    decode_frame_header, encode_empty_frame, encode_frame, parse_protocol_header,
    protocol_header, FRAME_TYPE_AMQP, PROTO_ID_AMQP, PROTO_ID_SASL,
};
use amqp_core::link::{reassemble_payload, split_payload, LinkFlowState, TransferFrame};
use amqp_core::link_error::{AttachError, DetachError, SenderAttachErrorKind};
use amqp_core::performative::{Attach, Terminus};
use amqp_core::session::{HandleTable, SessionFlow};
use amqp_core::definitions::Fields;
use amqp_core::transaction::{
    acquire_flow_properties, Declare, Discharge, OwnedTransaction, Running, TxnCoordinator,
};

#[test]
fn test_role() {
    let role = Role(false);
    assert!(role.is_sender());
    assert!(Role::receiver().is_receiver());
}

#[test]
fn protocol_header_round_trips() {
    let bytes = protocol_header(PROTO_ID_AMQP);
    assert_eq!(bytes, vec![0x41, 0x4d, 0x51, 0x50, 0x00, 0x01, 0x00, 0x00]);
    assert_eq!(parse_protocol_header(&bytes).unwrap(), PROTO_ID_AMQP);

    let sasl = protocol_header(PROTO_ID_SASL);
    assert_eq!(parse_protocol_header(&sasl).unwrap(), PROTO_ID_SASL);

    // A mismatch in the trailing version bytes closes the socket.
    let bad = vec![0x41, 0x4d, 0x51, 0x50, 0x00, 0x02, 0x00, 0x00];
    assert!(parse_protocol_header(&bad).is_err());
}

#[test]
fn frames_respect_the_size_invariants() {
    let body = vec![1u8, 2, 3];
    let payload = vec![9u8; 10];
    let frame = encode_frame(5, FRAME_TYPE_AMQP, &body, &payload, MIN_MAX_FRAME_SIZE)
        .unwrap();
    assert_eq!(frame.len(), 8 + 3 + 10);
    let h = decode_frame_header(&frame, MIN_MAX_FRAME_SIZE).unwrap();
    assert_eq!(h.size as usize, frame.len());
    assert_eq!(h.doff, 2);
    assert_eq!(h.channel, 5);
    assert!(h.size >= 8);

    // A frame beyond the remote's limit is refused.
    let huge = vec![0u8; 600];
    assert!(encode_frame(0, FRAME_TYPE_AMQP, &huge, &Vec::new(), MIN_MAX_FRAME_SIZE)
        .is_err());

    let empty = encode_empty_frame(0);
    assert_eq!(empty.len(), 8);
}

#[test]
fn session_windows_gate_transfers() {
    let mut flow = SessionFlow::new(2, 2);
    assert_eq!(flow.on_transfer_sent().unwrap(), 0);
    assert_eq!(flow.on_transfer_sent().unwrap(), 1);
    // The outgoing window is used up: emission is blocked.
    assert!(flow.on_transfer_sent().is_err());
    assert_eq!(flow.next_outgoing_id, 2);

    flow.on_transfer_received().unwrap();
    flow.on_transfer_received().unwrap();
    assert!(flow.on_transfer_received().is_err());
    flow.replenish_incoming(2048);
    assert!(flow.on_transfer_received().is_ok());
    assert!(flow.should_send_flow(4096));
}

#[test]
fn handles_are_first_fit_and_collision_free() {
    let mut table = HandleTable::new();
    let h1 = table.allocate(String::from("l1")).unwrap();
    let h2 = table.allocate(String::from("l2")).unwrap();
    assert_eq!(h1, 0);
    assert_eq!(h2, 1);
    // A duplicate link name on the same direction is refused.
    assert_eq!(
        table.allocate(String::from("l1")).unwrap_err(),
        AttachError::DuplicatedLinkName
    );
    // A freed handle is reused first-fit.
    table.free(h1);
    let h3 = table.allocate(String::from("l3")).unwrap();
    assert_eq!(h3, 0);
}

#[test]
fn channels_are_disjoint_and_reusable() {
    let mut table = ChannelTable::new(1);
    let c1 = table.allocate().unwrap();
    let c2 = table.allocate().unwrap();
    assert_eq!(c1, 0);
    assert_eq!(c2, 1);
    assert_eq!(table.allocate().unwrap_err(), AmqpError::ResourceLimitExceeded);
    table.release(c1);
    assert_eq!(table.allocate().unwrap(), 0);
}

#[test]
fn sender_credit_gates_transfers() {
    let mut ls = LinkFlowState::new_sender(0);
    // No transfer may leave while credit is zero.
    assert!(ls.consume_credit().is_err());
    ls.apply_flow(0, 1, false);
    assert_eq!(ls.link_credit, 1);
    ls.consume_credit().unwrap();
    assert_eq!(ls.link_credit, 0);
    assert_eq!(ls.delivery_count, 1);
    assert!(ls.consume_credit().is_err());

    // A drain uses up all remaining credit at once.
    ls.apply_flow(1, 5, true);
    assert_eq!(ls.link_credit, 5);
    ls.apply_drain().unwrap();
    assert_eq!(ls.link_credit, 0);
    assert_eq!(ls.delivery_count, 6);
}

#[test]
fn multi_frame_transfers_reassemble_exactly() {
    let payload: Vec<u8> = (0..100).map(|i| (i % 251) as u8).collect();
    let chunks = split_payload(&payload, 16);
    assert_eq!(chunks.len(), 7);
    for c in chunks.iter().take(6) {
        assert_eq!(c.len(), 16);
    }
    let frames: Vec<TransferFrame> = chunks
        .into_iter()
        .map(|c| TransferFrame { delivery_tag: vec![1], payload: c })
        .collect();
    let back = reassemble_payload(&frames).unwrap();
    assert_eq!(back, payload);

    // A delivery-tag mismatch is fatal.
    let mut bad = vec![
        TransferFrame { delivery_tag: vec![1], payload: vec![1, 2] },
        TransferFrame { delivery_tag: vec![2], payload: vec![3] },
    ];
    assert!(reassemble_payload(&bad).is_err());
    bad[1].delivery_tag = vec![1];
    assert_eq!(reassemble_payload(&bad).unwrap(), vec![1, 2, 3]);
}

fn attach_from(role: Role, source: Option<Terminus>, target: Option<Terminus>) -> Attach {
    Attach {
        name: String::from("l1"),
        handle: Handle(0),
        role,
        snd_settle_mode: SenderSettleMode(1),
        rcv_settle_mode: ReceivervSettleMode(0),
        source,
        target,
        initial_delivery_count: Some(SequenceNo(0)),
        max_message_size: None,
    }
}

fn plain_terminus() -> Terminus {
    Terminus {
        address: Some(String::from("q")),
        dynamic: false,
        dynamic_node_properties: None,
        capabilities: None,
    }
}

#[test]
fn attach_negotiation_falls_back_or_rejects() {
    let acceptor = LocalSenderLinkAcceptor::default();
    let shared = SharedLinkAcceptorFields::default();

    // A remote receiver with a plain source is accepted: the source is
    // echoed back with the acceptor's capabilities.
    let attach = attach_from(Role::receiver(), Some(plain_terminus()), None);
    let d = acceptor.accept_incoming_attach(&shared, attach).unwrap();
    assert_eq!(d.snd_settle_mode, SenderSettleMode(1));
    assert!(d.modes_supported);
    assert_eq!(d.source.address, Some(String::from("q")));
    assert!(!d.source.dynamic);
    assert!(d.source.capabilities.is_none());
    assert_eq!(d.flow_state.delivery_count, 0);
    assert_eq!(d.flow_state.link_credit, 0);
    assert_eq!(d.flow_state.available, 0);
    assert!(!d.flow_state.drain);

    // A null source is rejected.
    let attach = attach_from(Role::receiver(), None, None);
    assert_eq!(
        acceptor.accept_incoming_attach(&shared, attach).unwrap_err(),
        SenderAttachErrorKind::IncomingSourceIsNone
    );

    // A dynamic source request is refused by the default policy.
    let mut dyn_source = plain_terminus();
    dyn_source.address = None;
    dyn_source.dynamic = true;
    let attach = attach_from(Role::receiver(), Some(dyn_source), None);
    assert!(acceptor.accept_incoming_attach(&shared, attach).is_err());

    // The acceptor picks the local role opposite to the remote's.
    let acceptor = LinkAcceptor::new();
    let attach = attach_from(Role::sender(), None, Some(plain_terminus()));
    match acceptor.accept_incoming_attach(attach).unwrap() {
        LinkEndpoint::Receiver(d) => assert_eq!(d.initial_delivery_count, 0),
        LinkEndpoint::Sender(_) => panic!("remote sender must make this peer the receiver"),
    }
}

#[test]
fn attach_allocates_collision_free_handles() {
    let acceptor = LinkAcceptor::new();
    let mut table = HandleTable::new();
    let attach = attach_from(Role::receiver(), Some(plain_terminus()), None);
    let (h, ep) = acceptor.accept_and_allocate(&mut table, attach).unwrap();
    assert_eq!(h, 0);
    assert!(matches!(ep, LinkEndpoint::Sender(_)));
    // The same link name on the same direction is refused.
    let attach = attach_from(Role::receiver(), Some(plain_terminus()), None);
    assert_eq!(
        acceptor.accept_and_allocate(&mut table, attach).unwrap_err(),
        SenderAttachErrorKind::DuplicatedLinkName
    );
}

#[test]
fn transactions_declare_and_discharge_once() {
    let mut coordinator = TxnCoordinator::new();
    // A global transaction id is a recognised but unsupported feature.
    assert!(coordinator
        .on_declare(&Declare { global_id: Some(vec![1]) })
        .is_err());
    let id = coordinator.on_declare(&Declare { global_id: None }).unwrap();
    // The minted id is the eight network-order bytes of the counter.
    assert_eq!(id, vec![0, 0, 0, 0, 0, 0, 0, 0]);
    let id2 = coordinator.on_declare(&Declare { global_id: None }).unwrap();
    assert_eq!(id2, vec![0, 0, 0, 0, 0, 0, 0, 1]);
    // The dispatcher carries the discharge decision through.
    let running = coordinator
        .on_delivery(&amqp_core::transaction::ControlMessageBody::Discharge(Discharge {
            txn_id: id2,
            fail: false,
        }))
        .unwrap();
    assert_eq!(running, Running::Continue);
    let running = coordinator
        .on_discharge(&Discharge { txn_id: id.clone(), fail: false })
        .unwrap();
    assert_eq!(running, Running::Continue);
    // A second discharge of the same transaction is not found.
    assert!(coordinator
        .on_discharge(&Discharge { txn_id: id.clone(), fail: false })
        .is_err());

    let mut txn = OwnedTransaction::declare(id);
    let d = txn.commit().unwrap();
    assert!(!d.fail);
    assert!(txn.is_discharged());
    assert!(txn.commit().is_none());
}

#[test]
fn connection_decisions() {
    assert_eq!(effective_max_frame_size(100), MIN_MAX_FRAME_SIZE);
    assert_eq!(effective_max_frame_size(4096), 4096);
    assert!(heartbeat_due(Some(1000), 500));
    assert!(!heartbeat_due(Some(1000), 499));
    assert!(!heartbeat_due(None, 10000));
    assert_eq!(
        idle_timed_out(Some(1000), 1001),
        Some(AmqpError::ResourceLimitExceeded)
    );
    assert_eq!(idle_timed_out(Some(1000), 1000), None);
    let _ = ConnectionState::Start;
}

#[test]
fn detach_errors_carry_their_fields() {
    let e = DetachError::new(true, None);
    assert!(e.is_closed_by_remote());
    assert!(e.error_condition().is_none());
    assert!(e.into_error().is_none());
}

#[test]
fn acquisition_marks_the_flow_once() {
    let mut fields = Fields(Vec::new());
    acquire_flow_properties(&mut fields, &vec![7, 7]).unwrap();
    assert_eq!(fields.0.len(), 1);
    assert_eq!(fields.0[0].0, b"txn-id".to_vec());
    // The recorded value is the transaction id as a binary value.
    assert_eq!(fields.0[0].1, amqp_core::value::Value::Binary(vec![7, 7]));
    // A second acquisition on the same link is illegal.
    assert!(acquire_flow_properties(&mut fields, &vec![8]).is_err());
    assert_eq!(fields.0.len(), 1);
}
