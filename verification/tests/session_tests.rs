use amqp_session::frames::{
    DeliveryState, Disposition, Flow, Frame, Message, Outcome, Role,
};
use amqp_session::links::LinkState;
use amqp_session::session::SessionInner;

fn flow(next_incoming_id: Option<u32>, incoming_window: u32) -> Flow {
    Flow {
        next_incoming_id,
        incoming_window,
        next_outgoing_id: 0,
        outgoing_window: 0,
        handle: None,
        delivery_count: None,
        link_credit: None,
        available: None,
        drain: false,
        echo: false,
    }
}

fn msg(bytes: &[u8]) -> Message {
    Message { message_format: Some(0), body: bytes.to_vec() }
}

fn settled_disposition(first: u32, last: Option<u32>, state: Option<DeliveryState>) -> Disposition {
    Disposition { settled: true, first, last, state }
}

#[test]
fn new_session_initial_state() {
    let s = SessionInner::new(3, 9, 10, 5, 100);
    assert_eq!(s.id, 3);
    assert_eq!(s.remote_channel_id, 9);
    assert_eq!(s.next_outgoing_id, 1);
    assert_eq!(s.outgoing_window, 10);
    assert_eq!(s.next_incoming_id, 5);
    assert_eq!(s.incoming_window, 100);
    assert_eq!(s.unsettled_deliveries.len(), 0);
    assert_eq!(s.pending_links.len(), 0);
    assert_eq!(s.pending_transfers.len(), 0);
}

#[test]
fn immediate_send_consumes_credit_and_tracks_delivery() {
    let mut s = SessionInner::new(0, 2, 5, 0, 0);
    let out = s.send_transfer(4, msg(b"payload"), 77).expect("credit available");
    assert_eq!(s.outgoing_window, 4);
    assert_eq!(s.next_outgoing_id, 2);
    assert_eq!(s.unsettled_deliveries.len(), 1);
    assert_eq!(out.channel, 2);
    assert_eq!(out.payload, b"payload".to_vec());
    match out.frame {
        Frame::Transfer(t) => {
            assert_eq!(t.handle, 4);
            assert_eq!(t.delivery_id, Some(1));
            assert_eq!(t.settled, Some(false));
            assert!(!t.more);
            assert_eq!(t.message_format, Some(0));
            let tag = t.delivery_tag.expect("fresh tag");
            assert_eq!(tag.len(), 16);
        }
        _ => panic!("expected a transfer frame"),
    }
}

#[test]
fn send_transfer_conn_matches_send_transfer() {
    let mut s = SessionInner::new(0, 2, 1, 0, 0);
    let out = s.send_transfer_conn(4, msg(b"x"), 1).expect("credit available");
    assert_eq!(out.channel, 2);
    assert_eq!(s.outgoing_window, 0);
    let queued = s.send_transfer_conn(4, msg(b"y"), 2);
    assert!(queued.is_none());
    assert_eq!(s.pending_transfers.len(), 1);
}

#[test]
fn prepare_transfer_registers_before_frame_is_handed_out() {
    let mut s = SessionInner::new(0, 2, 3, 0, 0);
    let (frame, body) = s.prepare_transfer(1, msg(b"abc"), 9);
    assert_eq!(body, b"abc".to_vec());
    assert_eq!(s.unsettled_deliveries.len(), 1);
    assert_eq!(s.outgoing_window, 2);
    assert_eq!(s.next_outgoing_id, 2);
    assert!(matches!(frame, Frame::Transfer(_)));
}

#[test]
fn backpressure_queue_then_flow_drains_in_order() {
    // Session with no credit: three submissions enqueue, none is sent.
    let mut s = SessionInner::new(0, 7, 0, 0, 0);
    assert!(s.send_transfer(1, msg(b"t1"), 101).is_none());
    assert!(s.send_transfer(1, msg(b"t2"), 102).is_none());
    assert!(s.send_transfer(1, msg(b"t3"), 103).is_none());
    assert_eq!(s.pending_transfers.len(), 3);
    assert_eq!(s.next_outgoing_id, 1);
    assert_eq!(s.unsettled_deliveries.len(), 0);

    // A Flow granting window 2 sends T1 and T2 with consecutive ids.
    let f = flow(Some(1), 2);
    let e = s.handle_frame(Frame::Flow(f));
    assert_eq!(e.frames.len(), 2);
    match (&e.frames[0].frame, &e.frames[1].frame) {
        (Frame::Transfer(t1), Frame::Transfer(t2)) => {
            assert_eq!(t1.delivery_id, Some(1));
            assert_eq!(t2.delivery_id, Some(2));
        }
        _ => panic!("expected two transfer frames"),
    }
    assert_eq!(e.frames[0].payload, b"t1".to_vec());
    assert_eq!(e.frames[1].payload, b"t2".to_vec());
    assert_eq!(s.outgoing_window, 0);
    assert_eq!(s.pending_transfers.len(), 1);
    assert_eq!(s.next_outgoing_id, 3);
    assert_eq!(s.unsettled_deliveries.len(), 2);
}

#[test]
fn open_sender_link_then_matching_attach_resolves() {
    let mut s = SessionInner::new(0, 4, 0, 0, 0);
    let (slot, out) = s.open_sender_link("a".to_string(), "link1".to_string());
    assert_eq!(s.pending_links.len(), 1);
    assert_eq!(out.channel, 4);
    let sent = match out.frame {
        Frame::Attach(a) => a,
        _ => panic!("expected an attach frame"),
    };
    assert_eq!(sent.name, "link1".to_string());
    assert_eq!(sent.handle, slot as u32);
    assert!(matches!(sent.role, Role::Sender));
    let target = sent.target.as_ref().expect("sender attach carries a target");
    assert_eq!(target.address, Some("a".to_string()));

    // Peer echoes the attach under its own handle 7.
    let mut reply = sent;
    reply.handle = 7;
    reply.role = Role::Receiver;
    let e = s.handle_frame(Frame::Attach(reply));
    let resolved = e.resolved_link.expect("pending link resolves");
    assert_eq!(resolved.slot, slot);
    assert_eq!(resolved.remote_handle, 7);
    assert_eq!(s.pending_links.len(), 0);
}

#[test]
fn unsolicited_attach_is_ignored() {
    let mut s = SessionInner::new(0, 4, 0, 0, 0);
    let (_slot, out) = s.open_sender_link("a".to_string(), "link1".to_string());
    let mut rogue = match out.frame {
        Frame::Attach(a) => a,
        _ => panic!("expected an attach frame"),
    };
    rogue.name = "never-requested".to_string();
    rogue.handle = 7;
    let e = s.handle_frame(Frame::Attach(rogue));
    assert!(e.resolved_link.is_none());
    assert_eq!(s.pending_links.len(), 1);
}

#[test]
fn settled_disposition_rejects_range_and_empties_ledger() {
    // Two unsettled deliveries with ids 10 and 11.
    let mut s = SessionInner::new(0, 1, 20, 0, 0);
    for i in 0u64..11u64 {
        let p: u64 = 200 + i;
        s.send_transfer(1, msg(b"m"), p).expect("credit available");
    }
    let e = s.handle_frame(Frame::Disposition(settled_disposition(
        1,
        Some(9),
        Some(DeliveryState::Accepted),
    )));
    assert_eq!(e.settlements.len(), 9);
    assert_eq!(s.unsettled_deliveries.len(), 2);

    let e = s.handle_frame(Frame::Disposition(settled_disposition(
        10,
        Some(11),
        Some(DeliveryState::Rejected),
    )));
    assert_eq!(e.settlements.len(), 2);
    assert_eq!(e.settlements[0].delivery_id, 10);
    assert_eq!(e.settlements[0].promise, 209);
    assert_eq!(e.settlements[0].outcome, Outcome::Rejected);
    assert_eq!(e.settlements[1].delivery_id, 11);
    assert_eq!(e.settlements[1].promise, 210);
    assert_eq!(e.settlements[1].outcome, Outcome::Rejected);
    assert_eq!(s.unsettled_deliveries.len(), 0);
}

#[test]
fn settling_same_range_twice_fulfils_nothing_the_second_time() {
    let mut s = SessionInner::new(0, 1, 5, 0, 0);
    s.send_transfer(1, msg(b"m"), 1).expect("credit available");
    s.send_transfer(1, msg(b"m"), 2).expect("credit available");
    let d = settled_disposition(1, Some(2), Some(DeliveryState::Released));
    let first = s.settle_deliveries(&d);
    assert_eq!(first.len(), 2);
    assert_eq!(first[0].outcome, Outcome::Released);
    let second = s.settle_deliveries(&d);
    assert_eq!(second.len(), 0);
    assert_eq!(s.unsettled_deliveries.len(), 0);
}

#[test]
fn disposition_without_state_defaults_to_accepted() {
    let mut s = SessionInner::new(0, 1, 5, 0, 0);
    s.send_transfer(1, msg(b"m"), 42).expect("credit available");
    let e = s.handle_frame(Frame::Disposition(settled_disposition(1, None, None)));
    assert_eq!(e.settlements.len(), 1);
    assert_eq!(e.settlements[0].delivery_id, 1);
    assert_eq!(e.settlements[0].promise, 42);
    assert_eq!(e.settlements[0].outcome, Outcome::Accepted);
}

#[test]
fn received_state_is_not_actionable() {
    let mut s = SessionInner::new(0, 1, 5, 0, 0);
    s.send_transfer(1, msg(b"m"), 42).expect("credit available");
    let e = s.handle_frame(Frame::Disposition(settled_disposition(
        1,
        None,
        Some(DeliveryState::Received),
    )));
    assert_eq!(e.settlements.len(), 0);
    assert_eq!(s.unsettled_deliveries.len(), 1);
}

#[test]
fn disposition_outside_range_touches_nothing() {
    let mut s = SessionInner::new(0, 1, 5, 0, 0);
    s.send_transfer(1, msg(b"m"), 7).expect("credit available");
    let e = s.handle_frame(Frame::Disposition(settled_disposition(
        5,
        Some(9),
        Some(DeliveryState::Accepted),
    )));
    assert_eq!(e.settlements.len(), 0);
    assert_eq!(s.unsettled_deliveries.len(), 1);
}

#[test]
fn flow_recomputes_window_by_credit_formula() {
    let mut s = SessionInner::new(0, 1, 0, 0, 0);
    // Peer will absorb up to next_incoming_id + incoming_window = 4 + 3 = 7
    // transfers counted by id; our cursor is 1, so 6 remain permitted.
    let e = s.handle_frame(Frame::Flow(flow(Some(4), 3)));
    assert_eq!(s.outgoing_window, 6);
    assert!(e.frames.is_empty());
    assert!(e.link_flow.is_none());
}

#[test]
fn flow_with_absent_next_incoming_id_defaults_to_zero() {
    let mut s = SessionInner::new(0, 1, 0, 0, 0);
    s.handle_frame(Frame::Flow(flow(None, 8)));
    assert_eq!(s.outgoing_window, 7);
}

#[test]
fn flow_echo_answers_with_reflective_flow() {
    let mut s = SessionInner::new(0, 6, 0, 3, 9);
    let mut f = flow(Some(1), 4);
    f.echo = true;
    let e = s.handle_frame(Frame::Flow(f));
    assert_eq!(e.frames.len(), 1);
    assert_eq!(e.frames[0].channel, 6);
    assert!(e.frames[0].payload.is_empty());
    match &e.frames[0].frame {
        Frame::Flow(back) => {
            assert_eq!(back.next_incoming_id, Some(3));
            assert_eq!(back.incoming_window, 9);
            assert_eq!(back.next_outgoing_id, 1);
            assert_eq!(back.outgoing_window, 4);
            assert_eq!(back.handle, None);
            assert!(!back.echo);
            assert!(!back.drain);
        }
        _ => panic!("expected a reflective flow frame"),
    }
}

#[test]
fn flow_addressed_to_established_link_is_forwarded_not_echoed() {
    let mut s = SessionInner::new(0, 1, 0, 0, 0);
    let (slot, out) = s.open_sender_link("a".to_string(), "l".to_string());
    let mut reply = match out.frame {
        Frame::Attach(a) => a,
        _ => panic!("expected an attach frame"),
    };
    reply.handle = 3;
    s.handle_frame(Frame::Attach(reply));

    let mut f = flow(Some(1), 0);
    f.handle = Some(slot as u32);
    f.echo = true;
    let e = s.handle_frame(Frame::Flow(f));
    assert_eq!(e.link_flow, Some(slot));
    assert!(e.frames.is_empty());
}

#[test]
fn detach_and_unknown_frames_are_ignored() {
    let mut s = SessionInner::new(0, 1, 2, 0, 0);
    let e = s.handle_frame(Frame::Detach(amqp_session::frames::Detach {
        handle: 0,
        closed: true,
    }));
    assert!(e.frames.is_empty());
    assert!(e.resolved_link.is_none());
    assert!(e.settlements.is_empty());
    let e = s.handle_frame(Frame::Other);
    assert!(e.frames.is_empty());
    assert_eq!(s.outgoing_window, 2);
    assert_eq!(s.next_outgoing_id, 1);
}

#[test]
fn send_flow_advertises_current_windows() {
    let s = SessionInner::new(0, 8, 4, 2, 50);
    let out = s.send_flow();
    assert_eq!(out.channel, 8);
    match out.frame {
        Frame::Flow(f) => {
            assert_eq!(f.next_incoming_id, Some(2));
            assert_eq!(f.incoming_window, 50);
            assert_eq!(f.next_outgoing_id, 1);
            assert_eq!(f.outgoing_window, 4);
        }
        _ => panic!("expected a flow frame"),
    }
}

#[test]
fn link_state_reports_opening() {
    assert!(LinkState::Opening.is_opening());
    let established = LinkState::Established(amqp_session::links::SenderLinkState {
        remote_handle: 5,
    });
    assert!(!established.is_opening());
}

#[test]
fn message_serialize_hands_back_the_exact_bytes() {
    let m = msg(b"bytes on the wire");
    assert_eq!(m.serialize(), b"bytes on the wire".to_vec());
}

#[test]
fn delivery_tags_differ_between_transfers() {
    let mut s = SessionInner::new(0, 1, 2, 0, 0);
    let a = s.send_transfer(1, msg(b"a"), 1).expect("credit available");
    let b = s.send_transfer(1, msg(b"b"), 2).expect("credit available");
    let tag = |f: &Frame| match f {
        Frame::Transfer(t) => t.delivery_tag.clone().expect("fresh tag"),
        _ => panic!("expected a transfer frame"),
    };
    assert_ne!(tag(&a.frame), tag(&b.frame));
}

#[test]
fn flow_granting_no_credit_sends_nothing_and_keeps_order() {
    let mut s = SessionInner::new(0, 1, 0, 0, 0);
    assert!(s.send_transfer(1, msg(b"t1"), 1).is_none());
    assert!(s.send_transfer(1, msg(b"t2"), 2).is_none());
    let e = s.handle_frame(Frame::Flow(flow(Some(1), 0)));
    assert!(e.frames.is_empty());
    assert_eq!(s.pending_transfers.len(), 2);

    let e = s.handle_frame(Frame::Flow(flow(Some(1), 5)));
    assert_eq!(e.frames.len(), 2);
    assert_eq!(e.frames[0].payload, b"t1".to_vec());
    assert_eq!(e.frames[1].payload, b"t2".to_vec());
    assert_eq!(s.pending_transfers.len(), 0);
}

#[test]
fn distinct_links_get_distinct_slots() {
    let mut s = SessionInner::new(0, 1, 0, 0, 0);
    let (slot1, _) = s.open_sender_link("a".to_string(), "l1".to_string());
    let (slot2, _) = s.open_sender_link("a".to_string(), "l2".to_string());
    assert_ne!(slot1, slot2);
    assert_eq!(s.pending_links.len(), 2);
}
